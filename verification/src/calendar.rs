//! Dates.
use vstd::prelude::*;

use crate::text::padded_of;
#[allow(unused_imports)]
use crate::text::padded;

verus! {

/// Whether a year has a 29th of February.
pub open spec fn is_leap(year: int) -> bool {
    year % 4 == 0 && (year % 100 != 0 || year % 400 == 0)
}

/// How many days a month has.
pub open spec fn month_length(year: int, month: int) -> int {
    if month == 2 {
        if is_leap(year) {
            29
        } else {
            28
        }
    } else if month == 4 || month == 6 || month == 9 || month == 11 {
        30
    } else {
        31
    }
}

/// How many days of a year come before a month.
pub open spec fn days_before_month(year: int, month: int) -> int
    decreases month,
{
    if month <= 1 {
        0
    } else {
        days_before_month(year, month - 1) + month_length(year, month - 1)
    }
}

/// How many days come before a year, from 1970 on.
pub open spec fn days_before_year(year: int) -> int
    decreases year,
{
    if year <= 1970 {
        0
    } else {
        days_before_year(year - 1) + (if is_leap(year - 1) {
            366int
        } else {
            365
        })
    }
}

/// Whether there is such a day in the calendar.
pub open spec fn is_date(year: int, month: int, day: int) -> bool {
    1970 <= year && 1 <= month <= 12 && 1 <= day <= month_length(year, month)
}

/// How many days come before a day of the calendar, from 1970 on.
pub open spec fn days_before(year: int, month: int, day: int) -> int {
    days_before_year(year) + days_before_month(year, month) + day - 1
}

/// How many days come before the first of March of a year, from the first of
/// March of year 0 on.
spec fn march_days(year: int) -> int {
    365 * year + year / 4 - year / 100 + year / 400
}

proof fn lemma_march_step(year: int)
    requires
        year >= 1,
    ensures
        march_days(year) - march_days(year - 1) == (if is_leap(year) {
            366int
        } else {
            365
        }),
{
}

proof fn lemma_days_before_year(year: int)
    requires
        year >= 1970,
    ensures
        days_before_year(year) == march_days(year - 1) + 306 - 719468,
    decreases year,
{
    if year > 1970 {
        lemma_days_before_year(year - 1);
        lemma_march_step(year - 1);
    }
}

proof fn lemma_months(year: int)
    ensures
        days_before_month(year, 1) == 0,
        days_before_month(year, 2) == 31,
        days_before_month(year, 3) == 31 + month_length(year, 2),
        days_before_month(year, 4) == 62 + month_length(year, 2),
        days_before_month(year, 5) == 92 + month_length(year, 2),
        days_before_month(year, 6) == 123 + month_length(year, 2),
        days_before_month(year, 7) == 153 + month_length(year, 2),
        days_before_month(year, 8) == 184 + month_length(year, 2),
        days_before_month(year, 9) == 215 + month_length(year, 2),
        days_before_month(year, 10) == 245 + month_length(year, 2),
        days_before_month(year, 11) == 276 + month_length(year, 2),
        days_before_month(year, 12) == 306 + month_length(year, 2),
{
    reveal_with_fuel(days_before_month, 13);
}

/// The year of the four hundred that a day falls in.
proof fn lemma_year_of_era(doe: int, yoe: int)
    requires
        0 <= doe < 146097,
        yoe == (doe - doe / 1460 + doe / 36524 - doe / 146096) / 365,
    ensures
        0 <= yoe < 400,
        365 * yoe + yoe / 4 - yoe / 100 <= doe,
        doe < 365 * (yoe + 1) + (yoe + 1) / 4 - (yoe + 1) / 100 + (yoe + 1) / 400,
{
    let c = doe / 36524;
    assert(0 <= c <= 4);
    if c == 4 {
        assert(doe == 146096);
    } else if c == 3 {
    } else if c == 2 {
    } else if c == 1 {
    } else {
    }
}

/// How many days come before a month, from March on.
spec fn march_based(month: int) -> int {
    (153 * month + 2) / 5
}

proof fn lemma_month_of_year(doy: int, mp: int)
    requires
        0 <= doy < 366,
        mp == (5 * doy + 2) / 153,
    ensures
        0 <= mp < 12,
        march_based(mp) <= doy,
        mp < 11 ==> doy < march_based(mp + 1),
{
}

/// A day of the year that begins in March is a day of the calendar.
proof fn lemma_date(y: int, doy: int, mp: int)
    requires
        1969 <= y,
        y == 1969 ==> doy >= 306,
        0 <= doy < march_days(y + 1) - march_days(y),
        mp == (5 * doy + 2) / 153,
    ensures
        ({
            let m = if mp < 10 {
                mp + 3
            } else {
                mp - 9
            };
            let year = if m <= 2 {
                y + 1
            } else {
                y
            };
            let d = doy - march_based(mp) + 1;
            is_date(year, m, d) && days_before(year, m, d) == march_days(y) + doy - 719468
        }),
{
    lemma_march_step(y + 1);
    lemma_march_step(y);
    lemma_month_of_year(doy, mp);
    lemma_months(y);
    lemma_months(y + 1);
    lemma_days_before_year(y + 1);
    if y >= 1970 {
        lemma_days_before_year(y);
    }
    if mp == 0 {
    } else if mp == 1 {
    } else if mp == 2 {
    } else if mp == 3 {
    } else if mp == 4 {
    } else if mp == 5 {
    } else if mp == 6 {
    } else if mp == 7 {
    } else if mp == 8 {
    } else if mp == 9 {
    } else if mp == 10 {
    } else {
    }
}

/// The year, the month and the day that come `days` days after the first of
/// January 1970.
pub fn days_to_ymd(days: u64) -> (date: (u64, u64, u64))
    requires
        days <= u64::MAX - 719468,
    ensures
        is_date(date.0 as int, date.1 as int, date.2 as int),
        days_before(date.0 as int, date.1 as int, date.2 as int) == days,
{
    let z: u64 = days + 719468;
    let era: u64 = z / 146097;
    let doe: u64 = z - era * 146097;
    let yoe: u64 = (doe - doe / 1460 + doe / 36524 - doe / 146096) / 365;
    proof {
        lemma_year_of_era(doe as int, yoe as int);
    }
    let y: u64 = yoe + era * 400;
    let doy: u64 = doe - (365 * yoe + yoe / 4 - yoe / 100);
    proof {
        lemma_march_era(era as int, yoe as int);
        lemma_march_step(y as int + 1);
        assert(march_days(y as int) + doy == z);
        lemma_first_year(y as int, doy as int);
        lemma_month_of_year(doy as int, (5 * doy + 2) / 153);
        lemma_date(y as int, doy as int, (5 * doy + 2) / 153);
    }
    let mp: u64 = (5 * doy + 2) / 153;
    let d: u64 = doy - (153 * mp + 2) / 5 + 1;
    let m: u64 = if mp < 10 {
        mp + 3
    } else {
        mp - 9
    };
    let year: u64 = if m <= 2 {
        y + 1
    } else {
        y
    };
    (year, m, d)
}

proof fn lemma_march_era(era: int, yoe: int)
    requires
        0 <= yoe < 400,
        0 <= era,
    ensures
        march_days(yoe + era * 400) == era * 146097 + 365 * yoe + yoe / 4 - yoe / 100,
        march_days(yoe + 1 + era * 400) == era * 146097 + 365 * (yoe + 1) + (yoe + 1) / 4 - (yoe
            + 1) / 100 + (yoe + 1) / 400,
{
}

proof fn lemma_march_grows(a: int, b: int)
    requires
        0 <= a <= b,
    ensures
        march_days(a) + 365 * (b - a) <= march_days(b),
    decreases b - a,
{
    if a < b {
        lemma_march_grows(a, b - 1);
        lemma_march_step(b);
    }
}

/// A day from 1970 on falls into no year before that.
proof fn lemma_first_year(y: int, doy: int)
    requires
        0 <= y,
        0 <= doy < march_days(y + 1) - march_days(y),
        march_days(y) + doy >= 719468,
    ensures
        y >= 1969,
        y == 1969 ==> doy >= 306,
{
    assert(march_days(1969) == 719162);
    if y < 1969 {
        lemma_march_grows(y + 1, 1969);
    }
}

proof fn lemma_days_grow(a: int, b: int)
    requires
        1970 <= a <= b,
    ensures
        days_before_year(a) + 365 * (b - a) <= days_before_year(b),
        a < b ==> days_before_year(a) + (if is_leap(a) {
            366int
        } else {
            365
        }) <= days_before_year(b),
    decreases b - a,
{
    if a < b {
        if a + 1 < b {
            lemma_days_grow(a, b - 1);
        }
    }
}

proof fn lemma_month_order(year: int, a: int, b: int)
    requires
        1 <= a < b <= 13,
    ensures
        days_before_month(year, a) + month_length(year, a) <= days_before_month(year, b),
    decreases b - a,
{
    if a + 1 < b {
        lemma_month_order(year, a, b - 1);
    }
}

/// Two days of the calendar that as many days come before are the same day.
pub proof fn a_day_has_one_date(
    year: int,
    month: int,
    day: int,
    other_year: int,
    other_month: int,
    other_day: int,
)
    requires
        is_date(year, month, day),
        is_date(other_year, other_month, other_day),
        days_before(year, month, day) == days_before(other_year, other_month, other_day),
    ensures
        year == other_year,
        month == other_month,
        day == other_day,
{
    lemma_months(year);
    lemma_months(other_year);
    if month < 12 {
        lemma_month_order(year, month, 12);
    }
    if other_month < 12 {
        lemma_month_order(other_year, other_month, 12);
    }
    if year < other_year {
        lemma_days_grow(year, other_year);
    } else if other_year < year {
        lemma_days_grow(other_year, year);
    } else if month < other_month {
        lemma_month_order(year, month, other_month);
    } else if other_month < month {
        lemma_month_order(year, other_month, month);
    }
}

/// A moment as `YYYYMMDDThhmmssZ`.
pub open spec fn is_timestamp(secs: nat, text: Seq<char>) -> bool {
    exists|year: nat, month: nat, day: nat|
        is_date(year as int, month as int, day as int) && days_before(
            year as int,
            month as int,
            day as int,
        ) == secs / 86400 && text == #[trigger] timestamp(year, month, day, secs % 86400)
}

/// A day and the seconds since its beginning as `YYYYMMDDThhmmssZ`.
pub open spec fn timestamp(year: nat, month: nat, day: nat, of_day: nat) -> Seq<char> {
    padded(year, 4) + padded(month, 2) + padded(day, 2) + "T"@ + padded(of_day / 3600, 2) + padded(
        of_day % 3600 / 60,
        2,
    ) + padded(of_day % 60, 2) + "Z"@
}

/// The moment `secs` seconds after the beginning of 1970, as `YYYYMMDDThhmmssZ`.
pub open spec fn timestamp_of(secs: nat) -> Seq<char> {
    choose|text: Seq<char>| is_timestamp(secs, text)
}

/// A moment is written in one way.
pub proof fn a_moment_has_one_timestamp(secs: nat, text: Seq<char>)
    requires
        is_timestamp(secs, text),
    ensures
        timestamp_of(secs) == text,
{
    let other = timestamp_of(secs);
    assert(is_timestamp(secs, other));
    let (y, m, d) = choose|year: nat, month: nat, day: nat|
        is_date(year as int, month as int, day as int) && days_before(
            year as int,
            month as int,
            day as int,
        ) == secs / 86400 && text == #[trigger] timestamp(year, month, day, secs % 86400);
    let (oy, om, od) = choose|year: nat, month: nat, day: nat|
        is_date(year as int, month as int, day as int) && days_before(
            year as int,
            month as int,
            day as int,
        ) == secs / 86400 && other == #[trigger] timestamp(year, month, day, secs % 86400);
    a_day_has_one_date(y as int, m as int, d as int, oy as int, om as int, od as int);
}

/// The moment `secs` seconds after the beginning of 1970, as `YYYYMMDDThhmmssZ`.
pub fn format_datetime(secs: u64) -> (text: String)
    ensures
        is_timestamp(secs as nat, text@),
        text@ == timestamp_of(secs as nat),
        text@.len() >= 16,
{
    let days: u64 = secs / 86400;
    let of_day: u64 = secs % 86400;
    let (year, month, day) = days_to_ymd(days);
    let mut text = padded_of(year, 4);
    text.append(padded_of(month, 2).as_str());
    text.append(padded_of(day, 2).as_str());
    text.append("T");
    text.append(padded_of(of_day / 3600, 2).as_str());
    text.append(padded_of(of_day % 3600 / 60, 2).as_str());
    text.append(padded_of(of_day % 60, 2).as_str());
    text.append("Z");
    proof {
        reveal_strlit("T");
        reveal_strlit("Z");
        assert(text@ == timestamp(year as nat, month as nat, day as nat, of_day as nat));
        a_moment_has_one_timestamp(secs as nat, text@);
    }
    text
}

} // verus!
