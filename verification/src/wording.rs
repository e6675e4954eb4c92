//! What holds of the handling of texts.
use vstd::prelude::*;

#[allow(unused_imports)]
use crate::text::{
    after_prefix, around_first, ascii_lower_text, before_suffix, begins_with, decimal, digits_value,
    finishes_with, is_digit, is_space, joined, last_piece, lemma_pieces_not_empty, number_u32,
    pieces, trimmed, trimmed_end, trimmed_start, without_endings, without_trailing,
};

verus! {

/// Whether every character is white space.
pub open spec fn is_white(s: Seq<char>) -> bool {
    forall|i: int| 0 <= i < s.len() ==> is_space(#[trigger] s[i])
}

proof fn lemma_end(s: Seq<char>)
    ensures
        trimmed_end(s).len() <= s.len(),
        trimmed_end(s) == s.take(trimmed_end(s).len() as int),
        is_white(s.skip(trimmed_end(s).len() as int)),
        trimmed_end(s).len() > 0 ==> !is_space(trimmed_end(s).last()),
    decreases s.len(),
{
    if s.len() > 0 && is_space(s.last()) {
        let shorter = s.drop_last();
        lemma_end(shorter);
        let n = trimmed_end(s).len() as int;
        assert(s.take(n) =~= shorter.take(n));
        let rest = s.skip(n);
        assert forall|i: int| 0 <= i < rest.len() implies is_space(#[trigger] rest[i]) by {
            if i < rest.len() - 1 {
                assert(rest[i] == shorter.skip(n)[i]);
            }
        }
    } else {
        assert(s.take(s.len() as int) =~= s);
    }
}

proof fn lemma_start(s: Seq<char>)
    ensures
        trimmed_start(s).len() <= s.len(),
        trimmed_start(s) == s.skip(s.len() - trimmed_start(s).len()),
        is_white(s.take(s.len() - trimmed_start(s).len())),
        trimmed_start(s).len() > 0 ==> !is_space(trimmed_start(s)[0]),
    decreases s.len(),
{
    if s.len() > 0 && is_space(s[0]) {
        let shorter = s.drop_first();
        lemma_start(shorter);
        let n = s.len() - trimmed_start(s).len();
        assert(s.skip(n) =~= shorter.skip(n - 1));
        let before = s.take(n);
        assert forall|i: int| 0 <= i < before.len() implies is_space(#[trigger] before[i]) by {
            if i > 0 {
                assert(before[i] == shorter.take(n - 1)[i - 1]);
            }
        }
    } else {
        assert(s.skip(0) =~= s);
    }
}

/// A text without blanks around it is the text between white space, and neither
/// begins nor ends with any.
pub proof fn trimming_takes_the_white_space_around(s: Seq<char>)
    ensures
        exists|from: int, to: int|
            0 <= from <= to <= s.len() && #[trigger] s.subrange(from, to) == trimmed(s) && is_white(
                s.take(from),
            ) && is_white(s.skip(to)),
        trimmed(s).len() > 0 ==> !is_space(trimmed(s)[0]) && !is_space(trimmed(s).last()),
        is_white(s) ==> trimmed(s).len() == 0,
{
    lemma_end(s);
    let kept = trimmed_end(s);
    lemma_start(kept);
    let to = kept.len() as int;
    let from = to - trimmed(s).len();
    assert(s.subrange(from, to) =~= trimmed(s));
    assert(s.take(from) =~= kept.take(from));
    if is_white(s) && trimmed(s).len() > 0 {
        assert(trimmed(s)[0] == s[from]);
    }
    if trimmed(s).len() > 0 {
        assert(trimmed(s).last() == kept.last());
    }
}

/// A number that was written in digits is read as that number.
pub proof fn a_written_number_is_read_back(n: u32)
    ensures
        number_u32(decimal(n as nat)) == Some(n),
{
    lemma_decimal(n as nat);
    assert(is_digit(decimal(n as nat)[0]));
}

/// The digits of a number write it.
pub(crate) proof fn lemma_decimal(n: nat)
    ensures
        decimal(n).len() > 0,
        digits_value(decimal(n)) == n,
        forall|i: int| 0 <= i < decimal(n).len() ==> is_digit(#[trigger] decimal(n)[i]),
    decreases n,
{
    if n < 10 {
        assert(decimal(n).drop_last() =~= Seq::empty());
        assert(digits_value(Seq::empty()) == 0);
        assert(decimal(n).last() as u32 - '0' as u32 == n);
    } else {
        lemma_decimal(n / 10);
        assert(decimal(n).drop_last() =~= decimal(n / 10));
        assert(decimal(n).last() as u32 - '0' as u32 == n % 10);
    }
}

/// The pieces of two texts with a separator between them are the pieces of the one
/// and then those of the other.
pub proof fn a_separator_parts_the_pieces(a: Seq<char>, c: char, b: Seq<char>)
    ensures
        pieces(a.push(c) + b, c) == pieces(a, c) + pieces(b, c),
    decreases b.len(),
{
    let whole = a.push(c) + b;
    lemma_pieces_not_empty(a, c);
    if b.len() == 0 {
        assert(whole =~= a.push(c));
        assert(whole.drop_last() =~= a);
        assert(pieces(whole, c) =~= pieces(a, c) + pieces(b, c));
    } else {
        assert(whole.drop_last() =~= a.push(c) + b.drop_last());
        a_separator_parts_the_pieces(a, c, b.drop_last());
        lemma_pieces_not_empty(b.drop_last(), c);
        assert(pieces(whole, c) =~= pieces(a, c) + pieces(b, c));
    }
}

/// A text without a separator is one piece.
pub proof fn a_text_without_separators_is_one_piece(s: Seq<char>, c: char)
    requires
        !s.contains(c),
    ensures
        pieces(s, c) == seq![s],
    decreases s.len(),
{
    if s.len() == 0 {
        assert(s =~= Seq::empty());
    } else {
        let shorter = s.drop_last();
        assert(s.contains(s[s.len() - 1]));
        if shorter.contains(c) {
            let i = choose|i: int| 0 <= i < shorter.len() && shorter[i] == c;
            assert(s[i] == c);
        }
        a_text_without_separators_is_one_piece(shorter, c);
        assert(shorter.push(s.last()) =~= s);
        assert(pieces(s, c) =~= seq![s]);
    }
}

/// What stands behind the last separator is the last piece.
pub proof fn the_last_piece_stands_behind_the_last_separator(a: Seq<char>, c: char, b: Seq<char>)
    requires
        !b.contains(c),
    ensures
        last_piece(a.push(c) + b, c) == b,
        last_piece(b, c) == b,
{
    a_separator_parts_the_pieces(a, c, b);
    a_text_without_separators_is_one_piece(b, c);
    assert((pieces(a, c) + pieces(b, c)).last() == b);
}

proof fn lemma_joined_push(parts: Seq<Seq<char>>, last: Seq<char>, separator: Seq<char>)
    requires
        parts.len() > 0,
    ensures
        joined(parts.push(last), separator) == joined(parts, separator) + separator + last,
{
    assert(parts.push(last).drop_last() =~= parts);
}

/// The pieces of a text, joined by the separator, are the text.
pub proof fn joined_pieces_are_the_text(s: Seq<char>, c: char)
    ensures
        joined(pieces(s, c), seq![c]) == s,
    decreases s.len(),
{
    if s.len() == 0 {
        assert(pieces(s, c)[0] =~= s);
    } else {
        let shorter = s.drop_last();
        joined_pieces_are_the_text(shorter, c);
        lemma_pieces_not_empty(shorter, c);
        let before = pieces(shorter, c);
        if s.last() == c {
            lemma_joined_push(before, Seq::empty(), seq![c]);
            assert(shorter + seq![c] + Seq::<char>::empty() =~= s);
        } else {
            let longer = before.last().push(s.last());
            if before.len() == 1 {
                assert(before.drop_last().push(longer) =~= seq![longer]);
                assert(longer =~= s);
            } else {
                lemma_joined_push(before.drop_last(), before.last(), seq![c]);
                assert(before.drop_last().push(before.last()) =~= before);
                lemma_joined_push(before.drop_last(), longer, seq![c]);
                assert(joined(before.drop_last(), seq![c]) + seq![c] + longer =~= shorter.push(
                    s.last(),
                ));
                assert(shorter.push(s.last()) =~= s);
            }
        }
    }
}

/// What is left without a character at the end does not end with it, and what was
/// taken is that character and nothing else.
pub proof fn only_the_trailing_character_is_taken(s: Seq<char>, c: char)
    ensures
        without_trailing(s, c).len() <= s.len(),
        without_trailing(s, c) == s.take(without_trailing(s, c).len() as int),
        without_trailing(s, c).len() > 0 ==> without_trailing(s, c).last() != c,
        forall|i: int| without_trailing(s, c).len() <= i < s.len() ==> #[trigger] s[i] == c,
    decreases s.len(),
{
    if s.len() > 0 && s.last() == c {
        let shorter = s.drop_last();
        only_the_trailing_character_is_taken(shorter, c);
        let n = without_trailing(s, c).len() as int;
        assert(s.take(n) =~= shorter.take(n));
        assert forall|i: int| n <= i < s.len() implies #[trigger] s[i] == c by {
            if i < s.len() - 1 {
                assert(s[i] == shorter[i]);
            }
        }
    } else {
        assert(s.take(s.len() as int) =~= s);
    }
}

/// What stands before and behind the first of a character, together with it, is the
/// text, and the character does not stand before it.
pub proof fn the_first_character_parts_a_text(s: Seq<char>, c: char)
    ensures
        match around_first(s, c) {
            Some((before, after)) => before.push(c) + after == s && !before.contains(c),
            None => !s.contains(c),
        },
{
    if s.contains(c) {
        s.index_of_first_ensures(c);
        let at = s.index_of_first(c)->0;
        assert(s.take(at).push(c) + s.skip(at + 1) =~= s);
        if s.take(at).contains(c) {
            let i = choose|i: int| 0 <= i < at && s.take(at)[i] == c;
            assert(s[i] == c);
        }
    }
}

/// A beginning or an ending that was put to a text is taken from it again.
pub proof fn what_was_put_to_a_text_is_taken_again(s: Seq<char>, pattern: Seq<char>)
    ensures
        begins_with(pattern + s, pattern),
        finishes_with(s + pattern, pattern),
        after_prefix(pattern + s, pattern) == Some(s),
        before_suffix(s + pattern, pattern) == Some(s),
{
    let n = pattern.len() as int;
    let m = s.len() as int;
    assert((pattern + s).subrange(0, n) =~= pattern);
    assert((pattern + s).skip(n) =~= s);
    assert((s + pattern).subrange(m, m + n) =~= pattern);
    assert((s + pattern).take(m) =~= s);
}

/// An ending that was put to a text which does not end so is the one that is taken.
pub proof fn an_ending_is_taken_from_a_text(s: Seq<char>, pattern: Seq<char>)
    requires
        pattern.len() > 0,
        !finishes_with(s, pattern),
    ensures
        without_endings(s, pattern) == s,
        without_endings(s + pattern, pattern) == s,
{
    what_was_put_to_a_text_is_taken_again(s, pattern);
    let n = s.len() as int;
    assert((s + pattern).take(n) =~= s);
    assert(without_endings((s + pattern).take(n), pattern) == s);
}

/// Capitals of ASCII become small, and no other character changes.
pub proof fn only_ascii_capitals_become_small(s: Seq<char>, i: int)
    requires
        0 <= i < s.len(),
    ensures
        ascii_lower_text(s).len() == s.len(),
        'A' <= s[i] <= 'Z' ==> ascii_lower_text(s)[i] as u32 == s[i] as u32 + 32,
        !('A' <= s[i] <= 'Z') ==> ascii_lower_text(s)[i] == s[i],
{
}

/// Texts are joined in order, with the separator between them and nowhere else.
pub proof fn texts_are_joined_in_order(a: Seq<char>, b: Seq<char>, separator: Seq<char>)
    ensures
        joined(Seq::empty(), separator) == Seq::<char>::empty(),
        joined(seq![a], separator) == a,
        joined(seq![a, b], separator) == a + separator + b,
{
    reveal_with_fuel(joined, 3);
    assert(seq![a, b].drop_last() =~= seq![a]);
}

} // verus!
