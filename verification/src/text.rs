//! Text as sequences of characters: trimming, splitting, searching, replacing,
//! decimal numbers, and the order of strings.
use vstd::prelude::*;
#[allow(unused_imports)]
use vstd::utf8::{decode_utf8, encode_utf8, is_ascii_chars, valid_utf8};

verus! {

/// `std::string::String::push`: appends one character.
pub assume_specification[ std::string::String::push ](text: &mut std::string::String, c: char)
    ensures
        final(text)@ == old(text)@.push(c),
;

/// The characters that have the Unicode property White_Space.
pub open spec fn is_space(c: char) -> bool {
    let u = c as u32;
    ||| 0x09 <= u <= 0x0d
    ||| u == 0x20
    ||| u == 0x85
    ||| u == 0xa0
    ||| u == 0x1680
    ||| 0x2000 <= u <= 0x200a
    ||| u == 0x2028
    ||| u == 0x2029
    ||| u == 0x202f
    ||| u == 0x205f
    ||| u == 0x3000
}

/// `char::is_whitespace`: whether the character has the property White_Space.
pub assume_specification[ char::is_whitespace ](c: char) -> (yes: bool)
    ensures
        yes == is_space(c),
;

/// What `str::from_utf8` reads out of `bytes`.
pub open spec fn utf8_text(bytes: Seq<u8>) -> Option<Seq<char>> {
    if valid_utf8(bytes) {
        Some(decode_utf8(bytes))
    } else {
        None
    }
}

/// `std::str::from_utf8`: the text that the bytes encode, or nothing where they
/// are not UTF-8.
#[verifier::external_body]
pub(crate) fn text_from_utf8(bytes: &[u8]) -> (out: Option<String>)
    ensures
        out.deep_view() == utf8_text(bytes@),
{
    std::str::from_utf8(bytes).ok().map(|text| text.to_owned())
}

/// The text that `String::from_utf8_lossy` makes of bytes.
pub uninterp spec fn lossy_text(bytes: Seq<u8>) -> Seq<char>;

/// `std::string::String::from_utf8_lossy`: the text of the bytes, with a
/// replacement character for each sequence that is not UTF-8. Bytes that are
/// UTF-8 come out as the text that they encode; what stands for the others is
/// left to the name.
#[verifier::external_body]
pub(crate) fn text_from_utf8_lossy(bytes: &[u8]) -> (out: String)
    ensures
        out@ == lossy_text(bytes@),
        valid_utf8(bytes@) ==> out@ == decode_utf8(bytes@),
{
    String::from_utf8_lossy(bytes).into_owned()
}

/// The text that `{:?}` writes for a string.
pub uninterp spec fn debug_text(text: Seq<char>) -> Seq<char>;

/// `format!` with `{:?}` on a string: the string in double quotes, with its
/// special characters escaped.
#[verifier::external_body]
pub(crate) fn debug_of(text: &str) -> (out: String)
    ensures
        out@ == debug_text(text@),
{
    format!("{:?}", text)
}

/// The character with ASCII capitals made small.
pub open spec fn ascii_lower(c: char) -> char {
    if 'A' <= c && c <= 'Z' {
        ((c as u32) + 32) as char
    } else {
        c
    }
}

/// The text with ASCII capitals made small.
pub open spec fn ascii_lower_text(s: Seq<char>) -> Seq<char> {
    Seq::new(s.len(), |i: int| ascii_lower(s[i]))
}

/// The text that `str::to_lowercase` makes of a text.
pub uninterp spec fn lowercase_text(text: Seq<char>) -> Seq<char>;

/// `str::to_lowercase`: the Unicode lowercase of the text. Of ASCII text that is
/// the text with its capitals made small.
#[verifier::external_body]
pub(crate) fn lowercase_of(text: &str) -> (out: String)
    ensures
        out@ == lowercase_text(text@),
        is_ascii_chars(text@) ==> out@ == ascii_lower_text(text@),
{
    text.to_lowercase()
}

/// Whether `char::is_alphanumeric` holds of a character.
pub uninterp spec fn alphanumeric(c: char) -> bool;

/// An ASCII letter or digit.
pub open spec fn ascii_alphanumeric(c: char) -> bool {
    ||| 'a' <= c && c <= 'z'
    ||| 'A' <= c && c <= 'Z'
    ||| '0' <= c && c <= '9'
}

/// `char::is_alphanumeric`: a letter or a number, by Unicode. Of ASCII
/// characters those are the letters and the digits.
#[verifier::external_body]
pub(crate) fn is_alphanumeric(c: char) -> (yes: bool)
    ensures
        yes == alphanumeric(c),
        (c as u32) < 128 ==> yes == ascii_alphanumeric(c),
{
    c.is_alphanumeric()
}

/// The characters of `s`, in order.
pub fn chars_of(s: &str) -> (out: Vec<char>)
    ensures
        out@ == s@,
{
    let mut out: Vec<char> = Vec::new();
    for c in it: s.chars()
        invariant
            out@ == it.seq().take(it.index() as int),
            it.seq() == s@,
    {
        out.push(c);
    }
    out
}

/// The text of a stretch of characters.
pub fn text_between(chars: &Vec<char>, from: usize, to: usize) -> (out: String)
    requires
        from <= to <= chars@.len(),
    ensures
        out@ == chars@.subrange(from as int, to as int),
{
    let mut out = String::new();
    let mut i = from;
    while i < to
        invariant
            from <= i <= to <= chars@.len(),
            out@ == chars@.subrange(from as int, i as int),
        decreases to - i,
    {
        out.push(chars[i]);
        i += 1;
        assert(chars@.subrange(from as int, i as int) == chars@.subrange(from as int, i - 1).push(
            chars@[i - 1],
        ));
    }
    out
}

/// The text of all the characters.
pub fn text_of(chars: &Vec<char>) -> (out: String)
    ensures
        out@ == chars@,
{
    let out = text_between(chars, 0, chars.len());
    assert(chars@.subrange(0, chars@.len() as int) == chars@);
    out
}

/// An owned copy of a text.
pub fn owned(s: &str) -> (out: String)
    ensures
        out@ == s@,
{
    s.to_owned()
}

/// The bytes of a text in UTF-8.
pub fn utf8_bytes(s: &str) -> (out: Vec<u8>)
    ensures
        out@ == encode_utf8(s@),
{
    let bytes = s.as_bytes();
    copy_bytes(bytes)
}

/// A copy of the bytes.
pub fn copy_bytes(bytes: &[u8]) -> (out: Vec<u8>)
    ensures
        out@ == bytes@,
{
    let mut out: Vec<u8> = Vec::new();
    for i in 0..bytes.len()
        invariant
            out@ == bytes@.take(i as int),
    {
        out.push(bytes[i]);
    }
    out
}

/// Whether two texts are the same.
pub fn same(a: &str, b: &str) -> (yes: bool)
    ensures
        yes == (a@ == b@),
{
    let x = chars_of(a);
    let y = chars_of(b);
    same_chars(&x, &y)
}

/// Whether two runs of characters are the same.
pub fn same_chars(x: &Vec<char>, y: &Vec<char>) -> (yes: bool)
    ensures
        yes == (x@ == y@),
{
    if x.len() != y.len() {
        return false;
    }
    for i in 0..x.len()
        invariant
            x@.len() == y@.len(),
            forall|k: int| 0 <= k < i ==> x@[k] == y@[k],
    {
        if x[i] != y[i] {
            return false;
        }
    }
    assert(x@ =~= y@);
    true
}

/// Two texts, one behind the other.
pub fn cat(a: &str, b: &str) -> (out: String)
    ensures
        out@ == a@ + b@,
{
    let mut out = owned(a);
    out.append(b);
    out
}

/// Three texts, one behind the other.
pub fn cat3(a: &str, b: &str, c: &str) -> (out: String)
    ensures
        out@ == a@ + b@ + c@,
{
    let mut out = cat(a, b);
    out.append(c);
    out
}

/// A copy of a text, where there is one.
pub fn clone_option(text: &Option<String>) -> (out: Option<String>)
    ensures
        out.deep_view() == text.deep_view(),
{
    match text {
        Some(text) => Some(text.clone()),
        None => None,
    }
}

/// A copy of some texts.
pub fn clone_texts(texts: &Vec<String>) -> (out: Vec<String>)
    ensures
        out.deep_view() == texts.deep_view(),
{
    let mut out: Vec<String> = Vec::new();
    for i in 0..texts.len()
        invariant
            out@.len() == i,
            forall|k: int| 0 <= k < i ==> (#[trigger] out@[k])@ == texts@[k]@,
    {
        out.push(texts[i].clone());
    }
    assert(out.deep_view() =~= texts.deep_view());
    out
}

/// Whether a text is among some texts.
pub fn has_text(texts: &Vec<String>, text: &str) -> (yes: bool)
    ensures
        yes == texts.deep_view().contains(text@),
{
    let ghost all = texts.deep_view();
    for i in 0..texts.len()
        invariant
            all == texts.deep_view(),
            forall|j: int| 0 <= j < i ==> #[trigger] all[j] != text@,
    {
        assert(all[i as int] == texts@[i as int]@);
        if same(texts[i].as_str(), text) {
            return true;
        }
    }
    false
}

/// Whether `pattern` stands in `s` at position `at`.
pub open spec fn stands_at(s: Seq<char>, pattern: Seq<char>, at: int) -> bool {
    0 <= at && at + pattern.len() <= s.len() && s.subrange(at, at + pattern.len() as int)
        == pattern
}

/// Whether `pattern` stands somewhere in `s`.
pub open spec fn contains_text(s: Seq<char>, pattern: Seq<char>) -> bool {
    exists|at: int| stands_at(s, pattern, at)
}

/// Whether `s` begins with `pattern`.
pub open spec fn begins_with(s: Seq<char>, pattern: Seq<char>) -> bool {
    stands_at(s, pattern, 0)
}

/// Whether `s` ends with `pattern`.
pub open spec fn finishes_with(s: Seq<char>, pattern: Seq<char>) -> bool {
    stands_at(s, pattern, s.len() - pattern.len())
}

fn chars_stand_at(s: &Vec<char>, pattern: &Vec<char>, at: usize) -> (yes: bool)
    ensures
        yes == stands_at(s@, pattern@, at as int),
{
    if at > s.len() || pattern.len() > s.len() - at {
        return false;
    }
    let length = s.len();
    for i in 0..pattern.len()
        invariant
            length == s@.len(),
            at + pattern@.len() <= length,
            forall|k: int| 0 <= k < i ==> s@[at + k] == pattern@[k],
    {
        if s[at + i] != pattern[i] {
            proof {
                let part = s@.subrange(at as int, at + pattern@.len());
                assert(part[i as int] == s@[at + i]);
            }
            return false;
        }
    }
    assert(s@.subrange(at as int, at + pattern@.len()) =~= pattern@);
    true
}

/// Whether `s` begins with `pattern`.
pub fn starts_with(s: &str, pattern: &str) -> (yes: bool)
    ensures
        yes == begins_with(s@, pattern@),
{
    chars_stand_at(&chars_of(s), &chars_of(pattern), 0)
}

/// Whether `s` ends with `pattern`.
pub fn ends_with(s: &str, pattern: &str) -> (yes: bool)
    ensures
        yes == finishes_with(s@, pattern@),
{
    let chars = chars_of(s);
    let tail = chars_of(pattern);
    if tail.len() > chars.len() {
        return false;
    }
    chars_stand_at(&chars, &tail, chars.len() - tail.len())
}

/// Whether `pattern` stands somewhere in `s`.
pub fn contains(s: &str, pattern: &str) -> (yes: bool)
    ensures
        yes == contains_text(s@, pattern@),
{
    let chars = chars_of(s);
    let part = chars_of(pattern);
    for at in 0..chars.len()
        invariant
            chars@ == s@,
            part@ == pattern@,
            forall|k: int| 0 <= k < at ==> !stands_at(s@, pattern@, k),
    {
        if chars_stand_at(&chars, &part, at) {
            return true;
        }
    }
    let last = chars_stand_at(&chars, &part, chars.len());
    assert(forall|k: int| stands_at(s@, pattern@, k) ==> k <= s@.len());
    last
}

/// What is left of `s` after the beginning `pattern`, where it begins so.
pub open spec fn after_prefix(s: Seq<char>, pattern: Seq<char>) -> Option<Seq<char>> {
    if begins_with(s, pattern) {
        Some(s.skip(pattern.len() as int))
    } else {
        None
    }
}

/// What is left of `s` after the beginning `pattern`, where it begins so.
pub fn strip_prefix(s: &str, pattern: &str) -> (rest: Option<String>)
    ensures
        rest.deep_view() == after_prefix(s@, pattern@),
{
    let chars = chars_of(s);
    let part = chars_of(pattern);
    if chars_stand_at(&chars, &part, 0) {
        let rest = text_between(&chars, part.len(), chars.len());
        assert(rest@ == s@.skip(pattern@.len() as int));
        Some(rest)
    } else {
        None
    }
}

/// What is left of `s` before the ending `pattern`, where it ends so.
pub open spec fn before_suffix(s: Seq<char>, pattern: Seq<char>) -> Option<Seq<char>> {
    if finishes_with(s, pattern) {
        Some(s.take(s.len() - pattern.len()))
    } else {
        None
    }
}

/// What is left of `s` before the ending `pattern`, where it ends so.
pub fn strip_suffix(s: &str, pattern: &str) -> (rest: Option<String>)
    ensures
        rest.deep_view() == before_suffix(s@, pattern@),
{
    let chars = chars_of(s);
    let part = chars_of(pattern);
    if part.len() <= chars.len() && chars_stand_at(&chars, &part, chars.len() - part.len()) {
        let rest = text_between(&chars, 0, chars.len() - part.len());
        assert(rest@ == s@.take(s@.len() - pattern@.len()));
        Some(rest)
    } else {
        None
    }
}

/// `s` without the endings `pattern`, as many as there are.
pub open spec fn without_endings(s: Seq<char>, pattern: Seq<char>) -> Seq<char>
    decreases s.len(),
{
    if pattern.len() > 0 && finishes_with(s, pattern) {
        without_endings(s.take(s.len() - pattern.len()), pattern)
    } else {
        s
    }
}

/// `s` without the endings `pattern`, as many as there are.
pub fn trim_end_matches(s: &str, pattern: &str) -> (out: String)
    ensures
        out@ == without_endings(s@, pattern@),
    decreases s@.len(),
{
    if pattern.is_empty() {
        return owned(s);
    }
    match strip_suffix(s, pattern) {
        Some(rest) => trim_end_matches(rest.as_str(), pattern),
        None => owned(s),
    }
}

/// `s` without white space at its end.
pub open spec fn trimmed_end(s: Seq<char>) -> Seq<char>
    decreases s.len(),
{
    if s.len() > 0 && is_space(s.last()) {
        trimmed_end(s.drop_last())
    } else {
        s
    }
}

/// `s` without white space at its beginning.
pub open spec fn trimmed_start(s: Seq<char>) -> Seq<char>
    decreases s.len(),
{
    if s.len() > 0 && is_space(s[0]) {
        trimmed_start(s.drop_first())
    } else {
        s
    }
}

/// `s` without white space at its ends.
pub open spec fn trimmed(s: Seq<char>) -> Seq<char> {
    trimmed_start(trimmed_end(s))
}

/// `s` without white space at its end.
pub fn trim_end(s: &str) -> (out: String)
    ensures
        out@ == trimmed_end(s@),
{
    let chars = chars_of(s);
    let mut end = chars.len();
    assert(chars@.take(end as int) == chars@);
    while end > 0 && chars[end - 1].is_whitespace()
        invariant
            end <= chars@.len(),
            trimmed_end(chars@) == trimmed_end(chars@.take(end as int)),
        decreases end,
    {
        end -= 1;
        assert(chars@.take(end + 1).drop_last() == chars@.take(end as int));
    }
    let out = text_between(&chars, 0, end);
    assert(out@ == chars@.take(end as int));
    out
}

/// `s` without white space at its ends.
pub fn trim(s: &str) -> (out: String)
    ensures
        out@ == trimmed(s@),
{
    let ended = trim_end(s);
    let chars = chars_of(ended.as_str());
    let mut start: usize = 0;
    assert(chars@.skip(0) == chars@);
    while start < chars.len() && chars[start].is_whitespace()
        invariant
            start <= chars@.len(),
            trimmed_start(chars@) == trimmed_start(chars@.skip(start as int)),
        decreases chars@.len() - start,
    {
        start += 1;
        assert(chars@.skip(start - 1).drop_first() == chars@.skip(start as int));
    }
    let out = text_between(&chars, start, chars.len());
    assert(out@ == chars@.skip(start as int));
    out
}

/// Whether `s` holds nothing but white space.
pub fn is_blank(s: &str) -> (yes: bool)
    ensures
        yes == (trimmed(s@).len() == 0),
{
    trim(s).as_str().is_empty()
}

/// `s` without the character `c` at its end.
pub open spec fn without_trailing(s: Seq<char>, c: char) -> Seq<char>
    decreases s.len(),
{
    if s.len() > 0 && s.last() == c {
        without_trailing(s.drop_last(), c)
    } else {
        s
    }
}

/// `s` without the character `c` at its beginning.
pub open spec fn without_leading(s: Seq<char>, c: char) -> Seq<char>
    decreases s.len(),
{
    if s.len() > 0 && s[0] == c {
        without_leading(s.drop_first(), c)
    } else {
        s
    }
}

/// `s` without the character `c` at its end.
pub fn trim_end_char(s: &str, c: char) -> (out: String)
    ensures
        out@ == without_trailing(s@, c),
{
    let chars = chars_of(s);
    let mut end = chars.len();
    assert(chars@.take(end as int) == chars@);
    while end > 0 && chars[end - 1] == c
        invariant
            end <= chars@.len(),
            without_trailing(chars@, c) == without_trailing(chars@.take(end as int), c),
        decreases end,
    {
        end -= 1;
        assert(chars@.take(end + 1).drop_last() == chars@.take(end as int));
    }
    let out = text_between(&chars, 0, end);
    assert(out@ == chars@.take(end as int));
    out
}

/// `s` without the character `c` at its beginning.
pub fn trim_start_char(s: &str, c: char) -> (out: String)
    ensures
        out@ == without_leading(s@, c),
{
    let chars = chars_of(s);
    let mut start: usize = 0;
    assert(chars@.skip(0) == chars@);
    while start < chars.len() && chars[start] == c
        invariant
            start <= chars@.len(),
            without_leading(chars@, c) == without_leading(chars@.skip(start as int), c),
        decreases chars@.len() - start,
    {
        start += 1;
        assert(chars@.skip(start - 1).drop_first() == chars@.skip(start as int));
    }
    let out = text_between(&chars, start, chars.len());
    assert(out@ == chars@.skip(start as int));
    out
}

/// The pieces of `s` between the separators `c`.
pub open spec fn pieces(s: Seq<char>, c: char) -> Seq<Seq<char>>
    decreases s.len(),
{
    if s.len() == 0 {
        seq![Seq::empty()]
    } else {
        let before = pieces(s.drop_last(), c);
        if s.last() == c {
            before.push(Seq::empty())
        } else {
            before.drop_last().push(before.last().push(s.last()))
        }
    }
}

/// The pieces of `s` between the separators `c`.
pub fn split(s: &str, c: char) -> (out: Vec<String>)
    ensures
        out.deep_view() == pieces(s@, c),
        out@.len() > 0,
{
    let chars = chars_of(s);
    let mut out: Vec<String> = Vec::new();
    let mut current = String::new();
    assert(pieces(chars@.take(0), c) =~= seq![Seq::<char>::empty()]);
    assert(out.deep_view() =~= Seq::<Seq<char>>::empty());
    assert(out.deep_view().push(current@) =~= seq![Seq::<char>::empty()]);
    for i in 0..chars.len()
        invariant
            out.deep_view().push(current@) == pieces(chars@.take(i as int), c),
    {
        let ghost before = out.deep_view().push(current@);
        assert(chars@.take(i + 1).drop_last() == chars@.take(i as int));
        assert(before.drop_last() == out.deep_view());
        if chars[i] == c {
            let ghost earlier = out.deep_view();
            let done = current;
            out.push(done);
            current = String::new();
            assert(out.deep_view() =~= earlier.push(done@));
        } else {
            current.push(chars[i]);
        }
    }
    assert(chars@.take(chars@.len() as int) == chars@);
    let ghost earlier = out.deep_view();
    let done = current;
    out.push(done);
    assert(out.deep_view() =~= earlier.push(done@));
    out
}

/// There is always a piece.
pub(crate) proof fn lemma_pieces_not_empty(s: Seq<char>, c: char)
    ensures
        pieces(s, c).len() > 0,
    decreases s.len(),
{
    reveal_with_fuel(pieces, 2);
}

/// What stands behind the last `c` of `s`, or `s` where there is none.
pub open spec fn last_piece(s: Seq<char>, c: char) -> Seq<char> {
    pieces(s, c).last()
}

/// What stands behind the last `c` of `s`, or `s` where there is none.
pub fn after_last(s: &str, c: char) -> (out: String)
    ensures
        out@ == last_piece(s@, c),
{
    let parts = split(s, c);
    proof {
        lemma_pieces_not_empty(s@, c);
    }
    assert(parts.deep_view().len() == parts@.len());
    let last: usize = parts.len() - 1;
    assert(parts.deep_view()[last as int] == parts@[last as int]@);
    parts[last].clone()
}

/// What stands before and after the first `c` of `s`.
pub open spec fn around_first(s: Seq<char>, c: char) -> Option<(Seq<char>, Seq<char>)> {
    if s.contains(c) {
        let at = s.index_of_first(c)->0;
        Some((s.take(at), s.skip(at + 1)))
    } else {
        None
    }
}

/// What stands before and after the first `c` of `s`.
pub fn split_once(s: &str, c: char) -> (out: Option<(String, String)>)
    ensures
        out.deep_view() == around_first(s@, c),
{
    let chars = chars_of(s);
    for i in 0..chars.len()
        invariant
            chars@ == s@,
            forall|k: int| 0 <= k < i ==> chars@[k] != c,
    {
        if chars[i] == c {
            proof {
                assert(s@[i as int] == c);
                s@.index_of_first_ensures(c);
                assert(s@.index_of_first(c) == Some(i as int));
            }
            let before = text_between(&chars, 0, i);
            let after = text_between(&chars, i + 1, chars.len());
            assert(before@ == s@.take(i as int));
            assert(after@ == s@.skip(i + 1));
            return Some((before, after));
        }
    }
    None
}

/// What stands before and after the first `pattern` of `s`.
pub open spec fn around_text(s: Seq<char>, pattern: Seq<char>) -> Option<(Seq<char>, Seq<char>)> {
    if contains_text(s, pattern) {
        let at = first_place(s, pattern, 0);
        Some((s.take(at), s.skip(at + pattern.len())))
    } else {
        None
    }
}

/// The first position from `from` on at which `pattern` stands in `s`.
pub open spec fn first_place(s: Seq<char>, pattern: Seq<char>, from: int) -> int
    decreases s.len() - from,
{
    if from >= s.len() || stands_at(s, pattern, from) {
        from
    } else {
        first_place(s, pattern, from + 1)
    }
}

/// What stands before and after the first `pattern` of `s`.
pub fn split_once_text(s: &str, pattern: &str) -> (out: Option<(String, String)>)
    ensures
        out.deep_view() == around_text(s@, pattern@),
{
    let chars = chars_of(s);
    let part = chars_of(pattern);
    let mut at: usize = 0;
    while at < chars.len() && !chars_stand_at(&chars, &part, at)
        invariant
            at <= chars@.len(),
            chars@ == s@,
            part@ == pattern@,
            forall|k: int| 0 <= k < at ==> !stands_at(s@, pattern@, k),
            first_place(s@, pattern@, 0) == first_place(s@, pattern@, at as int),
        decreases chars@.len() - at,
    {
        at += 1;
    }
    if chars_stand_at(&chars, &part, at) {
        let before = text_between(&chars, 0, at);
        let after = text_between(&chars, at + part.len(), chars.len());
        assert(before@ == s@.take(at as int));
        assert(after@ == s@.skip(at + pattern@.len()));
        return Some((before, after));
    }
    assert(forall|k: int| stands_at(s@, pattern@, k) ==> k <= s@.len());
    None
}

/// The texts one after the other, with `separator` between them.
pub open spec fn joined(parts: Seq<Seq<char>>, separator: Seq<char>) -> Seq<char>
    decreases parts.len(),
{
    if parts.len() == 0 {
        Seq::empty()
    } else if parts.len() == 1 {
        parts[0]
    } else {
        joined(parts.drop_last(), separator) + separator + parts.last()
    }
}

/// The texts one after the other, with `separator` between them.
pub fn join(parts: &Vec<String>, separator: &str) -> (out: String)
    ensures
        out@ == joined(parts.deep_view(), separator@),
{
    let mut out = String::new();
    let ghost all = parts.deep_view();
    assert(all.take(0) =~= Seq::<Seq<char>>::empty());
    for i in 0..parts.len()
        invariant
            all == parts.deep_view(),
            out@ == joined(all.take(i as int), separator@),
    {
        assert(all.take(i + 1).drop_last() == all.take(i as int));
        if i > 0 {
            out.append(separator);
        }
        out.append(parts[i].as_str());
        assert(i == 0 ==> out@ =~= parts@[0]@);
    }
    assert(all.take(all.len() as int) == all);
    out
}

/// `s` with `pattern` replaced by `by`, from left to right.
pub open spec fn replaced(s: Seq<char>, pattern: Seq<char>, by: Seq<char>) -> Seq<char>
    decreases s.len(),
{
    if pattern.len() == 0 || s.len() < pattern.len() {
        s
    } else if begins_with(s, pattern) {
        by + replaced(s.skip(pattern.len() as int), pattern, by)
    } else {
        seq![s[0]] + replaced(s.drop_first(), pattern, by)
    }
}

/// `s` with `pattern`, which is not empty, replaced by `by`, from left to right.
pub fn replace(s: &str, pattern: &str, by: &str) -> (out: String)
    requires
        pattern@.len() > 0,
    ensures
        out@ == replaced(s@, pattern@, by@),
{
    let chars = chars_of(s);
    let part = chars_of(pattern);
    let mut out = String::new();
    let mut i: usize = 0;
    assert(s@.skip(0) == s@);
    while i < chars.len()
        invariant
            i <= chars@.len(),
            chars@ == s@,
            part@ == pattern@,
            pattern@.len() > 0,
            out@ + replaced(s@.skip(i as int), pattern@, by@) == replaced(s@, pattern@, by@),
        decreases chars@.len() - i,
    {
        let ghost rest = s@.skip(i as int);
        let here = chars_stand_at(&chars, &part, i);
        proof {
            if i + part@.len() <= s@.len() {
                assert(rest.subrange(0, part@.len() as int) == s@.subrange(
                    i as int,
                    i + part@.len(),
                ));
            }
        }
        if here {
            out.append(by);
            i += part.len();
            assert(rest.skip(pattern@.len() as int) == s@.skip(i as int));
        } else {
            out.push(chars[i]);
            i += 1;
            assert(rest.drop_first() == s@.skip(i as int));
            assert(rest == seq![rest[0]] + rest.drop_first());
        }
    }
    assert(s@.skip(i as int) =~= Seq::<char>::empty());
    out
}

/// Whether the character is an ASCII digit.
pub open spec fn is_digit(c: char) -> bool {
    '0' <= c && c <= '9'
}

/// Whether every character is an ASCII digit.
pub open spec fn all_digits(s: Seq<char>) -> bool {
    forall|i: int| 0 <= i < s.len() ==> is_digit(#[trigger] s[i])
}

/// Whether the character is an ASCII digit.
pub fn digit(c: char) -> (yes: bool)
    ensures
        yes == is_digit(c),
{
    '0' <= c && c <= '9'
}

/// Whether `s` is made of ASCII digits, at least one.
pub fn is_number(s: &str) -> (yes: bool)
    ensures
        yes == (s@.len() > 0 && all_digits(s@)),
{
    let chars = chars_of(s);
    for i in 0..chars.len()
        invariant
            chars@ == s@,
            forall|k: int| 0 <= k < i ==> is_digit(#[trigger] s@[k]),
    {
        if !digit(chars[i]) {
            assert(!is_digit(s@[i as int]));
            return false;
        }
    }
    chars.len() > 0
}

/// The number that a run of digits writes.
pub open spec fn digits_value(s: Seq<char>) -> nat
    decreases s.len(),
{
    if s.len() == 0 {
        0
    } else {
        digits_value(s.drop_last()) * 10 + (s.last() as u32 - '0' as u32) as nat
    }
}

/// The number that `str::parse::<u32>` reads: digits, with a plus sign before
/// them or without, of a value that fits.
pub open spec fn number_u32(s: Seq<char>) -> Option<u32> {
    let digits = if s.len() > 1 && s[0] == '+' {
        s.drop_first()
    } else {
        s
    };
    if digits.len() > 0 && all_digits(digits) && digits_value(digits) <= u32::MAX {
        Some(digits_value(digits) as u32)
    } else {
        None
    }
}

proof fn lemma_digits_value_grows(s: Seq<char>, i: int)
    requires
        0 <= i <= s.len(),
    ensures
        digits_value(s.take(i)) <= digits_value(s),
    decreases s.len() - i,
{
    if i == s.len() {
        assert(s.take(i) == s);
    } else {
        lemma_digits_value_grows(s, i + 1);
        assert(s.take(i + 1).drop_last() == s.take(i));
    }
}

/// The number that `s` writes, where it writes one that fits.
pub fn parse_u32(s: &str) -> (out: Option<u32>)
    ensures
        out == number_u32(s@),
{
    let chars = chars_of(s);
    let from: usize = if chars.len() > 1 && chars[0] == '+' {
        1
    } else {
        0
    };
    let ghost digits = s@.skip(from as int);
    assert(from == 0 ==> digits == s@);
    assert(from == 1 ==> digits == s@.drop_first());
    let mut value: u64 = 0;
    let mut i = from;
    assert(digits.take(0) =~= Seq::<char>::empty());
    while i < chars.len()
        invariant
            from <= i <= chars@.len(),
            chars@ == s@,
            digits == s@.skip(from as int),
            number_u32(s@) == if digits.len() > 0 && all_digits(digits) && digits_value(digits)
                <= u32::MAX {
                Some(digits_value(digits) as u32)
            } else {
                None
            },
            value == digits_value(digits.take(i - from)),
            value <= u32::MAX,
            forall|k: int| 0 <= k < i - from ==> is_digit(#[trigger] digits[k]),
        decreases chars@.len() - i,
    {
        let c = chars[i];
        assert(digits[i - from] == c);
        if !digit(c) {
            return None;
        }
        value = value * 10 + (c as u64 - '0' as u64);
        i += 1;
        assert(digits.take(i - from).drop_last() == digits.take(i - from - 1));
        if value > u32::MAX as u64 {
            proof {
                lemma_digits_value_grows(digits, i - from);
            }
            return None;
        }
    }
    assert(digits.take(i - from) == digits);
    if i == from {
        return None;
    }
    Some(value as u32)
}

/// The decimal digits of a number.
pub open spec fn decimal(n: nat) -> Seq<char>
    decreases n,
{
    if n < 10 {
        seq![('0' as u32 + n) as char]
    } else {
        decimal(n / 10).push(('0' as u32 + n % 10) as char)
    }
}

/// The decimal digits of a number.
pub fn decimal_of(n: u64) -> (out: String)
    ensures
        out@ == decimal(n as nat),
    decreases n,
{
    let last = (48u8 + (n % 10) as u8) as char;
    if n < 10 {
        let mut out = String::new();
        out.push(last);
        assert(out@ =~= decimal(n as nat));
        out
    } else {
        let mut out = decimal_of(n / 10);
        out.push(last);
        out
    }
}

/// The decimal digits of a number, with zeros before them up to `width`.
pub open spec fn padded(n: nat, width: nat) -> Seq<char> {
    let digits = decimal(n);
    if digits.len() < width {
        Seq::new((width - digits.len()) as nat, |i: int| '0') + digits
    } else {
        digits
    }
}

/// The decimal digits of a number, with zeros before them up to `width`.
pub fn padded_of(n: u64, width: usize) -> (out: String)
    ensures
        out@ == padded(n as nat, width as nat),
{
    let digits = decimal_of(n);
    let length = chars_of(digits.as_str()).len();
    let mut out = String::new();
    if length < width {
        for i in 0..width - length
            invariant
                out@ =~= Seq::new(i as nat, |k: int| '0'),
        {
            out.push('0');
        }
    }
    out.append(digits.as_str());
    assert(out@ =~= padded(n as nat, width as nat));
    out
}

/// Whether two texts are the same but for the case of ASCII letters.
pub fn eq_ignore_ascii_case(a: &str, b: &str) -> (yes: bool)
    ensures
        yes == (ascii_lower_text(a@) == ascii_lower_text(b@)),
{
    let x = ascii_lower_of(a);
    let y = ascii_lower_of(b);
    same(x.as_str(), y.as_str())
}

/// The text with ASCII capitals made small.
pub fn ascii_lower_of(s: &str) -> (out: String)
    ensures
        out@ == ascii_lower_text(s@),
{
    let chars = chars_of(s);
    let mut out = String::new();
    for i in 0..chars.len()
        invariant
            chars@ == s@,
            out@ =~= ascii_lower_text(s@).take(i as int),
    {
        let c = chars[i];
        if 'A' <= c && c <= 'Z' {
            out.push((c as u8 + 32) as char);
        } else {
            out.push(c);
        }
    }
    assert(ascii_lower_text(s@).take(s@.len() as int) =~= ascii_lower_text(s@));
    out
}

/// Whether `a` comes before `b` in the order of strings: by the first character
/// in which they differ, a beginning before the whole.
pub open spec fn text_less(a: Seq<char>, b: Seq<char>) -> bool
    decreases a.len(),
{
    if b.len() == 0 {
        false
    } else if a.len() == 0 {
        true
    } else if a[0] == b[0] {
        text_less(a.drop_first(), b.drop_first())
    } else {
        (a[0] as int) < (b[0] as int)
    }
}

/// Whether `a` comes before `b` in the order of strings.
pub fn less(a: &str, b: &str) -> (yes: bool)
    ensures
        yes == text_less(a@, b@),
{
    let x = chars_of(a);
    let y = chars_of(b);
    let mut i: usize = 0;
    assert(a@.skip(0) == a@);
    assert(b@.skip(0) == b@);
    while i < x.len() && i < y.len()
        invariant
            i <= x@.len(),
            i <= y@.len(),
            x@ == a@,
            y@ == b@,
            text_less(a@, b@) == text_less(a@.skip(i as int), b@.skip(i as int)),
        decreases x@.len() - i,
    {
        if x[i] != y[i] {
            return x[i] < y[i];
        }
        assert(a@.skip(i as int).drop_first() == a@.skip(i + 1));
        assert(b@.skip(i as int).drop_first() == b@.skip(i + 1));
        i += 1;
    }
    i < y.len()
}

/// No text comes before itself.
pub proof fn text_less_irreflexive(a: Seq<char>)
    ensures
        !text_less(a, a),
    decreases a.len(),
{
    if a.len() > 0 {
        text_less_irreflexive(a.drop_first());
    }
}

/// The order of texts is transitive.
pub proof fn text_less_transitive(a: Seq<char>, b: Seq<char>, c: Seq<char>)
    requires
        text_less(a, b),
        text_less(b, c),
    ensures
        text_less(a, c),
    decreases a.len(),
{
    if a.len() > 0 && a[0] == b[0] && b[0] == c[0] {
        text_less_transitive(a.drop_first(), b.drop_first(), c.drop_first());
    }
}

/// Of two different texts one comes before the other.
pub proof fn text_less_total(a: Seq<char>, b: Seq<char>)
    ensures
        a == b || text_less(a, b) || text_less(b, a),
    decreases a.len(),
{
    if a.len() > 0 && b.len() > 0 {
        if a[0] == b[0] {
            text_less_total(a.drop_first(), b.drop_first());
            if a.drop_first() == b.drop_first() {
                assert(a == seq![a[0]] + a.drop_first());
                assert(b == seq![b[0]] + b.drop_first());
            }
        }
    } else {
        assert(a.len() == 0 && b.len() == 0 ==> a =~= b);
    }
}

} // verus!
