//! What holds of the endpoints of Azure resources.
use vstd::prelude::*;

#[allow(unused_imports)]
use crate::auth::azure_endpoint;
#[allow(unused_imports)]
use crate::error::ErrorView;
#[allow(unused_imports)]
use crate::text::{
    begins_with, contains_text, finishes_with, is_space, replaced, stands_at, trimmed, trimmed_end,
    trimmed_start, without_trailing,
};

verus! {

/// How the host of a resource ends under its older name.
pub open spec fn old_host() -> Seq<char> {
    ".cognitiveservices.azure.com"@
}

/// How the host of a resource ends under its present name.
pub open spec fn new_host() -> Seq<char> {
    ".openai.azure.com"@
}

proof fn lemma_hosts()
    ensures
        old_host().len() == 28,
        new_host().len() == 17,
        old_host()[0] == '.' && old_host()[1] == 'c' && old_host()[2] == 'o' && old_host()[3]
            == 'g',
        old_host()[19] == 'a' && old_host()[25] == 'c' && old_host()[27] == 'm',
        new_host()[0] == '.' && new_host()[1] == 'o' && new_host()[8] == 'a' && new_host()[16]
            == 'm',
        forall|k: int| 0 < k < 28 && #[trigger] old_host()[k] == '.' ==> k == 18 || k == 24,
        forall|k: int| 0 < k < 17 && #[trigger] new_host()[k] == '.' ==> k == 7 || k == 13,
{
    reveal_strlit(".cognitiveservices.azure.com");
    reveal_strlit(".openai.azure.com");
    assert(old_host() =~= seq![
        '.', 'c', 'o', 'g', 'n', 'i', 't', 'i', 'v', 'e', 's', 'e', 'r', 'v', 'i', 'c', 'e',
        's', '.', 'a', 'z', 'u', 'r', 'e', '.', 'c', 'o', 'm',
    ]);
    assert(new_host() =~= seq![
        '.', 'o', 'p', 'e', 'n', 'a', 'i', '.', 'a', 'z', 'u', 'r', 'e', '.', 'c', 'o', 'm',
    ]);
}

proof fn lemma_char_at(s: Seq<char>, pattern: Seq<char>, at: int, i: int)
    requires
        stands_at(s, pattern, at),
        0 <= i < pattern.len(),
    ensures
        s[at + i] == pattern[i],
{
    assert(s.subrange(at, at + pattern.len() as int)[i] == s[at + i]);
}

proof fn lemma_stands_in_rest(before: Seq<char>, rest: Seq<char>, pattern: Seq<char>, at: int)
    ensures
        at >= before.len() && stands_at(before + rest, pattern, at) ==> contains_text(
            rest,
            pattern,
        ),
        0 <= at && stands_at(rest, pattern, at) ==> stands_at(
            before + rest,
            pattern,
            at + before.len(),
        ),
{
    let n = before.len() as int;
    let m = pattern.len() as int;
    if at >= n && stands_at(before + rest, pattern, at) {
        assert(rest.subrange(at - n, at - n + m) =~= (before + rest).subrange(at, at + m));
        assert(stands_at(rest, pattern, at - n));
    }
    if 0 <= at && stands_at(rest, pattern, at) {
        assert((before + rest).subrange(at + n, at + n + m) =~= rest.subrange(at, at + m));
    }
}

proof fn lemma_stands_before(before: Seq<char>, rest: Seq<char>, pattern: Seq<char>, at: int)
    requires
        at + pattern.len() <= before.len(),
    ensures
        stands_at(before + rest, pattern, at) == stands_at(before, pattern, at),
{
    if 0 <= at {
        let m = pattern.len() as int;
        assert((before + rest).subrange(at, at + m) =~= before.subrange(at, at + m));
    }
}

/// A tail of the older name that stands at the beginning after a renaming stood
/// there before it.
proof fn lemma_tail_was_there(s: Seq<char>, k: int)
    requires
        0 < k <= 28,
        begins_with(replaced(s, old_host(), new_host()), old_host().skip(k)),
    ensures
        begins_with(s, old_host().skip(k)),
    decreases s.len(),
{
    lemma_hosts();
    let tail = old_host().skip(k);
    let out = replaced(s, old_host(), new_host());
    if k == 28 {
        assert(s.subrange(0, 0) =~= tail);
    } else if s.len() < 28 {
        assert(out == s);
    } else {
        lemma_char_at(out, tail, 0, 0);
        assert(tail[0] == old_host()[k]);
        if begins_with(s, old_host()) {
            let rest = replaced(s.skip(28), old_host(), new_host());
            assert(out == new_host() + rest);
            assert(out[0] == '.' && out[1] == 'o');
            assert(k == 18 || k == 24);
            lemma_char_at(out, tail, 0, 1);
            assert(tail[1] == old_host()[k + 1]);
        } else {
            let rest = replaced(s.drop_first(), old_host(), new_host());
            assert(out == seq![s[0]] + rest);
            let shorter = old_host().skip(k + 1);
            assert(rest.subrange(0, 27 - k) =~= out.subrange(0, 28 - k).skip(1));
            assert(tail.skip(1) =~= shorter);
            lemma_tail_was_there(s.drop_first(), k + 1);
            assert(s.drop_first().subrange(0, 27 - k) == shorter);
            assert(s.subrange(0, 28 - k) =~= seq![s[0]] + s.drop_first().subrange(0, 27 - k));
            assert(tail =~= seq![tail[0]] + shorter);
        }
    }
}

/// After a renaming the older name stands nowhere.
proof fn lemma_renamed_everywhere(s: Seq<char>)
    ensures
        !contains_text(replaced(s, old_host(), new_host()), old_host()),
    decreases s.len(),
{
    lemma_hosts();
    let out = replaced(s, old_host(), new_host());
    if contains_text(out, old_host()) {
        let at = choose|at: int| stands_at(out, old_host(), at);
        lemma_char_at(out, old_host(), at, 0);
        lemma_char_at(out, old_host(), at, 1);
        lemma_char_at(out, old_host(), at, 3);
        if s.len() < 28 {
        } else if begins_with(s, old_host()) {
            let rest = replaced(s.skip(28), old_host(), new_host());
            assert(out == new_host() + rest);
            lemma_renamed_everywhere(s.skip(28));
            lemma_stands_in_rest(new_host(), rest, old_host(), at);
            assert(at < 17);
            assert(out[at] == new_host()[at]);
            assert(at == 0 || at == 7 || at == 13);
            assert(out[1] == new_host()[1] && out[8] == new_host()[8] && out[16]
                == new_host()[16]);
        } else {
            let rest = replaced(s.drop_first(), old_host(), new_host());
            assert(out == seq![s[0]] + rest);
            lemma_renamed_everywhere(s.drop_first());
            lemma_stands_in_rest(seq![s[0]], rest, old_host(), at);
            assert(at == 0);
            assert(rest.subrange(0, 27) =~= out.subrange(0, 28).skip(1));
            lemma_tail_was_there(s.drop_first(), 1);
            assert(s.drop_first().subrange(0, 27) == old_host().skip(1));
            assert(s.subrange(0, 28) =~= seq![s[0]] + s.drop_first().subrange(0, 27));
            assert(old_host() =~= seq![old_host()[0]] + old_host().skip(1));
            assert(begins_with(s, old_host()));
        }
    }
}

/// A path behind a text brings the older name nowhere.
proof fn lemma_path_brings_no_host(s: Seq<char>, path: Seq<char>)
    requires
        !contains_text(s, old_host()),
        forall|i: int| 0 <= i < path.len() ==> #[trigger] path[i] != 'm',
    ensures
        !contains_text(s + path, old_host()),
{
    lemma_hosts();
    if contains_text(s + path, old_host()) {
        let at = choose|at: int| stands_at(s + path, old_host(), at);
        lemma_char_at(s + path, old_host(), at, 27);
        if at + 28 > s.len() {
            assert((s + path)[at + 27] == path[at + 27 - s.len()]);
        } else {
            lemma_stands_before(s, path, old_host(), at);
        }
    }
}

/// Where the older name does not stand, nothing is renamed.
proof fn lemma_nothing_renamed(s: Seq<char>)
    requires
        !contains_text(s, old_host()),
    ensures
        replaced(s, old_host(), new_host()) == s,
    decreases s.len(),
{
    lemma_hosts();
    if s.len() >= 28 {
        assert(!begins_with(s, old_host()));
        let rest = s.drop_first();
        assert(seq![s[0]] + rest =~= s);
        if contains_text(rest, old_host()) {
            let at = choose|at: int| stands_at(rest, old_host(), at);
            lemma_stands_in_rest(seq![s[0]], rest, old_host(), at);
        }
        lemma_nothing_renamed(rest);
    }
}

/// An older name with no other before or behind it is the one that is renamed.
proof fn lemma_one_renamed(before: Seq<char>, after: Seq<char>)
    requires
        !contains_text(before, old_host()),
        !contains_text(after, old_host()),
    ensures
        replaced(before + old_host() + after, old_host(), new_host()) == before + new_host()
            + after,
    decreases before.len(),
{
    lemma_hosts();
    let s = before + old_host() + after;
    if before.len() == 0 {
        assert(s.subrange(0, 28) =~= old_host());
        assert(s.skip(28) =~= after);
        lemma_nothing_renamed(after);
        assert(new_host() + after =~= before + new_host() + after);
    } else {
        let n = before.len() as int;
        let rest = before.drop_first();
        if begins_with(s, old_host()) {
            if n >= 28 {
                assert(before.subrange(0, 28) =~= s.subrange(0, 28));
                assert(stands_at(before, old_host(), 0));
            } else {
                lemma_char_at(s, old_host(), 0, n);
                assert(s[n] == '.');
                assert(n == 18 || n == 24);
                lemma_char_at(s, old_host(), 0, n + 1);
                lemma_char_at(s, old_host(), 0, n + 3);
                assert(s[n + 1] == old_host()[1] && s[n + 3] == old_host()[3]);
            }
        }
        if contains_text(rest, old_host()) {
            let at = choose|at: int| stands_at(rest, old_host(), at);
            assert(seq![before[0]] + rest =~= before);
            lemma_stands_in_rest(seq![before[0]], rest, old_host(), at);
        }
        lemma_one_renamed(rest, after);
        assert(s.drop_first() =~= rest + old_host() + after);
        assert(seq![s[0]] + (rest + new_host() + after) =~= before + new_host() + after);
    }
}

proof fn lemma_paths()
    ensures
        "/openai"@.len() == 7 && "/v1"@.len() == 3 && "/openai/v1"@.len() == 10 && "/"@.len() == 1,
        "/openai"@ + "/v1"@ == "/openai/v1"@,
        "/openai"@.last() == 'i' && "/openai/v1"@.last() == '1' && "/"@.last() == '/',
        "/openai"@[0] == '/' && "/openai/v1"@[0] == '/',
        forall|i: int| 0 <= i < 7 ==> #[trigger] "/openai"@[i] != 'm',
        forall|i: int| 0 <= i < 3 ==> #[trigger] "/v1"@[i] != 'm',
        forall|i: int| 0 <= i < 10 ==> #[trigger] "/openai/v1"@[i] != 'm',
{
    reveal_strlit("/openai");
    reveal_strlit("/v1");
    reveal_strlit("/openai/v1");
    reveal_strlit("/");
    assert("/openai"@ =~= seq!['/', 'o', 'p', 'e', 'n', 'a', 'i']);
    assert("/v1"@ =~= seq!['/', 'v', '1']);
    assert("/openai/v1"@ =~= seq!['/', 'o', 'p', 'e', 'n', 'a', 'i', '/', 'v', '1']);
    assert("/openai"@ + "/v1"@ =~= "/openai/v1"@);
}

/// An endpoint in its final form.
pub open spec fn is_normal(endpoint: Seq<char>) -> bool {
    &&& finishes_with(endpoint, "/openai/v1"@)
    &&& !is_space(endpoint[0])
    &&& !contains_text(endpoint, old_host())
}

proof fn lemma_finish(before: Seq<char>, path: Seq<char>)
    ensures
        finishes_with(before + path, path),
{
    let s = before + path;
    assert(s.subrange(s.len() - path.len(), s.len() as int) =~= path);
}

proof fn lemma_trimmed_end(s: Seq<char>)
    ensures
        trimmed_end(s).len() > 0 ==> !is_space(trimmed_end(s).last()),
    decreases s.len(),
{
    if s.len() > 0 && is_space(s.last()) {
        lemma_trimmed_end(s.drop_last());
    }
}

proof fn lemma_trimmed_start(s: Seq<char>)
    ensures
        trimmed_start(s).len() > 0 ==> !is_space(trimmed_start(s)[0]),
    decreases s.len(),
{
    if s.len() > 0 && is_space(s[0]) {
        lemma_trimmed_start(s.drop_first());
    }
}

proof fn lemma_without_trailing_begins(s: Seq<char>, c: char)
    ensures
        without_trailing(s, c).len() > 0 ==> s.len() > 0 && without_trailing(s, c)[0] == s[0],
    decreases s.len(),
{
    if s.len() > 0 && s.last() == c {
        lemma_without_trailing_begins(s.drop_last(), c);
    }
}

proof fn lemma_normal_stays(endpoint: Seq<char>)
    requires
        is_normal(endpoint),
    ensures
        azure_endpoint(endpoint) == Ok::<Seq<char>, ErrorView>(endpoint),
{
    lemma_paths();
    let n = endpoint.len() as int;
    lemma_char_at(endpoint, "/openai/v1"@, n - 10, 9);
    assert(endpoint.last() == '1');
    assert(trimmed(endpoint) == endpoint);
    assert(without_trailing(endpoint, '/') == endpoint);
    if finishes_with(endpoint, "/openai"@) {
        lemma_char_at(endpoint, "/openai"@, n - 7, 6);
    }
}

/// An endpoint that was normalized is in its final form.
pub proof fn a_normalized_endpoint_is_normal(endpoint: Seq<char>)
    ensures
        azure_endpoint(endpoint) matches Ok(out) ==> is_normal(out),
{
    lemma_hosts();
    lemma_paths();
    let cleaned = without_trailing(trimmed(endpoint), '/');
    lemma_trimmed_start(trimmed_end(endpoint));
    lemma_without_trailing_begins(trimmed(endpoint), '/');
    if cleaned.len() > 0 {
        assert(!is_space(cleaned[0]));
        let renamed = if contains_text(cleaned, old_host()) {
            replaced(cleaned, old_host(), new_host())
        } else {
            cleaned
        };
        lemma_renamed_everywhere(cleaned);
        assert(renamed.len() > 0 && !is_space(renamed[0]));
        lemma_path_brings_no_host(renamed, "/v1"@);
        let versioned = if finishes_with(renamed, "/openai"@) {
            renamed + "/v1"@
        } else {
            renamed
        };
        lemma_path_brings_no_host(versioned, "/openai/v1"@);
    }
}

/// To normalize an endpoint twice is to normalize it once.
pub proof fn normalizing_twice_changes_nothing(endpoint: Seq<char>)
    ensures
        azure_endpoint(endpoint) matches Ok(out) ==> azure_endpoint(out) == Ok::<
            Seq<char>,
            ErrorView,
        >(out),
{
    a_normalized_endpoint_is_normal(endpoint);
    if let Ok(out) = azure_endpoint(endpoint) {
        lemma_normal_stays(out);
    }
}

/// The paths under which the endpoint of a resource may be written.
pub open spec fn is_known_path(path: Seq<char>) -> bool {
    ||| path == ""@
    ||| path == "/"@
    ||| path == "/openai"@
    ||| path == "/openai/"@
    ||| path == "/openai/v1"@
    ||| path == "/openai/v1/"@
}

proof fn lemma_cleaned(host: Seq<char>, path: Seq<char>)
    requires
        host.len() > 0,
        !is_space(host[0]),
        !is_space(host.last()),
        host.last() != '/',
        is_known_path(path),
    ensures
        without_trailing(trimmed(host + path), '/') == host + without_trailing(path, '/'),
        without_trailing(path, '/') == Seq::<char>::empty() || without_trailing(path, '/')
            == "/openai"@ || without_trailing(path, '/') == "/openai/v1"@,
{
    lemma_paths();
    reveal_strlit("");
    reveal_strlit("/openai");
    reveal_strlit("/openai/v1");
    reveal_strlit("/openai/");
    reveal_strlit("/openai/v1/");
    let s = host + path;
    assert(""@ =~= Seq::empty());
    assert(host + Seq::<char>::empty() =~= host);
    assert(path.len() > 0 ==> s.last() == path.last());
    assert(path == ""@ ==> s =~= host);
    assert("/openai/"@.last() == '/' && "/openai/v1/"@.last() == '/');
    assert(!is_space(s.last()));
    assert(s[0] == host[0]);
    assert(trimmed(s) == s);
    reveal_with_fuel(without_trailing, 3);
    if path == "/"@ || path == "/openai/"@ || path == "/openai/v1/"@ {
        assert("/"@.drop_last() =~= Seq::empty());
        assert("/openai/"@.drop_last() =~= "/openai"@);
        assert("/openai/v1/"@.drop_last() =~= "/openai/v1"@);
        assert(s.drop_last() =~= host + path.drop_last());
        assert(path.drop_last().len() > 0 ==> s.drop_last().last() == path.drop_last().last());
    }
}

proof fn lemma_completed(host: Seq<char>, path: Seq<char>)
    requires
        contains_text(host, new_host()),
        !finishes_with(host, "/openai"@),
        !finishes_with(host, "/openai/v1"@),
        path == Seq::<char>::empty() || path == "/openai"@ || path == "/openai/v1"@,
    ensures
        ({
            let renamed = host + path;
            let versioned = if finishes_with(renamed, "/openai"@) {
                renamed + "/v1"@
            } else {
                renamed
            };
            let complete = if !finishes_with(versioned, "/openai/v1"@) && contains_text(
                versioned,
                new_host(),
            ) {
                versioned + "/openai/v1"@
            } else {
                versioned
            };
            complete == host + "/openai/v1"@
        }),
{
    lemma_paths();
    lemma_finish(host, path);
    if path == Seq::<char>::empty() {
        assert(host + path =~= host);
    } else if path == "/openai"@ {
        assert(host + path + "/v1"@ =~= host + "/openai/v1"@);
        lemma_finish(host, "/openai/v1"@);
    } else {
        let s = host + path;
        if finishes_with(s, "/openai"@) {
            lemma_char_at(s, "/openai"@, s.len() - 7, 6);
            assert(s.last() == path.last());
        }
    }
}

/// The spellings of one resource agree: an endpoint whose host ends in its present
/// name, or in its older one, with or without a path, is normalized to the same.
pub proof fn spellings_of_one_resource_agree(before: Seq<char>, after: Seq<char>, path: Seq<char>)
    requires
        ({
            let endpoint = before + new_host() + after;
            &&& trimmed(endpoint) == endpoint
            &&& endpoint.last() != '/'
            &&& !contains_text(endpoint, old_host())
            &&& !finishes_with(endpoint, "/openai"@)
            &&& !finishes_with(endpoint, "/openai/v1"@)
        }),
        is_known_path(path),
    ensures
        azure_endpoint(before + new_host() + after + path) == Ok::<Seq<char>, ErrorView>(
            before + new_host() + after + "/openai/v1"@,
        ),
        azure_endpoint(before + old_host() + after + path) == Ok::<Seq<char>, ErrorView>(
            before + new_host() + after + "/openai/v1"@,
        ),
{
    lemma_hosts();
    lemma_paths();
    let endpoint = before + new_host() + after;
    let older = before + old_host() + after;
    let short = without_trailing(path, '/');
    lemma_trimmed_start(trimmed_end(endpoint));
    lemma_trimmed_end(endpoint);
    assert(trimmed_end(endpoint) == endpoint) by {
        lemma_no_longer(endpoint);
    }
    assert(endpoint.subrange(before.len() as int, before.len() as int + 17) =~= new_host());
    assert(stands_at(endpoint, new_host(), before.len() as int));
    assert(!is_space('.') && !is_space('m'));
    assert(older[0] == if before.len() > 0 {
        endpoint[0]
    } else {
        '.'
    });
    assert(older.last() == if after.len() > 0 {
        endpoint.last()
    } else {
        'm'
    });
    lemma_cleaned(endpoint, path);
    lemma_cleaned(older, path);
    lemma_path_brings_no_host(endpoint, short);
    lemma_completed(endpoint, short);
    lemma_finish(endpoint, "/openai/v1"@);
    if contains_text(before, old_host()) {
        let at = choose|at: int| stands_at(before, old_host(), at);
        lemma_stands_before(before, new_host() + after, old_host(), at);
        assert(before + (new_host() + after) =~= endpoint);
    }
    if contains_text(after + short, old_host()) {
        let at = choose|at: int| stands_at(after + short, old_host(), at);
        lemma_stands_in_rest(before + new_host(), after + short, old_host(), at);
        assert(before + new_host() + (after + short) =~= endpoint + short);
    }
    lemma_one_renamed(before, after + short);
    let cleaned = before + old_host() + (after + short);
    assert(cleaned =~= older + short);
    assert(before + new_host() + (after + short) =~= endpoint + short);
    assert(cleaned.subrange(before.len() as int, before.len() as int + 28) =~= old_host());
    assert(stands_at(cleaned, old_host(), before.len() as int));
}

proof fn lemma_no_longer(s: Seq<char>)
    requires
        trimmed(s) == s,
    ensures
        trimmed_end(s) == s,
{
    lemma_trimmed_lengths(s);
    lemma_trimmed_lengths(trimmed_end(s));
}

proof fn lemma_trimmed_lengths(s: Seq<char>)
    ensures
        trimmed_start(s).len() <= s.len(),
        trimmed_end(s).len() <= s.len(),
        trimmed_end(s).len() == s.len() ==> trimmed_end(s) == s,
    decreases s.len(),
{
    if s.len() > 0 {
        lemma_trimmed_lengths(s.drop_first());
        lemma_trimmed_lengths(s.drop_last());
    }
}

} // verus!
