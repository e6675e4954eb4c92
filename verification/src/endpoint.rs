//! The addresses of a provider's endpoints.
use vstd::prelude::*;

use crate::error::Error;
#[allow(unused_imports)]
use crate::error::{outcome, ErrorView};
use crate::ordered::StringMap;
use crate::text::{owned, split_once, trim, trim_end_char, trim_start_char};
#[allow(unused_imports)]
use crate::text::{around_first, ascii_alphanumeric, trimmed, without_leading, without_trailing};
#[allow(unused_imports)]
use vstd::utf8::encode_utf8;

verus! {

/// The capital hexadecimal digit of a number below 16.
pub open spec fn hex_upper(n: int) -> char {
    if n < 10 {
        ('0' as int + n) as char
    } else {
        ('A' as int + (n - 10)) as char
    }
}

/// Bytes as a query writes them: letters and digits as they are, every other
/// byte as `%` and two hexadecimal digits.
pub open spec fn percent_encoded(bytes: Seq<u8>) -> Seq<char>
    decreases bytes.len(),
{
    if bytes.len() == 0 {
        Seq::empty()
    } else {
        let byte = bytes.last();
        let rest = percent_encoded(bytes.drop_last());
        if byte < 128 && ascii_alphanumeric(byte as char) {
            rest.push(byte as char)
        } else {
            rest.push('%').push(hex_upper(byte as int / 16)).push(hex_upper(byte as int % 16))
        }
    }
}

/// `percent_encoding::utf8_percent_encode` with `NON_ALPHANUMERIC`: ASCII letters
/// and digits stay, every other byte of the text becomes `%` and its two capital
/// hexadecimal digits.
#[verifier::external_body]
pub(crate) fn percent_encode(text: &str) -> (out: String)
    ensures
        out@ == percent_encoded(encode_utf8(text@)),
{
    percent_encoding::utf8_percent_encode(text, percent_encoding::NON_ALPHANUMERIC).to_string()
}

/// A query's parameters, each as `key=value`, joined by `&`.
pub open spec fn encoded_query(query: Seq<(Seq<char>, Seq<char>)>) -> Seq<char>
    decreases query.len(),
{
    if query.len() == 0 {
        Seq::empty()
    } else {
        let (key, value) = query.last();
        let pair = percent_encoded(encode_utf8(key)) + "="@ + percent_encoded(encode_utf8(value));
        if query.len() == 1 {
            pair
        } else {
            encoded_query(query.drop_last()) + "&"@ + pair
        }
    }
}

/// The path of an endpoint and the query that it holds already. A path without a
/// query stands as it is; in front of a query, leading slashes are dropped.
pub open spec fn path_and_query(path: Seq<char>) -> (Seq<char>, Seq<char>) {
    match around_first(without_leading(path, '/'), '?') {
        Some(parts) => parts,
        None => (path, ""@),
    }
}

/// The address of an endpoint: the base, the path, the query that the path holds
/// and the default parameters.
pub open spec fn endpoint(
    base_url: Seq<char>,
    path: Seq<char>,
    query: Seq<(Seq<char>, Seq<char>)>,
) -> Result<Seq<char>, ErrorView> {
    let base = without_trailing(trimmed(base_url), '/');
    let (path, existing) = path_and_query(path);
    let url = base + "/"@ + path;
    let with_existing = if existing.len() == 0 {
        url
    } else {
        url + "?"@ + existing
    };
    if base.len() == 0 {
        Err(ErrorView::MissingBaseUrl("request context"@))
    } else if query.len() == 0 {
        Ok(with_existing)
    } else if existing.len() == 0 {
        Ok(with_existing + "?"@ + encoded_query(query))
    } else {
        Ok(with_existing + "&"@ + encoded_query(query))
    }
}

fn encode_query(query: &StringMap) -> (out: String)
    ensures
        out@ == encoded_query(query.deep_view()),
{
    let mut out = String::new();
    let ghost all = query.deep_view();
    assert(out@ =~= encoded_query(all.take(0)));
    let length: usize = query.len();
    for i in 0..length
        invariant
            length == all.len(),
            all == query.deep_view(),
            out@ == encoded_query(all.take(i as int)),
    {
        let ghost so_far = all.take(i as int + 1);
        assert(so_far.drop_last() =~= all.take(i as int));
        assert(so_far.last() == all[i as int]);
        if i > 0 {
            out.append("&");
        }
        out.append(percent_encode(query.key(i)).as_str());
        out.append("=");
        out.append(percent_encode(query.value(i)).as_str());
        assert(out@ =~= encoded_query(so_far));
    }
    assert(all.take(all.len() as int) =~= all);
    out
}

/// Builds the address of an endpoint from a base URL, a path and default query
/// parameters.
pub fn endpoint_url(base_url: &str, path: &str, query: &StringMap) -> (url: Result<String, Error>)
    ensures
        outcome(url) == endpoint(base_url@, path@, query.deep_view()),
{
    let base = trim_end_char(trim(base_url).as_str(), '/');
    if base.as_str().is_empty() {
        return Err(Error::MissingBaseUrl(owned("request context")));
    }
    let parts = match split_once(trim_start_char(path, '/').as_str(), '?') {
        Some(parts) => parts,
        None => (owned(path), owned("")),
    };
    let existing = parts.1;
    let mut url = base;
    url.append("/");
    url.append(parts.0.as_str());
    if !existing.as_str().is_empty() {
        url.append("?");
        url.append(existing.as_str());
    }
    if !query.is_empty() {
        if existing.as_str().is_empty() {
            url.append("?");
        } else {
            url.append("&");
        }
        url.append(encode_query(query).as_str());
    }
    Ok(url)
}

} // verus!
