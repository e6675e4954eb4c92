//! The signature of a request to Amazon's services.
use vstd::prelude::*;
#[allow(unused_imports)]
use vstd::utf8::encode_utf8;

use crate::bedrock::BedrockCredentials;
#[allow(unused_imports)]
use crate::bedrock::CredentialsView;
use crate::calendar::format_datetime;
#[allow(unused_imports)]
use crate::calendar::timestamp_of;
use crate::codec::{hex_of, hmac_sha256_of, sha256_of};
#[allow(unused_imports)]
use crate::codec::{hex_text, hmac_sha256, sha256};
use crate::error::Error;
#[allow(unused_imports)]
use crate::error::{outcome, ErrorView};
use crate::ordered::StringMap;
#[allow(unused_imports)]
use crate::ordered::put;
use crate::text::{cat, cat3, chars_of, owned, text_between, utf8_bytes};

verus! {

/// The headers that are signed.
pub open spec fn headers_to_sign(
    host: Seq<char>,
    datetime: Seq<char>,
    payload_hash: Seq<char>,
    token: Option<Seq<char>>,
) -> Seq<(Seq<char>, Seq<char>)> {
    let headers = put(Seq::empty(), "host"@, host);
    let headers = put(headers, "x-amz-date"@, datetime);
    let headers = put(headers, "x-amz-content-sha256"@, payload_hash);
    match token {
        Some(token) => put(headers, "x-amz-security-token"@, token),
        None => headers,
    }
}

/// The names of headers, joined by semicolons.
pub open spec fn header_names(headers: Seq<(Seq<char>, Seq<char>)>) -> Seq<char>
    decreases headers.len(),
{
    if headers.len() == 0 {
        Seq::empty()
    } else if headers.len() == 1 {
        headers.last().0
    } else {
        header_names(headers.drop_last()) + ";"@ + headers.last().0
    }
}

/// The headers, each as a line.
pub open spec fn header_lines(headers: Seq<(Seq<char>, Seq<char>)>) -> Seq<char>
    decreases headers.len(),
{
    if headers.len() == 0 {
        Seq::empty()
    } else {
        header_lines(headers.drop_last()) + headers.last().0 + ":"@ + headers.last().1 + "\n"@
    }
}

/// A request in the form in which it is signed.
pub open spec fn canonical_request(
    method: Seq<char>,
    path: Seq<char>,
    headers: Seq<(Seq<char>, Seq<char>)>,
    payload_hash: Seq<char>,
) -> Seq<char> {
    method + "\n"@ + path + "\n\n"@ + header_lines(headers) + "\n"@ + header_names(headers) + "\n"@
        + payload_hash
}

/// What a signature is good for: a day, a region and a service.
pub open spec fn credential_scope(date: Seq<char>, region: Seq<char>) -> Seq<char> {
    date + "/"@ + region + "/bedrock/aws4_request"@
}

/// The text that is signed.
pub open spec fn string_to_sign(datetime: Seq<char>, scope: Seq<char>, request: Seq<char>) -> Seq<
    char,
> {
    "AWS4-HMAC-SHA256\n"@ + datetime + "\n"@ + scope + "\n"@ + hex_text(
        sha256(encode_utf8(request)),
    )
}

/// The key that signs on a day, in a region, for a service.
pub open spec fn signing_key(secret: Seq<char>, date: Seq<char>, region: Seq<char>) -> Seq<u8> {
    let day = hmac_sha256(encode_utf8("AWS4"@ + secret), encode_utf8(date));
    let place = hmac_sha256(day, encode_utf8(region));
    let service = hmac_sha256(place, encode_utf8("bedrock"@));
    hmac_sha256(service, encode_utf8("aws4_request"@))
}

/// The headers of a signed request.
pub open spec fn signed_headers(
    method: Seq<char>,
    path: Seq<char>,
    host: Seq<char>,
    payload: Seq<u8>,
    credentials: CredentialsView,
    datetime: Seq<char>,
) -> Seq<(Seq<char>, Seq<char>)> {
    let date = datetime.take(8);
    let payload_hash = hex_text(sha256(payload));
    let headers = headers_to_sign(host, datetime, payload_hash, credentials.session_token);
    let scope = credential_scope(date, credentials.region);
    let text = string_to_sign(
        datetime,
        scope,
        canonical_request(method, path, headers, payload_hash),
    );
    let signature = hex_text(
        hmac_sha256(
            signing_key(credentials.secret_key, date, credentials.region),
            encode_utf8(text),
        ),
    );
    put(
        headers,
        "authorization"@,
        "AWS4-HMAC-SHA256 Credential="@ + credentials.access_key + "/"@ + scope
            + ", SignedHeaders="@ + header_names(headers) + ", Signature="@ + signature,
    )
}

fn names_of(headers: &StringMap) -> (names: String)
    ensures
        names@ == header_names(headers.deep_view()),
{
    let ghost all = headers.deep_view();
    let length: usize = headers.len();
    let mut names = String::new();
    assert(names@ =~= header_names(all.take(0)));
    for i in 0..length
        invariant
            length == all.len(),
            all == headers.deep_view(),
            names@ == header_names(all.take(i as int)),
    {
        let ghost so_far = all.take(i as int + 1);
        assert(so_far.drop_last() =~= all.take(i as int));
        assert(so_far.last() == all[i as int]);
        if i > 0 {
            names.append(";");
        }
        names.append(headers.key(i));
        assert(names@ =~= header_names(so_far));
    }
    assert(all.take(all.len() as int) =~= all);
    names
}

fn lines_of(headers: &StringMap) -> (lines: String)
    ensures
        lines@ == header_lines(headers.deep_view()),
{
    let ghost all = headers.deep_view();
    let length: usize = headers.len();
    let mut lines = String::new();
    assert(lines@ =~= header_lines(all.take(0)));
    for i in 0..length
        invariant
            length == all.len(),
            all == headers.deep_view(),
            lines@ == header_lines(all.take(i as int)),
    {
        let ghost so_far = all.take(i as int + 1);
        assert(so_far.drop_last() =~= all.take(i as int));
        assert(so_far.last() == all[i as int]);
        lines.append(headers.key(i));
        lines.append(":");
        lines.append(headers.value(i));
        lines.append("\n");
    }
    assert(all.take(all.len() as int) =~= all);
    lines
}

fn authenticate(key: &[u8], data: &[u8]) -> (code: Result<Vec<u8>, Error>)
    ensures
        outcome(code) == Ok::<Seq<u8>, ErrorView>(hmac_sha256(key@, data@)),
{
    match hmac_sha256_of(key, data) {
        Some(code) => Ok(code),
        None => Err(Error::Transport(owned("HMAC key error: Invalid Length"))),
    }
}

fn derive_signing_key(secret: &str, date: &str, region: &str) -> (key: Result<Vec<u8>, Error>)
    ensures
        outcome(key) == Ok::<Seq<u8>, ErrorView>(signing_key(secret@, date@, region@)),
{
    let start = cat("AWS4", secret);
    let day = match authenticate(
        utf8_bytes(start.as_str()).as_slice(),
        utf8_bytes(date).as_slice(),
    ) {
        Ok(code) => code,
        Err(error) => return Err(error),
    };
    assert(day.deep_view() =~= day@);
    let place = match authenticate(day.as_slice(), utf8_bytes(region).as_slice()) {
        Ok(code) => code,
        Err(error) => return Err(error),
    };
    assert(place.deep_view() =~= place@);
    let service = match authenticate(place.as_slice(), utf8_bytes("bedrock").as_slice()) {
        Ok(code) => code,
        Err(error) => return Err(error),
    };
    assert(service.deep_view() =~= service@);
    authenticate(service.as_slice(), utf8_bytes("aws4_request").as_slice())
}

/// Signs a request that goes out `secs` seconds after the beginning of 1970.
pub fn sign_request(
    method: &str,
    path: &str,
    host: &str,
    payload: &[u8],
    credentials: &BedrockCredentials,
    secs: u64,
) -> (headers: Result<StringMap, Error>)
    ensures
        outcome(headers) == Ok::<Seq<(Seq<char>, Seq<char>)>, ErrorView>(
            signed_headers(
                method@,
                path@,
                host@,
                payload@,
                credentials.deep_view(),
                timestamp_of(secs as nat),
            ),
        ),
{
    let datetime = format_datetime(secs);
    let date = text_between(&chars_of(datetime.as_str()), 0, 8);
    assert(date@ =~= datetime@.take(8));
    let payload_hash = hex_of(sha256_of(payload).as_slice());
    let mut headers = StringMap::new();
    headers.insert("host", host);
    headers.insert("x-amz-date", datetime.as_str());
    headers.insert("x-amz-content-sha256", payload_hash.as_str());
    match &credentials.session_token {
        Some(token) => headers.insert("x-amz-security-token", token.as_str()),
        None => {},
    }
    let names = names_of(&headers);
    let mut request = cat3(method, "\n", path);
    request.append("\n\n");
    request.append(lines_of(&headers).as_str());
    request.append("\n");
    request.append(names.as_str());
    request.append("\n");
    request.append(payload_hash.as_str());
    let mut scope = cat3(date.as_str(), "/", credentials.region.as_str());
    scope.append("/bedrock/aws4_request");
    let mut text = cat3("AWS4-HMAC-SHA256\n", datetime.as_str(), "\n");
    text.append(scope.as_str());
    text.append("\n");
    text.append(
        hex_of(sha256_of(utf8_bytes(request.as_str()).as_slice()).as_slice()).as_str(),
    );
    let key = match derive_signing_key(
        credentials.secret_key.as_str(),
        date.as_str(),
        credentials.region.as_str(),
    ) {
        Ok(key) => key,
        Err(error) => return Err(error),
    };
    assert(key.deep_view() =~= key@);
    let code = match authenticate(key.as_slice(), utf8_bytes(text.as_str()).as_slice()) {
        Ok(code) => code,
        Err(error) => return Err(error),
    };
    assert(code.deep_view() =~= code@);
    let signature = hex_of(code.as_slice());
    let mut authorization = cat3(
        "AWS4-HMAC-SHA256 Credential=",
        credentials.access_key.as_str(),
        "/",
    );
    authorization.append(scope.as_str());
    authorization.append(", SignedHeaders=");
    authorization.append(names.as_str());
    authorization.append(", Signature=");
    authorization.append(signature.as_str());
    headers.insert("authorization", authorization.as_str());
    Ok(headers)
}

} // verus!
