//! What holds of addresses, signatures, frames and the parts of a stream.
use vstd::prelude::*;
#[allow(unused_imports)]
use vstd::utf8::encode_utf8;

#[allow(unused_imports)]
use crate::bedrock::CredentialsView;
#[allow(unused_imports)]
use crate::codec::{hex_text, hmac_sha256, sha256};
#[allow(unused_imports)]
use crate::codex_speech::{call_address, call_id_of};
#[allow(unused_imports)]
use crate::endpoint::{encoded_query, endpoint, percent_encoded};
#[allow(unused_imports)]
use crate::error::ErrorView;
#[allow(unused_imports)]
use crate::eventstream::{be16, frame_event, headers_from, FrameView, HeadersView};
#[allow(unused_imports)]
use crate::json::{parsed_json, parsed_json_bytes, JsonView};
#[allow(unused_imports)]
use crate::ordered::{find, found_after_put};
#[allow(unused_imports)]
use crate::providers::ContextView;
#[allow(unused_imports)]
use crate::session::{frames_taken, machine_taken, stream_started, SessionSlots};
#[allow(unused_imports)]
use crate::signing::{header_lines, header_names, headers_to_sign, signed_headers};
#[allow(unused_imports)]
use crate::speech::{socket_address, socket_scheme};
#[allow(unused_imports)]
use crate::text::{
    ascii_alphanumeric, last_piece, lossy_text, trimmed, utf8_text, without_leading,
    without_trailing,
};
#[allow(unused_imports)]
use crate::transport::event_in;

verus! {

proof fn lemma_led(path: Seq<char>)
    ensures
        !path.contains('?') ==> !without_leading(path, '/').contains('?'),
    decreases path.len(),
{
    if path.len() > 0 && path[0] == '/' {
        let rest = path.drop_first();
        if rest.contains('?') {
            let i = choose|i: int| 0 <= i < rest.len() && rest[i] == '?';
            assert(path[i + 1] == '?');
        }
        lemma_led(rest);
    }
}

/// The address of an endpoint is its base without blanks and slashes at its end, a
/// slash and the path; behind a question mark come the parameters, where there are
/// any. A base has to be there.
pub proof fn an_address_is_base_path_and_parameters(
    base: Seq<char>,
    path: Seq<char>,
    query: Seq<(Seq<char>, Seq<char>)>,
)
    requires
        !path.contains('?'),
    ensures
        ({
            let start = without_trailing(trimmed(base), '/');
            &&& start.len() == 0 ==> endpoint(base, path, query) is Err
            &&& start.len() > 0 && query.len() == 0 ==> endpoint(base, path, query) == Ok::<
                Seq<char>,
                ErrorView,
            >(start + "/"@ + path)
            &&& start.len() > 0 && query.len() > 0 ==> endpoint(base, path, query) == Ok::<
                Seq<char>,
                ErrorView,
            >(start + "/"@ + path + "?"@ + encoded_query(query))
        }),
{
    lemma_led(path);
    reveal_strlit("");
    assert(""@.len() == 0);
}

/// A path that brings parameters of its own has them before the others.
pub proof fn own_parameters_come_first(
    base: Seq<char>,
    path: Seq<char>,
    own: Seq<char>,
    query: Seq<(Seq<char>, Seq<char>)>,
)
    requires
        without_trailing(trimmed(base), '/').len() > 0,
        !path.contains('?'),
        path.len() > 0,
        path[0] != '/',
        own.len() > 0,
    ensures
        ({
            let start = without_trailing(trimmed(base), '/');
            endpoint(base, path.push('?') + own, query) == Ok::<Seq<char>, ErrorView>(
                if query.len() == 0 {
                    start + "/"@ + path + "?"@ + own
                } else {
                    start + "/"@ + path + "?"@ + own + "&"@ + encoded_query(query)
                },
            )
        }),
{
    let whole = path.push('?') + own;
    assert(whole[0] == path[0]);
    assert(without_leading(whole, '/') == whole);
    let at = path.len() as int;
    assert(whole[at] == '?');
    assert(whole.contains('?'));
    whole.index_of_first_ensures('?');
    let first = whole.index_of_first('?')->0;
    assert(first <= at);
    if first < at {
        assert(whole[first] == path[first]);
        assert(path.contains(path[first]));
    }
    assert(whole.take(at) =~= path);
    assert(whole.skip(at + 1) =~= own);
}

/// Parameters are written one for one and in order: the name, `=` and the value, and
/// `&` between them.
pub proof fn parameters_are_written_in_order(
    query: Seq<(Seq<char>, Seq<char>)>,
    key: Seq<char>,
    value: Seq<char>,
)
    ensures
        encoded_query(Seq::empty()) == Seq::<char>::empty(),
        ({
            let pair = percent_encoded(encode_utf8(key)) + "="@ + percent_encoded(
                encode_utf8(value),
            );
            encoded_query(query.push((key, value))) == if query.len() == 0 {
                pair
            } else {
                encoded_query(query) + "&"@ + pair
            }
        }),
{
    assert(query.push((key, value)).drop_last() =~= query);
}

/// A call of the voice of Codex is made at the address of the context, or at Codex.
pub proof fn a_call_is_made_at_its_base(context: ContextView)
    ensures
        call_address(context) == endpoint(
            match context.base_url {
                Some(url) => url,
                None => "https://chatgpt.com/backend-api/codex"@,
            },
            "realtime/calls?intent=quicksilver&architecture=avas"@,
            context.query,
        ),
{
}

/// The name of a call is what its location ends in, of letters, digits, `-` and `_`
/// and no longer than 128.
pub proof fn the_name_of_a_call_ends_its_location(location: Seq<char>)
    ensures
        match call_id_of(location) {
            Ok(id) => {
                &&& id == last_piece(location, '/')
                &&& 1 <= id.len() <= 128
                &&& forall|i: int|
                    0 <= i < id.len() ==> ascii_alphanumeric(#[trigger] id[i]) || id[i] == '-'
                        || id[i] == '_'
            },
            Err(_) => {
                let id = last_piece(location, '/');
                id.len() == 0 || id.len() > 128 || exists|i: int|
                    0 <= i < id.len() && !ascii_alphanumeric(#[trigger] id[i]) && id[i] != '-'
                        && id[i] != '_'
            },
        },
{
}

/// A session is held on a socket: a safe one where its address is safe, and without
/// parameters.
pub proof fn a_session_is_held_on_a_socket(
    scheme: Seq<char>,
    query: Option<Seq<char>>,
    url: Seq<char>,
)
    ensures
        socket_scheme("https"@) == Some("wss"@),
        socket_scheme("wss"@) == Some("wss"@),
        socket_scheme("http"@) == Some("ws"@),
        socket_scheme("ws"@) == Some("ws"@),
        scheme != "https"@ && scheme != "wss"@ && scheme != "http"@ && scheme != "ws"@
            ==> socket_scheme(scheme) is None && socket_address(Ok((scheme, query)), Some(url))
            is Err,
        socket_scheme(scheme) is Some && query is None ==> socket_address(
            Ok((scheme, query)),
            Some(url),
        ) == Ok::<Seq<char>, ErrorView>(url),
        query is Some ==> socket_address(Ok((scheme, query)), Some(url)) is Err,
        socket_address(Ok((scheme, query)), None) is Err,
{
    reveal_strlit("https");
    reveal_strlit("wss");
    reveal_strlit("http");
    reveal_strlit("ws");
    assert("https"@.len() == 5);
    assert("wss"@.len() == 3);
    assert("http"@.len() == 4);
    assert("ws"@.len() == 2);
}

/// A signed request carries its host, its moment, the digest of its payload and the
/// token of its session, and says who signed it, for which day, region and service,
/// over which headers, and with which signature.
#[verifier::rlimit(40)]
pub proof fn a_signed_request_says_who_signed_what(
    method: Seq<char>,
    path: Seq<char>,
    host: Seq<char>,
    payload: Seq<u8>,
    credentials: CredentialsView,
    datetime: Seq<char>,
)
    ensures
        ({
            let headers = signed_headers(method, path, host, payload, credentials, datetime);
            let digest = hex_text(sha256(payload));
            let signed = headers_to_sign(host, datetime, digest, credentials.session_token);
            let scope = datetime.take(8) + "/"@ + credentials.region + "/bedrock/aws4_request"@;
            let canonical = method + "\n"@ + path + "\n\n"@ + header_lines(signed) + "\n"@
                + header_names(signed) + "\n"@ + digest;
            let text = "AWS4-HMAC-SHA256\n"@ + datetime + "\n"@ + scope + "\n"@ + hex_text(
                sha256(encode_utf8(canonical)),
            );
            let key = hmac_sha256(
                hmac_sha256(
                    hmac_sha256(
                        hmac_sha256(
                            encode_utf8("AWS4"@ + credentials.secret_key),
                            encode_utf8(datetime.take(8)),
                        ),
                        encode_utf8(credentials.region),
                    ),
                    encode_utf8("bedrock"@),
                ),
                encode_utf8("aws4_request"@),
            );
            &&& find(headers, "host"@) == Some(host)
            &&& find(headers, "x-amz-date"@) == Some(datetime)
            &&& find(headers, "x-amz-content-sha256"@) == Some(digest)
            &&& find(headers, "x-amz-security-token"@) == credentials.session_token
            &&& find(headers, "authorization"@) == Some(
                "AWS4-HMAC-SHA256 Credential="@ + credentials.access_key + "/"@ + scope
                    + ", SignedHeaders="@ + header_names(signed) + ", Signature="@ + hex_text(
                    hmac_sha256(key, encode_utf8(text)),
                ),
            )
        }),
{
    broadcast use found_after_put;

    reveal_strlit("host");
    reveal_strlit("x-amz-date");
    reveal_strlit("x-amz-content-sha256");
    reveal_strlit("x-amz-security-token");
    reveal_strlit("authorization");
    assert("host"@.len() == 4);
    assert("x-amz-date"@.len() == 10);
    assert("x-amz-content-sha256"@.len() == 20 && "x-amz-content-sha256"@[6] == 'c');
    assert("x-amz-security-token"@.len() == 20 && "x-amz-security-token"@[6] == 's');
    assert("authorization"@.len() == 13);
}

/// The headers that are signed are named in order, and each is a line of its own.
pub proof fn signed_headers_are_named_in_order(
    headers: Seq<(Seq<char>, Seq<char>)>,
    name: Seq<char>,
    value: Seq<char>,
)
    ensures
        header_names(headers.push((name, value))) == if headers.len() == 0 {
            name
        } else {
            header_names(headers) + ";"@ + name
        },
        header_lines(headers.push((name, value))) == header_lines(headers) + name + ":"@ + value
            + "\n"@,
{
    assert(headers.push((name, value)).drop_last() =~= headers);
}

/// A header as bytes: the length of its name, its name, the mark of a text, the
/// length of its value and its value.
pub open spec fn header_bytes(name: Seq<u8>, value: Seq<u8>) -> Seq<u8> {
    seq![name.len() as u8] + name + seq![7u8, (value.len() / 256) as u8, (value.len() % 256) as u8]
        + value
}

/// A header that was written is read as what was written, and then what comes behind
/// it.
pub proof fn a_written_header_is_read_back(
    name: Seq<u8>,
    value: Seq<u8>,
    rest: Seq<u8>,
    known: HeadersView,
    name_text: Seq<char>,
    value_text: Seq<char>,
)
    requires
        name.len() < 256,
        value.len() < 65536,
        utf8_text(name) == Some(name_text),
        utf8_text(value) == Some(value_text),
    ensures
        name_text == ":event-type"@ ==> headers_from(header_bytes(name, value) + rest, known)
            == headers_from(rest, HeadersView { event_type: Some(value_text), ..known }),
        name_text == ":message-type"@ ==> headers_from(header_bytes(name, value) + rest, known)
            == headers_from(rest, HeadersView { message_type: Some(value_text), ..known }),
        name_text == ":exception-type"@ ==> headers_from(header_bytes(name, value) + rest, known)
            == headers_from(rest, HeadersView { message_type: Some("exception"@), ..known }),
        name_text != ":event-type"@ && name_text != ":message-type"@ && name_text
            != ":exception-type"@ ==> headers_from(header_bytes(name, value) + rest, known)
            == headers_from(rest, known),
{
    reveal_strlit(":event-type");
    reveal_strlit(":message-type");
    reveal_strlit(":exception-type");
    assert(":event-type"@.len() == 11);
    assert(":message-type"@.len() == 13);
    assert(":exception-type"@.len() == 15);
    let data = header_bytes(name, value) + rest;
    let n = name.len() as int;
    let m = value.len() as int;
    assert(data[0] == n);
    assert(data.subrange(1, 1 + n) =~= name);
    assert(data[1 + n] == 7);
    assert(data[2 + n] == (m / 256) as u8 && data[3 + n] == (m % 256) as u8);
    assert(be16(data, 2 + n) == m);
    assert(data.subrange(4 + n, 4 + n + m) =~= value);
    assert(data.skip(4 + n + m) =~= rest);
}

/// A frame that reports an exception is an error with its text; a frame without a
/// payload says nothing; any other is an event with what its payload writes.
pub proof fn a_frame_is_an_event_or_an_exception(headers: HeadersView, payload: Seq<u8>)
    ensures
        headers.message_type == Some("exception"@) ==> frame_event(headers, payload) == Err::<
            Option<FrameView>,
            ErrorView,
        >(ErrorView::Transport("bedrock exception: "@ + lossy_text(payload))),
        headers.message_type != Some("exception"@) && payload.len() == 0 ==> frame_event(
            headers,
            payload,
        ) == Ok::<Option<FrameView>, ErrorView>(None),
        headers.message_type != Some("exception"@) && payload.len() > 0 ==> (parsed_json_bytes(
            payload,
        ) matches Some(value) ==> (headers.event_type matches Some(event_type) ==> frame_event(
            headers,
            payload,
        ) == Ok::<Option<FrameView>, ErrorView>(Some(FrameView { event_type, payload: value })))),
{
}

/// A part of a stream is the event that it writes; the mark of the end and blank
/// parts hold none.
pub proof fn a_part_of_a_stream_is_its_event(data: Seq<char>)
    ensures
        event_in("[DONE]"@) == Ok::<Option<JsonView>, ErrorView>(None),
        trimmed(data).len() == 0 ==> event_in(data) == Ok::<Option<JsonView>, ErrorView>(None),
        data != "[DONE]"@ && trimmed(data).len() > 0 ==> match parsed_json(data) {
            Ok(event) => event_in(data) == Ok::<Option<JsonView>, ErrorView>(Some(event)),
            Err(message) => event_in(data) == Err::<Option<JsonView>, ErrorView>(
                ErrorView::Json(message),
            ),
        },
{
}

/// The machine of a session is there to be taken once, and the frames of a round are
/// there while one runs.
pub proof fn a_session_hands_out_what_it_has(slots: SessionSlots)
    ensures
        machine_taken(slots).1 is Ok <==> slots.machine,
        !machine_taken(slots).0.machine,
        machine_taken(slots).0.frames == slots.frames,
        frames_taken(slots).1 is Ok <==> slots.frames,
        !frames_taken(slots).0.frames,
        frames_taken(slots).0.machine == slots.machine,
        stream_started(slots).1 is Ok <==> slots.machine && !slots.frames,
        stream_started(slots).1 is Ok ==> stream_started(slots).0.frames,
{
}

} // verus!
