//! The frames of an AWS event stream.
use vstd::prelude::*;

use crate::codec::crc32_of;
#[allow(unused_imports)]
use crate::codec::crc32;
use crate::error::Error;
#[allow(unused_imports)]
use crate::error::{outcome, ErrorView};
use crate::json::{parse_json_bytes, Json};
#[allow(unused_imports)]
use crate::json::{or_empty, parsed_json_bytes, JsonView};
use crate::text::{cat, owned, same, text_from_utf8, text_from_utf8_lossy};
#[allow(unused_imports)]
use crate::text::{lossy_text, utf8_text};

verus! {

/// What a frame holds.
#[derive(Debug)]
pub struct BedrockEvent {
    pub event_type: String,
    pub payload: Json,
}

/// What a frame holds.
pub struct FrameView {
    pub event_type: Seq<char>,
    pub payload: JsonView,
}

impl DeepView for BedrockEvent {
    type V = FrameView;

    open spec fn deep_view(&self) -> FrameView {
        FrameView { event_type: self.event_type@, payload: self.payload@ }
    }
}

/// What the headers of a frame say.
#[derive(Debug)]
pub struct EventHeaders {
    pub event_type: Option<String>,
    pub message_type: Option<String>,
}

/// What the headers of a frame say.
pub struct HeadersView {
    pub event_type: Option<Seq<char>>,
    pub message_type: Option<Seq<char>>,
}

impl DeepView for EventHeaders {
    type V = HeadersView;

    open spec fn deep_view(&self) -> HeadersView {
        HeadersView {
            event_type: self.event_type.deep_view(),
            message_type: self.message_type.deep_view(),
        }
    }
}

/// The four bytes at a place as a number, the highest first.
pub open spec fn be32(bytes: Seq<u8>, at: int) -> int {
    bytes[at] * 16777216 + bytes[at + 1] * 65536 + bytes[at + 2] * 256 + bytes[at + 3]
}

/// The two bytes at a place as a number, the highest first.
pub open spec fn be16(bytes: Seq<u8>, at: int) -> int {
    bytes[at] * 256 + bytes[at + 1]
}

/// The headers with one more.
pub open spec fn with_header(headers: HeadersView, name: Seq<char>, value: Seq<char>) -> HeadersView {
    if name == ":event-type"@ {
        HeadersView { event_type: Some(value), ..headers }
    } else if name == ":message-type"@ {
        HeadersView { message_type: Some(value), ..headers }
    } else if name == ":exception-type"@ {
        HeadersView { message_type: Some("exception"@), ..headers }
    } else {
        headers
    }
}

/// What headers say, behind what is known already. A header is the length of its
/// name, its name, its type and its value; a text has the type 7 and its length
/// before it. What cannot be read ends the headers.
pub open spec fn headers_from(data: Seq<u8>, known: HeadersView) -> HeadersView
    decreases data.len(),
{
    if data.len() <= 3 {
        known
    } else {
        let name_end = 1 + data[0] as int;
        if data.len() < name_end + 1 {
            known
        } else {
            match utf8_text(data.subrange(1, name_end)) {
                None => known,
                Some(name) => {
                    let start = name_end + 3;
                    if data[name_end] != 7 || data.len() < start {
                        known
                    } else {
                        let end = start + be16(data, name_end + 1);
                        if data.len() < end {
                            known
                        } else {
                            let value = or_empty(utf8_text(data.subrange(start, end)));
                            headers_from(data.skip(end), with_header(known, name, value))
                        }
                    }
                },
            }
        }
    }
}

/// Nothing known.
pub open spec fn no_headers() -> HeadersView {
    HeadersView { event_type: None, message_type: None }
}

/// What headers say.
pub open spec fn headers_of(data: Seq<u8>) -> HeadersView {
    headers_from(data, no_headers())
}

/// Whether the bytes hold a whole frame.
pub open spec fn is_whole(buffer: Seq<u8>) -> bool {
    buffer.len() >= 12 && buffer.len() >= be32(buffer, 0)
}

/// Whether the checksum of a frame's first part is right.
pub open spec fn prelude_is_right(buffer: Seq<u8>) -> bool {
    be32(buffer, 8) == crc32(buffer.subrange(0, 8))
}

/// Whether the checksum of a frame is right.
pub open spec fn message_is_right(buffer: Seq<u8>) -> bool {
    let end = be32(buffer, 0) - 4;
    be32(buffer, end) == crc32(buffer.subrange(0, end))
}

/// Whether the lengths of a frame fit each other as far as they are relied on: a
/// frame holds its own checksum, and one whose checksums are right holds its
/// headers.
pub open spec fn lengths_fit(buffer: Seq<u8>) -> bool {
    is_whole(buffer) ==> {
        &&& be32(buffer, 0) >= 4
        &&& prelude_is_right(buffer) && message_is_right(buffer) ==> 16 + be32(buffer, 4) <= be32(
            buffer,
            0,
        )
    }
}

/// The frame with a payload, where it could be read.
pub open spec fn frame_with(headers: HeadersView, payload: Option<JsonView>) -> Option<FrameView> {
    match payload {
        Some(payload) => Some(FrameView { event_type: or_empty(headers.event_type), payload }),
        None => None,
    }
}

/// What a frame with these headers and this payload is.
pub open spec fn frame_event(headers: HeadersView, payload: Seq<u8>) -> Result<
    Option<FrameView>,
    ErrorView,
> {
    if headers.message_type == Some("exception"@) {
        Err(ErrorView::Transport("bedrock exception: "@ + lossy_text(payload)))
    } else if payload.len() == 0 {
        Ok(None)
    } else {
        Ok(frame_with(headers, parsed_json_bytes(payload)))
    }
}

/// What the first frame of the bytes is, and the bytes behind it. Before the
/// frame is whole there is nothing.
pub open spec fn next_frame(buffer: Seq<u8>) -> (Seq<u8>, Result<Option<FrameView>, ErrorView>) {
    if !is_whole(buffer) {
        (buffer, Ok(None))
    } else {
        let total = be32(buffer, 0);
        let rest = buffer.skip(total);
        if !prelude_is_right(buffer) {
            (rest, Err(ErrorView::Transport("event stream prelude CRC mismatch"@)))
        } else if !message_is_right(buffer) {
            (rest, Err(ErrorView::Transport("event stream message CRC mismatch"@)))
        } else {
            let headers_end = 12 + be32(buffer, 4);
            (
                rest,
                frame_event(
                    headers_of(buffer.subrange(12, headers_end)),
                    buffer.subrange(headers_end, total - 4),
                ),
            )
        }
    }
}

fn read_be32(bytes: &Vec<u8>, at: usize) -> (n: u64)
    requires
        at + 4 <= bytes@.len(),
    ensures
        n == be32(bytes@, at as int),
        n <= u32::MAX,
{
    let length: usize = bytes.len();
    assert(at + 4 <= length);
    bytes[at] as u64 * 16777216 + bytes[at + 1] as u64 * 65536 + bytes[at + 2] as u64 * 256
        + bytes[at + 3] as u64
}

fn part(bytes: &Vec<u8>, from: usize, to: usize) -> (out: Vec<u8>)
    requires
        from <= to <= bytes@.len(),
    ensures
        out@ == bytes@.subrange(from as int, to as int),
{
    let mut out: Vec<u8> = Vec::new();
    for i in from..to
        invariant
            from <= to <= bytes@.len(),
            out@ =~= bytes@.subrange(from as int, i as int),
    {
        out.push(bytes[i]);
    }
    out
}

/// Reads the headers of a frame.
pub fn parse_event_headers(data: &Vec<u8>) -> (headers: EventHeaders)
    ensures
        headers.deep_view() == headers_of(data@),
{
    let mut headers = EventHeaders { event_type: None, message_type: None };
    let mut at: usize = 0;
    assert(data@.skip(0) =~= data@);
    while data.len() - at > 3
        invariant
            at <= data@.len(),
            headers_of(data@) == headers_from(data@.skip(at as int), headers.deep_view()),
        decreases data@.len() - at,
    {
        let ghost rest = data@.skip(at as int);
        let left: usize = data.len() - at;
        assert(rest[0] == data@[at as int]);
        let name_length: usize = data[at] as usize;
        if left < name_length + 2 {
            return headers;
        }
        assert(rest.subrange(1, 1 + name_length) =~= data@.subrange(
            at + 1,
            at + 1 + name_length,
        ));
        let name = match text_from_utf8(
            part(data, at + 1, at + 1 + name_length).as_slice(),
        ) {
            Some(name) => name,
            None => return headers,
        };
        let type_at: usize = at + 1 + name_length;
        assert(rest[1 + name_length] == data@[type_at as int]);
        if data[type_at] != 7 || left < name_length + 4 {
            return headers;
        }
        assert(rest[2 + name_length] == data@[type_at + 1]);
        assert(rest[3 + name_length] == data@[type_at + 2]);
        let value_length: usize = data[type_at + 1] as usize * 256 + data[type_at + 2] as usize;
        let start: usize = type_at + 3;
        if data.len() - start < value_length {
            return headers;
        }
        let end: usize = start + value_length;
        assert(rest.subrange(start - at, end - at) =~= data@.subrange(start as int, end as int));
        let value = match text_from_utf8(part(data, start, end).as_slice()) {
            Some(value) => value,
            None => {
                let none = String::new();
                assert(none@ =~= Seq::empty());
                none
            },
        };
        if same(name.as_str(), ":event-type") {
            headers.event_type = Some(value);
        } else if same(name.as_str(), ":message-type") {
            headers.message_type = Some(value);
        } else if same(name.as_str(), ":exception-type") {
            headers.message_type = Some(owned("exception"));
        }
        assert(rest.skip(end - at) =~= data@.skip(end as int));
        at = end;
    }
    headers
}

/// The bytes of a stream that were not yet read as frames.
#[derive(Debug)]
pub struct EventStreamDecoder {
    pub buffer: Vec<u8>,
}

impl View for EventStreamDecoder {
    type V = Seq<u8>;

    open spec fn view(&self) -> Seq<u8> {
        self.buffer@
    }
}

impl EventStreamDecoder {
    /// No bytes.
    pub fn new() -> (decoder: Self)
        ensures
            decoder@ == Seq::<u8>::empty(),
    {
        EventStreamDecoder { buffer: Vec::new() }
    }

    /// Takes in bytes of the stream.
    pub fn push(&mut self, data: &[u8])
        ensures
            final(self)@ == old(self)@ + data@,
    {
        self.buffer.extend_from_slice(data);
    }

    /// The next frame, where it is whole.
    pub fn next_event(&mut self) -> (event: Result<Option<BedrockEvent>, Error>)
        requires
            lengths_fit(old(self)@),
        ensures
            (final(self)@, outcome(event)) == next_frame(old(self)@),
    {
        let ghost bytes = self.buffer@;
        if self.buffer.len() < 12 {
            return Ok(None);
        }
        let total: u64 = read_be32(&self.buffer, 0);
        if (self.buffer.len() as u64) < total {
            return Ok(None);
        }
        let total: usize = total as usize;
        let rest = part(&self.buffer, total, self.buffer.len());
        assert(rest@ =~= bytes.skip(total as int));
        let prelude = crc32_of(part(&self.buffer, 0, 8).as_slice());
        if read_be32(&self.buffer, 8) != prelude as u64 {
            self.buffer = rest;
            return Err(Error::Transport(owned("event stream prelude CRC mismatch")));
        }
        let payload_end: usize = total - 4;
        let message = crc32_of(part(&self.buffer, 0, payload_end).as_slice());
        if read_be32(&self.buffer, payload_end) != message as u64 {
            self.buffer = rest;
            return Err(Error::Transport(owned("event stream message CRC mismatch")));
        }
        let headers_end: usize = 12 + read_be32(&self.buffer, 4) as usize;
        let headers = parse_event_headers(&part(&self.buffer, 12, headers_end));
        let payload = part(&self.buffer, headers_end, payload_end);
        self.buffer = rest;
        read_frame(headers, &payload)
    }

    /// The next frame, where it is whole and its lengths fit each other. Where
    /// they do not, there is nothing, and the bytes stay.
    pub fn checked_next_event(&mut self) -> (event: Option<Result<Option<BedrockEvent>, Error>>)
        ensures
            match event {
                Some(event) => lengths_fit(old(self)@) && (final(self)@, outcome(event))
                    == next_frame(old(self)@),
                None => !lengths_fit(old(self)@) && final(self)@ == old(self)@,
            },
    {
        if self.buffer.len() >= 12 {
            let total: u64 = read_be32(&self.buffer, 0);
            if self.buffer.len() as u64 >= total {
                if total < 4 {
                    return None;
                }
                let end: usize = total as usize - 4;
                let prelude = crc32_of(part(&self.buffer, 0, 8).as_slice());
                let message = crc32_of(part(&self.buffer, 0, end).as_slice());
                if read_be32(&self.buffer, 8) == prelude as u64 && read_be32(&self.buffer, end)
                    == message as u64 && 16 + read_be32(&self.buffer, 4) > total {
                    return None;
                }
            }
        }
        Some(self.next_event())
    }
}

/// The frame with a payload as it was read out of its bytes.
pub fn frame_of(headers: EventHeaders, payload: Option<Json>) -> (event: Option<BedrockEvent>)
    ensures
        event.deep_view() == frame_with(headers.deep_view(), payload.deep_view()),
{
    match payload {
        Some(payload) => {
            let event_type = match headers.event_type {
                Some(event_type) => event_type,
                None => {
                    let none = String::new();
                    assert(none@ =~= Seq::empty());
                    none
                },
            };
            Some(BedrockEvent { event_type, payload })
        },
        None => None,
    }
}

fn read_frame(headers: EventHeaders, payload: &Vec<u8>) -> (event: Result<
    Option<BedrockEvent>,
    Error,
>)
    ensures
        outcome(event) == frame_event(headers.deep_view(), payload@),
{
    let exception = match &headers.message_type {
        Some(kind) => same(kind.as_str(), "exception"),
        None => false,
    };
    if exception {
        let body = text_from_utf8_lossy(payload.as_slice());
        return Err(Error::Transport(cat("bedrock exception: ", body.as_str())));
    }
    if payload.len() == 0 {
        return Ok(None);
    }
    Ok(frame_of(headers, parse_json_bytes(payload.as_slice())))
}

/// A number as four bytes, the highest first.
#[verifier::opaque]
pub open spec fn be32_bytes(n: int) -> Seq<u8> {
    seq![
        (n / 16777216 % 256) as u8,
        (n / 65536 % 256) as u8,
        (n / 256 % 256) as u8,
        (n % 256) as u8,
    ]
}

/// The first part of a frame.
pub open spec fn prelude(headers: Seq<u8>, payload: Seq<u8>) -> Seq<u8> {
    be32_bytes((16 + headers.len() + payload.len()) as int) + be32_bytes(headers.len() as int)
}

/// A frame up to its checksum.
pub open spec fn message(headers: Seq<u8>, payload: Seq<u8>) -> Seq<u8> {
    prelude(headers, payload) + be32_bytes(crc32(prelude(headers, payload)) as int) + headers
        + payload
}

/// A frame with these headers and this payload.
pub open spec fn frame(headers: Seq<u8>, payload: Seq<u8>) -> Seq<u8> {
    message(headers, payload) + be32_bytes(crc32(message(headers, payload)) as int)
}

proof fn lemma_be32(n: int, bytes: Seq<u8>, at: int)
    requires
        0 <= n <= u32::MAX,
        0 <= at,
        at + 4 <= bytes.len(),
        bytes.subrange(at, at + 4) == be32_bytes(n),
    ensures
        be32(bytes, at) == n,
{
    reveal(be32_bytes);
    let four = bytes.subrange(at, at + 4);
    assert(four[0] == bytes[at]);
    assert(four[1] == bytes[at + 1]);
    assert(four[2] == bytes[at + 2]);
    assert(four[3] == bytes[at + 3]);
}

proof fn lemma_four(n: int)
    ensures
        be32_bytes(n).len() == 4,
{
    reveal(be32_bytes);
}

/// A frame that was written is read as what was written, and what comes behind it
/// stays.
pub proof fn a_written_frame_is_read_back(headers: Seq<u8>, payload: Seq<u8>, rest: Seq<u8>)
    requires
        16 + headers.len() + payload.len() <= u32::MAX,
    ensures
        lengths_fit(frame(headers, payload) + rest),
        next_frame(frame(headers, payload) + rest) == (
            rest,
            frame_event(headers_of(headers), payload),
        ),
{
    let h = headers.len() as int;
    let p = payload.len() as int;
    let total = 16 + h + p;
    let bytes = frame(headers, payload) + rest;
    let first = prelude(headers, payload);
    let body = message(headers, payload);
    lemma_four(total);
    lemma_four(h);
    lemma_four(crc32(first) as int);
    lemma_four(crc32(body) as int);
    assert(first.len() == 8);
    assert(body.len() == 12 + h + p);
    assert(bytes.subrange(0, 4) =~= be32_bytes(total));
    assert(bytes.subrange(4, 8) =~= be32_bytes(h));
    assert(bytes.subrange(0, 8) =~= first);
    assert(bytes.subrange(8, 12) =~= be32_bytes(crc32(first) as int));
    assert(bytes.subrange(0, total - 4) =~= body);
    assert(bytes.subrange(total - 4, total) =~= be32_bytes(crc32(body) as int));
    lemma_be32(total, bytes, 0);
    lemma_be32(h, bytes, 4);
    lemma_be32(crc32(first) as int, bytes, 8);
    lemma_be32(crc32(body) as int, bytes, total - 4);
    assert(bytes.subrange(12, 12 + h) =~= headers);
    assert(bytes.subrange(12 + h, total - 4) =~= payload);
    assert(bytes.skip(total) =~= rest);
}

/// A frame that is not yet whole stays; one that is whole is gone, whatever was
/// in it, and what comes behind it is read next.
pub proof fn a_whole_frame_is_read_once(buffer: Seq<u8>)
    ensures
        !is_whole(buffer) ==> next_frame(buffer).0 == buffer,
        is_whole(buffer) ==> next_frame(buffer).0 == buffer.skip(be32(buffer, 0)),
{
}

/// Bytes that come behind a whole frame do not change how it is read.
pub proof fn later_bytes_do_not_change_a_frame(buffer: Seq<u8>, more: Seq<u8>)
    requires
        is_whole(buffer),
        lengths_fit(buffer),
    ensures
        next_frame(buffer + more).1 == next_frame(buffer).1,
        next_frame(buffer + more).0 == next_frame(buffer).0 + more,
{
    let all = buffer + more;
    let total = be32(buffer, 0);
    assert(be32(all, 0) == total);
    assert(be32(all, 4) == be32(buffer, 4));
    assert(be32(all, 8) == be32(buffer, 8));
    assert(be32(all, total - 4) == be32(buffer, total - 4));
    assert(all.subrange(0, 8) =~= buffer.subrange(0, 8));
    assert(all.subrange(0, total - 4) =~= buffer.subrange(0, total - 4));
    assert(all.skip(total) =~= buffer.skip(total) + more);
    if prelude_is_right(buffer) && message_is_right(buffer) {
        let end = 12 + be32(buffer, 4);
        assert(all.subrange(12, end) =~= buffer.subrange(12, end));
        assert(all.subrange(end, total - 4) =~= buffer.subrange(end, total - 4));
    }
}

} // verus!
