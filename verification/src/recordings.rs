//! What a recording of spoken text is.
use vstd::prelude::*;

#[allow(unused_imports)]
use crate::codec::{base64_bytes, base64_text};
#[allow(unused_imports)]
use crate::codex_speech::{
    call_interruption_error, channel_event, closes_if_ready, codex_session, media_heard,
    names_account, sample_bytes, sideband_heard, ticked, CallInterruption, MediaView, SidebandView,
    VoiceView, CODEX_INSTRUCTIONS,
};
#[allow(unused_imports)]
use crate::endpoint::endpoint;
#[allow(unused_imports)]
use crate::error::ErrorView;
#[allow(unused_imports)]
use crate::json::{field, json_text, number_field, text_field, JsonView};
#[allow(unused_imports)]
use crate::machine::not_empty;
#[allow(unused_imports)]
use crate::ordered::{find, found_after_put, same_name};
#[allow(unused_imports)]
use crate::providers::{ContextView, Provider};
#[allow(unused_imports)]
use crate::speech::{
    direction, first_sound, heard, interruption_error, is_apostrophe, is_loud, is_ready, last_sound,
    le16, le32, live_address, live_headers_of, live_plan, live_start, parsed_url, recording_of,
    result_of_take, sample_count, silence, sounds_lie_within_the_take, trimmed_sound,
    url_with_scheme, wav_head, with_model, word_runs, words_in, words_of, Interruption, LiveView,
    SpeechFormat, SpeechRequestView, TakeView, LIVE_INSTRUCTIONS, MOST_BYTES, PAD_SAMPLES,
    QUIET_SAMPLES,
};
#[allow(unused_imports)]
use crate::text::{alphanumeric, ascii_lower_text, trimmed};

verus! {

/// The two bytes at a place as a number, the lowest first.
pub open spec fn number16(bytes: Seq<u8>, at: int) -> int {
    bytes[at] + 256 * bytes[at + 1]
}

/// The four bytes at a place as a number, the lowest first.
pub open spec fn number32(bytes: Seq<u8>, at: int) -> int {
    bytes[at] + 256 * bytes[at + 1] + 65536 * bytes[at + 2] + 16777216 * bytes[at + 3]
}

proof fn lemma_number32(bytes: Seq<u8>, at: int, n: int)
    requires
        0 <= n < 0x1_0000_0000,
        0 <= at,
        at + 4 <= bytes.len(),
        bytes.subrange(at, at + 4) == le32(n),
    ensures
        number32(bytes, at) == n,
{
    let part = bytes.subrange(at, at + 4);
    assert(part[0] == bytes[at] && part[1] == bytes[at + 1] && part[2] == bytes[at + 2] && part[3]
        == bytes[at + 3]);
    assert(n == n % 256 + 256 * (n / 256 % 256) + 65536 * (n / 65536 % 256) + 16777216 * (n
        / 16777216 % 256));
}

proof fn lemma_number16(bytes: Seq<u8>, at: int, n: int)
    requires
        0 <= n < 0x1_0000,
        0 <= at,
        at + 2 <= bytes.len(),
        bytes.subrange(at, at + 2) == le16(n),
    ensures
        number16(bytes, at) == n,
{
    let part = bytes.subrange(at, at + 2);
    assert(part[0] == bytes[at] && part[1] == bytes[at + 1]);
}

/// The head of a WAV file says what the sound behind it is: plain samples, one
/// channel, 24000 samples a second, 16 bits each, and how many bytes there are.
pub proof fn a_wav_head_says_what_the_sound_is(size: int)
    requires
        0 <= size <= MOST_BYTES,
    ensures
        ({
            let head = wav_head(size);
            let channels = number16(head, 22);
            let rate = number32(head, 24);
            let bits = number16(head, 34);
            &&& head.len() == 44
            &&& head.subrange(0, 4) == seq!['R' as u8, 'I' as u8, 'F' as u8, 'F' as u8]
            &&& number32(head, 4) == head.len() + size - 8
            &&& head.subrange(8, 16) == seq![
                'W' as u8,
                'A' as u8,
                'V' as u8,
                'E' as u8,
                'f' as u8,
                'm' as u8,
                't' as u8,
                ' ' as u8,
            ]
            &&& number32(head, 16) == 16
            &&& number16(head, 20) == 1
            &&& channels == 1
            &&& rate == 24000
            &&& bits == 16
            &&& number32(head, 28) == 48000
            &&& number32(head, 28) == rate * channels * bits / 8
            &&& number16(head, 32) == 2
            &&& number16(head, 32) == channels * bits / 8
            &&& head.subrange(36, 40) == seq!['d' as u8, 'a' as u8, 't' as u8, 'a' as u8]
            &&& number32(head, 40) == size
        }),
{
    reveal(wav_head);
    let head = wav_head(size);
    assert(head.subrange(4, 8) =~= le32(size + 36));
    lemma_number32(head, 4, size + 36);
    assert(head.subrange(16, 20) =~= le32(16));
    lemma_number32(head, 16, 16);
    assert(head.subrange(20, 22) =~= le16(1));
    lemma_number16(head, 20, 1);
    assert(head.subrange(22, 24) =~= le16(1));
    lemma_number16(head, 22, 1);
    assert(head.subrange(24, 28) =~= le32(24000));
    lemma_number32(head, 24, 24000);
    assert(head.subrange(28, 32) =~= le32(48000));
    lemma_number32(head, 28, 48000);
    assert(head.subrange(32, 34) =~= le16(2));
    lemma_number16(head, 32, 2);
    assert(head.subrange(34, 36) =~= le16(16));
    lemma_number16(head, 34, 16);
    assert(head.subrange(40, 44) =~= le32(size));
    lemma_number32(head, 40, size);
    assert(head.subrange(0, 4) =~= seq![82u8, 73, 70, 70]);
    assert(head.subrange(8, 16) =~= seq![87u8, 65, 86, 69, 102, 109, 116, 32]);
    assert(head.subrange(36, 40) =~= seq![100u8, 97, 116, 97]);
}

/// A recording as a WAV file is the recording as plain samples behind a head that
/// says how many they are: as many frames as samples.
pub proof fn a_wav_file_holds_the_plain_samples(pcm: Seq<u8>)
    requires
        pcm.len() <= MOST_BYTES,
    ensures
        match (recording_of(pcm, SpeechFormat::Wav), recording_of(pcm, SpeechFormat::Pcm)) {
            (Ok(wav), Ok(sound)) => {
                &&& sound == trimmed_sound(pcm)
                &&& wav.len() == 44 + sound.len()
                &&& wav.skip(44) == sound
                &&& number32(wav, 40) == sound.len()
                &&& number32(wav, 40) / number16(wav, 32) == sample_count(sound)
                &&& number32(wav, 24) == 24000
                &&& number16(wav, 22) == 1
            },
            (Err(a), Err(b)) => a == b && (first_sound(pcm) is None || pcm.len() % 2 != 0),
            _ => false,
        },
{
    if first_sound(pcm) is Some && pcm.len() % 2 == 0 {
        sounds_lie_within_the_take(pcm);
        let sound = trimmed_sound(pcm);
        let head = wav_head(sound.len() as int);
        let wav = head + sound;
        a_wav_head_says_what_the_sound_is(sound.len() as int);
        assert(wav.skip(44) =~= sound);
        assert(wav[40] == head[40] && wav[41] == head[41] && wav[42] == head[42] && wav[43]
            == head[43]);
        assert(wav[32] == head[32] && wav[33] == head[33]);
        assert(wav[24] == head[24] && wav[25] == head[25] && wav[26] == head[26] && wav[27]
            == head[27]);
        assert(wav[22] == head[22] && wav[23] == head[23]);
    }
}

/// At 24000 samples a second of two bytes each: two seconds of quiet end a take,
/// a fifth of a second is kept around it, and it is no longer than 120 seconds.
pub proof fn a_take_is_measured_in_seconds()
    ensures
        QUIET_SAMPLES == 2 * 24000,
        5 * PAD_SAMPLES == 24000,
        MOST_BYTES == 120 * 24000 * 2,
{
}

/// The value of a sample: two bytes, the lowest first, the highest bit its sign.
pub open spec fn sample(pcm: Seq<u8>, at: int) -> int {
    if pcm[2 * at + 1] < 128 {
        pcm[2 * at] + 256 * pcm[2 * at + 1]
    } else {
        pcm[2 * at] + 256 * pcm[2 * at + 1] - 65536
    }
}

/// A sample is heard where it is more than 64 away from nothing, to either side.
pub proof fn a_sample_is_heard_above_64(pcm: Seq<u8>, at: int)
    requires
        0 <= at < sample_count(pcm),
    ensures
        is_loud(pcm, at) <==> sample(pcm, at) > 64 || sample(pcm, at) < -64,
{
}

/// A take is complete where the last sound that is heard lies two seconds back and
/// the words that were said are those that are expected.
pub proof fn a_take_is_complete_after_its_words_and_quiet(
    take: TakeView,
    expected: Seq<Seq<char>>,
)
    ensures
        is_ready(take, expected) <==> {
            &&& words_of(take.transcript) == expected
            &&& exists|at: int|
                0 <= at < sample_count(take.pcm) - 48000 && #[trigger] is_loud(take.pcm, at)
            &&& forall|at: int|
                0 <= at < sample_count(take.pcm) && #[trigger] is_loud(take.pcm, at) ==> at
                    < sample_count(take.pcm) - 48000
        },
{
    sounds_lie_within_the_take(take.pcm);
    let count = sample_count(take.pcm) as int;
    let last = last_sound(take.pcm);
    if first_sound(take.pcm) is Some {
        assert(is_loud(take.pcm, last - 1));
        if count >= last + 48000 {
            assert forall|at: int| 0 <= at < count && #[trigger] is_loud(take.pcm, at) implies at
                < count - 48000 by {}
        }
    }
}

/// The result of a take holds the recording and says what it is.
pub proof fn a_result_says_what_was_recorded(
    request: SpeechRequestView,
    take: TakeView,
    usage: JsonView,
)
    ensures
        match result_of_take(request, take, usage) {
            Ok(result) => {
                &&& recording_of(take.pcm, request.format) matches Ok(content)
                    && result.content_base64 == base64_text(content)
                &&& result.model == request.model
                &&& result.voice == request.voice
                &&& result.format == request.format
                &&& result.transcript == take.transcript
                &&& result.usage == usage
                &&& request.format == SpeechFormat::Wav ==> result.content_type == "audio/wav"@
                &&& request.format == SpeechFormat::Pcm ==> result.content_type == "audio/pcm"@
            },
            Err(error) => recording_of(take.pcm, request.format) == Err::<Seq<u8>, ErrorView>(error),
        },
{
}

/// The message that starts a session hands over the script as the user's message,
/// the direction in the instructions, and the voice, and asks for plain samples at
/// 24000 a second.
pub proof fn a_session_is_started_with_its_script(request: SpeechRequestView)
    ensures
        match live_start(request) {
            Ok(message) => {
                &&& request.context.provider == Provider::Openai
                &&& trimmed(request.input).len() > 0 && trimmed(request.voice).len() > 0 && trimmed(
                    request.model,
                ).len() > 0
                &&& text_field(message, "type"@) == Some("session.start"@)
                &&& field(message, "session"@) matches Some(session)
                &&& text_field(session, "model"@) == Some(request.model)
                &&& text_field(session, "instructions"@) == Some(
                    LIVE_INSTRUCTIONS@ + match request.instructions {
                        Some(instructions) => instructions,
                        None => "Speak naturally."@,
                    },
                )
                &&& field(session, "store"@) == Some(JsonView::Bool(false))
                &&& field(session, "delegation"@) matches Some(delegation)
                &&& text_field(delegation, "type"@) == Some("client"@)
                &&& field(session, "audio"@) matches Some(audio)
                &&& field(audio, "output"@) matches Some(output)
                &&& text_field(output, "voice"@) == Some(request.voice)
                &&& field(audio, "format"@) matches Some(format)
                &&& text_field(format, "type"@) == Some("audio/pcm"@)
                &&& number_field(format, "rate"@) == Some(24000u64)
                &&& field(session, "input"@) matches Some(JsonView::List(input))
                &&& input.len() == 1
                &&& text_field(input[0], "type"@) == Some("message"@)
                &&& text_field(input[0], "role"@) == Some("user"@)
                &&& field(input[0], "content"@) matches Some(JsonView::List(parts))
                &&& parts.len() == 1
                &&& text_field(parts[0], "type"@) == Some("input_text"@)
                &&& text_field(parts[0], "text"@) == Some(request.input)
            },
            Err(_) => request.context.provider != Provider::Openai || trimmed(request.input).len()
                == 0 || trimmed(request.voice).len() == 0 || trimmed(request.model).len() == 0,
        },
{
    broadcast use found_after_put;

    reveal_strlit("type");
    reveal_strlit("session");
    reveal_strlit("model");
    reveal_strlit("instructions");
    reveal_strlit("input");
    reveal_strlit("audio");
    reveal_strlit("delegation");
    reveal_strlit("store");
    reveal_strlit("format");
    reveal_strlit("output");
    reveal_strlit("rate");
    reveal_strlit("role");
    reveal_strlit("content");
    reveal_strlit("text");
    reveal_strlit("voice");
    assert("type"@.len() == 4 && "type"@[0] == 't' && "type"@[1] == 'y');
    assert("session"@.len() == 7 && "session"@[0] == 's');
    assert("model"@.len() == 5 && "model"@[0] == 'm');
    assert("instructions"@.len() == 12);
    assert("input"@.len() == 5 && "input"@[0] == 'i');
    assert("audio"@.len() == 5 && "audio"@[0] == 'a');
    assert("delegation"@.len() == 10);
    assert("store"@.len() == 5 && "store"@[0] == 's');
    assert("format"@.len() == 6 && "format"@[0] == 'f');
    assert("output"@.len() == 6 && "output"@[0] == 'o');
    assert("rate"@.len() == 4 && "rate"@[0] == 'r' && "rate"@[1] == 'a');
    assert("role"@.len() == 4 && "role"@[0] == 'r' && "role"@[1] == 'o');
    assert("content"@.len() == 7 && "content"@[0] == 'c');
    assert("text"@.len() == 4 && "text"@[0] == 't' && "text"@[1] == 'e');
    assert("voice"@.len() == 5 && "voice"@[0] == 'v');
}

/// A session that has started is asked for its line, and then told to begin.
pub proof fn a_session_is_asked_for_its_line(session: LiveView, event: JsonView)
    ensures
        field(event, "type"@) == Some(JsonView::Text("session.started"@)) ==> (heard(
            session,
            event,
        ) matches (after, Ok(reply)) && after.started && reply.messages.len() > 0 && text_field(
            reply.messages[0],
            "type"@,
        ) == Some("session.instructions.append"@) && text_field(reply.messages[0], "event_id"@)
            == Some("speak"@)),
        field(event, "type"@) == Some(JsonView::Text("session.instructions.appended"@)) && field(
            event,
            "client_event_id"@,
        ) == Some(JsonView::Text("speak"@)) ==> (heard(session, event).1 matches Ok(reply)
            && reply.messages.len() > 0 && text_field(reply.messages[0], "type"@) == Some(
            "session.commentary.append"@,
        ) && text_field(reply.messages[0], "event_id"@) == Some("begin"@)),
{
    broadcast use found_after_put;

    reveal_strlit("session.started");
    reveal_strlit("session.instructions.appended");
    reveal_strlit("type");
    reveal_strlit("event_id");
    reveal_strlit("delegation_id");
    reveal_strlit("content");
    assert("session.started"@.len() == 15);
    assert("session.instructions.appended"@.len() == 29);
    assert("type"@.len() == 4);
    assert("event_id"@.len() == 8);
    assert("delegation_id"@.len() == 13);
    assert("content"@.len() == 7);
}

/// The sound and the words that come in are put behind those of the take; a take
/// that is complete with them closes the session, and no other does.
pub proof fn what_is_heard_goes_into_the_take(session: LiveView, event: JsonView, delta: Seq<char>)
    requires
        field(event, "delta"@) == Some(JsonView::Text(delta)),
    ensures
        ({
            let (after, reply) = heard(session, event);
            &&& field(event, "type"@) == Some(JsonView::Text("session.output_transcript.delta"@))
                ==> {
                &&& after.take.transcript == session.take.transcript + delta
                &&& after.take.pcm == session.take.pcm
                &&& reply is Ok
                &&& after.closing == (session.closing || is_ready(after.take, session.expected))
                &&& reply->Ok_0.messages.len() == if after.closing && !session.closing {
                    1int
                } else {
                    0
                }
            }
            &&& field(event, "type"@) == Some(JsonView::Text("session.output_audio.delta"@))
                ==> match base64_bytes(delta) {
                Ok(bytes) => if session.take.pcm.len() + bytes.len() <= MOST_BYTES {
                    &&& after.take.pcm == session.take.pcm + bytes
                    &&& after.take.transcript == session.take.transcript
                    &&& reply is Ok
                    &&& after.closing == (session.closing || is_ready(after.take, session.expected))
                    &&& reply->Ok_0.messages.len() == if after.closing && !session.closing {
                        1int
                    } else {
                        0
                    }
                } else {
                    reply is Err && after.take == session.take
                },
                Err(_) => reply is Err && after.take == session.take,
            }
        }),
{
    reveal_strlit("session.started");
    reveal_strlit("session.instructions.appended");
    reveal_strlit("session.output_audio.delta");
    reveal_strlit("session.output_transcript.delta");
    assert("session.started"@.len() == 15);
    assert("session.instructions.appended"@.len() == 29);
    assert("session.output_audio.delta"@.len() == 26);
    assert("session.output_transcript.delta"@.len() == 31);
}

/// A session that is closed as asked gives its recording, with the usage that was
/// reported; an error ends it without one.
pub proof fn a_closed_session_gives_its_recording(session: LiveView, event: JsonView)
    ensures
        field(event, "type"@) == Some(JsonView::Text("session.closed"@)) && field(event, "reason"@)
            == Some(JsonView::Text("close_requested"@)) && session.closing && is_ready(
            session.take,
            session.expected,
        ) ==> match recording_of(session.take.pcm, session.request.format) {
            Ok(content) => heard(session, event).1 matches Ok(reply)
                && reply.result matches Some(result) && result.content_base64 == base64_text(
                content,
            ) && result.usage == match field(event, "usage"@) {
                Some(usage) => usage,
                None => JsonView::Null,
            },
            Err(_) => heard(session, event).1 is Err,
        },
        field(event, "type"@) == Some(JsonView::Text("error"@)) ==> heard(session, event).1 is Err,
        field(event, "type"@) == Some(JsonView::Text("session.closed"@)) && field(event, "reason"@)
            != Some(JsonView::Text("close_requested"@)) ==> heard(session, event).1 is Err,
{
    reveal_strlit("session.started");
    reveal_strlit("session.instructions.appended");
    reveal_strlit("session.output_audio.delta");
    reveal_strlit("session.output_transcript.delta");
    reveal_strlit("error");
    reveal_strlit("session.closed");
    assert("session.started"@.len() == 15);
    assert("session.instructions.appended"@.len() == 29);
    assert("session.output_audio.delta"@.len() == 26);
    assert("session.output_transcript.delta"@.len() == 31);
    assert("error"@.len() == 5);
    assert("session.closed"@.len() == 14);
}

/// A session is asked for with the key of its context, behind whatever else the
/// context holds.
pub proof fn a_session_carries_its_key(context: ContextView)
    ensures
        ({
            let headers = live_headers_of(context);
            &&& headers.len() == context.headers.len() + 2
            &&& headers.take(context.headers.len() as int) == context.headers
            &&& headers[context.headers.len() as int] == ("Authorization"@, "Bearer "@
                + context.api_key)
            &&& headers.last() == ("User-Agent"@, "lmx/"@ + crate::VERSION@)
        }),
{
    assert(live_headers_of(context).take(context.headers.len() as int) =~= context.headers);
}

/// The session of a call hands over the script as the user's message, the
/// direction in the instructions, and the voice.
pub proof fn a_call_is_made_with_its_script(request: SpeechRequestView)
    ensures
        match codex_session(request) {
            Ok(session) => {
                &&& words_of(request.input).len() > 0 && trimmed(request.voice).len() > 0
                &&& names_account(request.context.headers)
                &&& find(session, "model"@) == Some(JsonView::Text(request.model))
                &&& find(session, "instructions"@) == Some(
                    JsonView::Text(
                        CODEX_INSTRUCTIONS@ + match request.instructions {
                            Some(instructions) => instructions,
                            None => "Speak naturally."@,
                        },
                    ),
                )
                &&& find(session, "delegation"@) matches Some(delegation)
                &&& text_field(delegation, "type"@) == Some("client"@)
                &&& find(session, "audio"@) matches Some(audio)
                &&& field(audio, "output"@) matches Some(output)
                &&& text_field(output, "voice"@) == Some(request.voice)
                &&& find(session, "initial_items"@) matches Some(JsonView::List(input))
                &&& input.len() == 1
                &&& text_field(input[0], "type"@) == Some("message"@)
                &&& text_field(input[0], "role"@) == Some("user"@)
                &&& field(input[0], "content"@) matches Some(JsonView::List(parts))
                &&& parts.len() == 1
                &&& text_field(parts[0], "type"@) == Some("input_text"@)
                &&& text_field(parts[0], "text"@) == Some(request.input)
            },
            Err(_) => words_of(request.input).len() == 0 || trimmed(request.voice).len() == 0
                || !names_account(request.context.headers),
        },
{
    broadcast use found_after_put;

    reveal_strlit("model");
    reveal_strlit("instructions");
    reveal_strlit("initial_items");
    reveal_strlit("audio");
    reveal_strlit("delegation");
    reveal_strlit("type");
    reveal_strlit("role");
    reveal_strlit("content");
    reveal_strlit("text");
    reveal_strlit("voice");
    reveal_strlit("output");
    assert("model"@.len() == 5 && "model"@[0] == 'm');
    assert("instructions"@.len() == 12);
    assert("initial_items"@.len() == 13);
    assert("audio"@.len() == 5 && "audio"@[0] == 'a');
    assert("delegation"@.len() == 10);
    assert("type"@.len() == 4 && "type"@[0] == 't' && "type"@[1] == 'y');
    assert("role"@.len() == 4 && "role"@[0] == 'r');
    assert("content"@.len() == 7);
    assert("text"@.len() == 4 && "text"@[0] == 't' && "text"@[1] == 'e');
    assert("voice"@.len() == 5 && "voice"@[0] == 'v');
    assert("output"@.len() == 6);
}

/// A message of the data channel brings words or an error.
pub proof fn the_channel_brings_words_or_errors(message: JsonView, text: Seq<char>)
    ensures
        field(message, "type"@) == Some(JsonView::Text("output_transcript.added"@)) ==> (field(
            message,
            "item"@,
        ) matches Some(item) ==> (field(item, "text"@) == Some(JsonView::Text(text))
            ==> channel_event(message) == Some(MediaView::Transcript(text)))),
        field(message, "type"@) == Some(JsonView::Text("error"@)) ==> channel_event(message)
            == Some(
            MediaView::Error(
                json_text(
                    match field(message, "error"@) {
                        Some(error) => error,
                        None => JsonView::Null,
                    },
                ),
            ),
        ),
{
    reveal_strlit("output_transcript.added");
    reveal_strlit("error");
    assert("output_transcript.added"@.len() == 23);
    assert("error"@.len() == 5);
}

/// What comes over the media of a call is put behind its take, and a take that is
/// complete with it closes the call.
pub proof fn media_go_into_the_take(voice: VoiceView, bytes: Seq<u8>, text: Seq<char>)
    ensures
        ({
            let (after, sent) = media_heard(voice, MediaView::Transcript(text));
            &&& after.take.transcript == voice.take.transcript + text
            &&& after.take.pcm == voice.take.pcm
            &&& after.closing == (voice.closing || is_ready(after.take, voice.expected))
            &&& sent matches Ok(messages)
            &&& messages.len() == if after.closing && !voice.closing {
                1int
            } else {
                0
            }
            &&& messages.len() == 1 ==> text_field(messages[0], "type"@) == Some("session.close"@)
        }),
        voice.take.pcm.len() + bytes.len() <= MOST_BYTES ==> ({
            let (after, sent) = media_heard(voice, MediaView::Audio(bytes));
            &&& after.take.pcm == voice.take.pcm + bytes
            &&& after.take.transcript == voice.take.transcript
            &&& after.closing == (voice.closing || is_ready(after.take, voice.expected))
            &&& sent is Ok
        }),
        voice.take.pcm.len() + bytes.len() > MOST_BYTES ==> media_heard(
            voice,
            MediaView::Audio(bytes),
        ).1 is Err,
        media_heard(voice, MediaView::Error(text)).1 is Err,
{
    broadcast use found_after_put;

    let (after, sent) = media_heard(voice, MediaView::Transcript(text));
    let taken = VoiceView { take: TakeView { transcript: voice.take.transcript + text, ..voice.take }, ..voice };
    assert(closes_if_ready(taken, Seq::empty()).0 == after);
}

/// A call that is closed as asked is drained, with the usage that was reported;
/// one that is closed before its take is complete has failed, and so has one with
/// an error.
pub proof fn a_closed_call_is_drained(voice: VoiceView, event: JsonView)
    ensures
        field(event, "type"@) == Some(JsonView::Text("session.closed"@)) ==> if voice.closing
            && is_ready(voice.take, voice.expected) {
            sideband_heard(voice, event).1 == Ok::<SidebandView, ErrorView>(
                SidebandView::Drain(
                    match field(event, "usage"@) {
                        Some(usage) => usage,
                        None => JsonView::Null,
                    },
                ),
            )
        } else {
            sideband_heard(voice, event).1 is Err
        },
        field(event, "type"@) == Some(JsonView::Text("error"@)) ==> sideband_heard(
            voice,
            event,
        ).1 is Err,
{
    reveal_strlit("session.closed");
    reveal_strlit("error");
    assert("session.closed"@.len() == 14);
    assert("error"@.len() == 5);
}

/// The line is asked for as soon as the data channel is open.
pub proof fn the_line_is_asked_for_when_the_channel_opens(voice: VoiceView)
    ensures
        !voice.prompted ==> {
            let (after, messages) = ticked(voice, true);
            &&& after.prompted
            &&& messages.len() > 0
            &&& text_field(messages[0], "type"@) == Some("session.context.append"@)
            &&& text_field(messages[0], "channel"@) == Some("speakable"@)
        },
{
    broadcast use found_after_put;

    reveal_strlit("type");
    reveal_strlit("channel");
    reveal_strlit("content");
    assert("type"@.len() == 4);
    assert("channel"@.len() == 7 && "channel"@[1] == 'h');
    assert("content"@.len() == 7 && "content"@[1] == 'o');
}

/// The bytes of samples are read as the samples that were written.
pub proof fn written_samples_are_read_back(samples: Seq<i16>, at: int)
    requires
        0 <= at < samples.len(),
    ensures
        sample_bytes(samples).len() == 2 * samples.len(),
        sample(sample_bytes(samples), at) == samples[at],
    decreases samples.len(),
{
    lemma_bytes_of_samples(samples);
    let earlier = samples.drop_last();
    lemma_bytes_of_samples(earlier);
    let bytes = sample_bytes(samples);
    if at < earlier.len() {
        written_samples_are_read_back(earlier, at);
        assert(bytes[2 * at] == sample_bytes(earlier)[2 * at]);
        assert(bytes[2 * at + 1] == sample_bytes(earlier)[2 * at + 1]);
    } else {
        let n = samples.last() as int % 65536;
        assert(bytes[2 * at] == le16(n)[0]);
        assert(bytes[2 * at + 1] == le16(n)[1]);
        assert(n == n % 256 + 256 * (n / 256 % 256));
    }
}

proof fn lemma_bytes_of_samples(samples: Seq<i16>)
    ensures
        sample_bytes(samples).len() == 2 * samples.len(),
    decreases samples.len(),
{
    if samples.len() > 0 {
        lemma_bytes_of_samples(samples.drop_last());
    }
}

proof fn lemma_runs_nonempty(s: Seq<char>)
    ensures
        word_runs(s).len() > 0,
    decreases s.len(),
{
    if s.len() > 0 {
        lemma_runs_nonempty(s.drop_last());
    }
}

proof fn lemma_runs_apart(a: Seq<char>, c: char, b: Seq<char>)
    requires
        !alphanumeric(c),
        !is_apostrophe(c),
    ensures
        word_runs(a.push(c) + b) == word_runs(a) + word_runs(b),
    decreases b.len(),
{
    let whole = a.push(c) + b;
    if b.len() == 0 {
        assert(whole =~= a.push(c));
        assert(whole.drop_last() =~= a);
        assert(word_runs(whole) =~= word_runs(a) + word_runs(b));
    } else {
        assert(whole.drop_last() =~= a.push(c) + b.drop_last());
        lemma_runs_apart(a, c, b.drop_last());
        lemma_runs_nonempty(b.drop_last());
        assert(word_runs(whole) =~= word_runs(a) + word_runs(b));
    }
}

proof fn lemma_not_empty_joined(a: Seq<Seq<char>>, b: Seq<Seq<char>>)
    ensures
        not_empty(a + b) == not_empty(a) + not_empty(b),
    decreases b.len(),
{
    if b.len() == 0 {
        assert(a + b =~= a);
        assert(not_empty(a) + not_empty(b) =~= not_empty(a));
    } else {
        assert((a + b).drop_last() =~= a + b.drop_last());
        lemma_not_empty_joined(a, b.drop_last());
        assert(not_empty(a + b) =~= not_empty(a) + not_empty(b));
    }
}

/// What stands between two words parts them, whatever it is.
pub proof fn words_are_parted_by_what_is_no_letter(a: Seq<char>, c: char, b: Seq<char>)
    requires
        !alphanumeric(c),
        !is_apostrophe(c),
    ensures
        words_in(a.push(c) + b) == words_in(a) + words_in(b),
{
    lemma_runs_apart(a, c, b);
    lemma_not_empty_joined(word_runs(a), word_runs(b));
}

proof fn lemma_run(s: Seq<char>)
    requires
        forall|i: int| 0 <= i < s.len() ==> alphanumeric(#[trigger] s[i]) && !is_apostrophe(s[i]),
    ensures
        word_runs(s) == seq![s],
    decreases s.len(),
{
    if s.len() == 0 {
        assert(s =~= Seq::empty());
    } else {
        let shorter = s.drop_last();
        assert forall|i: int| 0 <= i < shorter.len() implies alphanumeric(#[trigger] shorter[i])
            && !is_apostrophe(shorter[i]) by {
            assert(shorter[i] == s[i]);
        }
        lemma_run(shorter);
        assert(alphanumeric(s[s.len() - 1]) && !is_apostrophe(s[s.len() - 1]));
        assert(shorter.push(s.last()) =~= s);
        assert(word_runs(s) =~= seq![s]);
    }
}

/// Letters and digits one behind the other are one word.
pub proof fn letters_and_digits_are_one_word(s: Seq<char>)
    requires
        s.len() > 0,
        forall|i: int| 0 <= i < s.len() ==> alphanumeric(#[trigger] s[i]) && !is_apostrophe(s[i]),
    ensures
        words_in(s) == seq![s],
{
    lemma_run(s);
    assert(seq![s].drop_last() =~= Seq::empty());
    reveal_with_fuel(not_empty, 2);
    assert(words_in(s) =~= seq![s]);
}

/// An apostrophe, straight or round, counts as nothing, wherever it stands.
pub proof fn apostrophes_count_as_nothing(a: Seq<char>, c: char, b: Seq<char>)
    requires
        c == '\'' || c == '\u{2019}',
    ensures
        words_in(a.push(c) + b) == words_in(a + b),
{
    lemma_without_apostrophe(a, c, b);
}

proof fn lemma_without_apostrophe(a: Seq<char>, c: char, b: Seq<char>)
    requires
        is_apostrophe(c),
    ensures
        word_runs(a.push(c) + b) == word_runs(a + b),
    decreases b.len(),
{
    let longer = a.push(c) + b;
    let shorter = a + b;
    if b.len() == 0 {
        assert(longer =~= a.push(c));
        assert(shorter =~= a);
        assert(longer.drop_last() =~= a);
    } else {
        assert(longer.drop_last() =~= a.push(c) + b.drop_last());
        assert(shorter.drop_last() =~= a + b.drop_last());
        lemma_without_apostrophe(a, c, b.drop_last());
    }
}

/// A recording begins a fifth of a second before the first sound that is heard and
/// ends a fifth behind the last, or where the take does.
pub proof fn a_recording_keeps_a_fifth_of_a_second_around_it(pcm: Seq<u8>, first: int, last: int)
    requires
        0 <= first <= last < sample_count(pcm),
        is_loud(pcm, first),
        is_loud(pcm, last),
        forall|at: int|
            0 <= at < sample_count(pcm) && #[trigger] is_loud(pcm, at) ==> first <= at <= last,
    ensures
        ({
            let from = if first < 4800 {
                0
            } else {
                first - 4800
            };
            let to = if 2 * (last + 1 + 4800) < pcm.len() {
                2 * (last + 1 + 4800)
            } else {
                pcm.len() as int
            };
            trimmed_sound(pcm) == pcm.subrange(2 * from, to)
        }),
{
    sounds_lie_within_the_take(pcm);
    let end = last_sound(pcm);
    assert(first_sound(pcm) is Some);
    let begin = first_sound(pcm)->0;
    assert(is_loud(pcm, begin) && is_loud(pcm, end - 1));
    assert(begin == first) by {
        if first < begin {
            assert(!is_loud(pcm, first));
        }
    }
    assert(end - 1 == last) by {
        if end <= last {
            assert(!is_loud(pcm, last));
        }
    }
}

/// The messages that ask for the line say so in words.
pub proof fn the_line_is_asked_for_in_words(session: LiveView, event: JsonView, voice: VoiceView)
    ensures
        field(event, "type"@) == Some(JsonView::Text("session.started"@)) ==> (heard(
            session,
            event,
        ).1 matches Ok(reply) && reply.messages.len() > 0 && text_field(
            reply.messages[0],
            "content"@,
        ) == Some(
            "Begin now. Speak the dialogue in the user message exactly once, in full, following the delivery direction. Then remain silent."@,
        ) && field(reply.messages[0], "delegation_id"@) == Some(JsonView::Null)),
        field(event, "type"@) == Some(JsonView::Text("session.instructions.appended"@)) && field(
            event,
            "client_event_id"@,
        ) == Some(JsonView::Text("speak"@)) ==> (heard(session, event).1 matches Ok(reply)
            && reply.messages.len() > 0 && text_field(reply.messages[0], "content"@) == Some(
            "Begin the scripted performance now, following the instructions provided."@,
        )),
        !voice.prompted ==> {
            &&& ticked(voice, true).1.len() > 0
            &&& field(ticked(voice, true).1[0], "content"@) matches Some(JsonView::List(parts))
            &&& parts.len() == 1
            &&& text_field(parts[0], "type"@) == Some("input_text"@)
            &&& text_field(parts[0], "text"@) == Some(
                "Begin now. Perform the scripted dialogue in the user message exactly once, following the delivery direction."@,
            )
        },
{
    broadcast use found_after_put;

    reveal_strlit("session.started");
    reveal_strlit("session.instructions.appended");
    reveal_strlit("type");
    reveal_strlit("event_id");
    reveal_strlit("delegation_id");
    reveal_strlit("content");
    reveal_strlit("text");
    reveal_strlit("channel");
    assert("session.started"@.len() == 15);
    assert("session.instructions.appended"@.len() == 29);
    assert("type"@.len() == 4 && "type"@[1] == 'y');
    assert("event_id"@.len() == 8);
    assert("delegation_id"@.len() == 13);
    assert("content"@.len() == 7 && "content"@[1] == 'o');
    assert("text"@.len() == 4 && "text"@[1] == 'e');
    assert("channel"@.len() == 7 && "channel"@[1] == 'h');
}

/// A session that was not complete before and is with an event asks to be closed.
pub proof fn a_complete_take_closes_its_session(session: LiveView, event: JsonView)
    ensures
        heard(session, event).0.closing && !session.closing ==> (heard(session, event).1 matches Ok(
            reply,
        ) && reply.messages.len() > 0 && text_field(reply.messages.last(), "type"@) == Some(
            "session.close"@,
        )),
{
    broadcast use found_after_put;

}

/// A request that names no model is for the one of its provider's voice.
pub proof fn a_voice_has_the_model_of_its_provider(request: SpeechRequestView)
    ensures
        request.model.len() > 0 ==> with_model(request) == request,
        request.model.len() == 0 ==> with_model(request) == (SpeechRequestView {
            model: if request.context.provider == Provider::Codex {
                "gpt-live-1-codex"@
            } else {
                "gpt-live-1"@
            },
            ..request
        }),
{
}

/// A session that can be held has a script with words, an address of a socket, the
/// key of its context and the message that starts it.
pub proof fn a_session_is_planned_with_its_script(request: SpeechRequestView)
    ensures
        match live_plan(request) {
            Ok(plan) => {
                &&& words_of(request.input).len() > 0
                &&& live_start(request) == Ok::<JsonView, ErrorView>(plan.start)
                &&& live_address(request.context) == Ok::<Seq<char>, ErrorView>(plan.url)
                &&& plan.headers == live_headers_of(request.context)
            },
            Err(_) => words_of(request.input).len() == 0 || live_start(request) is Err
                || live_address(request.context) is Err,
        },
{
}

/// A session is held where its context says, or at OpenAI, on a socket.
pub proof fn a_session_is_held_at_its_base(context: ContextView, address: Seq<char>, scheme: Seq<char>)
    requires
        endpoint(
            match context.base_url {
                Some(url) => url,
                None => "https://api.openai.com/v1"@,
            },
            "live/sessions"@,
            context.query,
        ) == Ok::<Seq<char>, ErrorView>(address),
        parsed_url(address) == Ok::<(Seq<char>, Option<Seq<char>>), Seq<char>>((scheme, None)),
    ensures
        scheme == "https"@ || scheme == "wss"@ ==> match url_with_scheme(address, "wss"@) {
            Some(url) => live_address(context) == Ok::<Seq<char>, ErrorView>(url),
            None => live_address(context) is Err,
        },
        scheme == "http"@ || scheme == "ws"@ ==> match url_with_scheme(address, "ws"@) {
            Some(url) => live_address(context) == Ok::<Seq<char>, ErrorView>(url),
            None => live_address(context) is Err,
        },
        scheme != "https"@ && scheme != "wss"@ && scheme != "http"@ && scheme != "ws"@
            ==> live_address(context) is Err,
{
    reveal_strlit("https");
    reveal_strlit("wss");
    reveal_strlit("http");
    reveal_strlit("ws");
    assert("https"@.len() == 5);
    assert("wss"@.len() == 3);
    assert("http"@.len() == 4);
    assert("ws"@.len() == 2);
}

/// The quiet that a session is sent is twenty thousandths of a second: 480 samples of
/// nothing.
pub proof fn quiet_is_sent_in_small_parts()
    ensures
        text_field(silence(), "type"@) == Some("session.input_audio.append"@),
        text_field(silence(), "audio"@) == Some(base64_text(Seq::new(2 * 480, |i: int| 0u8))),
        480 * 1000 == 24000 * 20,
{
    broadcast use found_after_put;

    reveal_strlit("type");
    reveal_strlit("audio");
    assert("type"@.len() == 4);
    assert("audio"@.len() == 5);
    assert(Seq::new(960, |i: int| 0u8) =~= Seq::new(2 * 480, |i: int| 0u8));
}

/// What is said of a session or a call that was cut short.
pub proof fn what_was_cut_short_says_why()
    ensures
        interruption_error(Interruption::Unreached) == ErrorView::Transport(
            "Live connection timed out"@,
        ),
        interruption_error(Interruption::TakeDeadline) == ErrorView::Event(
            "Live did not produce a transcript-matched, completed take within 120 seconds; no recording saved"@,
        ),
        interruption_error(Interruption::CloseDeadline) == ErrorView::Event(
            "Live session did not finalize; no recording saved"@,
        ),
        interruption_error(Interruption::Disconnected) == ErrorView::Event(
            "Live disconnected before session.closed"@,
        ),
        interruption_error(Interruption::Stuck) == ErrorView::Transport(
            "Live recording timed out"@,
        ),
        call_interruption_error(CallInterruption::CloseDeadline) == ErrorView::Event(
            "Codex voice did not finalize"@,
        ),
        call_interruption_error(CallInterruption::MediaClosed) == ErrorView::Event(
            "Codex media stream closed"@,
        ),
        call_interruption_error(CallInterruption::Disconnected) == ErrorView::Event(
            "Codex voice disconnected before finalization"@,
        ),
        call_interruption_error(CallInterruption::SidebandClosed) == ErrorView::Event(
            "Codex sideband closed before session.closed"@,
        ),
        call_interruption_error(CallInterruption::TakeDeadline) == ErrorView::Event(
            "Codex voice did not complete a matching take within 120 seconds"@,
        ),
        call_interruption_error(CallInterruption::Stuck) == ErrorView::Transport(
            "Codex speech timed out"@,
        ),
{
}

/// An account is named by a header of that name, in whatever case, that says
/// something.
pub proof fn an_account_is_named_by_its_header(
    headers: Seq<(Seq<char>, Seq<char>)>,
    name: Seq<char>,
    value: Seq<char>,
)
    ensures
        !names_account(Seq::empty()),
        names_account(headers.push((name, value))) <==> names_account(headers) || (
        ascii_lower_text(name) == ascii_lower_text("chatgpt-account-id"@) && value.len() > 0),
{
    let more = headers.push((name, value));
    assert(more[headers.len() as int] == (name, value));
    if names_account(headers) {
        let i = choose|i: int|
            0 <= i < headers.len() && same_name(
                (#[trigger] headers[i]).0,
                "chatgpt-account-id"@,
            ) && headers[i].1.len() > 0;
        assert(more[i] == headers[i]);
    }
    if names_account(more) {
        let i = choose|i: int|
            0 <= i < more.len() && same_name(
                (#[trigger] more[i]).0,
                "chatgpt-account-id"@,
            ) && more[i].1.len() > 0;
        if i < headers.len() {
            assert(headers[i] == more[i]);
        }
    }
}

} // verus!
