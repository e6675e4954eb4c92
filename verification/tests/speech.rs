//! Recordings, videos and the events of streams.
use base64::engine::general_purpose::STANDARD;
use base64::Engine;
use lmx::codex_speech::{
    call_body, call_id, call_interrupted, call_url, media_event, next_packet, pcm_bytes, session,
    sideband_headers, sideband_url, CallInterruption, CodexVoice, MediaEvent, SidebandStep,
};
use lmx::json::Json;
use lmx::ordered::StringMap;
use lmx::providers::{Provider, RequestContext};
use lmx::session::{is_last_frame, SessionFault, SessionSlots};
use lmx::speech::{
    choose_model, live_interrupted, live_url, plan_live, session_start, silence_message,
    spoken_words, Interruption, LiveSession, SpeechFormat, SpeechRequest, Take, QUIET_SAMPLES,
};
use lmx::transport::stream_event;
use lmx::video::{next_video_step, plan_video, size, video_result, VideoRequest, VideoStep};
use lmx::Error;

fn json(text: &str) -> Json {
    Json::from_text(text).unwrap()
}

fn context(provider: Provider) -> RequestContext {
    RequestContext {
        provider,
        api_key: "test".into(),
        base_url: None,
        headers: StringMap::new(),
        query: StringMap::new(),
    }
}

fn request() -> SpeechRequest {
    SpeechRequest {
        context: context(Provider::Openai),
        model: "gpt-live-1".into(),
        input: "Hello.".into(),
        voice: "gleam".into(),
        instructions: Some("Quiet relief".into()),
        format: SpeechFormat::Wav,
    }
}

#[test]
fn separates_script_and_direction() {
    let body = session_start(&request()).unwrap();
    let session = body.member("session");
    assert_eq!(session.get_text("model"), Some("gpt-live-1"));
    assert_eq!(
        session
            .member("input")
            .at(0)
            .member("content")
            .at(0)
            .get_text("text"),
        Some("Hello.")
    );
    assert!(session
        .get_text("instructions")
        .unwrap()
        .contains("Quiet relief"));
    assert_eq!(session.member("delegation").get_text("type"), Some("client"));
}

#[test]
fn requires_matching_words_and_audio_silence() {
    let mut take = Take::new();
    take.append(&STANDARD.encode([0x00, 0x10])).unwrap();
    take.add_words("hello!");
    let expected = spoken_words("Hello.");
    assert!(!take.ready(&expected));
    take.append(&STANDARD.encode(vec![0u8; QUIET_SAMPLES * 2]))
        .unwrap();
    assert!(take.ready(&expected));
    take.add_words(" Again.");
    assert!(!take.ready(&expected));
    let wav = take.recording(SpeechFormat::Wav).unwrap();
    assert_eq!(&wav[..4], b"RIFF");
    assert_eq!(
        u32::from_le_bytes(wav[40..44].try_into().unwrap()) as usize,
        wav.len() - 44
    );
    assert_eq!(spoken_words("I’m here."), spoken_words("I'm here!"));
}

#[test]
fn rejects_non_openai() {
    let mut request = request();
    request.context.provider = Provider::Codex;
    assert!(matches!(
        session_start(&request),
        Err(Error::UnsupportedCapability(_, _))
    ));
}

#[test]
fn requires_account_and_separates_direction() {
    let mut request = SpeechRequest {
        context: context(Provider::Codex),
        model: "gpt-live-1-codex".into(),
        input: "Hello.".into(),
        voice: "cove".into(),
        instructions: Some("Quietly.".into()),
        format: SpeechFormat::Wav,
    };
    assert!(session(&request).is_err());
    request
        .context
        .headers
        .insert("ChatGPT-Account-ID", "test-account");
    let value = session(&request).unwrap();
    assert_eq!(
        value
            .get("initial_items")
            .unwrap()
            .at(0)
            .member("content")
            .at(0)
            .get_text("text"),
        Some("Hello.")
    );
    assert!(value.get_text("instructions").unwrap().contains("Quietly."));
    assert_eq!(call_id("/v1/realtime/calls/rtc_test").unwrap(), "rtc_test");
    assert!(call_id("../../").is_err());
    assert!(call_id("rtc_test?redirect=elsewhere").is_err());
    assert!(call_id(&"a".repeat(129)).is_err());
}

#[test]
fn words_have_no_case_and_no_punctuation() {
    assert_eq!(spoken_words("It's — ÄRGER, 42!"), ["its", "ärger", "42"]);
    assert!(spoken_words(" ... ").is_empty());
}

#[test]
fn the_division_of_sound_does_not_matter() {
    let sound: Vec<u8> = [0i16, 64, -64, 65, 0, -65, 3]
        .iter()
        .flat_map(|sample| sample.to_le_bytes())
        .collect();
    let mut whole = Take::new();
    whole.append_pcm(&sound).unwrap();
    for cut in 0..=sound.len() {
        let mut parts = Take::new();
        parts.append_pcm(&sound[..cut].to_vec()).unwrap();
        parts.append_pcm(&sound[cut..].to_vec()).unwrap();
        assert_eq!(
            parts.recording(SpeechFormat::Wav).unwrap(),
            whole.recording(SpeechFormat::Wav).unwrap()
        );
    }
    assert_eq!(whole.recording(SpeechFormat::Pcm).unwrap(), sound);
}

#[test]
fn silence_around_a_recording_is_trimmed() {
    let mut sound = vec![0u8; 20_000];
    sound.extend([0x00, 0x10]);
    sound.extend(vec![0u8; 30_000]);
    let mut take = Take::new();
    take.append_pcm(&sound).unwrap();
    let pcm = take.recording(SpeechFormat::Pcm).unwrap();
    assert_eq!(pcm.len(), 9_600 + 2 + 9_600);
    assert_eq!(&pcm[9_600..9_602], &[0x00, 0x10]);
    let wav = take.recording(SpeechFormat::Wav).unwrap();
    assert_eq!(&wav[8..16], b"WAVEfmt ");
    assert_eq!(&wav[24..28], &24_000u32.to_le_bytes());
    assert_eq!(&wav[44..], &pcm[..]);
}

#[test]
fn a_take_that_is_wrong_gives_no_recording() {
    let mut take = Take::new();
    assert_eq!(
        take.recording(SpeechFormat::Wav).unwrap_err().message(),
        "invalid provider event: Live returned no audible speech"
    );
    assert!(take.append("?").is_err());
    take.append_pcm(&vec![0, 0x10, 0]).unwrap();
    assert_eq!(
        take.recording(SpeechFormat::Wav).unwrap_err().message(),
        "invalid provider event: Live returned an incomplete PCM sample"
    );
    assert_eq!(
        take.append_pcm(&vec![0; 5_760_000]).unwrap_err().message(),
        "invalid provider event: Live recording exceeded 120 seconds of audio"
    );
}

fn audio(bytes: &[u8]) -> Json {
    Json::object(
        lmx::JsonObject::new()
            .with_text("type", "session.output_audio.delta")
            .with_text("delta", &STANDARD.encode(bytes)),
    )
}

#[test]
fn a_session_runs_to_its_recording() {
    let mut live = LiveSession::new(request());
    assert!(!live.wants_silence());
    let reply = live.hear(&json(r#"{"type": "session.started"}"#)).unwrap();
    assert_eq!(reply.messages[0].get_text("event_id"), Some("speak"));
    assert!(live.wants_silence());
    let reply = live
        .hear(&json(
            r#"{"type": "session.instructions.appended", "client_event_id": "speak"}"#,
        ))
        .unwrap();
    assert_eq!(reply.messages[0].get_text("event_id"), Some("begin"));
    live.hear(&json(
        r#"{"type": "session.output_transcript.delta", "delta": "Hello."}"#,
    ))
    .unwrap();
    live.hear(&audio(&[0x00, 0x10])).unwrap();
    let reply = live.hear(&audio(&vec![0; QUIET_SAMPLES * 2])).unwrap();
    assert_eq!(reply.messages, [json(r#"{"type": "session.close"}"#)]);
    assert!(live.is_closing() && !live.wants_silence());
    let reply = live.hear(&audio(&[0, 0])).unwrap();
    assert!(reply.messages.is_empty());
    let reply = live
        .hear(&json(
            r#"{"type": "session.closed", "reason": "close_requested", "usage": {"t": 1}}"#,
        ))
        .unwrap();
    let result = reply.result.unwrap();
    assert_eq!(result.transcript, "Hello.");
    assert_eq!(result.content_type, "audio/wav");
    assert_eq!(result.usage, json(r#"{"t": 1}"#));
    let content = STANDARD.decode(result.content_base64).unwrap();
    assert_eq!(content.len(), 44 + 2 + 9_600);
}

#[test]
fn a_session_that_ends_early_gives_nothing() {
    let mut live = LiveSession::new(request());
    assert_eq!(
        live.hear(&json(r#"{"type": "session.closed", "reason": "close_requested"}"#))
            .unwrap_err()
            .message(),
        "invalid provider event: Live ended without a transcript-matched, completed take; no recording saved"
    );
    assert_eq!(
        live.hear(&json(r#"{"type": "error", "error": {"code": 7}}"#))
            .unwrap_err()
            .message(),
        "invalid provider event: {\"code\":7}"
    );
    assert!(live.hear(&json(r#"{"type": "session.output_audio.delta"}"#)).is_err());
    assert!(live
        .hear(&json(r#"{"type": "session.output_transcript.delta"}"#))
        .is_err());
}

#[test]
fn what_is_cut_short_gives_no_recording() {
    for (what, message) in [
        (Interruption::Unreached, "HTTP transport failed: Live connection timed out"),
        (
            Interruption::TakeDeadline,
            "invalid provider event: Live did not produce a transcript-matched, completed take within 120 seconds; no recording saved",
        ),
        (
            Interruption::CloseDeadline,
            "invalid provider event: Live session did not finalize; no recording saved",
        ),
        (
            Interruption::Disconnected,
            "invalid provider event: Live disconnected before session.closed",
        ),
        (Interruption::Stuck, "HTTP transport failed: Live recording timed out"),
    ] {
        assert_eq!(live_interrupted(what).message(), message);
    }
    for (what, message) in [
        (
            CallInterruption::CloseDeadline,
            "invalid provider event: Codex voice did not finalize",
        ),
        (
            CallInterruption::MediaClosed,
            "invalid provider event: Codex media stream closed",
        ),
        (
            CallInterruption::Disconnected,
            "invalid provider event: Codex voice disconnected before finalization",
        ),
        (
            CallInterruption::SidebandClosed,
            "invalid provider event: Codex sideband closed before session.closed",
        ),
        (
            CallInterruption::TakeDeadline,
            "invalid provider event: Codex voice did not complete a matching take within 120 seconds",
        ),
        (CallInterruption::Stuck, "HTTP transport failed: Codex speech timed out"),
    ] {
        assert_eq!(call_interrupted(what).message(), message);
    }
}

#[test]
fn sessions_are_held_on_sockets() {
    let plan = plan_live(&request()).unwrap();
    assert_eq!(plan.url, "wss://api.openai.com/v1/live/sessions");
    assert_eq!(
        plan.headers,
        [
            ("Authorization".to_string(), "Bearer test".to_string()),
            ("User-Agent".to_string(), "lmx/0.4.0".to_string()),
        ]
    );
    let mut local = context(Provider::Openai);
    local.base_url = Some("http://localhost:9/v1".into());
    assert_eq!(live_url(&local).unwrap(), "ws://localhost:9/v1/live/sessions");
    local.query.insert("a", "b");
    assert_eq!(
        live_url(&local).unwrap_err().message(),
        "invalid response state: Live connections do not accept query parameters"
    );
    local.base_url = Some("ftp://localhost".into());
    assert_eq!(
        live_url(&local).unwrap_err().message(),
        "invalid response state: Live requires an HTTP or WebSocket base URL"
    );
    local.base_url = Some("no address".into());
    assert!(matches!(live_url(&local), Err(Error::Transport(_))));
    let mut silent = request();
    silent.input = "?!".into();
    assert_eq!(
        plan_live(&silent).unwrap_err().message(),
        "invalid response state: speech input must contain spoken words"
    );
    silent.voice = " ".into();
    assert!(plan_live(&silent).is_err());
    let audio = silence_message();
    assert_eq!(
        STANDARD.decode(audio.get_text("audio").unwrap()).unwrap(),
        [0u8; 960]
    );
}

#[test]
fn each_provider_has_its_voice_model() {
    let mut open = request();
    open.model = String::new();
    assert_eq!(choose_model(open.clone()).model, "gpt-live-1");
    open.context.provider = Provider::Codex;
    assert_eq!(choose_model(open).model, "gpt-live-1-codex");
    assert_eq!(SpeechFormat::default(), SpeechFormat::Wav);
}

#[test]
fn a_call_runs_to_its_recording() {
    let mut voice = CodexVoice::new(request());
    assert!(voice.tick(false).is_empty());
    let messages = voice.tick(true);
    assert_eq!(messages[0].get_text("channel"), Some("speakable"));
    assert!(voice.tick(true).is_empty());
    voice
        .hear_media(&MediaEvent::Transcript("hello".into()))
        .unwrap();
    voice
        .hear_media(&MediaEvent::Audio(vec![0x00, 0x10]))
        .unwrap();
    let messages = voice
        .hear_media(&MediaEvent::Audio(vec![0; QUIET_SAMPLES * 2]))
        .unwrap();
    assert_eq!(messages, [json(r#"{"type": "session.close"}"#)]);
    assert!(voice.is_closing());
    let SidebandStep::Drain(usage) = voice
        .hear_sideband(&json(r#"{"type": "session.closed"}"#))
        .unwrap()
    else {
        panic!("expected the end")
    };
    assert_eq!(usage, Json::Null);
    assert_eq!(voice.finish(Json::Null).unwrap().transcript, "hello");
    voice
        .drain(&MediaEvent::Transcript(" more".into()))
        .unwrap();
    assert_eq!(
        voice.finish(usage).unwrap_err().message(),
        "invalid provider event: Codex voice changed during finalization"
    );
    assert!(voice.drain(&MediaEvent::Error("gone".into())).is_err());
    let mut early = CodexVoice::new(request());
    assert!(early
        .hear_sideband(&json(r#"{"type": "session.closed"}"#))
        .is_err());
    assert!(early.hear_sideband(&json(r#"{"type": "error"}"#)).is_err());
}

#[test]
fn calls_are_made_and_attended() {
    let mut codex = context(Provider::Codex);
    codex.headers.insert("x", "y");
    assert_eq!(
        call_url(&codex).unwrap(),
        "https://chatgpt.com/backend-api/codex/realtime/calls?intent=quicksilver&architecture=avas"
    );
    assert_eq!(sideband_url("rtc_1"), "wss://api.openai.com/v1/live/rtc_1");
    let headers = sideband_headers(&codex);
    assert_eq!(headers.len(), 3);
    assert_eq!(headers[0].0, "x");
    assert_eq!(headers[2].1, "quicksilver=v2");
    let body = call_body("v=0", lmx::JsonObject::new());
    assert_eq!(body, json(r#"{"sdp": "v=0", "session": {}}"#));
    assert_eq!(next_packet(None, 9).unwrap(), 9);
    assert_eq!(next_packet(Some(65535), 0).unwrap(), 0);
    assert!(next_packet(Some(4), 6).is_err());
    assert_eq!(pcm_bytes(&vec![1, -2, 300], 2), [1, 0, 254, 255]);
    assert!(matches!(
        media_event(&json(r#"{"type": "output_transcript.added", "item": {"text": "a"}}"#)),
        Some(MediaEvent::Transcript(text)) if text == "a"
    ));
    assert!(matches!(
        media_event(&json(r#"{"type": "error", "error": 5}"#)),
        Some(MediaEvent::Error(text)) if text == "5"
    ));
    assert!(media_event(&json(r#"{"type": "other"}"#)).is_none());
}

fn video() -> VideoRequest {
    VideoRequest {
        prompt: " A river ".into(),
        context: RequestContext {
            base_url: Some("https://v.example/v1".into()),
            ..context(Provider::Openai)
        },
        model: None,
        size: None,
        width: None,
        height: None,
        seconds: None,
        duration_seconds: Some(8),
        input_reference: Some("https://x.example/a.png".into()),
    }
}

#[test]
fn plans_videos() {
    let plan = plan_video(&video()).unwrap();
    assert_eq!(plan.url, "https://v.example/v1/videos");
    assert_eq!(
        plan.body,
        json(
            r#"{"model": "sora-2", "prompt": "A river", "size": "720x1280", "seconds": 8,
                "input_reference": {"image_url": "https://x.example/a.png"}}"#
        )
    );
    let mut wide = video();
    wide.width = Some(1792);
    wide.height = Some(1024);
    assert_eq!(size(&wide).unwrap(), ("1792x1024".to_string(), 1792, 1024));
    wide.size = Some("1x1".into());
    assert_eq!(
        size(&wide).unwrap_err().message(),
        "invalid response state: unsupported video size 1x1; supported: 720x1280, 1280x720, 1024x1792, 1792x1024"
    );
    let mut long = video();
    long.seconds = Some(5);
    assert_eq!(
        plan_video(&long).unwrap_err().message(),
        "invalid response state: unsupported seconds 5; supported: 4, 8, 12"
    );
    let mut codex = video();
    codex.context.provider = Provider::Codex;
    assert_eq!(
        plan_video(&codex).unwrap_err().message(),
        "unknown provider: codex"
    );
    let mut bedrock = video();
    bedrock.context.provider = Provider::Bedrock;
    assert!(matches!(
        plan_video(&bedrock),
        Err(Error::UnsupportedCapability(_, _))
    ));
    let mut blank = video();
    blank.input_reference = Some(" ".into());
    assert!(plan_video(&blank).is_err());
    blank.prompt = "".into();
    assert!(plan_video(&blank).is_err());
}

#[test]
fn follows_a_video_to_its_end() {
    let request = video();
    let plan = plan_video(&request).unwrap();
    assert!(matches!(
        next_video_step(&request.context, &json(r#"{"id": "v1", "status": "queued"}"#)).unwrap(),
        VideoStep::Poll(url) if url == "https://v.example/v1/videos/v1"
    ));
    assert_eq!(
        next_video_step(
            &request.context,
            &json(r#"{"id": "v1", "status": "failed", "error": {"m": 1}}"#)
        )
        .unwrap_err()
        .message(),
        "invalid response state: video generation ended with status failed: {\"m\":1}"
    );
    assert!(next_video_step(&request.context, &json("{}")).is_err());
    let done = json(r#"{"id": "v1", "status": "completed", "progress": 100}"#);
    assert!(matches!(
        next_video_step(&request.context, &done).unwrap(),
        VideoStep::Download(url)
            if url == "https://v.example/v1/videos/v1/content?variant=video"
    ));
    let result = video_result(&request, &plan, &done, &b"mp4".to_vec(), "video/mp4").unwrap();
    assert_eq!(result.job.job_id, "v1");
    assert_eq!(result.job.progress, Some(100));
    assert_eq!(result.job.duration_seconds, 8);
    assert_eq!(result.content_base64, STANDARD.encode(b"mp4"));
}

#[test]
fn parts_of_a_stream_hold_events_or_nothing() {
    assert!(stream_event("[DONE]").unwrap().is_none());
    assert!(stream_event("  ").unwrap().is_none());
    assert_eq!(stream_event("[1]").unwrap(), Some(json("[1]")));
    assert!(matches!(stream_event("["), Err(Error::Json(_))));
}

#[test]
fn a_session_runs_one_round_at_a_time() {
    let mut slots = SessionSlots::new();
    slots.start_stream().unwrap();
    assert_eq!(slots.take_machine(), Err(SessionFault::Executing));
    slots.take_frames().unwrap();
    assert_eq!(slots.take_frames(), Err(SessionFault::NotStreaming));
    slots.return_frames(false);
    slots.return_machine();
    assert_eq!(slots.start_stream(), Err(SessionFault::Streaming));
    assert_eq!(
        SessionFault::Streaming.message(),
        "response session already has a running stream"
    );
    let frame = lmx::ResponseFrame::Failed {
        error: "x".into(),
    };
    assert!(is_last_frame(&frame));
}
