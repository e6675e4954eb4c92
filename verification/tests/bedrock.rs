//! Conversations with Bedrock, its frames and its signatures.
use lmx::bedrock::{
    build_converse_messages, convert_tools, converse_url, effort_to_budget, output_of, request_for,
    BedrockCredentials, BedrockRound,
};
use lmx::calendar::{days_to_ymd, format_datetime};
use lmx::eventstream::EventStreamDecoder;
use lmx::json::{Json, JsonObject};
use lmx::machine::ResponseMachine;
use lmx::ordered::StringMap;
use lmx::providers::{Provider, ProviderRegistry, RequestContext};
use lmx::response::{build_message_item, CoreEvent, NextAction, ResponseRequest};
use lmx::signing::sign_request;

fn json(text: &str) -> Json {
    Json::from_text(text).unwrap()
}

fn object(text: &str) -> JsonObject {
    json(text).as_object().unwrap().clone()
}

fn header(name: &str, value: &str) -> Vec<u8> {
    let mut bytes = vec![name.len() as u8];
    bytes.extend(name.as_bytes());
    bytes.push(7);
    bytes.extend((value.len() as u16).to_be_bytes());
    bytes.extend(value.as_bytes());
    bytes
}

fn frame(headers: &[u8], payload: &[u8]) -> Vec<u8> {
    let mut bytes = ((16 + headers.len() + payload.len()) as u32).to_be_bytes().to_vec();
    bytes.extend((headers.len() as u32).to_be_bytes());
    bytes.extend(crc32fast::hash(&bytes).to_be_bytes());
    bytes.extend(headers);
    bytes.extend(payload);
    bytes.extend(crc32fast::hash(&bytes).to_be_bytes());
    bytes
}

#[test]
fn reads_frames_as_they_come_in() {
    let mut headers = header(":message-type", "event");
    headers.extend(header(":event-type", "contentBlockDelta"));
    let first = frame(&headers, br#"{"delta": {"text": "Hi"}}"#);
    let second = frame(&headers, b"");
    let mut decoder = EventStreamDecoder::new();
    decoder.push(&first[..20]);
    assert!(decoder.next_event().unwrap().is_none());
    decoder.push(&first[20..]);
    decoder.push(&second);
    let event = decoder.next_event().unwrap().unwrap();
    assert_eq!(event.event_type, "contentBlockDelta");
    assert_eq!(event.payload.member("delta").get_text("text"), Some("Hi"));
    assert_eq!(decoder.buffer, second);
    assert!(decoder.next_event().unwrap().is_none());
    assert!(decoder.buffer.is_empty());
}

#[test]
fn refuses_frames_that_are_wrong() {
    let good = frame(&header(":event-type", "x"), b"{}");
    let mut prelude = good.clone();
    prelude[9] ^= 1;
    let mut message = good.clone();
    let last = message.len() - 6;
    message[last] ^= 1;
    let mut decoder = EventStreamDecoder::new();
    decoder.push(&prelude);
    decoder.push(&message);
    decoder.push(&frame(&header(":exception-type", "throttled"), b"slow down"));
    assert_eq!(
        decoder.next_event().unwrap_err().message(),
        "HTTP transport failed: event stream prelude CRC mismatch"
    );
    assert_eq!(
        decoder.next_event().unwrap_err().message(),
        "HTTP transport failed: event stream message CRC mismatch"
    );
    assert_eq!(
        decoder.next_event().unwrap_err().message(),
        "HTTP transport failed: bedrock exception: slow down"
    );
    assert!(decoder.buffer.is_empty());
}

#[test]
fn frames_with_impossible_lengths_stay() {
    let mut bytes = 16u32.to_be_bytes().to_vec();
    bytes.extend(9u32.to_be_bytes());
    bytes.extend(crc32fast::hash(&bytes).to_be_bytes());
    bytes.extend(crc32fast::hash(&bytes).to_be_bytes());
    let mut decoder = EventStreamDecoder::new();
    decoder.push(&bytes);
    assert!(decoder.checked_next_event().is_none());
    assert_eq!(decoder.buffer, bytes);
    let mut decoder = EventStreamDecoder::new();
    decoder.push(&frame(&header(":event-type", "x"), b"3"));
    let event = decoder.checked_next_event().unwrap().unwrap().unwrap();
    assert_eq!(event.payload, Json::number(3));
}

#[test]
fn gathers_a_round_from_its_events() {
    let mut round = BedrockRound::new();
    let mut told = 0;
    for (kind, payload) in [
        ("contentBlockDelta", r#"{"delta": {"text": "Let me "}}"#),
        ("contentBlockDelta", r#"{"delta": {"text": "see."}}"#),
        ("contentBlockStart", r#"{"start": {"toolUse": {"name": "f", "toolUseId": "t"}}}"#),
        ("contentBlockDelta", r#"{"delta": {"toolUse": {"input": "{\"a\""}}}"#),
        ("contentBlockDelta", r#"{"delta": {"toolUse": {"input": ":1}"}}}"#),
        ("contentBlockStart", r#"{"start": {"toolUse": {"name": "g"}}}"#),
        ("messageStop", "{}"),
        ("metadata", "{}"),
    ] {
        let mut decoder = EventStreamDecoder::new();
        decoder.push(&frame(&header(":event-type", kind), payload.as_bytes()));
        let event = decoder.next_event().unwrap().unwrap();
        told += round.take(&event).len();
    }
    assert_eq!(told, 4);
    assert_eq!(
        output_of(&round),
        [
            object(r#"{"type": "message", "role": "assistant", "content": "Let me see."}"#),
            object(
                r#"{"type": "function_call", "name": "f", "call_id": "t",
                    "arguments": "{\"a\":1}"}"#
            ),
            object(r#"{"type": "function_call", "name": "g", "call_id": "", "arguments": "{}"}"#),
        ]
    );
}

#[test]
fn tells_the_start_of_a_call() {
    let mut decoder = EventStreamDecoder::new();
    decoder.push(&frame(
        &header(":event-type", "contentBlockStart"),
        br#"{"start": {"toolUse": {"name": "f", "toolUseId": "t"}}}"#,
    ));
    let event = decoder.next_event().unwrap().unwrap();
    let mut round = BedrockRound::new();
    let events = round.take(&event);
    assert!(matches!(
        events.as_slice(),
        [CoreEvent::ToolCallStarted { name, call_id, .. }] if name == "f" && call_id == "t"
    ));
}

#[test]
fn brings_conversations_into_the_form_of_bedrock() {
    let input = vec![
        build_message_item("developer", "Be brief.").unwrap(),
        build_message_item("user", "Hello").unwrap(),
        object(
            r#"{"type": "message", "role": "user", "content": [
                {"text": "look"},
                {"image_url": {"url": "data:image/jpeg;base64,QUJD"}},
                {"image_url": {"url": "https://x.example/a.png"}}]}"#,
        ),
        object(r#"{"type": "function_call", "name": "f", "call_id": "1", "arguments": "{"}"#),
        object(r#"{"type": "function_call", "name": "g", "call_id": "2", "arguments": "{\"a\":1}"}"#),
        object(r#"{"type": "function_call_output", "call_id": "1", "output": {"ok": true}}"#),
        object(r#"{"type": "function_call_output", "call_id": "2"}"#),
        object(r#"{"type": "reasoning"}"#),
    ];
    let (system, messages) = build_converse_messages(&input, "Work.");
    assert_eq!(system, [json(r#"{"text": "Work."}"#), json(r#"{"text": "Be brief."}"#)]);
    assert_eq!(
        messages,
        [
            json(r#"{"role": "user", "content": [{"text": "Hello"}]}"#),
            json(
                r#"{"role": "user", "content": [{"text": "look"},
                    {"image": {"format": "jpeg", "source": {"bytes": "QUJD"}}}]}"#
            ),
            json(
                r#"{"role": "assistant", "content": [
                    {"toolUse": {"toolUseId": "1", "name": "f", "input": {}}},
                    {"toolUse": {"toolUseId": "2", "name": "g", "input": {"a": 1}}}]}"#
            ),
            json(
                r#"{"role": "user", "content": [
                    {"toolResult": {"toolUseId": "1", "content": [{"text": "{\"ok\":true}"}]}},
                    {"toolResult": {"toolUseId": "2", "content": [{"text": "null"}]}}]}"#
            ),
        ]
    );
}

#[test]
fn brings_tools_into_the_form_of_bedrock() {
    let tools = vec![
        json(r#"{"function": {"name": "f", "description": "d", "parameters": {"x": 1}}}"#),
        json(r#"{"function": {"name": "g"}}"#),
        json(r#"{"type": "other"}"#),
    ];
    assert_eq!(
        convert_tools(&tools),
        [
            json(
                r#"{"toolSpec": {"name": "f", "description": "d",
                    "inputSchema": {"json": {"x": 1}}}}"#
            ),
            json(
                r#"{"toolSpec": {"name": "g", "description": "",
                    "inputSchema": {"json": {"type": "object", "properties": {}}}}}"#
            ),
        ]
    );
}

fn credentials(token: Option<&str>) -> BedrockCredentials {
    BedrockCredentials {
        access_key: "AKIDEXAMPLE".into(),
        secret_key: "wJalrXUtnFEMI/K7MDENG+bPxRfiCYEXAMPLEKEY".into(),
        session_token: token.map(str::to_owned),
        region: "us-east-1".into(),
    }
}

fn hmac(key: &[u8], data: &[u8]) -> Vec<u8> {
    let mut mac = <hmac::Hmac<sha2::Sha256> as hmac::Mac>::new_from_slice(key).unwrap();
    hmac::Mac::update(&mut mac, data);
    hmac::Mac::finalize(mac).into_bytes().to_vec()
}

fn digest(data: &[u8]) -> String {
    hex::encode(<sha2::Sha256 as sha2::Digest>::digest(data))
}

#[test]
fn signs_requests() {
    let headers =
        sign_request("POST", "/p", "h.example", b"{}", &credentials(Some("tok")), 1_440_938_160)
            .unwrap();
    assert_eq!(headers.get("x-amz-date"), Some("20150830T123600Z"));
    assert_eq!(headers.get("x-amz-content-sha256"), Some(digest(b"{}").as_str()));
    let canonical = format!(
        "POST\n/p\n\nhost:h.example\nx-amz-content-sha256:{}\nx-amz-date:20150830T123600Z\nx-amz-security-token:tok\n\nhost;x-amz-content-sha256;x-amz-date;x-amz-security-token\n{}",
        digest(b"{}"),
        digest(b"{}")
    );
    let text = format!(
        "AWS4-HMAC-SHA256\n20150830T123600Z\n20150830/us-east-1/bedrock/aws4_request\n{}",
        digest(canonical.as_bytes())
    );
    let key = hmac(b"AWS4wJalrXUtnFEMI/K7MDENG+bPxRfiCYEXAMPLEKEY", b"20150830");
    let key = hmac(&key, b"us-east-1");
    let key = hmac(&key, b"bedrock");
    let key = hmac(&key, b"aws4_request");
    assert_eq!(
        headers.get("authorization").unwrap(),
        format!(
            "AWS4-HMAC-SHA256 Credential=AKIDEXAMPLE/20150830/us-east-1/bedrock/aws4_request, SignedHeaders=host;x-amz-content-sha256;x-amz-date;x-amz-security-token, Signature={}",
            hex::encode(hmac(&key, text.as_bytes()))
        )
    );
}

#[test]
fn counts_days_as_the_calendar_does() {
    assert_eq!(days_to_ymd(0), (1970, 1, 1));
    assert_eq!(days_to_ymd(58), (1970, 2, 28));
    assert_eq!(days_to_ymd(59), (1970, 3, 1));
    assert_eq!(days_to_ymd(789), (1972, 2, 29));
    assert_eq!(days_to_ymd(11_016), (2000, 2, 29));
    assert_eq!(days_to_ymd(11_017), (2000, 3, 1));
    assert_eq!(days_to_ymd(19_722), (2023, 12, 31));
    assert_eq!(days_to_ymd(47_540), (2100, 2, 28));
    assert_eq!(days_to_ymd(47_541), (2100, 3, 1));
    assert_eq!(format_datetime(0), "19700101T000000Z");
    assert_eq!(format_datetime(951_868_799), "20000229T235959Z");
}

#[test]
fn reads_credentials_out_of_headers() {
    let mut context = RequestContext {
        provider: Provider::Bedrock,
        api_key: String::new(),
        base_url: None,
        headers: StringMap::new(),
        query: StringMap::new(),
    };
    assert_eq!(
        BedrockCredentials::from_context(&context).unwrap_err().message(),
        "invalid response state: bedrock context missing access key"
    );
    context.headers.insert("x-bedrock-access-key", "a");
    assert_eq!(
        BedrockCredentials::from_context(&context).unwrap_err().message(),
        "invalid response state: bedrock context missing secret key"
    );
    context.headers.insert("x-bedrock-secret-key", "s");
    let credentials = BedrockCredentials::from_context(&context).unwrap();
    assert_eq!(credentials.region, "us-east-1");
    assert_eq!(credentials.session_token, None);
}

#[test]
fn builds_requests_for_bedrock() {
    let request = ResponseRequest {
        input: vec![build_message_item("user", "Hello").unwrap()],
        context: RequestContext {
            provider: Provider::Openai,
            api_key: "k".into(),
            base_url: None,
            headers: StringMap::new(),
            query: StringMap::new(),
        },
        model: None,
        instructions: String::new(),
        tools: vec![json(r#"{"function": {"name": "f"}}"#)],
        tool_choice: Some(Json::text("required")),
        reasoning_effort: Some("medium".into()),
        text_verbosity: "low".into(),
        text_format: None,
        codex_protocol: None,
        context_management: None,
    };
    let mut machine = ResponseMachine::new(&ProviderRegistry::default(), request).unwrap();
    let body = request_for(&machine).body();
    assert_eq!(
        body,
        json(
            r#"{"messages": [{"role": "user", "content": [{"text": "Hello"}]}],
                "inferenceConfig": {"maxTokens": 16384},
                "toolConfig": {
                    "tools": [{"toolSpec": {"name": "f", "description": "",
                        "inputSchema": {"json": {"type": "object", "properties": {}}}}}],
                    "toolChoice": {"any": {}}},
                "additionalModelRequestFields":
                    {"thinking": {"type": "enabled", "budget_tokens": 4096}}}"#
        )
    );
    assert_eq!(effort_to_budget("max"), 8192);
    let mut round = BedrockRound::new();
    round.text = "Hi".into();
    machine.begin_round().unwrap();
    machine.take_bedrock_round(&round);
    let NextAction::Completed { result } = machine.finish_round().unwrap() else {
        panic!("expected completed")
    };
    assert_eq!(result.output_text, "Hi");
    assert_eq!(
        converse_url("us-east-1", "m").2,
        "https://bedrock-runtime.us-east-1.amazonaws.com/model/m/converse-stream"
    );
}
