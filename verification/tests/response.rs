//! Requests, rounds and responses.
use lmx::json::{Json, JsonObject};
use lmx::machine::{ResponseMachine, RoundKind};
use lmx::ordered::StringMap;
use lmx::providers::{Provider, ProviderRegistry, RequestContext};
use lmx::response::{
    build_message_item, normalize_tool_output, output_text_from_items, parse_tool_call,
    tool_failure_output, CodexProtocol, ContextManagement, CoreEvent, InferenceHistoryUpdate,
    NextAction, ResponseRequest, ResponseUsage, ToolOutput,
};
use lmx::Error;

fn json(text: &str) -> Json {
    Json::from_text(text).unwrap()
}

fn object(text: &str) -> JsonObject {
    json(text).as_object().unwrap().clone()
}

fn request() -> ResponseRequest {
    ResponseRequest {
        input: vec![build_message_item("user", "Hello").unwrap()],
        context: RequestContext {
            provider: Provider::Openai,
            api_key: "test".into(),
            base_url: None,
            headers: StringMap::new(),
            query: StringMap::new(),
        },
        model: Some("gpt-5.5".into()),
        instructions: "Answer concisely.".into(),
        tools: vec![],
        tool_choice: None,
        reasoning_effort: None,
        text_verbosity: "low".into(),
        text_format: None,
        codex_protocol: None,
        context_management: None,
    }
}

fn codex_request(model: &str, input: Vec<JsonObject>) -> ResponseRequest {
    ResponseRequest {
        input,
        context: RequestContext {
            provider: Provider::Codex,
            api_key: "request-token".into(),
            base_url: None,
            headers: StringMap::single("ChatGPT-Account-ID", "account-123"),
            query: StringMap::new(),
        },
        model: Some(model.into()),
        instructions: String::new(),
        tools: vec![],
        tool_choice: None,
        reasoning_effort: None,
        text_verbosity: "low".into(),
        text_format: None,
        codex_protocol: None,
        context_management: None,
    }
}

fn machine(request: ResponseRequest) -> ResponseMachine {
    ResponseMachine::new(&ProviderRegistry::default(), request).unwrap()
}

#[test]
fn builds_the_shared_wire_payload() {
    let wire = machine(request()).wire_request().unwrap();
    assert_eq!(wire.url, "https://api.openai.com/v1/responses");
    assert_eq!(wire.body.member("input").at(0).get_text("content"), Some("Hello"));
    assert_eq!(wire.body.get_text("instructions"), Some("Answer concisely."));
    assert_eq!(wire.body.member("stream"), &Json::Bool(true));
}

#[test]
fn builds_a_direct_codex_request_from_request_scoped_credentials() {
    let request = codex_request(
        "gpt-5.6-sol",
        vec![build_message_item("user", "Hello").unwrap()],
    );
    let wire = machine(request).wire_request().unwrap();
    assert_eq!(wire.url, "https://chatgpt.com/backend-api/codex/responses");
    assert_eq!(wire.headers.get("Authorization"), Some("Bearer request-token"));
    assert_eq!(wire.headers.get("ChatGPT-Account-ID"), Some("account-123"));
    assert_eq!(
        wire.headers.get("X-OpenAI-Internal-Codex-Responses-Lite"),
        Some("true")
    );
    assert_eq!(wire.headers.get("Accept"), Some("text/event-stream"));
    assert!(wire.body.get("instructions").is_none());
    assert!(wire.body.get("tools").is_none());
    assert_eq!(
        wire.body.member("reasoning").get_text("context"),
        Some("all_turns")
    );
    assert_eq!(
        wire.body.member("input").at(0).get_text("type"),
        Some("additional_tools")
    );
    assert_eq!(wire.body.member("input").at(0).get_text("role"), Some("developer"));
    assert_eq!(wire.body.member("input").at(1).get_text("role"), Some("user"));
}

#[test]
fn builds_a_standard_codex_request_with_server_compaction() {
    let mut request = codex_request(
        "gpt-5.6-luna",
        vec![build_message_item("user", "Hello").unwrap()],
    );
    request.instructions = "Answer concisely.".into();
    request.tools = vec![json(r#"{"type": "function", "name": "work"}"#)];
    request.reasoning_effort = Some("low".into());
    request.codex_protocol = Some(CodexProtocol::ResponsesStandard);
    request.context_management = Some(ContextManagement::Server {
        compact_threshold: 244_800,
    });
    let wire = machine(request).wire_request().unwrap();
    assert!(!wire
        .headers
        .contains_key("X-OpenAI-Internal-Codex-Responses-Lite"));
    assert_eq!(wire.body.get_text("instructions"), Some("Answer concisely."));
    assert_eq!(wire.body.member("tools").at(0).get_text("name"), Some("work"));
    assert_eq!(wire.body.member("input").at(0).get_text("role"), Some("user"));
    assert_eq!(
        wire.body.member("reasoning").get_text("context"),
        Some("all_turns")
    );
    assert_eq!(
        wire.body.member("context_management"),
        &json(r#"[{"type": "compaction", "compact_threshold": 244800}]"#)
    );
}

#[test]
fn server_compaction_replaces_history_and_continues_through_tools() {
    let mut request = codex_request(
        "gpt-5.6-luna",
        vec![build_message_item("user", "Use a tool").unwrap()],
    );
    request.tools = vec![json(r#"{"type": "function", "name": "work"}"#)];
    request.reasoning_effort = Some("low".into());
    request.codex_protocol = Some(CodexProtocol::ResponsesStandard);
    request.context_management = Some(ContextManagement::Server {
        compact_threshold: 1_000,
    });
    let mut machine = machine(request);
    let compact_events = machine
        .ingest(&json(
            r#"{"type": "response.output_item.done", "output_index": 0,
                "item": {"type": "compaction", "encrypted_content": "opaque"}}"#,
        ))
        .unwrap();
    assert!(matches!(
        compact_events.as_slice(),
        [CoreEvent::ContextCompacted { items, usage: None }]
            if items[0].get_text("encrypted_content") == Some("opaque")
    ));
    machine
        .ingest(&json(
            r#"{"type": "response.output_item.done", "output_index": 1,
                "item": {"type": "function_call", "name": "work", "call_id": "call_1",
                         "arguments": "{}"}}"#,
        ))
        .unwrap();
    machine
        .ingest(&json(
            r#"{"type": "response.completed", "response": {"id": "resp_tool",
                "usage": {"input_tokens": 1100, "output_tokens": 10, "total_tokens": 1110}}}"#,
        ))
        .unwrap();
    assert!(matches!(
        machine.finish_round().unwrap(),
        NextAction::ToolCalls { calls } if calls[0].call_id == "call_1"
    ));
    machine
        .submit_tool_outputs(&vec![ToolOutput {
            call_id: "call_1".into(),
            result: json(r#"{"ok": true}"#),
            content: None,
        }])
        .unwrap();
    machine.begin_round().unwrap();
    let wire = machine.wire_request().unwrap();
    let input = wire.body.member("input");
    assert_eq!(input.at(0).get_text("type"), Some("compaction"));
    assert_eq!(input.at(1).get_text("type"), Some("function_call"));
    assert_eq!(input.at(2).get_text("type"), Some("function_call_output"));
    machine
        .ingest(&json(
            r#"{"type": "response.output_item.done", "output_index": 0,
                "item": {"type": "message", "role": "assistant", "content": "Done"}}"#,
        ))
        .unwrap();
    machine
        .ingest(&json(
            r#"{"type": "response.completed", "response": {"id": "resp_done",
                "usage": {"input_tokens": 100, "output_tokens": 5, "total_tokens": 105}}}"#,
        ))
        .unwrap();
    let NextAction::Completed { result } = machine.finish_round().unwrap() else {
        panic!("expected completed")
    };
    assert!(matches!(
        result.history_update,
        InferenceHistoryUpdate::Replace { items }
            if items[0].get_text("type") == Some("compaction")
                && items.last().unwrap().get_text("content") == Some("Done")
    ));
}

#[test]
fn server_compaction_after_a_message_preserves_response_output() {
    let mut request = codex_request(
        "gpt-5.6-luna",
        vec![build_message_item("user", "Hello").unwrap()],
    );
    request.reasoning_effort = Some("low".into());
    request.codex_protocol = Some(CodexProtocol::ResponsesStandard);
    request.context_management = Some(ContextManagement::Server {
        compact_threshold: 1_000,
    });
    let mut machine = machine(request);
    machine
        .ingest(&json(
            r#"{"type": "response.output_item.done", "output_index": 0,
                "item": {"type": "message", "role": "assistant", "content": "Visible reply"}}"#,
        ))
        .unwrap();
    machine
        .ingest(&json(
            r#"{"type": "response.output_item.done", "output_index": 1,
                "item": {"type": "compaction", "encrypted_content": "opaque"}}"#,
        ))
        .unwrap();
    machine
        .ingest(&json(r#"{"type": "response.completed"}"#))
        .unwrap();

    let NextAction::Completed { result } = machine.finish_round().unwrap() else {
        panic!("expected completed")
    };
    assert_eq!(result.output_text, "Visible reply");
    assert_eq!(result.output_items[0].get_text("type"), Some("message"));
    assert!(matches!(
        result.history_update,
        InferenceHistoryUpdate::Replace { items }
            if items.len() == 1 && items[0].get_text("type") == Some("compaction")
    ));
}

#[test]
fn rejects_mismatched_codex_protocol_and_context_management() {
    let mut request = codex_request(
        "gpt-5.6-luna",
        vec![build_message_item("user", "Hello").unwrap()],
    );
    request.codex_protocol = Some(CodexProtocol::ResponsesLite);
    request.context_management = Some(ContextManagement::Server {
        compact_threshold: 244_800,
    });
    assert!(matches!(
        ResponseMachine::new(&ProviderRegistry::default(), request.clone()),
        Err(Error::UnsupportedCapability(_, _))
    ));

    request.codex_protocol = Some(CodexProtocol::ResponsesStandard);
    request.context_management = Some(ContextManagement::RemoteV2 {
        previous_usage: None,
        previous_usage_input_item_count: None,
        auto_compact_token_limit: None,
        retained_message_token_budget: None,
    });
    assert!(matches!(
        ResponseMachine::new(&ProviderRegistry::default(), request),
        Err(Error::UnsupportedCapability(_, _))
    ));
}

#[test]
fn preserves_an_explicit_tool_choice() {
    let mut request = request();
    request.tools = vec![json(r#"{"type": "image_generation", "action": "generate"}"#)];
    request.tool_choice = Some(Json::text("required"));
    let wire = machine(request).wire_request().unwrap();
    assert_eq!(wire.body.get_text("tool_choice"), Some("required"));
}

#[test]
fn emits_image_generation_partials() {
    let mut machine = machine(request());
    let events = machine
        .ingest(&json(
            r#"{"type": "response.image_generation_call.partial_image",
                "partial_image_index": 2, "partial_image_b64": "cHJldmlldw=="}"#,
        ))
        .unwrap();
    assert!(matches!(
        events.as_slice(),
        [CoreEvent::ImageGenerationPartial {
            partial_image_index: 2,
            partial_image_base64,
        }] if partial_image_base64 == "cHJldmlldw=="
    ));
}

#[test]
fn rejects_codex_context_without_an_account_header() {
    let mut request = request();
    request.context.provider = Provider::Codex;
    request.context.api_key = "request-token".into();
    request.context.headers = StringMap::new();
    assert!(matches!(
        ResponseMachine::new(&ProviderRegistry::default(), request),
        Err(Error::State(message)) if message.contains("ChatGPT-Account-ID")
    ));
}

#[test]
fn normalizes_a_completed_round() {
    let mut machine = machine(request());
    let events = machine
        .ingest(&json(
            r#"{"type":"response.output_item.done", "output_index":0,
                "item":{"type":"message", "role":"assistant", "content":"Hi"}}"#,
        ))
        .unwrap();
    assert!(matches!(events[0], CoreEvent::OutputItem { .. }));
    machine
        .ingest(&json(r#"{"type":"response.completed"}"#))
        .unwrap();
    let NextAction::Completed { result } = machine.finish_round().unwrap() else {
        panic!("expected completed")
    };
    assert_eq!(result.output_text, "Hi");
}

#[test]
fn captures_response_identity_usage_and_append_history() {
    let mut machine = machine(request());
    machine
        .ingest(&json(
            r#"{"type":"response.output_item.done", "output_index":0,
                "item":{"type":"message", "role":"assistant", "content":"Hi"}}"#,
        ))
        .unwrap();
    machine
        .ingest(&json(
            r#"{"type":"response.completed", "response": {"id": "resp_123", "usage": {
                "input_tokens": 100,
                "input_tokens_details": {"cached_tokens": 40, "cache_write_tokens": 12},
                "output_tokens": 10, "total_tokens": 110}}}"#,
        ))
        .unwrap();
    let NextAction::Completed { result } = machine.finish_round().unwrap() else {
        panic!("expected completed")
    };
    assert_eq!(result.response_id.as_deref(), Some("resp_123"));
    assert_eq!(
        result.usage,
        Some(ResponseUsage {
            input_tokens: 100,
            cached_input_tokens: 40,
            cache_write_input_tokens: 12,
            output_tokens: 10,
            total_tokens: 110,
        })
    );
    assert!(matches!(
        result.history_update,
        InferenceHistoryUpdate::Append { items } if items.len() == 1
    ));
}

#[test]
fn remote_compaction_v2_replaces_history_before_sampling() {
    let mut request = codex_request(
        "gpt-5.6-sol",
        vec![
            build_message_item("user", "old request").unwrap(),
            build_message_item("assistant", "old answer").unwrap(),
            build_message_item("user", "new request").unwrap(),
        ],
    );
    request.instructions = "Be helpful.".into();
    request.reasoning_effort = Some("medium".into());
    request.text_verbosity = "medium".into();
    request.codex_protocol = Some(CodexProtocol::ResponsesLite);
    request.context_management = Some(ContextManagement::RemoteV2 {
        previous_usage: Some(ResponseUsage {
            input_tokens: 245_000,
            cached_input_tokens: 200_000,
            cache_write_input_tokens: 0,
            output_tokens: 100,
            total_tokens: 245_100,
        }),
        previous_usage_input_item_count: Some(2),
        auto_compact_token_limit: None,
        retained_message_token_budget: None,
    });
    let mut machine = machine(request.clone());
    machine.begin_round().unwrap();
    let wire = machine.wire_request().unwrap();
    let input = wire.body.member("input").as_array().unwrap();
    assert_eq!(
        input.last().unwrap().get_text("type"),
        Some("compaction_trigger")
    );
    assert_eq!(
        wire.headers.get("x-codex-beta-features"),
        Some("remote_compaction_v2")
    );
    machine
        .ingest(&json(
            r#"{"type": "response.output_item.done", "output_index": 0,
                "item": {"type": "compaction", "encrypted_content": "opaque"}}"#,
        ))
        .unwrap();
    machine
        .ingest(&json(
            r#"{"type": "response.completed", "response": {"id": "resp_compact", "usage": {
                "input_tokens": 245000, "output_tokens": 800, "total_tokens": 245800}}}"#,
        ))
        .unwrap();
    let NextAction::Compacted { items, usage } = machine.finish_round().unwrap() else {
        panic!("expected compaction")
    };
    assert_eq!(usage.unwrap().input_tokens, 245_000);
    assert_eq!(items.len(), 3);
    assert_eq!(items[0].get_text("content"), Some("old request"));
    assert_eq!(items[1].get_text("content"), Some("new request"));
    assert_eq!(items[2].get_text("type"), Some("compaction"));

    machine.begin_round().unwrap();
    let wire = machine.wire_request().unwrap();
    let input = wire.body.member("input").as_array().unwrap();
    assert_ne!(
        input.last().unwrap().get_text("type"),
        Some("compaction_trigger")
    );
    machine
        .ingest(&json(
            r#"{"type":"response.output_item.done", "output_index":0,
                "item":{"type":"message", "role":"assistant", "content":"Done"}}"#,
        ))
        .unwrap();
    machine
        .ingest(&json(
            r#"{"type":"response.completed", "response": {"id": "resp_done",
                "usage": {"input_tokens": 12000, "output_tokens": 20, "total_tokens": 12020}}}"#,
        ))
        .unwrap();
    let NextAction::Completed { result } = machine.finish_round().unwrap() else {
        panic!("expected completed")
    };
    assert!(matches!(
        result.history_update,
        InferenceHistoryUpdate::Replace { items }
            if items.last().unwrap().get_text("content") == Some("Done")
    ));
}

#[test]
fn compacts_between_tool_rounds_after_reported_usage_crosses_the_limit() {
    let mut request = codex_request(
        "gpt-5.6-sol",
        vec![build_message_item("user", "Use a tool").unwrap()],
    );
    request.tools = vec![json(r#"{"type":"function", "name":"work"}"#)];
    request.reasoning_effort = Some("medium".into());
    request.text_verbosity = "medium".into();
    request.codex_protocol = Some(CodexProtocol::ResponsesLite);
    request.context_management = Some(ContextManagement::RemoteV2 {
        previous_usage: None,
        previous_usage_input_item_count: None,
        auto_compact_token_limit: Some(1_000),
        retained_message_token_budget: None,
    });
    let mut machine = machine(request);
    machine.begin_round().unwrap();
    assert_eq!(machine.round_kind(), RoundKind::Response);
    machine
        .ingest(&json(
            r#"{"type":"response.output_item.done", "output_index":0,
                "item":{"type":"function_call", "name":"work", "call_id":"call_1",
                        "arguments":"{}"}}"#,
        ))
        .unwrap();
    machine
        .ingest(&json(
            r#"{"type":"response.completed", "response": {"id": "resp_tool",
                "usage": {"input_tokens": 1100, "output_tokens": 10, "total_tokens": 1110}}}"#,
        ))
        .unwrap();
    assert!(matches!(
        machine.finish_round().unwrap(),
        NextAction::ToolCalls { .. }
    ));
    machine
        .submit_tool_outputs(&vec![ToolOutput {
            call_id: "call_1".into(),
            result: json(r#"{"ok": true}"#),
            content: None,
        }])
        .unwrap();
    machine.begin_round().unwrap();
    assert_eq!(machine.round_kind(), RoundKind::Compaction);
    let wire = machine.wire_request().unwrap();
    let input = wire.body.member("input").as_array().unwrap();
    assert_eq!(
        input.last().unwrap().get_text("type"),
        Some("compaction_trigger")
    );
}

#[test]
fn rejects_a_round_without_a_terminal_completed_event() {
    let mut machine = machine(request());
    machine
        .ingest(&json(
            r#"{"type":"response.output_item.done", "output_index":0,
                "item":{"type":"message", "role":"assistant", "content":"partial"}}"#,
        ))
        .unwrap();
    assert!(matches!(
        machine.finish_round(),
        Err(Error::State(message)) if message.contains("completed stream event")
    ));
}

#[test]
fn permits_more_than_the_previous_tool_roundtrip_limit() {
    let mut machine = machine(request());
    for index in 0..9 {
        machine
            .ingest(&json(&format!(
                r#"{{"type": "response.output_item.done", "output_index": 0,
                    "item": {{"type": "function_call", "name": "continue",
                              "call_id": "call_{index}", "arguments": "{{}}"}}}}"#
            )))
            .unwrap();
        machine
            .ingest(&json(r#"{"type": "response.completed"}"#))
            .unwrap();
        assert!(matches!(
            machine.finish_round().unwrap(),
            NextAction::ToolCalls { .. }
        ));
        machine
            .submit_tool_outputs(&vec![ToolOutput {
                call_id: format!("call_{index}"),
                result: json(r#"{"ok": true}"#),
                content: None,
            }])
            .unwrap();
    }
    assert_eq!(machine.tool_roundtrips(), 9);
}

#[test]
fn exposes_the_exact_submitted_tool_output_item() {
    let mut machine = machine(request());
    let events = machine
        .submit_tool_outputs(&vec![ToolOutput {
            call_id: "call_image".into(),
            result: json(r#"{"ok": true}"#),
            content: Some(json(r#"[{"type": "input_text", "text": "done"}]"#)),
        }])
        .unwrap();
    let [CoreEvent::ToolCallCompleted { output_item, .. }] = events.as_slice() else {
        panic!("expected a completed tool event")
    };
    assert_eq!(
        output_item,
        &object(
            r#"{"type": "function_call_output", "call_id": "call_image",
                "output": [{"type": "input_text", "text": "done"}]}"#
        )
    );
}

#[test]
fn a_result_without_content_is_handed_over_as_json_text() {
    let mut machine = machine(request());
    let events = machine
        .submit_tool_outputs(&vec![ToolOutput {
            call_id: "call_1".into(),
            result: json(r#"{"b": [1, -2, 2.5], "a": null}"#),
            content: None,
        }])
        .unwrap();
    let [CoreEvent::ToolCallCompleted { output_item, .. }] = events.as_slice() else {
        panic!("expected a completed tool event")
    };
    let text = output_item.get_text("output").unwrap();
    assert_eq!(json(text), json(r#"{"a": null, "b": [1, -2, 2.5]}"#));
    assert!(!text.contains(' '));
}

#[test]
fn a_complete_response_refuses_further_steps() {
    let mut machine = machine(request());
    machine
        .ingest(&json(r#"{"type":"response.completed"}"#))
        .unwrap();
    assert!(matches!(
        machine.finish_round().unwrap(),
        NextAction::Completed { .. }
    ));
    for error in [
        machine.wire_request().unwrap_err(),
        machine.begin_round().unwrap_err(),
        machine.finish_round().unwrap_err(),
        machine.submit_tool_outputs(&vec![]).unwrap_err(),
    ] {
        assert_eq!(
            error.message(),
            "invalid response state: response is already complete"
        );
    }
}

#[test]
fn output_items_are_taken_in_the_order_of_their_indexes() {
    let mut machine = machine(request());
    for index in [2, 0, 1] {
        machine
            .ingest(&json(&format!(
                r#"{{"type": "response.output_item.done", "output_index": {index},
                    "item": {{"type": "message", "role": "assistant",
                              "content": "line {index}"}}}}"#
            )))
            .unwrap();
    }
    machine
        .ingest(&json(r#"{"type":"response.completed"}"#))
        .unwrap();
    let NextAction::Completed { result } = machine.finish_round().unwrap() else {
        panic!("expected completed")
    };
    assert_eq!(result.output_text, "line 0\nline 1\nline 2");
}

#[test]
fn a_round_with_untaken_items_is_not_begun_anew() {
    let mut machine = machine(request());
    machine
        .ingest(&json(
            r#"{"type":"response.output_item.done", "output_index":0,
                "item":{"type":"message", "role":"assistant", "content":"Hi"}}"#,
        ))
        .unwrap();
    assert_eq!(
        machine.begin_round().unwrap_err().message(),
        "invalid response state: response round has unprocessed output items"
    );
}

#[test]
fn a_feature_header_of_the_caller_is_kept_in_compaction() {
    let mut request = codex_request(
        "gpt-5.6-sol",
        vec![build_message_item("user", "a long request").unwrap()],
    );
    request
        .context
        .headers
        .insert("X-Codex-Beta-Features", " zeta, alpha ,,alpha");
    request.context_management = Some(ContextManagement::RemoteV2 {
        previous_usage: None,
        previous_usage_input_item_count: None,
        auto_compact_token_limit: Some(1),
        retained_message_token_budget: Some(0),
    });
    let mut machine = machine(request);
    machine.begin_round().unwrap();
    assert_eq!(machine.round_kind(), RoundKind::Compaction);
    let wire = machine.wire_request().unwrap();
    assert_eq!(
        wire.headers.get("X-Codex-Beta-Features"),
        Some("alpha,remote_compaction_v2,zeta")
    );
    assert!(!wire.headers.contains_key("x-codex-beta-features"));
    assert!(machine
        .ingest(&json(r#"{"type": "response.output_text.delta", "delta": "x"}"#))
        .unwrap()
        .is_empty());
    machine
        .ingest(&json(r#"{"type":"response.completed"}"#))
        .unwrap();
    assert_eq!(
        machine.finish_round().unwrap_err().message(),
        "invalid provider event: remote compaction v2 returned 0 output items instead of exactly one"
    );
}

#[test]
fn the_standard_form_drops_a_light_header_in_any_case() {
    let mut request = codex_request(
        "gpt-5.6-sol",
        vec![build_message_item("user", "Hello").unwrap()],
    );
    request
        .context
        .headers
        .insert("x-openai-INTERNAL-codex-responses-lite", "true");
    request.codex_protocol = Some(CodexProtocol::ResponsesStandard);
    let wire = machine(request).wire_request().unwrap();
    assert!(wire
        .headers
        .key_like("X-OpenAI-Internal-Codex-Responses-Lite")
        .is_none());
}

#[test]
fn retained_messages_fit_the_budget_and_are_the_newest() {
    let items = vec![
        build_message_item("user", "first of all").unwrap(),
        build_message_item("assistant", "an answer").unwrap(),
        build_message_item("developer", "second").unwrap(),
        build_message_item("user", "third").unwrap(),
    ];
    let kept = |budget: u64| {
        lmx::tokens::retain_compaction_messages(&items, budget)
            .iter()
            .map(|item| item.get_text("content").unwrap().to_owned())
            .collect::<Vec<_>>()
    };
    // "message" is 2, "user" 1, "developer" 3, "third" 2, "second" 2, "first of all" 3.
    assert_eq!(kept(4), Vec::<String>::new());
    assert_eq!(kept(5), ["third"]);
    assert_eq!(kept(11), ["third"]);
    assert_eq!(kept(12), ["second", "third"]);
    assert_eq!(kept(17), ["second", "third"]);
    assert_eq!(kept(18), ["first of all", "second", "third"]);
}

#[test]
fn names_a_request_for_another_provider_or_model() {
    let mut wrong_model = request();
    wrong_model.model = Some("gpt-1".into());
    assert_eq!(
        ResponseMachine::new(&ProviderRegistry::default(), wrong_model)
            .unwrap_err()
            .message(),
        "model \"gpt-1\" is not available for provider \"openai\""
    );
    let mut bedrock = request();
    bedrock.context.provider = Provider::Bedrock;
    assert_eq!(
        ResponseMachine::new(&ProviderRegistry::default(), bedrock)
            .unwrap_err()
            .message(),
        "unknown provider: bedrock"
    );
    let mut protocol = request();
    protocol.codex_protocol = Some(CodexProtocol::ResponsesLite);
    assert_eq!(
        ResponseMachine::new(&ProviderRegistry::default(), protocol)
            .unwrap_err()
            .message(),
        "provider openai does not support GPT-5.6 Codex Responses protocol selection"
    );
    let mut azure = request();
    azure.context.provider = Provider::Azure;
    assert_eq!(
        ResponseMachine::new(&ProviderRegistry::default(), azure)
            .unwrap_err()
            .message(),
        "provider azure has no OpenAI-compatible base URL"
    );
    let mut usage = codex_request("gpt-5.6-sol", vec![]);
    usage.context_management = Some(ContextManagement::RemoteV2 {
        previous_usage: None,
        previous_usage_input_item_count: Some(0),
        auto_compact_token_limit: None,
        retained_message_token_budget: None,
    });
    assert_eq!(
        ResponseMachine::new(&ProviderRegistry::default(), usage)
            .unwrap_err()
            .message(),
        "invalid response state: previous usage requires its valid input item count checkpoint"
    );
    let mut threshold = codex_request("gpt-5.6-sol", vec![]);
    threshold.context_management = Some(ContextManagement::Server {
        compact_threshold: 0,
    });
    assert_eq!(
        ResponseMachine::new(&ProviderRegistry::default(), threshold)
            .unwrap_err()
            .message(),
        "invalid response state: server compact threshold must be greater than zero"
    );
}

#[test]
fn codex_goes_nowhere_else() {
    let mut request = codex_request("gpt-5.6-sol", vec![]);
    request.context.base_url = Some("https://chatgpt.com/backend-api/codex//".into());
    assert_eq!(
        machine(request.clone()).wire_request().unwrap().url,
        "https://chatgpt.com/backend-api/codex/responses"
    );
    request.context.base_url = Some("https://elsewhere.example/codex".into());
    assert!(matches!(
        ResponseMachine::new(&ProviderRegistry::default(), request),
        Err(Error::State(message)) if message.contains("only permits")
    ));
}

#[test]
fn builds_messages_of_known_roles_only() {
    let item = build_message_item("system", " hi ").unwrap();
    assert_eq!(
        item,
        object(r#"{"type": "message", "role": "system", "content": " hi "}"#)
    );
    assert_eq!(
        build_message_item("tool", "x").unwrap_err().message(),
        "invalid response state: unsupported message role: \"tool\""
    );
    assert_eq!(
        build_message_item("user", " \n").unwrap_err().message(),
        "invalid response state: message text must not be empty"
    );
}

#[test]
fn takes_tool_outputs_out_of_their_envelopes() {
    let content = normalize_tool_output(
        "a",
        json(r#"{"type": "content", "result": 1, "content": [2]}"#),
    );
    assert_eq!(content.result, Json::number(1));
    assert_eq!(content.content, Some(json("[2]")));
    let result = normalize_tool_output("a", json(r#"{"type": "json", "content": [2]}"#));
    assert_eq!(result.result, Json::Null);
    assert_eq!(result.content, None);
    let plain = normalize_tool_output("a", json(r#"{"type": "other"}"#));
    assert_eq!(plain.result, json(r#"{"type": "other"}"#));
    let failure = tool_failure_output("a", "broken");
    assert_eq!(failure.result, json(r#"{"ok": false, "error": "broken"}"#));
}

#[test]
fn reads_the_arguments_of_calls() {
    let call = parse_tool_call(&object(
        r#"{"name": "f", "call_id": "c", "arguments": "{\"x\": [true]}"}"#,
    ))
    .unwrap();
    assert_eq!(call.arguments, json(r#"{"x": [true]}"#));
    let empty = parse_tool_call(&object(r#"{"arguments": ""}"#)).unwrap();
    assert_eq!(empty.arguments, json("{}"));
    assert_eq!(
        parse_tool_call(&object(r#"{"arguments": "[1]"}"#))
            .unwrap_err()
            .message(),
        "invalid function-call arguments: function_call arguments must decode to a JSON object"
    );
    assert_eq!(
        parse_tool_call(&object(r#"{"arguments": {}}"#))
            .unwrap_err()
            .message(),
        "invalid function-call arguments: function_call arguments must be JSON text"
    );
    assert!(matches!(
        parse_tool_call(&object(r#"{"arguments": "{"}"#)),
        Err(Error::FunctionArguments(message)) if message.contains("EOF")
    ));
}

#[test]
fn gathers_the_text_of_the_assistant() {
    let items = vec![
        object(r#"{"type": "message", "role": "user", "content": "no"}"#),
        object(
            r#"{"type": "message", "role": "assistant",
                "content": [{"text": " one"}, {"image": 1}, {"text": "two"}]}"#,
        ),
        object(r#"{"type": "message", "role": "assistant", "content": ""}"#),
        object(r#"{"type": "message", "role": "assistant", "content": "three "}"#),
    ];
    assert_eq!(output_text_from_items(&items), "one\ntwo\nthree");
}

#[test]
fn reports_streams_that_fail() {
    let mut machine = machine(request());
    assert_eq!(
        machine
            .ingest(&json(r#"{"type": "response.failed"}"#))
            .unwrap_err()
            .message(),
        "invalid provider event: request failed during stream: {\"type\":\"response.failed\"}"
    );
    assert_eq!(
        machine
            .ingest(&json(r#"{"type": "response.incomplete"}"#))
            .unwrap_err()
            .message(),
        "invalid provider event: request ended incomplete: {\"type\":\"response.incomplete\"}"
    );
    assert!(machine
        .ingest(&json(r#"{"type": "response.output_item.done", "item": 3}"#))
        .is_err());
    assert!(machine
        .ingest(&json(
            r#"{"type": "response.image_generation_call.partial_image",
                "partial_image_index": 256, "partial_image_b64": "eA=="}"#
        ))
        .is_err());
    let events = machine
        .ingest(&json(r#"{"type": "response.output_text.delta", "delta": "x"}"#))
        .unwrap();
    assert!(matches!(events.as_slice(), [CoreEvent::TextDelta { delta }] if delta == "x"));
}

fn item_event(index: usize, item: &str) -> Json {
    json(&format!(
        r#"{{"type": "response.output_item.done", "output_index": {index}, "item": {item}}}"#
    ))
}

fn call_item(call_id: &str) -> String {
    format!(
        r#"{{"type": "function_call", "name": "work", "call_id": "{call_id}", "arguments": "{{}}"}}"#
    )
}

fn work_output(call_id: &str) -> ToolOutput {
    ToolOutput {
        call_id: call_id.into(),
        result: json(r#"{"ok": true}"#),
        content: Some(json(r#""done""#)),
    }
}

fn work_output_item(call_id: &str) -> JsonObject {
    object(&format!(
        r#"{{"type": "function_call_output", "call_id": "{call_id}", "output": "done"}}"#
    ))
}

#[test]
fn the_history_goes_on_behind_the_last_compaction() {
    let mut request = codex_request(
        "gpt-5.6-luna",
        vec![build_message_item("user", "Use a tool").unwrap()],
    );
    request.codex_protocol = Some(CodexProtocol::ResponsesStandard);
    request.context_management = Some(ContextManagement::Server {
        compact_threshold: 1_000,
    });
    let mut machine = machine(request);
    let end = json(r#"{"type": "response.completed"}"#);
    let old = r#"{"type": "compaction", "encrypted_content": "old"}"#;
    let new = r#"{"type": "compaction", "encrypted_content": "new"}"#;
    let said = r#"{"type": "message", "role": "assistant", "content": "Before"}"#;
    let done = r#"{"type": "message", "role": "assistant", "content": "Done"}"#;

    machine.ingest(&item_event(3, &call_item("call_1"))).unwrap();
    machine.ingest(&item_event(2, new)).unwrap();
    machine.ingest(&item_event(1, said)).unwrap();
    machine.ingest(&item_event(0, old)).unwrap();
    machine.ingest(&end).unwrap();
    assert!(machine.wants_tools());
    machine.finish_round().unwrap();
    machine.submit_tool_outputs(&vec![work_output("call_1")]).unwrap();
    for call_id in ["call_2", "call_3"] {
        machine.begin_round().unwrap();
        machine.ingest(&item_event(0, &call_item(call_id))).unwrap();
        machine.ingest(&end).unwrap();
        machine.finish_round().unwrap();
        machine.submit_tool_outputs(&vec![work_output(call_id)]).unwrap();
    }
    machine.begin_round().unwrap();
    machine.ingest(&item_event(0, done)).unwrap();
    machine.ingest(&end).unwrap();
    assert!(!machine.wants_tools());
    let NextAction::Completed { result } = machine.finish_round().unwrap() else {
        panic!("expected completed")
    };
    let InferenceHistoryUpdate::Replace { items } = result.history_update else {
        panic!("expected a new history")
    };
    assert_eq!(
        items,
        vec![
            object(new),
            object(&call_item("call_1")),
            work_output_item("call_1"),
            object(&call_item("call_2")),
            work_output_item("call_2"),
            object(&call_item("call_3")),
            work_output_item("call_3"),
            object(done),
        ]
    );
    assert_eq!(
        result.output_items,
        vec![
            object(said),
            object(&call_item("call_1")),
            work_output_item("call_1"),
            object(&call_item("call_2")),
            work_output_item("call_2"),
            object(&call_item("call_3")),
            work_output_item("call_3"),
            object(done),
        ]
    );
    assert_eq!(result.tool_roundtrips, 3);
}

#[test]
fn every_countable_tool_round_is_permitted() {
    let mut machine = machine(request());
    let end = json(r#"{"type": "response.completed"}"#);
    for index in 0..255 {
        let call_id = format!("call_{index}");
        machine.ingest(&item_event(0, &call_item(&call_id))).unwrap();
        assert!(machine.wants_tools());
        machine.ingest(&end).unwrap();
        let NextAction::ToolCalls { calls } = machine.finish_round().unwrap() else {
            panic!("expected a call")
        };
        assert_eq!(calls.len(), 1);
        assert_eq!(calls[0].call_id, call_id);
        machine.submit_tool_outputs(&vec![work_output(&call_id)]).unwrap();
        assert_eq!(usize::from(machine.tool_roundtrips()), index + 1);
    }
    machine
        .ingest(&item_event(
            0,
            r#"{"type": "message", "role": "assistant", "content": "Done"}"#,
        ))
        .unwrap();
    machine.ingest(&end).unwrap();
    let NextAction::Completed { result } = machine.finish_round().unwrap() else {
        panic!("expected completed")
    };
    assert_eq!(result.tool_roundtrips, 255);
    assert!(matches!(machine.wire_request(), Err(Error::State(_))));
    assert!(matches!(machine.finish_round(), Err(Error::State(_))));
    assert!(matches!(
        machine.submit_tool_outputs(&vec![work_output("call_0")]),
        Err(Error::State(_))
    ));
}
