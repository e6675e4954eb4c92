//! The models of an account.
use lmx::catalog::{
    api_models, apply_model_defaults, assistant_model, cache_key, codex_models, discovered_models,
    discovery_url, keeps_entry, prepare_response_request, CodexModel, ModelSpec,
};
use lmx::json::Json;
use lmx::machine::ResponseMachine;
use lmx::ordered::StringMap;
use lmx::providers::{Provider, ProviderRegistry, RequestContext};
use lmx::response::{CodexProtocol, ContextManagement, ResponseRequest};

fn json(text: &str) -> Json {
    Json::from_text(text).unwrap()
}

fn context(provider: Provider) -> RequestContext {
    RequestContext {
        provider,
        api_key: "test".into(),
        base_url: None,
        headers: StringMap::single("ChatGPT-Account-ID", "account"),
        query: StringMap::new(),
    }
}

fn request() -> ResponseRequest {
    ResponseRequest {
        input: vec![],
        context: context(Provider::Codex),
        model: Some("gpt-7-next".into()),
        instructions: "Work".into(),
        tools: vec![json(r#"{"type":"function","name":"work"}"#)],
        tool_choice: None,
        reasoning_effort: None,
        text_verbosity: "low".into(),
        text_format: None,
        codex_protocol: None,
        context_management: None,
    }
}

fn next_model() -> ModelSpec {
    ModelSpec {
        id: "gpt-7-next".into(),
        display_name: "Next".into(),
        context_window: Some(500000),
        compact_threshold: Some(450000),
        reasoning_efforts: vec!["max".into()],
        default_reasoning_effort: Some("max".into()),
        supports_images: true,
        supports_tool_search: true,
    }
}

#[test]
fn future_models_and_specialized_models() {
    for id in ["gpt-5.3-codex", "gpt-6-astra", "gpt-7", "gpt-12.2-mini"] {
        assert!(assistant_model(id), "{id}");
    }
    for id in [
        "gpt-5.2",
        "gpt-image-2",
        "gpt-6-audio",
        "gpt-5.3-chat-latest",
        "gpt-6-pro",
        "text-embedding-3-large",
    ] {
        assert!(!assistant_model(id), "{id}");
    }
}

#[test]
fn catalog_controls_visibility_limits_and_efforts() {
    let models = codex_models(&vec![
        CodexModel {
            slug: "gpt-7".into(),
            display_name: "Next".into(),
            visibility: "list".into(),
            context_window: Some(300000),
            auto_compact_token_limit: Some(290000),
            supported_reasoning_levels: vec!["max".into(), "ultra".into()],
            default_reasoning_level: Some("max".into()),
            supports_search_tool: true,
            input_modalities: vec!["text".into(), "image".into()],
        },
        CodexModel {
            slug: "private".into(),
            display_name: "Private".into(),
            visibility: "hide".into(),
            context_window: Some(100000),
            auto_compact_token_limit: None,
            supported_reasoning_levels: vec![],
            default_reasoning_level: None,
            supports_search_tool: false,
            input_modalities: vec![],
        },
    ]);
    assert_eq!(models.len(), 1);
    assert_eq!(models[0].compact_threshold, Some(270000));
    assert_eq!(models[0].reasoning_efforts, ["max"]);
    assert!(models[0].supports_tool_search);
    assert!(models[0].supports_images);
}

#[test]
fn discovered_future_model_gets_standard_compaction_without_name_gates() {
    let registry = ProviderRegistry::default();
    let models = vec![next_model()];
    let prepared = apply_model_defaults(request(), &models, &registry).unwrap();
    let wire = ResponseMachine::new(&registry, prepared)
        .unwrap()
        .wire_request()
        .unwrap();
    assert_eq!(
        wire.body
            .member("context_management")
            .at(0)
            .get_u64("compact_threshold"),
        Some(450000)
    );
    assert_eq!(wire.body.member("reasoning").get_text("effort"), Some("max"));
    assert_eq!(wire.body.member("tools").at(0).get_text("name"), Some("work"));
    assert!(!wire
        .headers
        .contains_key("X-OpenAI-Internal-Codex-Responses-Lite"));
    let mut explicit = request();
    explicit.context_management = Some(ContextManagement::Server {
        compact_threshold: 10000,
    });
    let explicit = apply_model_defaults(explicit, &models, &registry).unwrap();
    assert!(matches!(
        explicit.context_management,
        Some(ContextManagement::Server {
            compact_threshold: 10000
        })
    ));
    let mut invalid = request();
    invalid.reasoning_effort = Some("ultra".into());
    assert!(apply_model_defaults(invalid, &models, &registry).is_err());
}

#[test]
fn explicit_choices_are_not_changed() {
    let registry = ProviderRegistry::default();
    let mut lite = request();
    lite.codex_protocol = Some(CodexProtocol::ResponsesLite);
    let lite = apply_model_defaults(lite, &vec![next_model()], &registry).unwrap();
    assert_eq!(lite.codex_protocol, Some(CodexProtocol::ResponsesLite));
    assert_eq!(lite.context_management, None);
    let mut remote = request();
    remote.context_management = Some(ContextManagement::RemoteV2 {
        previous_usage: None,
        previous_usage_input_item_count: None,
        auto_compact_token_limit: None,
        retained_message_token_budget: Some(7),
    });
    let remote = apply_model_defaults(remote, &vec![next_model()], &registry).unwrap();
    assert_eq!(remote.codex_protocol, Some(CodexProtocol::ResponsesLite));
    assert_eq!(
        remote.context_management,
        Some(ContextManagement::RemoteV2 {
            previous_usage: None,
            previous_usage_input_item_count: None,
            auto_compact_token_limit: Some(450000),
            retained_message_token_budget: Some(7),
        })
    );
}

#[test]
fn the_configured_model_comes_first_and_then_the_first_one() {
    let registry = ProviderRegistry::default();
    let mut open = request();
    open.model = None;
    let mut known = next_model();
    known.id = "gpt-5.6-sol".into();
    let chosen =
        apply_model_defaults(open.clone(), &vec![next_model(), known], &registry).unwrap();
    assert_eq!(chosen.model.as_deref(), Some("gpt-5.6-sol"));
    let chosen = apply_model_defaults(open.clone(), &vec![next_model()], &registry).unwrap();
    assert_eq!(chosen.model.as_deref(), Some("gpt-7-next"));
    assert_eq!(
        apply_model_defaults(open, &vec![], &registry)
            .unwrap_err()
            .message(),
        "model \"\" is not available for provider \"codex\""
    );
}

#[test]
fn only_requests_for_codex_are_prepared() {
    let registry = ProviderRegistry::default();
    let mut other = request();
    other.context.provider = Provider::Openai;
    let other = prepare_response_request(other, &vec![], &registry).unwrap();
    assert_eq!(other.codex_protocol, None);
    let codex = prepare_response_request(request(), &vec![next_model()], &registry).unwrap();
    assert_eq!(codex.codex_protocol, Some(CodexProtocol::ResponsesStandard));
}

#[test]
fn api_models_are_sorted_assistants() {
    let ids = ["gpt-7", "dall-e-3", "gpt-5.4", "gpt-7", "gpt-6-audio"]
        .map(String::from)
        .to_vec();
    let models = api_models(&ids);
    let ids: Vec<&str> = models.iter().map(|model| model.id.as_str()).collect();
    assert_eq!(ids, ["gpt-5.4", "gpt-7"]);
    assert_eq!(models[0].display_name, "gpt-5.4");
    assert_eq!(
        discovered_models(Provider::Openai, vec![])
            .unwrap_err()
            .message(),
        "invalid response state: openai discovery returned no assistant models"
    );
}

#[test]
fn models_are_listed_where_the_account_is() {
    assert_eq!(
        discovery_url(&context(Provider::Codex)).unwrap(),
        "https://chatgpt.com/backend-api/codex/models?client%5Fversion=0%2E153%2E4"
    );
    let mut openai = context(Provider::Openai);
    assert_eq!(
        discovery_url(&openai).unwrap(),
        "https://api.openai.com/v1/models"
    );
    openai.base_url = Some("http://127.0.0.1:8080/v1".into());
    assert_eq!(
        discovery_url(&openai).unwrap(),
        "http://127.0.0.1:8080/v1/models"
    );
    assert_eq!(
        discovery_url(&context(Provider::Nanogpt))
            .unwrap_err()
            .message(),
        "provider nanogpt does not support model discovery"
    );
}

#[test]
fn what_is_kept_depends_on_the_credentials() {
    let first = context(Provider::Openai);
    let mut second = context(Provider::Openai);
    assert_eq!(cache_key(&first), cache_key(&second));
    assert_eq!(cache_key(&first).len(), 32);
    second.api_key = "second".into();
    assert_ne!(cache_key(&first), cache_key(&second));
    let text = r#"{"apiKey":"test","headers":{"ChatGPT-Account-ID":"account"},"provider":"openai"}"#;
    let digest = <sha2::Sha256 as sha2::Digest>::digest(json(text).to_text().as_bytes());
    assert_eq!(cache_key(&first), digest.to_vec());
}

#[test]
fn what_is_kept_stays_for_five_minutes() {
    assert!(keeps_entry(false, false, Some(299)));
    assert!(!keeps_entry(false, false, Some(300)));
    assert!(!keeps_entry(false, false, None));
    assert!(keeps_entry(true, false, None));
    assert!(keeps_entry(false, true, None));
}
