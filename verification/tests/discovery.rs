//! What the providers offer to an account.
use lmx::catalog::{codex_models, CodexModel, ModelSpec};
use lmx::discovery::{
    answers_are_fresh, asks_for_models, catalogs_as_json, discover_with_context, models_answer,
    nanogpt_answer, Discovery,
};
use lmx::Error;
use lmx::json::Json;
use lmx::ordered::StringMap;
use lmx::providers::{EnvValue, Environment, Provider, ProviderRegistry, RequestContext};

fn environment(values: &[(&str, &str)]) -> Environment {
    Environment {
        values: values
            .iter()
            .map(|(name, value)| (name.to_string(), EnvValue::Text(value.to_string())))
            .collect(),
    }
}

fn model(id: &str) -> ModelSpec {
    ModelSpec {
        id: id.into(),
        display_name: id.to_uppercase(),
        context_window: Some(1000),
        compact_threshold: None,
        reasoning_efforts: vec!["low".into()],
        default_reasoning_effort: None,
        supports_images: true,
        supports_tool_search: false,
    }
}

fn context(provider: Provider) -> RequestContext {
    RequestContext {
        provider,
        api_key: "k".into(),
        base_url: None,
        headers: StringMap::new(),
        query: StringMap::new(),
    }
}

#[test]
fn providers_are_asked_where_there_is_a_credential() {
    let keys = environment(&[("OPENAI_API_KEY", "k"), ("NANOGPT_API_KEY", "n")]);
    let listed = environment(&[("OPENAI_API_KEY", "k"), ("OPENAI_MODELS", "gpt-9")]);
    let nothing = environment(&[]);
    let codex = context(Provider::Codex);
    let openai = context(Provider::Openai);
    assert!(asks_for_models(Provider::Codex, &nothing, Some(&codex)));
    assert!(!asks_for_models(Provider::Codex, &keys, Some(&openai)));
    assert!(!asks_for_models(Provider::Codex, &keys, None));
    assert!(asks_for_models(Provider::Openai, &keys, None));
    assert!(!asks_for_models(Provider::Openai, &listed, None));
    assert!(!asks_for_models(Provider::Openai, &nothing, None));
    assert!(asks_for_models(Provider::Nanogpt, &keys, None));
    assert!(!asks_for_models(Provider::Azure, &keys, None));
}

#[test]
fn configured_models_restrict_what_codex_offers() {
    let environment = environment(&[("CODEX_MODELS", "b, c")]);
    let found = Discovery::Found(vec![model("a"), model("b")]);
    let catalogs = discover_with_context(
        &environment,
        &found,
        &Discovery::NotAsked,
        &Discovery::NotAsked,
    )
    .unwrap();
    assert_eq!(catalogs[0].spec.available_models, ["b"]);
    assert_eq!(catalogs[0].spec.default_model, "b");
    assert_eq!(catalogs[0].model_details[0].display_name, "B");
    assert_eq!(catalogs[1].spec.available_models, ["gpt-5.5", "gpt-5.5-mini"]);
}

#[test]
fn an_unavailable_provider_offers_nothing_and_the_others_remain() {
    let catalogs = discover_with_context(
        &environment(&[]),
        &Discovery::Found(vec![model("gpt-9")]),
        &Discovery::Failed("no route".into()),
        &Discovery::Named(vec!["zai-org/glm-9".into(), "zai-org/glm-9".into()]),
    )
    .unwrap();
    assert_eq!(catalogs[0].spec.available_models, ["gpt-9"]);
    assert_eq!(catalogs[0].spec.default_model, "gpt-5.6-sol");
    assert!(catalogs[1].spec.available_models.is_empty());
    assert_eq!(catalogs[1].discovery_error.as_deref(), Some("no route"));
    assert_eq!(catalogs[1].spec.default_model, "gpt-5.5");
    assert_eq!(catalogs[2].spec.available_models, ["zai-org/glm-9"]);
    let json = catalogs_as_json(&catalogs);
    assert_eq!(json.at(1).get_text("discoveryError"), Some("no route"));
    assert!(json.at(0).get("discoveryError").is_none());
    assert_eq!(
        json.at(0).member("modelDetails"),
        &Json::from_text(
            r#"[{"id": "gpt-9", "displayName": "GPT-9", "contextWindow": 1000,
                "compactThreshold": null, "reasoningEfforts": ["low"],
                "defaultReasoningEffort": null, "supportsImages": true,
                "supportsToolSearch": false}]"#
        )
        .unwrap()
    );
    let unreadable = Environment {
        values: vec![("CODEX_MODELS".into(), EnvValue::Unreadable("odd".into()))],
    };
    assert_eq!(
        discover_with_context(
            &unreadable,
            &Discovery::NotAsked,
            &Discovery::NotAsked,
            &Discovery::NotAsked
        )
        .unwrap_err()
        .message(),
        "invalid response state: could not read CODEX_MODELS: odd"
    );
}

#[test]
fn what_failed_is_asked_again_soon() {
    let found = Discovery::Found(vec![model("a")]);
    let failed = Discovery::Failed("x".into());
    assert!(answers_are_fresh(&found, &Discovery::NotAsked, 299));
    assert!(!answers_are_fresh(&found, &Discovery::NotAsked, 300));
    assert!(answers_are_fresh(&found, &failed, 14));
    assert!(!answers_are_fresh(&failed, &found, 15));
}

#[test]
fn a_registry_takes_what_nanogpt_names() {
    let configured = environment(&[
        ("NANOGPT_API_KEY", "n"),
        ("NANOGPT_MODEL", "zai-org/glm-5.1"),
    ]);
    let named = nanogpt_answer(Ok(vec![
        "zai-org/glm-5.1".into(),
        "zai-org/glm-5.2".into(),
        "other".into(),
    ]));
    let registry = ProviderRegistry::discover(&configured, &named).unwrap();
    let nanogpt = registry.get(&Provider::Nanogpt).unwrap();
    assert_eq!(nanogpt.available_models, ["zai-org/glm-5.2"]);
    assert_eq!(nanogpt.default_model, "zai-org/glm-5.1");
    let codex = registry.get(&Provider::Codex).unwrap();
    assert_eq!(codex.default_model, "gpt-5.6-sol");
}

#[test]
fn a_registry_goes_without_nanogpt() {
    let nothing = environment(&[("AZURE_OPENAI_MODELS", "a, b")]);
    let plain = ProviderRegistry::discover(&nothing, &Discovery::NotAsked).unwrap();
    for failed in [
        nanogpt_answer(Err(Error::Http("no route".into()))),
        nanogpt_answer(Ok(vec!["other".into()])),
    ] {
        let registry = ProviderRegistry::discover(&nothing, &failed).unwrap();
        let nanogpt = registry.get(&Provider::Nanogpt).unwrap();
        assert!(nanogpt.available_models.is_empty());
        assert_eq!(nanogpt.default_model, "moonshotai/kimi-k2.6");
        for provider in [Provider::Codex, Provider::Openai, Provider::Azure] {
            assert_eq!(registry.get(&provider).unwrap(), plain.get(&provider).unwrap());
        }
    }
    assert_eq!(plain.get(&Provider::Azure).unwrap().available_models, ["a", "b"]);
    let empty = environment(&[("CODEX_MODELS", " ,")]);
    assert!(ProviderRegistry::discover(&empty, &Discovery::NotAsked).is_err());
}

#[test]
fn an_answer_says_why_it_is_none() {
    assert!(matches!(
        nanogpt_answer(Err(Error::Http("no route".into()))),
        Discovery::Failed(message) if message == "HTTP request failed: no route"
    ));
    assert!(matches!(
        models_answer(Err(Error::State("x".into()))),
        Discovery::Failed(message) if message == "invalid response state: x"
    ));
    assert!(matches!(
        models_answer(Ok(vec![model("a")])),
        Discovery::Found(models) if models.len() == 1
    ));
}

#[test]
fn hidden_models_and_ultra_stay_inside() {
    let listed = |slug: &str, visibility: &str| CodexModel {
        slug: slug.into(),
        display_name: slug.into(),
        visibility: visibility.into(),
        context_window: None,
        auto_compact_token_limit: Some(5),
        supported_reasoning_levels: vec!["ultra".into(), "low".into(), "ultra".into()],
        default_reasoning_level: None,
        supports_search_tool: false,
        input_modalities: Vec::new(),
    };
    let models = codex_models(&vec![listed("a", "hide"), listed("b", "list")]);
    assert_eq!(models.len(), 1);
    assert_eq!(models[0].id, "b");
    assert_eq!(models[0].reasoning_efforts, ["low"]);
}
