//! Providers, their endpoints and their credentials.
use lmx::auth::{load_request_context, normalize_azure_endpoint};
use lmx::endpoint::endpoint_url;
use lmx::ordered::StringMap;
use lmx::providers::{
    discovery_is_fresh, nanogpt_discovery, select_nanogpt_models, version_key, EnvValue,
    Environment, Provider, ProviderRegistry, RequestContext,
};

fn environment(values: &[(&str, &str)]) -> Environment {
    Environment {
        values: values
            .iter()
            .map(|(name, value)| (name.to_string(), EnvValue::Text(value.to_string())))
            .collect(),
    }
}

#[test]
fn selects_the_latest_supported_variant_for_each_nanogpt_family() {
    let models = select_nanogpt_models(
        &[
            "deepseek/deepseek-v3.2",
            "deepseek/deepseek-v4-pro",
            "deepseek/deepseek-v4-pro:thinking",
            "deepseek/deepseek-v4-pro-cheaper:thinking",
            "zai-org/glm-5.1",
            "zai-org/glm-5.2",
            "zai-org/glm-5.2:thinking",
            "moonshotai/kimi-k2.7-code",
            "moonshotai/kimi-k3",
            "moonshotai/kimi-k2.6:thinking",
        ]
        .map(str::to_owned)
        .to_vec(),
    )
    .unwrap();

    assert_eq!(
        models,
        [
            "deepseek/deepseek-v4-pro",
            "deepseek/deepseek-v4-pro:thinking",
            "zai-org/glm-5.2",
            "zai-org/glm-5.2:thinking",
            "moonshotai/kimi-k3",
            "moonshotai/kimi-k2.6:thinking",
        ]
    );
}

#[test]
fn versions_are_read_as_numbers() {
    assert_eq!(version_key("moonshotai/kimi-k2.10:thinking"), [2, 10]);
    assert_eq!(version_key("x99999999999y7"), [7]);
    assert_eq!(
        select_nanogpt_models(&vec!["zai-org/glm-4.9".into(), "zai-org/glm-4.10".into()]).unwrap(),
        ["zai-org/glm-4.10"]
    );
    assert_eq!(
        select_nanogpt_models(&vec!["other".into()])
            .unwrap_err()
            .message(),
        "invalid response state: NanoGPT returned no supported DeepSeek, GLM, or Kimi models"
    );
}

#[test]
fn merges_default_query_with_an_endpoint_query() {
    let query = StringMap::single("api-version", "2025-04-01-preview");
    assert_eq!(
        endpoint_url(
            "https://example.openai.azure.com/openai/v1/",
            "videos/example/content?variant=video",
            &query,
        )
        .unwrap(),
        "https://example.openai.azure.com/openai/v1/videos/example/content?variant=video&api%2Dversion=2025%2D04%2D01%2Dpreview",
    );
}

#[test]
fn encodes_what_is_no_letter_or_digit() {
    let mut query = StringMap::new();
    query.insert("b c", "é~");
    query.insert("a", "1");
    assert_eq!(
        endpoint_url(" https://x.example// ", "models", &query).unwrap(),
        "https://x.example/models?a=1&b%20c=%C3%A9%7E"
    );
    assert_eq!(
        endpoint_url("https://x.example", "/models", &StringMap::new()).unwrap(),
        "https://x.example//models"
    );
    assert_eq!(
        endpoint_url("https://x.example", "/models?q=1", &StringMap::new()).unwrap(),
        "https://x.example/models?q=1"
    );
    assert_eq!(
        endpoint_url(" / ", "models", &query).unwrap_err().message(),
        "provider request context has no OpenAI-compatible base URL"
    );
}

#[test]
fn brings_azure_endpoints_into_one_form() {
    for (endpoint, normal) in [
        (
            "https://a.cognitiveservices.azure.com/",
            "https://a.openai.azure.com/openai/v1",
        ),
        (
            "https://a.openai.azure.com/openai",
            "https://a.openai.azure.com/openai/v1",
        ),
        (
            "https://proxy.example/openai/v1/",
            "https://proxy.example/openai/v1",
        ),
    ] {
        assert_eq!(normalize_azure_endpoint(endpoint).unwrap(), normal);
        assert_eq!(normalize_azure_endpoint(normal).unwrap(), normal);
    }
    assert_eq!(
        normalize_azure_endpoint(" / ").unwrap_err().message(),
        "invalid response state: azure endpoint must not be empty"
    );
    assert_eq!(
        normalize_azure_endpoint("https://x.example")
            .unwrap_err()
            .message(),
        "invalid response state: azure provider requires an /openai/v1 endpoint"
    );
}

#[test]
fn spellings_of_an_azure_resource_agree() {
    for (host, other) in [
        ("https://a.openai.azure.com", "https://a.cognitiveservices.azure.com"),
        (
            "https://a.openai.azure.com:8443/x",
            "https://a.cognitiveservices.azure.com:8443/x",
        ),
        (".openai.azure.com", ".cognitiveservices.azure.com"),
    ] {
        let normal = format!("{host}/openai/v1");
        for path in ["", "/", "/openai", "/openai/", "/openai/v1", "/openai/v1/"] {
            for endpoint in [host, other] {
                assert_eq!(
                    normalize_azure_endpoint(&format!("{endpoint}{path}")).unwrap(),
                    normal
                );
            }
        }
        assert_eq!(normalize_azure_endpoint(&normal).unwrap(), normal);
    }
    let twice = normalize_azure_endpoint(
        " https://a.cognitiveservices.azure.cognitiveservices.azure.com// ",
    )
    .unwrap();
    assert_eq!(
        twice,
        "https://a.cognitiveservices.azure.openai.azure.com/openai/v1"
    );
    assert_eq!(normalize_azure_endpoint(&twice).unwrap(), twice);
}

#[test]
fn loads_contexts_from_the_environment() {
    let values = environment(&[
        ("OPENAI_API_KEY", "key"),
        ("AZURE_OPENAI_KEY", "azure"),
        ("AZURE_OPENAI_ENDPOINT", "https://a.openai.azure.com"),
        ("AZURE_OPENAI_API_VERSION", "v1"),
        ("AWS_ACCESS_KEY_ID", "id"),
        ("AWS_SECRET_ACCESS_KEY", "secret"),
        ("AWS_DEFAULT_REGION", "eu-west-1"),
        ("NANOGPT_API_KEY", " "),
    ]);
    let openai = load_request_context(Provider::Openai, &values).unwrap();
    assert_eq!(openai.api_key, "key");
    assert_eq!(openai.base_url.as_deref(), Some("https://api.openai.com/v1"));
    let azure = load_request_context(Provider::Azure, &values).unwrap();
    assert_eq!(azure.headers.get("api-key"), Some("azure"));
    assert_eq!(azure.query.get("api-version"), Some("v1"));
    let bedrock = load_request_context(Provider::Bedrock, &values).unwrap();
    assert_eq!(bedrock.headers.get("x-bedrock-region"), Some("eu-west-1"));
    assert_eq!(bedrock.headers.get("x-bedrock-session-token"), None);
    assert_eq!(
        load_request_context(Provider::Nanogpt, &values)
            .unwrap_err()
            .message(),
        "invalid response state: NANOGPT_API_KEY is required when provider 'nanogpt' is used"
    );
    assert!(load_request_context(Provider::Codex, &values)
        .unwrap_err()
        .message()
        .contains("requires a request-scoped context"));
    assert!(load_request_context(Provider::Bedrock, &environment(&[]))
        .unwrap_err()
        .message()
        .contains("AWS_ACCESS_KEY_ID"));
}

#[test]
fn the_environment_lists_models() {
    let registry = ProviderRegistry::from_environment(
        &environment(&[
            ("OPENAI_MODELS", " b , a ,b,, c"),
            ("NANOGPT_MODEL", "zai-org/glm-5.1"),
        ]),
        None,
    )
    .unwrap();
    let openai = registry.get(&Provider::Openai).unwrap();
    assert_eq!(openai.available_models, ["b", "a", "c"]);
    assert_eq!(openai.default_model, "b");
    assert_eq!(
        registry.get(&Provider::Nanogpt).unwrap().available_models,
        ["zai-org/glm-5.1", "moonshotai/kimi-k2.6", "deepseek/deepseek-v3.2"]
    );
    assert_eq!(
        ProviderRegistry::from_environment(&environment(&[("CODEX_MODELS", " , ")]), None)
            .unwrap_err()
            .message(),
        "invalid response state: CODEX_MODELS must contain at least one model slug"
    );
    let unreadable = Environment {
        values: vec![("CODEX_MODELS".into(), EnvValue::Unreadable("odd".into()))],
    };
    assert_eq!(
        ProviderRegistry::from_environment(&unreadable, None)
            .unwrap_err()
            .message(),
        "invalid response state: could not read CODEX_MODELS: odd"
    );
    let found = ProviderRegistry::from_environment(&unreadable, Some(&registry)).unwrap();
    assert_eq!(found.get(&Provider::Openai).unwrap().default_model, "b");
}

#[test]
fn discovered_models_replace_the_known_ones() {
    let mut registry = ProviderRegistry::default();
    registry
        .replace_models(Provider::Nanogpt, &vec!["x".into(), "".into(), "x".into(), "y".into()])
        .unwrap();
    let spec = registry.get(&Provider::Nanogpt).unwrap();
    assert_eq!(spec.default_model, "moonshotai/kimi-k2.6");
    assert_eq!(spec.available_models, ["x", "y"]);
    assert_eq!(
        registry
            .replace_models(Provider::Nanogpt, &vec![])
            .unwrap_err()
            .message(),
        "invalid response state: Nanogpt discovery returned no language models"
    );
    assert_eq!(
        registry
            .replace_models(Provider::Bedrock, &vec!["x".into()])
            .unwrap_err()
            .message(),
        "unknown provider: bedrock"
    );
    assert!(discovery_is_fresh(299) && !discovery_is_fresh(300));
    assert_eq!(
        nanogpt_discovery(&environment(&[("NANOGPT_API_KEY", "k")])).unwrap(),
        (
            "https://nano-gpt.com/api/v1/models".to_string(),
            "k".to_string()
        )
    );
    assert!(nanogpt_discovery(&environment(&[])).is_err());
}

#[test]
fn the_registry_is_written_as_json() {
    let json = ProviderRegistry::default().as_json();
    assert_eq!(json.as_array().unwrap().len(), 4);
    assert_eq!(json.at(0).get_text("provider"), Some("codex"));
    assert_eq!(json.at(1).get_text("defaultModel"), Some("gpt-5.5"));
    assert_eq!(json.at(3).member("baseUrl"), &lmx::Json::Null);
    assert_eq!(
        json.at(2).member("availableModels").at(1).as_str(),
        Some("zai-org/glm-5.1")
    );
    assert_eq!(
        json.at(2).member("capabilities").member("supportsPdf"),
        &lmx::Json::Bool(true)
    );
    let registry = ProviderRegistry::default();
    let names: Vec<&str> = registry
        .specs()
        .iter()
        .map(|spec| spec.provider.as_str())
        .collect();
    assert_eq!(names, ["codex", "openai", "nanogpt", "azure"]);
}

#[test]
fn a_context_goes_before_its_provider() {
    let registry = ProviderRegistry::default();
    let mut context = RequestContext {
        provider: Provider::Azure,
        api_key: String::new(),
        base_url: None,
        headers: StringMap::new(),
        query: StringMap::new(),
    };
    let azure = registry.get(&Provider::Azure).unwrap();
    assert!(context.resolved_base_url(azure).is_err());
    let openai = registry.get(&Provider::Openai).unwrap();
    assert_eq!(
        context.resolved_base_url(openai).unwrap(),
        "https://api.openai.com/v1"
    );
    context.base_url = Some("https://x".into());
    assert_eq!(context.resolved_base_url(openai).unwrap(), "https://x");
}
