//! The context of a request, out of the environment.
use vstd::prelude::*;

use crate::error::{state_error, Error};
#[allow(unused_imports)]
use crate::error::{outcome, ErrorView};
use crate::ordered::StringMap;
#[allow(unused_imports)]
use crate::ordered::put;
use crate::providers::{Environment, Provider, RequestContext};
#[allow(unused_imports)]
use crate::providers::{env_text, env_text_or, provider_name, ContextView, EnvironmentView};
use crate::text::{
    cat, cat3, contains, ends_with, is_blank, owned, replace, trim, trim_end_char,
};
#[allow(unused_imports)]
use crate::text::{contains_text, finishes_with, replaced, trimmed, without_trailing};

verus! {

/// The endpoint of an Azure resource in the form `.../openai/v1`.
pub open spec fn azure_endpoint(endpoint: Seq<char>) -> Result<Seq<char>, ErrorView> {
    let cleaned = without_trailing(trimmed(endpoint), '/');
    let renamed = if contains_text(cleaned, ".cognitiveservices.azure.com"@) {
        replaced(cleaned, ".cognitiveservices.azure.com"@, ".openai.azure.com"@)
    } else {
        cleaned
    };
    let versioned = if finishes_with(renamed, "/openai"@) {
        renamed + "/v1"@
    } else {
        renamed
    };
    let complete = if !finishes_with(versioned, "/openai/v1"@) && contains_text(
        versioned,
        ".openai.azure.com"@,
    ) {
        versioned + "/openai/v1"@
    } else {
        versioned
    };
    if cleaned.len() == 0 {
        Err(ErrorView::State("azure endpoint must not be empty"@))
    } else if !finishes_with(complete, "/openai/v1"@) {
        Err(ErrorView::State("azure provider requires an /openai/v1 endpoint"@))
    } else {
        Ok(complete)
    }
}

/// Brings the endpoint of an Azure resource into the form `.../openai/v1`.
pub fn normalize_azure_endpoint(endpoint: &str) -> (out: Result<String, Error>)
    ensures
        outcome(out) == azure_endpoint(endpoint@),
{
    let mut cleaned = trim_end_char(trim(endpoint).as_str(), '/');
    if cleaned.as_str().is_empty() {
        return Err(state_error("azure endpoint must not be empty"));
    }
    if contains(cleaned.as_str(), ".cognitiveservices.azure.com") {
        proof {
            reveal_strlit(".cognitiveservices.azure.com");
        }
        cleaned = replace(cleaned.as_str(), ".cognitiveservices.azure.com", ".openai.azure.com");
    }
    if ends_with(cleaned.as_str(), "/openai") {
        cleaned.append("/v1");
    }
    if !ends_with(cleaned.as_str(), "/openai/v1") && contains(
        cleaned.as_str(),
        ".openai.azure.com",
    ) {
        cleaned.append("/openai/v1");
    }
    if !ends_with(cleaned.as_str(), "/openai/v1") {
        return Err(state_error("azure provider requires an /openai/v1 endpoint"));
    }
    Ok(cleaned)
}

/// An endpoint that was normalized ends in `/openai/v1`.
pub proof fn normalized_endpoint_ends_in_the_version(endpoint: Seq<char>)
    ensures
        azure_endpoint(endpoint) matches Ok(out) ==> finishes_with(out, "/openai/v1"@),
{
}

/// No parameters.
pub open spec fn nothing() -> Seq<(Seq<char>, Seq<char>)> {
    Seq::empty()
}

/// What is missing for a provider.
pub open spec fn missing(name: Seq<char>, provider: Seq<char>) -> ErrorView {
    ErrorView::State(name + " is required when provider '"@ + provider + "' is used"@)
}

/// A context with the key that the environment has under `key`.
pub open spec fn key_context(
    environment: EnvironmentView,
    provider: Provider,
    key: Seq<char>,
    base_url: Option<Seq<char>>,
) -> Result<ContextView, ErrorView> {
    match env_text(environment, key) {
        Some(api_key) if trimmed(api_key).len() > 0 => Ok(
            ContextView { provider, api_key, base_url, headers: nothing(), query: nothing() },
        ),
        _ => Err(missing(key, provider_name(provider))),
    }
}

/// The context of a request to Amazon Bedrock: the credentials stand in its
/// headers.
pub open spec fn bedrock_context(environment: EnvironmentView) -> Result<ContextView, ErrorView> {
    match (
        env_text(environment, "AWS_ACCESS_KEY_ID"@),
        env_text(environment, "AWS_SECRET_ACCESS_KEY"@),
    ) {
        (None, _) => Err(
            ErrorView::State("AWS_ACCESS_KEY_ID is required when provider 'bedrock' is used"@),
        ),
        (_, None) => Err(
            ErrorView::State("AWS_SECRET_ACCESS_KEY is required when provider 'bedrock' is used"@),
        ),
        (Some(access_key), Some(secret_key)) => {
            let region = match env_text(environment, "AWS_REGION"@) {
                Some(region) => region,
                None => env_text_or(environment, "AWS_DEFAULT_REGION"@, "us-east-1"@),
            };
            let headers = put(nothing(), "x-bedrock-access-key"@, access_key);
            let headers = put(headers, "x-bedrock-secret-key"@, secret_key);
            let headers = put(headers, "x-bedrock-region"@, region);
            let headers = match env_text(environment, "AWS_SESSION_TOKEN"@) {
                Some(token) => put(headers, "x-bedrock-session-token"@, token),
                None => headers,
            };
            Ok(
                ContextView {
                    provider: Provider::Bedrock,
                    api_key: Seq::empty(),
                    base_url: None,
                    headers,
                    query: nothing(),
                },
            )
        },
    }
}

/// The context of a request to Azure: the key stands in its headers too.
pub open spec fn azure_context(environment: EnvironmentView) -> Result<ContextView, ErrorView> {
    let key = match env_text(environment, "AZURE_OPENAI_API_KEY"@) {
        Some(key) => Some(key),
        None => env_text(environment, "AZURE_OPENAI_KEY"@),
    };
    match (key, env_text(environment, "AZURE_OPENAI_ENDPOINT"@)) {
        (None, _) => Err(
            ErrorView::State(
                "AZURE_OPENAI_API_KEY or AZURE_OPENAI_KEY is required when provider 'azure' is used"@,
            ),
        ),
        (_, None) => Err(
            ErrorView::State("AZURE_OPENAI_ENDPOINT is required when provider 'azure' is used"@),
        ),
        (Some(api_key), Some(endpoint)) => match azure_endpoint(endpoint) {
            Err(error) => Err(error),
            Ok(url) => Ok(
                ContextView {
                    provider: Provider::Azure,
                    api_key,
                    base_url: Some(url),
                    headers: put(nothing(), "api-key"@, api_key),
                    query: match env_text(environment, "AZURE_OPENAI_API_VERSION"@) {
                        Some(version) if trimmed(version).len() > 0 => put(
                            nothing(),
                            "api-version"@,
                            version,
                        ),
                        _ => nothing(),
                    },
                },
            ),
        },
    }
}

/// The context of a request, out of the environment. For Codex there is none:
/// its credentials are never read from there.
pub open spec fn environment_context(
    provider: Provider,
    environment: EnvironmentView,
) -> Result<ContextView, ErrorView> {
    match provider {
        Provider::Bedrock => bedrock_context(environment),
        Provider::Codex => Err(
            ErrorView::State(
                "provider 'codex' requires a request-scoped context; LMX never reads, persists, or refreshes ChatGPT OAuth credentials"@,
            ),
        ),
        Provider::Openai => key_context(
            environment,
            provider,
            "OPENAI_API_KEY"@,
            Some("https://api.openai.com/v1"@),
        ),
        Provider::Nanogpt => key_context(
            environment,
            provider,
            "NANOGPT_API_KEY"@,
            Some(env_text_or(environment, "NANOGPT_BASE_URL"@, "https://nano-gpt.com/api/v1"@)),
        ),
        Provider::Azure => azure_context(environment),
    }
}

/// Whatever the environment holds, it gives no context for Codex.
pub proof fn codex_has_no_context_in_the_environment(environment: EnvironmentView)
    ensures
        environment_context(Provider::Codex, environment) is Err,
{
}

/// A context out of the environment is one for the provider that was asked for.
pub proof fn context_is_for_its_provider(provider: Provider, environment: EnvironmentView)
    ensures
        environment_context(provider, environment) matches Ok(context) ==> context.provider
            == provider,
{
}

fn env_context(
    environment: &Environment,
    provider: Provider,
    key: &str,
    base_url: Option<String>,
) -> (context: Result<RequestContext, Error>)
    ensures
        outcome(context) == key_context(
            environment.deep_view(),
            provider,
            key@,
            base_url.deep_view(),
        ),
{
    match environment.text(key) {
        Some(api_key) => {
            if !is_blank(api_key.as_str()) {
                return Ok(
                    RequestContext {
                        provider,
                        api_key,
                        base_url,
                        headers: StringMap::new(),
                        query: StringMap::new(),
                    },
                );
            }
        },
        None => {},
    }
    let start = cat3(key, " is required when provider '", provider.as_str());
    Err(state_error(cat(start.as_str(), "' is used").as_str()))
}

fn load_bedrock_context(environment: &Environment) -> (context: Result<RequestContext, Error>)
    ensures
        outcome(context) == bedrock_context(environment.deep_view()),
{
    let access_key = match environment.text("AWS_ACCESS_KEY_ID") {
        Some(key) => key,
        None => return Err(
            state_error("AWS_ACCESS_KEY_ID is required when provider 'bedrock' is used"),
        ),
    };
    let secret_key = match environment.text("AWS_SECRET_ACCESS_KEY") {
        Some(key) => key,
        None => return Err(
            state_error("AWS_SECRET_ACCESS_KEY is required when provider 'bedrock' is used"),
        ),
    };
    let region = match environment.text("AWS_REGION") {
        Some(region) => region,
        None => environment.text_or("AWS_DEFAULT_REGION", "us-east-1"),
    };
    let mut headers = StringMap::new();
    headers.insert("x-bedrock-access-key", access_key.as_str());
    headers.insert("x-bedrock-secret-key", secret_key.as_str());
    headers.insert("x-bedrock-region", region.as_str());
    match environment.text("AWS_SESSION_TOKEN") {
        Some(token) => headers.insert("x-bedrock-session-token", token.as_str()),
        None => {},
    }
    let api_key = String::new();
    assert(api_key@ =~= Seq::empty());
    Ok(
        RequestContext {
            provider: Provider::Bedrock,
            api_key,
            base_url: None,
            headers,
            query: StringMap::new(),
        },
    )
}

fn load_azure_context(environment: &Environment) -> (context: Result<RequestContext, Error>)
    ensures
        outcome(context) == azure_context(environment.deep_view()),
{
    let key = match environment.text("AZURE_OPENAI_API_KEY") {
        Some(key) => Some(key),
        None => environment.text("AZURE_OPENAI_KEY"),
    };
    let api_key = match key {
        Some(key) => key,
        None => return Err(
            state_error(
                "AZURE_OPENAI_API_KEY or AZURE_OPENAI_KEY is required when provider 'azure' is used",
            ),
        ),
    };
    let endpoint = match environment.text("AZURE_OPENAI_ENDPOINT") {
        Some(endpoint) => endpoint,
        None => return Err(
            state_error("AZURE_OPENAI_ENDPOINT is required when provider 'azure' is used"),
        ),
    };
    let mut query = StringMap::new();
    match environment.text("AZURE_OPENAI_API_VERSION") {
        Some(version) => {
            if !is_blank(version.as_str()) {
                query.insert("api-version", version.as_str());
            }
        },
        None => {},
    }
    let url = match normalize_azure_endpoint(endpoint.as_str()) {
        Ok(url) => url,
        Err(error) => return Err(error),
    };
    let mut headers = StringMap::new();
    headers.insert("api-key", api_key.as_str());
    Ok(RequestContext { provider: Provider::Azure, api_key, base_url: Some(url), headers, query })
}

/// Builds the context of a request out of the credentials in the environment.
pub fn load_request_context(provider: Provider, environment: &Environment) -> (context: Result<
    RequestContext,
    Error,
>)
    ensures
        outcome(context) == environment_context(provider, environment.deep_view()),
{
    match provider {
        Provider::Bedrock => load_bedrock_context(environment),
        Provider::Codex => Err(
            state_error(
                "provider 'codex' requires a request-scoped context; LMX never reads, persists, or refreshes ChatGPT OAuth credentials",
            ),
        ),
        Provider::Openai => env_context(
            environment,
            provider,
            "OPENAI_API_KEY",
            Some(owned("https://api.openai.com/v1")),
        ),
        Provider::Nanogpt => {
            let base_url = environment.text_or("NANOGPT_BASE_URL", "https://nano-gpt.com/api/v1");
            env_context(environment, provider, "NANOGPT_API_KEY", Some(base_url))
        },
        Provider::Azure => load_azure_context(environment),
    }
}

} // verus!
