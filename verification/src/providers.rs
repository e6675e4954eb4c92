//! The providers, their models and the context of a request.
use vstd::prelude::*;

use crate::discovery::{offer, Discovery};
#[allow(unused_imports)]
use crate::discovery::{registry_offered, DiscoveryView};
use crate::error::{state_error, Error};
#[allow(unused_imports)]
use crate::error::{outcome, ErrorView};
use crate::json::{Json, JsonObject};
#[allow(unused_imports)]
use crate::json::{no_members, text_json, with, JsonView, ObjectView};
use crate::ordered::StringMap;
use crate::text::{
    cat, cat3, chars_of, clone_option, clone_texts, digit, ends_with, has_text, is_number, owned,
    parse_u32, same, split, starts_with, strip_prefix, strip_suffix, trim, trim_end_matches,
};
#[allow(unused_imports)]
use crate::text::{
    after_prefix, all_digits, before_suffix, begins_with, finishes_with, is_digit, number_u32,
    pieces, trimmed, without_endings,
};

verus! {

/// A provider of models.
#[derive(Clone, Copy, Debug, PartialEq, Eq, PartialOrd, Ord, Structural)]
pub enum Provider {
    Codex,
    Openai,
    Nanogpt,
    Azure,
    Bedrock,
}

impl DeepView for Provider {
    type V = Provider;

    open spec fn deep_view(&self) -> Provider {
        *self
    }
}

/// The name of a provider, as requests write it.
pub open spec fn provider_name(provider: Provider) -> Seq<char> {
    match provider {
        Provider::Codex => "codex"@,
        Provider::Openai => "openai"@,
        Provider::Nanogpt => "nanogpt"@,
        Provider::Azure => "azure"@,
        Provider::Bedrock => "bedrock"@,
    }
}

/// The name of a provider, as messages about its models write it.
pub open spec fn provider_title(provider: Provider) -> Seq<char> {
    match provider {
        Provider::Codex => "Codex"@,
        Provider::Openai => "Openai"@,
        Provider::Nanogpt => "Nanogpt"@,
        Provider::Azure => "Azure"@,
        Provider::Bedrock => "Bedrock"@,
    }
}

impl Provider {
    /// The name of the provider.
    pub fn as_str(&self) -> (name: &'static str)
        ensures
            name@ == provider_name(*self),
    {
        match self {
            Provider::Codex => "codex",
            Provider::Openai => "openai",
            Provider::Nanogpt => "nanogpt",
            Provider::Azure => "azure",
            Provider::Bedrock => "bedrock",
        }
    }

    /// The name of the provider in messages about its models.
    pub fn title(&self) -> (name: &'static str)
        ensures
            name@ == provider_title(*self),
    {
        match self {
            Provider::Codex => "Codex",
            Provider::Openai => "Openai",
            Provider::Nanogpt => "Nanogpt",
            Provider::Azure => "Azure",
            Provider::Bedrock => "Bedrock",
        }
    }
}

/// What a provider can do.
#[derive(Clone, Copy, Debug, PartialEq, Eq, Structural)]
pub struct ProviderCapabilities {
    pub supports_tools: bool,
    pub supports_structured_output: bool,
    pub supports_streaming: bool,
    pub supports_images: bool,
    pub supports_pdf: bool,
    pub supports_reasoning: bool,
}

/// A provider with its models and the one that a request goes to which names none.
#[derive(Debug, PartialEq, Eq)]
pub struct ProviderSpec {
    pub provider: Provider,
    pub default_model: String,
    pub available_models: Vec<String>,
    pub base_url: Option<String>,
    pub capabilities: ProviderCapabilities,
}

/// What a provider with its models is.
pub struct SpecView {
    pub provider: Provider,
    pub default_model: Seq<char>,
    pub available_models: Seq<Seq<char>>,
    pub base_url: Option<Seq<char>>,
    pub capabilities: ProviderCapabilities,
}

impl DeepView for ProviderSpec {
    type V = SpecView;

    open spec fn deep_view(&self) -> SpecView {
        SpecView {
            provider: self.provider,
            default_model: self.default_model@,
            available_models: self.available_models.deep_view(),
            base_url: self.base_url.deep_view(),
            capabilities: self.capabilities,
        }
    }
}

impl Clone for ProviderSpec {
    fn clone(&self) -> (copy: Self)
        ensures
            copy.deep_view() == self.deep_view(),
    {
        ProviderSpec {
            provider: self.provider,
            default_model: self.default_model.clone(),
            available_models: clone_texts(&self.available_models),
            base_url: clone_option(&self.base_url),
            capabilities: self.capabilities,
        }
    }
}

/// How a request reaches its provider.
#[derive(Debug)]
pub struct RequestContext {
    pub provider: Provider,
    pub api_key: String,
    pub base_url: Option<String>,
    pub headers: StringMap,
    pub query: StringMap,
}

/// What the context of a request is.
pub struct ContextView {
    pub provider: Provider,
    pub api_key: Seq<char>,
    pub base_url: Option<Seq<char>>,
    pub headers: Seq<(Seq<char>, Seq<char>)>,
    pub query: Seq<(Seq<char>, Seq<char>)>,
}

impl DeepView for RequestContext {
    type V = ContextView;

    open spec fn deep_view(&self) -> ContextView {
        ContextView {
            provider: self.provider,
            api_key: self.api_key@,
            base_url: self.base_url.deep_view(),
            headers: self.headers.deep_view(),
            query: self.query.deep_view(),
        }
    }
}

impl Clone for RequestContext {
    fn clone(&self) -> (copy: Self)
        ensures
            copy.deep_view() == self.deep_view(),
    {
        RequestContext {
            provider: self.provider,
            api_key: self.api_key.clone(),
            base_url: clone_option(&self.base_url),
            headers: self.headers.clone(),
            query: self.query.clone(),
        }
    }
}

/// The base URL of a request: its own, else that of its provider.
pub open spec fn base_url_of(context: ContextView, spec: SpecView) -> Result<Seq<char>, ErrorView> {
    match (context.base_url, spec.base_url) {
        (Some(url), _) => Ok(url),
        (None, Some(url)) => Ok(url),
        (None, None) => Err(ErrorView::MissingBaseUrl(provider_name(context.provider))),
    }
}

impl RequestContext {
    /// The base URL of the request.
    pub fn resolved_base_url(&self, spec: &ProviderSpec) -> (url: Result<String, Error>)
        ensures
            outcome(url) == base_url_of(self.deep_view(), spec.deep_view()),
    {
        match (&self.base_url, &spec.base_url) {
            (Some(url), _) => Ok(url.clone()),
            (None, Some(url)) => Ok(url.clone()),
            (None, None) => Err(Error::MissingBaseUrl(owned(self.provider.as_str()))),
        }
    }
}

/// The models, each once and where it stood first, without those that have no
/// name.
pub open spec fn deduplicated(models: Seq<Seq<char>>) -> Seq<Seq<char>>
    decreases models.len(),
{
    if models.len() == 0 {
        Seq::empty()
    } else {
        let earlier = deduplicated(models.drop_last());
        let model = models.last();
        if model.len() == 0 || earlier.contains(model) {
            earlier
        } else {
            earlier.push(model)
        }
    }
}

/// The models that remain are those that have a name, and each remains once.
pub proof fn deduplicated_models_are_the_named_ones_once(models: Seq<Seq<char>>)
    ensures
        deduplicated(models).no_duplicates(),
        forall|m: Seq<char>| #[trigger]
            deduplicated(models).contains(m) <==> models.contains(m) && m.len() > 0,
    decreases models.len(),
{
    if models.len() > 0 {
        let earlier = models.drop_last();
        deduplicated_models_are_the_named_ones_once(earlier);
        let out = deduplicated(models);
        assert forall|m: Seq<char>| #[trigger] out.contains(m) <==> models.contains(m) && m.len()
            > 0 by {
            if out.contains(m) {
                if deduplicated(earlier).contains(m) {
                    let i = choose|i: int| 0 <= i < earlier.len() && earlier[i] == m;
                    assert(models[i] == m);
                } else {
                    assert(m == models.last());
                    assert(models[models.len() - 1] == m);
                }
            }
            if models.contains(m) && m.len() > 0 {
                let i = choose|i: int| 0 <= i < models.len() && models[i] == m;
                if i < models.len() - 1 {
                    assert(earlier[i] == m);
                    assert(deduplicated(earlier).contains(m));
                    let j = choose|j: int|
                        0 <= j < deduplicated(earlier).len() && deduplicated(earlier)[j] == m;
                    assert(out[j] == m);
                } else if !deduplicated(earlier).contains(m) {
                    assert(out.last() == m);
                    assert(out[out.len() - 1] == m);
                } else {
                    let j = choose|j: int|
                        0 <= j < deduplicated(earlier).len() && deduplicated(earlier)[j] == m;
                    assert(out[j] == m);
                }
            }
        }
    }
}

/// The models, each once and where it stood first, without those that have no
/// name.
pub fn deduplicate_models(models: &Vec<String>) -> (unique: Vec<String>)
    ensures
        unique.deep_view() == deduplicated(models.deep_view()),
{
    let ghost all = models.deep_view();
    let mut unique: Vec<String> = Vec::new();
    assert(unique.deep_view() =~= deduplicated(all.take(0)));
    for i in 0..models.len()
        invariant
            all == models.deep_view(),
            unique.deep_view() == deduplicated(all.take(i as int)),
    {
        let ghost so_far = all.take(i as int + 1);
        assert(so_far.drop_last() =~= all.take(i as int));
        assert(so_far.last() == models@[i as int]@);
        let model = models[i].as_str();
        if !model.is_empty() && !has_text(&unique, model) {
            let ghost earlier = unique.deep_view();
            unique.push(owned(model));
            assert(unique.deep_view() =~= earlier.push(model@));
        }
    }
    assert(all.take(all.len() as int) =~= all);
    unique
}

/// The texts without the blanks around them.
pub open spec fn each_trimmed(texts: Seq<Seq<char>>) -> Seq<Seq<char>> {
    Seq::new(texts.len(), |i: int| trimmed(texts[i]))
}

/// What the environment says under a name.
#[derive(Debug)]
pub enum EnvValue {
    /// Nothing.
    Unset,
    /// A text.
    Text(String),
    /// Something that is no text; the message says why.
    Unreadable(String),
}

/// What the environment says under a name.
pub enum EnvView {
    Unset,
    Text(Seq<char>),
    Unreadable(Seq<char>),
}

impl DeepView for EnvValue {
    type V = EnvView;

    open spec fn deep_view(&self) -> EnvView {
        match self {
            EnvValue::Unset => EnvView::Unset,
            EnvValue::Text(text) => EnvView::Text(text@),
            EnvValue::Unreadable(message) => EnvView::Unreadable(message@),
        }
    }
}

/// The part of the process environment that the library goes by.
#[derive(Debug)]
pub struct Environment {
    pub values: Vec<(String, EnvValue)>,
}

/// What the process environment holds.
pub type EnvironmentView = Seq<(Seq<char>, EnvView)>;

impl DeepView for Environment {
    type V = EnvironmentView;

    open spec fn deep_view(&self) -> EnvironmentView {
        self.values.deep_view()
    }
}

/// What the environment says under `name`.
pub open spec fn env_value(environment: EnvironmentView, name: Seq<char>) -> EnvView
    decreases environment.len(),
{
    if environment.len() == 0 {
        EnvView::Unset
    } else if environment[0].0 == name {
        environment[0].1
    } else {
        env_value(environment.drop_first(), name)
    }
}

/// The text under `name`, where the environment has one.
pub open spec fn env_text(environment: EnvironmentView, name: Seq<char>) -> Option<Seq<char>> {
    match env_value(environment, name) {
        EnvView::Text(text) => Some(text),
        _ => None,
    }
}

/// The text under `name`, else `default`.
pub open spec fn env_text_or(
    environment: EnvironmentView,
    name: Seq<char>,
    default: Seq<char>,
) -> Seq<char> {
    match env_text(environment, name) {
        Some(text) => text,
        None => default,
    }
}

impl Environment {
    /// What the environment says under `name`.
    pub fn value(&self, name: &str) -> (value: &EnvValue)
        ensures
            value.deep_view() == env_value(self.deep_view(), name@),
    {
        let ghost all = self.deep_view();
        assert(all.skip(0) =~= all);
        for i in 0..self.values.len()
            invariant
                all == self.deep_view(),
                all.len() == self.values@.len(),
                env_value(all, name@) == env_value(all.skip(i as int), name@),
        {
            let ghost rest = all.skip(i as int);
            assert(rest[0] == all[i as int]);
            assert(rest.drop_first() =~= all.skip(i as int + 1));
            assert(all[i as int].0 == self.values@[i as int].0@);
            if same(self.values[i].0.as_str(), name) {
                return &self.values[i].1;
            }
        }
        &EnvValue::Unset
    }

    /// The text under `name`, where the environment has one.
    pub fn text(&self, name: &str) -> (text: Option<String>)
        ensures
            text.deep_view() == env_text(self.deep_view(), name@),
    {
        match self.value(name) {
            EnvValue::Text(text) => Some(text.clone()),
            _ => None,
        }
    }

    /// The text under `name`, else `default`.
    pub fn text_or(&self, name: &str, default: &str) -> (text: String)
        ensures
            text@ == env_text_or(self.deep_view(), name@, default@),
    {
        match self.text(name) {
            Some(text) => text,
            None => owned(default),
        }
    }
}

/// The models that the environment lists under `name`, separated by commas, or
/// `fallback` where it says nothing.
pub open spec fn listed_models(
    value: EnvView,
    name: Seq<char>,
    fallback: Seq<Seq<char>>,
) -> Result<Seq<Seq<char>>, ErrorView> {
    match value {
        EnvView::Unset => Ok(deduplicated(fallback)),
        EnvView::Unreadable(message) => Err(
            ErrorView::State("could not read "@ + name + ": "@ + message),
        ),
        EnvView::Text(raw) => {
            let models = deduplicated(each_trimmed(pieces(raw, ',')));
            if models.len() == 0 {
                Err(ErrorView::State(name + " must contain at least one model slug"@))
            } else {
                Ok(models)
            }
        },
    }
}

fn models_from_environment(environment: &Environment, name: &str, fallback: Vec<String>) -> (models:
    Result<Vec<String>, Error>)
    ensures
        outcome(models) == listed_models(
            env_value(environment.deep_view(), name@),
            name@,
            fallback.deep_view(),
        ),
{
    match environment.value(name) {
        EnvValue::Unset => Ok(deduplicate_models(&fallback)),
        EnvValue::Unreadable(message) => {
            let text = cat3("could not read ", name, ": ");
            Err(state_error(cat(text.as_str(), message.as_str()).as_str()))
        },
        EnvValue::Text(raw) => {
            let parts = split(raw.as_str(), ',');
            let mut trimmed_parts: Vec<String> = Vec::new();
            for i in 0..parts.len()
                invariant
                    trimmed_parts@.len() == i,
                    forall|k: int|
                        0 <= k < i ==> (#[trigger] trimmed_parts@[k])@ == trimmed(parts@[k]@),
            {
                trimmed_parts.push(trim(parts[i].as_str()));
            }
            assert(trimmed_parts.deep_view() =~= each_trimmed(parts.deep_view()));
            let models = deduplicate_models(&trimmed_parts);
            if models.len() == 0 {
                return Err(
                    state_error(cat(name, " must contain at least one model slug").as_str()),
                );
            }
            Ok(models)
        },
    }
}

/// The providers with their models, each provider once.
#[derive(Debug)]
pub struct ProviderRegistry {
    specs: Vec<ProviderSpec>,
}

/// What the providers with their models are.
pub type RegistryView = Seq<SpecView>;

impl DeepView for ProviderRegistry {
    type V = RegistryView;

    closed spec fn deep_view(&self) -> RegistryView {
        self.specs.deep_view()
    }
}

impl Clone for ProviderRegistry {
    fn clone(&self) -> (copy: Self)
        ensures
            copy.deep_view() == self.deep_view(),
    {
        let mut specs: Vec<ProviderSpec> = Vec::new();
        for i in 0..self.specs.len()
            invariant
                specs@.len() == i,
                forall|k: int|
                    0 <= k < i ==> (#[trigger] specs@[k]).deep_view()
                        == self.specs@[k].deep_view(),
        {
            specs.push(self.specs[i].clone());
        }
        assert(specs.deep_view() =~= self.specs.deep_view());
        ProviderRegistry { specs }
    }
}

/// A provider that can do everything.
pub open spec fn spec_with(
    provider: Provider,
    models: Seq<Seq<char>>,
    base_url: Option<Seq<char>>,
) -> SpecView {
    SpecView {
        provider,
        default_model: models[0],
        available_models: models,
        base_url,
        capabilities: (ProviderCapabilities {
            supports_tools: true,
            supports_structured_output: true,
            supports_streaming: true,
            supports_images: true,
            supports_pdf: true,
            supports_reasoning: true,
        }),
    }
}

/// The four providers with the models of each.
pub open spec fn registry_with(
    codex: Seq<Seq<char>>,
    openai: Seq<Seq<char>>,
    nanogpt: Seq<Seq<char>>,
    azure: Seq<Seq<char>>,
) -> RegistryView {
    seq![
        spec_with(Provider::Codex, codex, Some("https://chatgpt.com/backend-api/codex"@)),
        spec_with(Provider::Openai, openai, Some("https://api.openai.com/v1"@)),
        spec_with(Provider::Nanogpt, nanogpt, Some("https://nano-gpt.com/api/v1"@)),
        spec_with(Provider::Azure, azure, None),
    ]
}

/// The provider's place in the registry.
pub open spec fn spec_of(registry: RegistryView, provider: Provider) -> Option<SpecView>
    decreases registry.len(),
{
    if registry.len() == 0 {
        None
    } else if registry[0].provider == provider {
        Some(registry[0])
    } else {
        spec_of(registry.drop_first(), provider)
    }
}

/// The models that the environment asks for, else those that are known.
pub open spec fn registry_of(environment: EnvironmentView) -> Result<RegistryView, ErrorView> {
    match listed_models(
        env_value(environment, "CODEX_MODELS"@),
        "CODEX_MODELS"@,
        seq!["gpt-5.6-sol"@, "gpt-5.6-terra"@, "gpt-5.6-luna"@],
    ) {
        Err(error) => Err(error),
        Ok(codex) => match listed_models(
            env_value(environment, "OPENAI_MODELS"@),
            "OPENAI_MODELS"@,
            seq![env_text_or(environment, "OPENAI_MODEL"@, "gpt-5.5"@), "gpt-5.5-mini"@],
        ) {
            Err(error) => Err(error),
            Ok(openai) => match listed_models(
                env_value(environment, "NANOGPT_MODELS"@),
                "NANOGPT_MODELS"@,
                seq![
                    env_text_or(environment, "NANOGPT_MODEL"@, "moonshotai/kimi-k2.6"@),
                    "moonshotai/kimi-k2.6"@,
                    "zai-org/glm-5.1"@,
                    "deepseek/deepseek-v3.2"@,
                ],
            ) {
                Err(error) => Err(error),
                Ok(nanogpt) => match listed_models(
                    env_value(environment, "AZURE_OPENAI_MODELS"@),
                    "AZURE_OPENAI_MODELS"@,
                    seq![
                        env_text_or(environment, "AZURE_OPENAI_MODEL"@, "gpt-5-mini"@),
                        "gpt-5-mini"@,
                        "gpt-5-nano"@,
                        "gpt-5.5"@,
                    ],
                ) {
                    Err(error) => Err(error),
                    Ok(azure) => Ok(registry_with(codex, openai, nanogpt, azure)),
                },
            },
        },
    }
}

/// The registry with other models for one provider, whose default stays as it is
/// configured.
pub open spec fn with_replaced_models(
    registry: RegistryView,
    provider: Provider,
    models: Seq<Seq<char>>,
) -> RegistryView
    decreases registry.len(),
{
    if registry.len() == 0 {
        registry
    } else if registry[0].provider == provider {
        registry.update(0, SpecView { available_models: models, ..registry[0] })
    } else {
        seq![registry[0]] + with_replaced_models(registry.drop_first(), provider, models)
    }
}

/// The registry after a provider was given other models: there has to be one, and
/// the provider has to be there.
pub open spec fn replaced(
    registry: RegistryView,
    provider: Provider,
    models: Seq<Seq<char>>,
) -> Result<RegistryView, ErrorView> {
    let kept = deduplicated(models);
    if kept.len() == 0 {
        Err(
            ErrorView::State(
                provider_title(provider) + " discovery returned no language models"@,
            ),
        )
    } else if spec_of(registry, provider) is None {
        Err(ErrorView::UnknownProvider(provider_name(provider)))
    } else {
        Ok(with_replaced_models(registry, provider, kept))
    }
}

proof fn lemma_replaced_at(
    registry: RegistryView,
    provider: Provider,
    models: Seq<Seq<char>>,
    at: int,
)
    requires
        0 <= at < registry.len(),
        registry[at].provider == provider,
        forall|k: int| 0 <= k < at ==> (#[trigger] registry[k]).provider != provider,
    ensures
        with_replaced_models(registry, provider, models) == registry.update(
            at,
            SpecView { available_models: models, ..registry[at] },
        ),
    decreases registry.len(),
{
    if at > 0 {
        let rest = registry.drop_first();
        assert forall|k: int| 0 <= k < at - 1 implies (#[trigger] rest[k]).provider
            != provider by {
            assert(rest[k] == registry[k + 1]);
        }
        lemma_replaced_at(rest, provider, models, at - 1);
        assert(with_replaced_models(registry, provider, models) =~= registry.update(
            at,
            SpecView { available_models: models, ..registry[at] },
        ));
    }
}

fn texts3(a: &str, b: &str, c: &str) -> (out: Vec<String>)
    ensures
        out.deep_view() == seq![a@, b@, c@],
        out@.len() == 3,
{
    let mut out: Vec<String> = Vec::new();
    out.push(owned(a));
    out.push(owned(b));
    out.push(owned(c));
    assert(out.deep_view() =~= seq![a@, b@, c@]);
    out
}

fn texts4(a: &str, b: &str, c: &str, d: &str) -> (out: Vec<String>)
    ensures
        out.deep_view() == seq![a@, b@, c@, d@],
{
    let mut out: Vec<String> = Vec::new();
    out.push(owned(a));
    out.push(owned(b));
    out.push(owned(c));
    out.push(owned(d));
    assert(out.deep_view() =~= seq![a@, b@, c@, d@]);
    out
}

/// A list that holds a named model is not empty without its doubles.
proof fn lemma_deduplicated_not_empty(models: Seq<Seq<char>>, at: int)
    requires
        0 <= at < models.len(),
        models[at].len() > 0,
    ensures
        deduplicated(models).len() > 0,
{
    deduplicated_models_are_the_named_ones_once(models);
    assert(models.contains(models[at]));
    assert(deduplicated(models).contains(models[at]));
}

fn full_spec(provider: Provider, models: Vec<String>, base_url: Option<String>) -> (spec:
    ProviderSpec)
    requires
        models@.len() > 0,
    ensures
        spec.deep_view() == spec_with(provider, models.deep_view(), base_url.deep_view()),
{
    ProviderSpec {
        provider,
        default_model: models[0].clone(),
        available_models: models,
        base_url,
        capabilities: ProviderCapabilities {
            supports_tools: true,
            supports_structured_output: true,
            supports_streaming: true,
            supports_images: true,
            supports_pdf: true,
            supports_reasoning: true,
        },
    }
}

impl Default for ProviderRegistry {
    fn default() -> (registry: Self)
        ensures
            registry.deep_view() == registry_with(
                seq!["gpt-5.6-sol"@, "gpt-5.6-terra"@, "gpt-5.6-luna"@],
                seq!["gpt-5.5"@, "gpt-5.5-mini"@],
                seq!["moonshotai/kimi-k2.6"@, "zai-org/glm-5.1"@, "deepseek/deepseek-v3.2"@],
                seq!["gpt-5-mini"@, "gpt-5-nano"@, "gpt-5.5"@],
            ),
    {
        let mut openai: Vec<String> = Vec::new();
        openai.push(owned("gpt-5.5"));
        openai.push(owned("gpt-5.5-mini"));
        assert(openai.deep_view() =~= seq!["gpt-5.5"@, "gpt-5.5-mini"@]);
        ProviderRegistry::with_models(
            texts3("gpt-5.6-sol", "gpt-5.6-terra", "gpt-5.6-luna"),
            openai,
            texts3("moonshotai/kimi-k2.6", "zai-org/glm-5.1", "deepseek/deepseek-v3.2"),
            texts3("gpt-5-mini", "gpt-5-nano", "gpt-5.5"),
        )
    }
}

impl ProviderRegistry {
    /// The registry to go by: the one that was discovered, else the one that the
    /// environment gives.
    pub fn from_environment(
        environment: &Environment,
        discovered: Option<&ProviderRegistry>,
    ) -> (registry: Result<Self, Error>)
        ensures
            match discovered {
                Some(found) => outcome(registry) == Ok::<RegistryView, ErrorView>(
                    found.deep_view(),
                ),
                None => outcome(registry) == registry_of(environment.deep_view()),
            },
    {
        match discovered {
            Some(found) => Ok(found.clone()),
            None => ProviderRegistry::from_environment_uncached(environment),
        }
    }

    /// The registry that the environment gives.
    pub fn from_environment_uncached(environment: &Environment) -> (registry: Result<Self, Error>)
        ensures
            outcome(registry) == registry_of(environment.deep_view()),
    {
        let codex_known = texts3("gpt-5.6-sol", "gpt-5.6-terra", "gpt-5.6-luna");
        let openai_first = environment.text_or("OPENAI_MODEL", "gpt-5.5");
        let mut openai_known: Vec<String> = Vec::new();
        openai_known.push(openai_first);
        openai_known.push(owned("gpt-5.5-mini"));
        assert(openai_known.deep_view() =~= seq![openai_first@, "gpt-5.5-mini"@]);
        let nanogpt_known = texts4(
            environment.text_or("NANOGPT_MODEL", "moonshotai/kimi-k2.6").as_str(),
            "moonshotai/kimi-k2.6",
            "zai-org/glm-5.1",
            "deepseek/deepseek-v3.2",
        );
        let azure_known = texts4(
            environment.text_or("AZURE_OPENAI_MODEL", "gpt-5-mini").as_str(),
            "gpt-5-mini",
            "gpt-5-nano",
            "gpt-5.5",
        );
        proof {
            reveal_strlit("gpt-5.6-sol");
            reveal_strlit("gpt-5.5-mini");
            reveal_strlit("zai-org/glm-5.1");
            reveal_strlit("gpt-5-mini");
            lemma_deduplicated_not_empty(codex_known.deep_view(), 0);
            lemma_deduplicated_not_empty(openai_known.deep_view(), 1);
            lemma_deduplicated_not_empty(nanogpt_known.deep_view(), 2);
            lemma_deduplicated_not_empty(azure_known.deep_view(), 1);
        }
        let codex = match models_from_environment(environment, "CODEX_MODELS", codex_known) {
            Ok(models) => models,
            Err(error) => return Err(error),
        };
        assert(codex.deep_view().len() > 0);
        let openai = match models_from_environment(environment, "OPENAI_MODELS", openai_known) {
            Ok(models) => models,
            Err(error) => return Err(error),
        };
        assert(openai.deep_view().len() > 0);
        let nanogpt = match models_from_environment(environment, "NANOGPT_MODELS", nanogpt_known) {
            Ok(models) => models,
            Err(error) => return Err(error),
        };
        assert(nanogpt.deep_view().len() > 0);
        let azure = match models_from_environment(environment, "AZURE_OPENAI_MODELS", azure_known) {
            Ok(models) => models,
            Err(error) => return Err(error),
        };
        assert(azure.deep_view().len() > 0);
        Ok(ProviderRegistry::with_models(codex, openai, nanogpt, azure))
    }

    /// The registry that the environment gives, with what came of asking NanoGPT for
    /// its models. The defaults stay as they are configured, and where NanoGPT did
    /// not answer, it alone has no models.
    pub fn discover(environment: &Environment, nanogpt: &Discovery) -> (registry: Result<
        Self,
        Error,
    >)
        ensures
            match (registry, registry_of(environment.deep_view())) {
                (Ok(found), Ok(configured)) => found.deep_view() == registry_offered(
                    configured,
                    nanogpt.deep_view(),
                ),
                (Err(error), Err(fault)) => error.deep_view() == fault,
                _ => false,
            },
    {
        let configured = match ProviderRegistry::from_environment_uncached(environment) {
            Ok(registry) => registry,
            Err(error) => return Err(error),
        };
        let not_asked = Discovery::NotAsked;
        let ghost view = configured.deep_view();
        let ghost answer = nanogpt.deep_view();
        let mut specs: Vec<ProviderSpec> = Vec::new();
        for i in 0..configured.specs.len()
            invariant
                view == configured.specs.deep_view(),
                answer == nanogpt.deep_view(),
                not_asked.deep_view() == DiscoveryView::NotAsked,
                specs@.len() == i,
                forall|k: int|
                    0 <= k < i ==> (#[trigger] specs@[k]).deep_view() == registry_offered(
                        view,
                        answer,
                    )[k],
        {
            let spec = &configured.specs[i];
            assert(view[i as int] == spec.deep_view());
            let discovery = if spec.provider == Provider::Nanogpt {
                nanogpt
            } else {
                &not_asked
            };
            specs.push(offer(spec, None, discovery).spec);
        }
        assert(specs.deep_view() =~= registry_offered(view, answer));
        Ok(ProviderRegistry { specs })
    }

    /// The four providers with the models of each.
    pub fn with_models(
        codex_models: Vec<String>,
        openai_models: Vec<String>,
        nanogpt_models: Vec<String>,
        azure_models: Vec<String>,
    ) -> (registry: Self)
        requires
            codex_models@.len() > 0,
            openai_models@.len() > 0,
            nanogpt_models@.len() > 0,
            azure_models@.len() > 0,
        ensures
            registry.deep_view() == registry_with(
                codex_models.deep_view(),
                openai_models.deep_view(),
                nanogpt_models.deep_view(),
                azure_models.deep_view(),
            ),
    {
        let mut specs: Vec<ProviderSpec> = Vec::new();
        specs.push(
            full_spec(
                Provider::Codex,
                codex_models,
                Some(owned("https://chatgpt.com/backend-api/codex")),
            ),
        );
        specs.push(
            full_spec(Provider::Openai, openai_models, Some(owned("https://api.openai.com/v1"))),
        );
        specs.push(
            full_spec(
                Provider::Nanogpt,
                nanogpt_models,
                Some(owned("https://nano-gpt.com/api/v1")),
            ),
        );
        specs.push(full_spec(Provider::Azure, azure_models, None));
        assert(specs.deep_view() =~= registry_with(
            codex_models.deep_view(),
            openai_models.deep_view(),
            nanogpt_models.deep_view(),
            azure_models.deep_view(),
        ));
        ProviderRegistry { specs }
    }

    fn position(&self, provider: &Provider) -> (at: Option<usize>)
        ensures
            match at {
                Some(at) => at < self.specs@.len() && self.specs@[at as int].provider == *provider
                    && spec_of(self.deep_view(), *provider) == Some(
                    self.specs@[at as int].deep_view(),
                ) && forall|j: int|
                    0 <= j < at ==> (#[trigger] self.specs@[j]).provider != *provider,
                None => spec_of(self.deep_view(), *provider) is None,
            },
    {
        let ghost all = self.deep_view();
        assert(all.skip(0) =~= all);
        for i in 0..self.specs.len()
            invariant
                all == self.deep_view(),
                all == self.specs.deep_view(),
                spec_of(all, *provider) == spec_of(all.skip(i as int), *provider),
                forall|j: int|
                    0 <= j < i ==> (#[trigger] self.specs@[j]).provider != *provider,
        {
            let ghost rest = all.skip(i as int);
            assert(rest[0] == self.specs@[i as int].deep_view());
            assert(rest.drop_first() =~= all.skip(i as int + 1));
            if self.specs[i].provider == *provider {
                return Some(i);
            }
        }
        None
    }

    /// The provider with its models.
    pub fn get(&self, provider: &Provider) -> (spec: Result<&ProviderSpec, Error>)
        ensures
            match spec {
                Ok(spec) => spec_of(self.deep_view(), *provider) == Some(spec.deep_view()),
                Err(error) => spec_of(self.deep_view(), *provider) is None && error.deep_view()
                    == ErrorView::UnknownProvider(provider_name(*provider)),
            },
    {
        match self.position(provider) {
            Some(at) => Ok(&self.specs[at]),
            None => Err(Error::UnknownProvider(owned(provider.as_str()))),
        }
    }

    /// The providers, in order.
    pub fn specs(&self) -> (specs: &Vec<ProviderSpec>)
        ensures
            specs.deep_view() == self.deep_view(),
    {
        &self.specs
    }

    /// Gives a provider other models. Its default stays as it is configured.
    pub fn replace_models(&mut self, provider: Provider, models: &Vec<String>) -> (done: Result<
        (),
        Error,
    >)
        ensures
            match done {
                Ok(()) => replaced(old(self).deep_view(), provider, models.deep_view()) == Ok::<
                    RegistryView,
                    ErrorView,
                >(final(self).deep_view()),
                Err(error) => replaced(old(self).deep_view(), provider, models.deep_view())
                    == Err::<RegistryView, ErrorView>(error.deep_view()) && final(self).deep_view()
                    == old(self).deep_view(),
            },
    {
        let kept = deduplicate_models(models);
        if kept.len() == 0 {
            return Err(
                state_error(
                    cat(provider.title(), " discovery returned no language models").as_str(),
                ),
            );
        }
        match self.position(&provider) {
            None => Err(Error::UnknownProvider(owned(provider.as_str()))),
            Some(at) => {
                let ghost before = self.deep_view();
                let ghost kept_view = kept.deep_view();
                let spec = ProviderSpec {
                    provider: self.specs[at].provider,
                    default_model: self.specs[at].default_model.clone(),
                    available_models: kept,
                    base_url: clone_option(&self.specs[at].base_url),
                    capabilities: self.specs[at].capabilities,
                };
                assert(before[at as int] == self.specs@[at as int].deep_view());
                proof {
                    assert forall|k: int| 0 <= k < at implies (#[trigger] before[k]).provider
                        != provider by {
                        assert(before[k] == self.specs@[k].deep_view());
                    }
                    lemma_replaced_at(before, provider, kept_view, at as int);
                }
                self.specs[at] = spec;
                assert(self.deep_view() =~= with_replaced_models(before, provider, kept_view));
                Ok(())
            },
        }
    }

    /// The providers as JSON.
    pub fn as_json(&self) -> (json: Json)
        ensures
            json@ == JsonView::List(specs_json(self.deep_view())),
    {
        let mut list: Vec<Json> = Vec::new();
        for i in 0..self.specs.len()
            invariant
                list@.len() == i,
                forall|k: int|
                    0 <= k < i ==> (#[trigger] list@[k])@ == JsonView::Object(
                        spec_json(self.specs@[k].deep_view()),
                    ),
        {
            list.push(Json::object(spec_object(&self.specs[i])));
        }
        assert(list.deep_view() =~= specs_json(self.deep_view()));
        Json::list(list)
    }
}

/// Texts as JSON.
pub open spec fn texts_json(texts: Seq<Seq<char>>) -> Seq<JsonView> {
    Seq::new(texts.len(), |i: int| text_json(texts[i]))
}

/// Texts as JSON.
pub fn texts_list(texts: &Vec<String>) -> (json: Json)
    ensures
        json@ == JsonView::List(texts_json(texts.deep_view())),
{
    let mut list: Vec<Json> = Vec::new();
    for i in 0..texts.len()
        invariant
            list@.len() == i,
            forall|k: int| 0 <= k < i ==> (#[trigger] list@[k])@ == text_json(texts@[k]@),
    {
        list.push(Json::text(texts[i].as_str()));
    }
    assert(list.deep_view() =~= texts_json(texts.deep_view()));
    Json::list(list)
}

/// What a provider can do, as JSON.
pub open spec fn capabilities_json(capabilities: ProviderCapabilities) -> ObjectView {
    let object = with(
        no_members(),
        "supportsTools"@,
        JsonView::Bool(capabilities.supports_tools),
    );
    let object = with(
        object,
        "supportsStructuredOutput"@,
        JsonView::Bool(capabilities.supports_structured_output),
    );
    let object = with(
        object,
        "supportsStreaming"@,
        JsonView::Bool(capabilities.supports_streaming),
    );
    let object = with(object, "supportsImages"@, JsonView::Bool(capabilities.supports_images));
    let object = with(object, "supportsPdf"@, JsonView::Bool(capabilities.supports_pdf));
    with(object, "supportsReasoning"@, JsonView::Bool(capabilities.supports_reasoning))
}

/// A provider with its models, as JSON.
pub open spec fn spec_json(spec: SpecView) -> ObjectView {
    let object = with(no_members(), "provider"@, text_json(provider_name(spec.provider)));
    let object = with(object, "defaultModel"@, text_json(spec.default_model));
    let object = with(object, "availableModels"@, JsonView::List(texts_json(spec.available_models)));
    let object = with(
        object,
        "baseUrl"@,
        match spec.base_url {
            Some(url) => text_json(url),
            None => JsonView::Null,
        },
    );
    with(object, "capabilities"@, JsonView::Object(capabilities_json(spec.capabilities)))
}

/// Providers with their models, as JSON.
pub open spec fn specs_json(specs: RegistryView) -> Seq<JsonView> {
    Seq::new(specs.len(), |i: int| JsonView::Object(spec_json(specs[i])))
}

pub(crate) fn spec_object(spec: &ProviderSpec) -> (object: JsonObject)
    ensures
        object@ == spec_json(spec.deep_view()),
{
    let capabilities = JsonObject::new().with(
        "supportsTools",
        Json::Bool(spec.capabilities.supports_tools),
    ).with(
        "supportsStructuredOutput",
        Json::Bool(spec.capabilities.supports_structured_output),
    ).with("supportsStreaming", Json::Bool(spec.capabilities.supports_streaming)).with(
        "supportsImages",
        Json::Bool(spec.capabilities.supports_images),
    ).with("supportsPdf", Json::Bool(spec.capabilities.supports_pdf)).with(
        "supportsReasoning",
        Json::Bool(spec.capabilities.supports_reasoning),
    );
    let base_url = match &spec.base_url {
        Some(url) => Json::text(url.as_str()),
        None => Json::Null,
    };
    JsonObject::new().with_text("provider", spec.provider.as_str()).with_text(
        "defaultModel",
        spec.default_model.as_str(),
    ).with("availableModels", texts_list(&spec.available_models)).with("baseUrl", base_url).with(
        "capabilities",
        Json::object(capabilities),
    )
}

/// How long a discovered registry is used, in seconds.
pub const DISCOVERY_TTL: u64 = 300;

/// Whether a registry that was discovered that many seconds ago is still used.
pub fn discovery_is_fresh(age: u64) -> (fresh: bool)
    ensures
        fresh == (age < 300),
{
    age < DISCOVERY_TTL
}

/// Where the models of NanoGPT are listed.
pub open spec fn nanogpt_models_address(environment: EnvironmentView) -> Seq<char> {
    crate::text::without_trailing(
        env_text_or(environment, "NANOGPT_BASE_URL"@, "https://nano-gpt.com/api/v1"@),
        '/',
    ) + "/models"@
}

/// Where the models of NanoGPT are listed, and the key to ask with.
pub fn nanogpt_discovery(environment: &Environment) -> (request: Result<(String, String), Error>)
    ensures
        outcome(request) == match env_text(environment.deep_view(), "NANOGPT_API_KEY"@) {
            Some(key) => Ok((nanogpt_models_address(environment.deep_view()), key)),
            None => Err(
                ErrorView::State("NANOGPT_API_KEY is required for NanoGPT model discovery"@),
            ),
        },
{
    let key = match environment.text("NANOGPT_API_KEY") {
        Some(key) => key,
        None => return Err(
            state_error("NANOGPT_API_KEY is required for NanoGPT model discovery"),
        ),
    };
    let base = environment.text_or("NANOGPT_BASE_URL", "https://nano-gpt.com/api/v1");
    let address = cat(crate::text::trim_end_char(base.as_str(), '/').as_str(), "/models");
    Ok((address, key))
}

/// A family of NanoGPT's models.
#[derive(Clone, Copy, Debug, PartialEq, Eq, Structural)]
pub enum Family {
    DeepSeek,
    Glm,
    Kimi,
}

/// How the names of a family's models begin.
pub open spec fn family_prefix(family: Family) -> Seq<char> {
    match family {
        Family::DeepSeek => "deepseek/deepseek-v"@,
        Family::Glm => "zai-org/glm-"@,
        Family::Kimi => "moonshotai/kimi-k"@,
    }
}

/// Numbers separated by full stops.
pub open spec fn dotted_numbers(s: Seq<char>) -> bool {
    forall|i: int|
        0 <= i < pieces(s, '.').len() ==> {
            let part = #[trigger] pieces(s, '.')[i];
            part.len() > 0 && all_digits(part)
        }
}

/// Whether a name is one of a family's supported models: for DeepSeek a number
/// and `-pro`, else numbers separated by full stops, each with or without
/// `:thinking` behind it.
pub open spec fn is_supported(family: Family, id: Seq<char>) -> bool {
    match after_prefix(without_endings(id, ":thinking"@), family_prefix(family)) {
        None => false,
        Some(version) => match family {
            Family::DeepSeek => match before_suffix(version, "-pro"@) {
                None => false,
                Some(number) => number.len() > 0 && all_digits(number),
            },
            _ => dotted_numbers(version),
        },
    }
}

fn are_dotted_numbers(s: &str) -> (yes: bool)
    ensures
        yes == dotted_numbers(s@),
{
    let parts = split(s, '.');
    let ghost all = parts.deep_view();
    for i in 0..parts.len()
        invariant
            all == parts.deep_view(),
            all == pieces(s@, '.'),
            forall|k: int| 0 <= k < i ==> (#[trigger] all[k]).len() > 0 && all_digits(all[k]),
    {
        assert(all[i as int] == parts@[i as int]@);
        if parts[i].as_str().is_empty() || !is_number(parts[i].as_str()) {
            return false;
        }
    }
    true
}

/// A number and `-pro`, with or without `:thinking` behind it.
pub fn is_deepseek_pro(id: &str) -> (yes: bool)
    ensures
        yes == is_supported(Family::DeepSeek, id@),
{
    match strip_prefix(trim_end_matches(id, ":thinking").as_str(), "deepseek/deepseek-v") {
        None => false,
        Some(version) => match strip_suffix(version.as_str(), "-pro") {
            None => false,
            Some(number) => !number.as_str().is_empty() && is_number(number.as_str()),
        },
    }
}

/// Numbers separated by full stops, with or without `:thinking` behind them.
pub fn is_glm(id: &str) -> (yes: bool)
    ensures
        yes == is_supported(Family::Glm, id@),
{
    match strip_prefix(trim_end_matches(id, ":thinking").as_str(), "zai-org/glm-") {
        None => false,
        Some(version) => are_dotted_numbers(version.as_str()),
    }
}

/// Numbers separated by full stops, with or without `:thinking` behind them.
pub fn is_kimi(id: &str) -> (yes: bool)
    ensures
        yes == is_supported(Family::Kimi, id@),
{
    match strip_prefix(trim_end_matches(id, ":thinking").as_str(), "moonshotai/kimi-k") {
        None => false,
        Some(version) => are_dotted_numbers(version.as_str()),
    }
}

/// What stands between the characters that are no digits.
pub open spec fn digit_runs(s: Seq<char>) -> Seq<Seq<char>>
    decreases s.len(),
{
    if s.len() == 0 {
        seq![Seq::<char>::empty()]
    } else {
        let runs = digit_runs(s.drop_last());
        if is_digit(s.last()) {
            runs.update(runs.len() - 1, runs.last().push(s.last()))
        } else {
            runs.push(Seq::empty())
        }
    }
}

/// The numbers among some texts.
pub open spec fn numbers_in(texts: Seq<Seq<char>>) -> Seq<u32>
    decreases texts.len(),
{
    if texts.len() == 0 {
        Seq::empty()
    } else {
        let earlier = numbers_in(texts.drop_last());
        if texts.last().len() == 0 {
            earlier
        } else {
            match number_u32(texts.last()) {
                Some(n) => earlier.push(n),
                None => earlier,
            }
        }
    }
}

/// The numbers in a model's name. One that does not fit is left out.
pub open spec fn version_of(model: Seq<char>) -> Seq<u32> {
    numbers_in(digit_runs(model))
}

/// Whether a version is older: the first number in which they differ is smaller,
/// or it ends where the other goes on.
pub open spec fn version_less(a: Seq<u32>, b: Seq<u32>) -> bool
    decreases b.len(),
{
    if b.len() == 0 {
        false
    } else if a.len() == 0 {
        true
    } else if a[0] != b[0] {
        a[0] < b[0]
    } else {
        version_less(a.drop_first(), b.drop_first())
    }
}

proof fn lemma_runs_not_empty(s: Seq<char>)
    ensures
        digit_runs(s).len() > 0,
    decreases s.len(),
{
    if s.len() > 0 {
        lemma_runs_not_empty(s.drop_last());
    }
}

proof fn lemma_numbers_skip(texts: Seq<Seq<char>>, text: Seq<char>)
    ensures
        text.len() == 0 ==> numbers_in(texts.push(text)) == numbers_in(texts),
        text.len() > 0 ==> numbers_in(texts.push(text)) == (match number_u32(text) {
            Some(n) => numbers_in(texts).push(n),
            None => numbers_in(texts),
        }),
{
    assert(texts.push(text).drop_last() =~= texts);
}

/// The numbers in a model's name. One that does not fit is left out.
pub fn version_key(model: &str) -> (key: Vec<u32>)
    ensures
        key@ == version_of(model@),
{
    let chars = chars_of(model);
    let mut key: Vec<u32> = Vec::new();
    let mut run: String = String::new();
    let ghost all = model@;
    assert(all.take(0) =~= Seq::empty());
    assert(digit_runs(all.take(0)).drop_last() =~= Seq::empty());
    for i in 0..chars.len()
        invariant
            all == chars@,
            digit_runs(all.take(i as int)).len() > 0,
            run@ == digit_runs(all.take(i as int)).last(),
            key@ == numbers_in(digit_runs(all.take(i as int)).drop_last()),
    {
        let ghost before = digit_runs(all.take(i as int));
        let ghost after = digit_runs(all.take(i as int + 1));
        assert(all.take(i as int + 1).drop_last() =~= all.take(i as int));
        let c = chars[i];
        if digit(c) {
            run.push(c);
            assert(after.drop_last() =~= before.drop_last());
        } else {
            assert(after.drop_last() =~= before);
            assert(before =~= before.drop_last().push(before.last()));
            proof {
                lemma_numbers_skip(before.drop_last(), before.last());
            }
            if !run.as_str().is_empty() {
                match parse_u32(run.as_str()) {
                    Some(n) => key.push(n),
                    None => {},
                }
            }
            run = String::new();
            assert(run@ =~= Seq::empty());
        }
    }
    assert(all.take(all.len() as int) =~= all);
    let ghost runs = digit_runs(all);
    assert(runs =~= runs.drop_last().push(runs.last()));
    proof {
        lemma_numbers_skip(runs.drop_last(), runs.last());
    }
    if !run.as_str().is_empty() {
        match parse_u32(run.as_str()) {
            Some(n) => key.push(n),
            None => {},
        }
    }
    key
}

fn older(a: &Vec<u32>, b: &Vec<u32>) -> (yes: bool)
    ensures
        yes == version_less(a@, b@),
{
    let mut i: usize = 0;
    assert(a@.skip(0) =~= a@);
    assert(b@.skip(0) =~= b@);
    while i < a.len() && i < b.len()
        invariant
            i <= a@.len(),
            i <= b@.len(),
            version_less(a@, b@) == version_less(a@.skip(i as int), b@.skip(i as int)),
        decreases a@.len() - i,
    {
        let ghost x = a@.skip(i as int);
        let ghost y = b@.skip(i as int);
        assert(x[0] == a@[i as int] && y[0] == b@[i as int]);
        assert(x.drop_first() =~= a@.skip(i as int + 1));
        assert(y.drop_first() =~= b@.skip(i as int + 1));
        if a[i] != b[i] {
            return a[i] < b[i];
        }
        i += 1;
    }
    i < b.len()
}

/// Whether a name is a candidate: a supported model of the family, thinking or
/// not.
pub open spec fn is_candidate(family: Family, thinking: bool, id: Seq<char>) -> bool {
    &&& begins_with(id, family_prefix(family))
    &&& finishes_with(id, ":thinking"@) == thinking
    &&& is_supported(family, id)
}

/// The newest candidate, and of several the last.
pub open spec fn latest(ids: Seq<Seq<char>>, family: Family, thinking: bool) -> Option<Seq<char>>
    decreases ids.len(),
{
    if ids.len() == 0 {
        None
    } else {
        let best = latest(ids.drop_last(), family, thinking);
        let id = ids.last();
        if !is_candidate(family, thinking, id) {
            best
        } else {
            match best {
                Some(other) if version_less(version_of(id), version_of(other)) => best,
                _ => Some(id),
            }
        }
    }
}

/// No version is older than itself.
pub proof fn version_less_irreflexive(a: Seq<u32>)
    ensures
        !version_less(a, a),
    decreases a.len(),
{
    if a.len() > 0 {
        version_less_irreflexive(a.drop_first());
    }
}

/// A version older than an older one is older.
pub proof fn version_less_transitive(a: Seq<u32>, b: Seq<u32>, c: Seq<u32>)
    requires
        version_less(a, b),
        version_less(b, c),
    ensures
        version_less(a, c),
    decreases a.len(),
{
    if a.len() > 0 && a[0] == b[0] && b[0] == c[0] {
        version_less_transitive(a.drop_first(), b.drop_first(), c.drop_first());
    }
}

/// Of two versions one is older, unless they are the same.
pub proof fn version_less_total(a: Seq<u32>, b: Seq<u32>)
    ensures
        version_less(a, b) || version_less(b, a) || a == b,
    decreases a.len(),
{
    if a.len() > 0 && b.len() > 0 && a[0] == b[0] {
        version_less_total(a.drop_first(), b.drop_first());
        if a.drop_first() == b.drop_first() {
            assert(a =~= seq![a[0]] + a.drop_first());
            assert(b =~= seq![b[0]] + b.drop_first());
        }
    } else if a.len() == 0 && b.len() == 0 {
        assert(a =~= b);
    }
}

/// The latest model is a candidate that was offered, and no candidate that was
/// offered is newer; there is none only where no candidate was offered.
pub proof fn latest_is_the_newest_candidate(ids: Seq<Seq<char>>, family: Family, thinking: bool)
    ensures
        match latest(ids, family, thinking) {
            Some(best) => {
                &&& ids.contains(best)
                &&& is_candidate(family, thinking, best)
                &&& forall|i: int|
                    0 <= i < ids.len() && is_candidate(family, thinking, #[trigger] ids[i])
                        ==> !version_less(version_of(best), version_of(ids[i]))
            },
            None => forall|i: int|
                0 <= i < ids.len() ==> !is_candidate(family, thinking, #[trigger] ids[i]),
        },
    decreases ids.len(),
{
    if ids.len() > 0 {
        let earlier = ids.drop_last();
        latest_is_the_newest_candidate(earlier, family, thinking);
        let best = latest(earlier, family, thinking);
        let id = ids.last();
        assert(ids[ids.len() - 1] == id);
        assert forall|i: int| 0 <= i < ids.len() - 1 implies #[trigger] ids[i] == earlier[i] by {}
        if best is Some {
            let at = choose|i: int| 0 <= i < earlier.len() && earlier[i] == best->0;
            assert(ids[at] == best->0);
            version_less_irreflexive(version_of(id));
            if is_candidate(family, thinking, id) && !version_less(
                version_of(id),
                version_of(best->0),
            ) {
                assert forall|i: int|
                    0 <= i < ids.len() && is_candidate(
                        family,
                        thinking,
                        #[trigger] ids[i],
                    ) implies !version_less(version_of(id), version_of(ids[i])) by {
                    if i < ids.len() - 1 && version_less(version_of(id), version_of(ids[i])) {
                        version_less_total(version_of(id), version_of(best->0));
                        assert(!version_less(version_of(best->0), version_of(earlier[i])));
                        if version_less(version_of(best->0), version_of(id)) {
                            version_less_transitive(
                                version_of(best->0),
                                version_of(id),
                                version_of(ids[i]),
                            );
                        }
                    }
                }
            } else if is_candidate(family, thinking, id) {
                if version_less(version_of(best->0), version_of(id)) {
                    version_less_transitive(
                        version_of(id),
                        version_of(best->0),
                        version_of(id),
                    );
                }
            }
        } else {
            version_less_irreflexive(version_of(id));
        }
    }
}

fn latest_of(ids: &Vec<String>, family: Family, thinking: bool) -> (best: Option<String>)
    ensures
        best.deep_view() == latest(ids.deep_view(), family, thinking),
{
    let prefix: &str = match family {
        Family::DeepSeek => "deepseek/deepseek-v",
        Family::Glm => "zai-org/glm-",
        Family::Kimi => "moonshotai/kimi-k",
    };
    let ghost all = ids.deep_view();
    let mut best: Option<String> = None;
    assert(all.take(0) =~= Seq::empty());
    for i in 0..ids.len()
        invariant
            all == ids.deep_view(),
            prefix@ == family_prefix(family),
            best.deep_view() == latest(all.take(i as int), family, thinking),
    {
        let ghost so_far = all.take(i as int + 1);
        assert(so_far.drop_last() =~= all.take(i as int));
        assert(so_far.last() == ids@[i as int]@);
        let id = ids[i].as_str();
        let supported = match family {
            Family::DeepSeek => is_deepseek_pro(id),
            Family::Glm => is_glm(id),
            Family::Kimi => is_kimi(id),
        };
        if starts_with(id, prefix) && ends_with(id, ":thinking") == thinking && supported {
            let newer = match &best {
                Some(other) => !older(&version_key(id), &version_key(other.as_str())),
                None => true,
            };
            if newer {
                best = Some(owned(id));
            }
        }
    }
    assert(all.take(all.len() as int) =~= all);
    best
}

/// The texts that are there, in order.
pub open spec fn present(texts: Seq<Option<Seq<char>>>) -> Seq<Seq<char>>
    decreases texts.len(),
{
    if texts.len() == 0 {
        Seq::empty()
    } else {
        match texts.last() {
            Some(text) => present(texts.drop_last()).push(text),
            None => present(texts.drop_last()),
        }
    }
}

/// The newest model of each family, first without thinking, then with it.
pub open spec fn selected_models(ids: Seq<Seq<char>>) -> Result<Seq<Seq<char>>, ErrorView> {
    let selected = present(
        seq![
            latest(ids, Family::DeepSeek, false),
            latest(ids, Family::DeepSeek, true),
            latest(ids, Family::Glm, false),
            latest(ids, Family::Glm, true),
            latest(ids, Family::Kimi, false),
            latest(ids, Family::Kimi, true),
        ],
    );
    if selected.len() == 0 {
        Err(ErrorView::State("NanoGPT returned no supported DeepSeek, GLM, or Kimi models"@))
    } else {
        Ok(selected)
    }
}

fn add_latest(selected: &mut Vec<String>, ids: &Vec<String>, family: Family, thinking: bool)
    ensures
        final(selected).deep_view() == match latest(ids.deep_view(), family, thinking) {
            Some(id) => old(selected).deep_view().push(id),
            None => old(selected).deep_view(),
        },
{
    let ghost before = selected.deep_view();
    match latest_of(ids, family, thinking) {
        Some(id) => {
            selected.push(id);
            assert(selected.deep_view() =~= before.push(id@));
        },
        None => {},
    }
}

/// The newest model of each family, first without thinking, then with it.
pub fn select_nanogpt_models(ids: &Vec<String>) -> (models: Result<Vec<String>, Error>)
    ensures
        outcome(models) == selected_models(ids.deep_view()),
{
    let mut selected: Vec<String> = Vec::new();
    assert(selected.deep_view() =~= Seq::empty());
    add_latest(&mut selected, ids, Family::DeepSeek, false);
    add_latest(&mut selected, ids, Family::DeepSeek, true);
    add_latest(&mut selected, ids, Family::Glm, false);
    add_latest(&mut selected, ids, Family::Glm, true);
    add_latest(&mut selected, ids, Family::Kimi, false);
    add_latest(&mut selected, ids, Family::Kimi, true);
    proof {
        let all = seq![
            latest(ids.deep_view(), Family::DeepSeek, false),
            latest(ids.deep_view(), Family::DeepSeek, true),
            latest(ids.deep_view(), Family::Glm, false),
            latest(ids.deep_view(), Family::Glm, true),
            latest(ids.deep_view(), Family::Kimi, false),
            latest(ids.deep_view(), Family::Kimi, true),
        ];
        reveal_with_fuel(present, 7);
        assert(all.drop_last() =~= all.take(5));
        assert(all.take(5).drop_last() =~= all.take(4));
        assert(all.take(4).drop_last() =~= all.take(3));
        assert(all.take(3).drop_last() =~= all.take(2));
        assert(all.take(2).drop_last() =~= all.take(1));
        assert(all.take(1).drop_last() =~= all.take(0));
        assert(selected.deep_view() == present(all));
    }
    if selected.len() == 0 {
        return Err(
            state_error("NanoGPT returned no supported DeepSeek, GLM, or Kimi models"),
        );
    }
    Ok(selected)
}

} // verus!
