//! The providers with the models that were found for an account.
use vstd::prelude::*;

use crate::catalog::ModelSpec;
#[allow(unused_imports)]
use crate::catalog::ModelView;
use crate::error::Error;
#[allow(unused_imports)]
use crate::error::{error_text, outcome, ErrorView};
use crate::json::{Json, JsonObject};
#[allow(unused_imports)]
use crate::json::{no_members, number_json, text_json, with, JsonView, ObjectView};
use crate::providers::{
    deduplicate_models, select_nanogpt_models, spec_object, texts_list, EnvValue, Environment,
    Provider, ProviderRegistry, ProviderSpec, RequestContext, DISCOVERY_TTL,
};
#[allow(unused_imports)]
use crate::providers::{
    deduplicated, env_value, registry_of, selected_models, spec_json, texts_json, ContextView, EnvironmentView,
    RegistryView, SpecView,
};
use crate::text::has_text;

verus! {

/// What came of asking a provider for its models.
#[derive(Debug)]
pub enum Discovery {
    /// It was not asked.
    NotAsked,
    /// It named models, and said what they can do.
    Found(Vec<ModelSpec>),
    /// It named models.
    Named(Vec<String>),
    /// It did not answer; the message says why.
    Failed(String),
}

/// What came of asking a provider for its models.
pub enum DiscoveryView {
    NotAsked,
    Found(Seq<ModelView>),
    Named(Seq<Seq<char>>),
    Failed(Seq<char>),
}

impl DeepView for Discovery {
    type V = DiscoveryView;

    open spec fn deep_view(&self) -> DiscoveryView {
        match self {
            Discovery::NotAsked => DiscoveryView::NotAsked,
            Discovery::Found(models) => DiscoveryView::Found(models.deep_view()),
            Discovery::Named(names) => DiscoveryView::Named(names.deep_view()),
            Discovery::Failed(message) => DiscoveryView::Failed(message@),
        }
    }
}

/// What came of asking the providers for their models.
pub struct DiscoveriesView {
    pub codex: DiscoveryView,
    pub openai: DiscoveryView,
    pub nanogpt: DiscoveryView,
}

/// A provider with the models that it offers.
#[derive(Debug)]
pub struct ProviderCatalog {
    pub spec: ProviderSpec,
    pub model_details: Vec<ModelSpec>,
    pub discovery_error: Option<String>,
}

/// What a provider offers.
pub struct CatalogView {
    pub spec: SpecView,
    pub model_details: Seq<ModelView>,
    pub discovery_error: Option<Seq<char>>,
}

impl DeepView for ProviderCatalog {
    type V = CatalogView;

    open spec fn deep_view(&self) -> CatalogView {
        CatalogView {
            spec: self.spec.deep_view(),
            model_details: self.model_details.deep_view(),
            discovery_error: self.discovery_error.deep_view(),
        }
    }
}

/// Whether a provider is asked for its models: Codex with a context of its own,
/// OpenAI with a key and where no models are listed for it, NanoGPT with a key,
/// and no other.
pub open spec fn is_asked(
    provider: Provider,
    environment: EnvironmentView,
    context: Option<ContextView>,
) -> bool {
    match provider {
        Provider::Codex => context matches Some(context) && context.provider == Provider::Codex,
        Provider::Openai => env_value(environment, "OPENAI_API_KEY"@) !is Unset && env_value(
            environment,
            "OPENAI_MODELS"@,
        ) is Unset,
        Provider::Nanogpt => env_value(environment, "NANOGPT_API_KEY"@) !is Unset,
        _ => false,
    }
}

fn is_set(environment: &Environment, name: &str) -> (yes: bool)
    ensures
        yes == (env_value(environment.deep_view(), name@) !is Unset),
{
    match environment.value(name) {
        EnvValue::Unset => false,
        _ => true,
    }
}

/// Whether a provider is asked for its models.
pub fn asks_for_models(
    provider: Provider,
    environment: &Environment,
    context: Option<&RequestContext>,
) -> (yes: bool)
    ensures
        yes == is_asked(
            provider,
            environment.deep_view(),
            match context {
                Some(context) => Some(context.deep_view()),
                None => None,
            },
        ),
{
    match provider {
        Provider::Codex => match context {
            Some(context) => context.provider == Provider::Codex,
            None => false,
        },
        Provider::Openai => is_set(environment, "OPENAI_API_KEY") && !is_set(
            environment,
            "OPENAI_MODELS",
        ),
        Provider::Nanogpt => is_set(environment, "NANOGPT_API_KEY"),
        _ => false,
    }
}

/// The models whose names are among those allowed, where only some are.
pub open spec fn allowed_models(
    models: Seq<ModelView>,
    allowed: Option<Seq<Seq<char>>>,
) -> Seq<ModelView>
    decreases models.len(),
{
    if models.len() == 0 {
        Seq::empty()
    } else {
        let earlier = allowed_models(models.drop_last(), allowed);
        if allowed matches Some(names) && !names.contains(models.last().id) {
            earlier
        } else {
            earlier.push(models.last())
        }
    }
}

/// The names of some models.
pub open spec fn model_names(models: Seq<ModelView>) -> Seq<Seq<char>> {
    Seq::new(models.len(), |i: int| models[i].id)
}

/// What a provider offers: what is configured where it was not asked, what was
/// found and is allowed, and nothing where it did not answer. The default stays as
/// it is configured.
pub open spec fn offered(
    configured: SpecView,
    allowed: Option<Seq<Seq<char>>>,
    discovery: DiscoveryView,
) -> CatalogView {
    match discovery {
        DiscoveryView::NotAsked => CatalogView {
            spec: configured,
            model_details: Seq::empty(),
            discovery_error: None,
        },
        DiscoveryView::Found(models) => {
            let kept = allowed_models(models, allowed);
            CatalogView {
                spec: SpecView { available_models: model_names(kept), ..configured },
                model_details: kept,
                discovery_error: None,
            }
        },
        DiscoveryView::Named(names) => CatalogView {
            spec: SpecView { available_models: deduplicated(names), ..configured },
            model_details: Seq::empty(),
            discovery_error: None,
        },
        DiscoveryView::Failed(message) => CatalogView {
            spec: SpecView { available_models: Seq::empty(), ..configured },
            model_details: Seq::empty(),
            discovery_error: Some(message),
        },
    }
}

/// The providers of a registry with what came of asking NanoGPT for its models.
pub open spec fn registry_offered(configured: RegistryView, nanogpt: DiscoveryView) -> RegistryView {
    Seq::new(
        configured.len(),
        |i: int|
            offered(
                configured[i],
                None,
                if configured[i].provider == Provider::Nanogpt {
                    nanogpt
                } else {
                    DiscoveryView::NotAsked
                },
            ).spec,
    )
}

/// What came of asking one of the providers.
pub open spec fn discovery_of(discoveries: DiscoveriesView, provider: Provider) -> DiscoveryView {
    match provider {
        Provider::Codex => discoveries.codex,
        Provider::Openai => discoveries.openai,
        Provider::Nanogpt => discoveries.nanogpt,
        _ => DiscoveryView::NotAsked,
    }
}

/// The models of a provider to which its catalog is restricted: for Codex those
/// that the environment lists.
pub open spec fn restriction(environment: EnvironmentView, spec: SpecView) -> Option<
    Seq<Seq<char>>,
> {
    if spec.provider == Provider::Codex && env_value(environment, "CODEX_MODELS"@) !is Unset {
        Some(spec.available_models)
    } else {
        None
    }
}

/// What each provider of a registry offers.
pub open spec fn offers(
    environment: EnvironmentView,
    registry: RegistryView,
    discoveries: DiscoveriesView,
) -> Seq<CatalogView> {
    Seq::new(
        registry.len(),
        |i: int|
            offered(
                registry[i],
                restriction(environment, registry[i]),
                discovery_of(discoveries, registry[i].provider),
            ),
    )
}

/// What the providers offer, with what came of asking them.
pub open spec fn discovered(environment: EnvironmentView, discoveries: DiscoveriesView) -> Result<
    Seq<CatalogView>,
    ErrorView,
> {
    match registry_of(environment) {
        Ok(registry) => Ok(offers(environment, registry, discoveries)),
        Err(error) => Err(error),
    }
}

/// The default of each provider is the configured one, whatever was found.
pub proof fn configured_defaults_do_not_change(
    environment: EnvironmentView,
    discoveries: DiscoveriesView,
)
    ensures
        discovered(environment, discoveries) matches Ok(catalogs) ==> {
            &&& registry_of(environment) is Ok
            &&& catalogs.len() == registry_of(environment)->Ok_0.len()
            &&& forall|i: int|
                0 <= i < catalogs.len() ==> (#[trigger] catalogs[i]).spec.provider
                    == registry_of(environment)->Ok_0[i].provider && catalogs[i].spec.default_model
                    == registry_of(environment)->Ok_0[i].default_model
        },
{
}

/// A provider that does not answer offers nothing and says why, and what the
/// others offer is the same as if it had answered.
pub proof fn an_unavailable_provider_leaves_the_others_usable(
    environment: EnvironmentView,
    discoveries: DiscoveriesView,
    answered: DiscoveriesView,
    provider: Provider,
    message: Seq<char>,
)
    requires
        discovery_of(discoveries, provider) == DiscoveryView::Failed(message),
        forall|other: Provider|
            other != provider ==> #[trigger] discovery_of(discoveries, other) == discovery_of(
                answered,
                other,
            ),
    ensures
        discovered(environment, discoveries) is Ok <==> discovered(environment, answered) is Ok,
        discovered(environment, discoveries) matches Ok(catalogs) ==> forall|i: int|
            0 <= i < catalogs.len() ==> {
                if (#[trigger] catalogs[i]).spec.provider == provider {
                    catalogs[i].spec.available_models.len() == 0
                        && catalogs[i].model_details.len() == 0 && catalogs[i].discovery_error
                        == Some(message)
                } else {
                    catalogs[i] == discovered(environment, answered)->Ok_0[i]
                }
            },
{
    if let Ok(registry) = registry_of(environment) {
        let catalogs = offers(environment, registry, discoveries);
        assert forall|i: int| 0 <= i < catalogs.len() && registry[i].provider
            != provider implies #[trigger] catalogs[i] == offers(
            environment,
            registry,
            answered,
        )[i] by {
            assert(discovery_of(discoveries, registry[i].provider) == discovery_of(
                answered,
                registry[i].provider,
            ));
        }
    }
}

/// The models that are kept are among those that were found, and among those
/// allowed where only some are.
pub proof fn a_restriction_restricts(models: Seq<ModelView>, allowed: Option<Seq<Seq<char>>>)
    ensures
        forall|m: ModelView| #[trigger]
            allowed_models(models, allowed).contains(m) <==> models.contains(m) && (
            allowed matches Some(names) ==> names.contains(m.id)),
    decreases models.len(),
{
    if models.len() > 0 {
        let earlier = models.drop_last();
        let out = allowed_models(models, allowed);
        let before = allowed_models(earlier, allowed);
        a_restriction_restricts(earlier, allowed);
        assert forall|m: ModelView| #[trigger] out.contains(m) <==> models.contains(m) && (
        allowed matches Some(names) ==> names.contains(m.id)) by {
            if out.contains(m) {
                let i = choose|i: int| 0 <= i < out.len() && out[i] == m;
                if i < before.len() {
                    assert(before[i] == m);
                    assert(before.contains(m));
                    let j = choose|j: int| 0 <= j < earlier.len() && earlier[j] == m;
                    assert(models[j] == m);
                } else {
                    assert(models[models.len() - 1] == m);
                }
            }
            if models.contains(m) && (allowed matches Some(names) ==> names.contains(m.id)) {
                let j = choose|j: int| 0 <= j < models.len() && models[j] == m;
                if j < earlier.len() {
                    assert(earlier[j] == m);
                    assert(before.contains(m));
                    let i = choose|i: int| 0 <= i < before.len() && before[i] == m;
                    assert(out[i] == m);
                } else {
                    assert(out[out.len() - 1] == m);
                }
            }
        }
    }
}

fn keep_allowed(models: &Vec<ModelSpec>, allowed: Option<&Vec<String>>) -> (kept: Vec<ModelSpec>)
    ensures
        kept.deep_view() == allowed_models(
            models.deep_view(),
            match allowed {
                Some(names) => Some(names.deep_view()),
                None => None,
            },
        ),
{
    let ghost all = models.deep_view();
    let ghost names = match allowed {
        Some(names) => Some(names.deep_view()),
        None => None,
    };
    let mut kept: Vec<ModelSpec> = Vec::new();
    assert(kept.deep_view() =~= Seq::empty());
    assert(all.take(0) =~= Seq::empty());
    for i in 0..models.len()
        invariant
            all == models.deep_view(),
            names == (match allowed {
                Some(names) => Some(names.deep_view()),
                None => None,
            }),
            kept.deep_view() == allowed_models(all.take(i as int), names),
    {
        let ghost so_far = all.take(i as int + 1);
        assert(so_far.drop_last() =~= all.take(i as int));
        assert(so_far.last() == models@[i as int].deep_view());
        let stays = match allowed {
            Some(names) => has_text(names, models[i].id.as_str()),
            None => true,
        };
        if stays {
            let ghost before = kept.deep_view();
            kept.push(models[i].clone());
            assert(kept.deep_view() =~= before.push(models@[i as int].deep_view()));
        }
    }
    assert(all.take(all.len() as int) =~= all);
    kept
}

fn names_of(models: &Vec<ModelSpec>) -> (names: Vec<String>)
    ensures
        names.deep_view() == model_names(models.deep_view()),
{
    let mut names: Vec<String> = Vec::new();
    for i in 0..models.len()
        invariant
            names@.len() == i,
            forall|k: int| 0 <= k < i ==> (#[trigger] names@[k])@ == models@[k].id@,
    {
        names.push(models[i].id.clone());
    }
    assert(names.deep_view() =~= model_names(models.deep_view()));
    names
}

pub(crate) fn offer(configured: &ProviderSpec, allowed: Option<&Vec<String>>, discovery: &Discovery) -> (
    catalog: ProviderCatalog)
    ensures
        catalog.deep_view() == offered(
            configured.deep_view(),
            match allowed {
                Some(names) => Some(names.deep_view()),
                None => None,
            },
            discovery.deep_view(),
        ),
{
    let none: Vec<ModelSpec> = Vec::new();
    assert(none.deep_view() =~= Seq::empty());
    let mut spec = configured.clone();
    match discovery {
        Discovery::NotAsked => ProviderCatalog {
            spec,
            model_details: none,
            discovery_error: None,
        },
        Discovery::Found(models) => {
            let kept = keep_allowed(models, allowed);
            spec.available_models = names_of(&kept);
            ProviderCatalog { spec, model_details: kept, discovery_error: None }
        },
        Discovery::Named(names) => {
            spec.available_models = deduplicate_models(names);
            ProviderCatalog { spec, model_details: none, discovery_error: None }
        },
        Discovery::Failed(message) => {
            let nothing: Vec<String> = Vec::new();
            assert(nothing.deep_view() =~= Seq::empty());
            spec.available_models = nothing;
            ProviderCatalog { spec, model_details: none, discovery_error: Some(message.clone()) }
        },
    }
}

/// What the providers offer, with what came of asking them.
pub fn discover_with_context(
    environment: &Environment,
    codex: &Discovery,
    openai: &Discovery,
    nanogpt: &Discovery,
) -> (catalogs: Result<Vec<ProviderCatalog>, Error>)
    ensures
        outcome(catalogs) == discovered(
            environment.deep_view(),
            (DiscoveriesView {
                codex: codex.deep_view(),
                openai: openai.deep_view(),
                nanogpt: nanogpt.deep_view(),
            }),
        ),
{
    let registry = match ProviderRegistry::from_environment_uncached(environment) {
        Ok(registry) => registry,
        Err(error) => return Err(error),
    };
    let restricted = is_set(environment, "CODEX_MODELS");
    let specs = registry.specs();
    let ghost view = registry.deep_view();
    let ghost surroundings = environment.deep_view();
    let ghost answers = DiscoveriesView {
        codex: codex.deep_view(),
        openai: openai.deep_view(),
        nanogpt: nanogpt.deep_view(),
    };
    let not_asked = Discovery::NotAsked;
    let mut catalogs: Vec<ProviderCatalog> = Vec::new();
    for i in 0..specs.len()
        invariant
            view == specs.deep_view(),
            surroundings == environment.deep_view(),
            answers == (DiscoveriesView {
                codex: codex.deep_view(),
                openai: openai.deep_view(),
                nanogpt: nanogpt.deep_view(),
            }),
            not_asked.deep_view() == DiscoveryView::NotAsked,
            restricted == (env_value(surroundings, "CODEX_MODELS"@) !is Unset),
            catalogs@.len() == i,
            forall|k: int|
                0 <= k < i ==> (#[trigger] catalogs@[k]).deep_view() == offers(
                    surroundings,
                    view,
                    answers,
                )[k],
    {
        let spec = &specs[i];
        assert(view[i as int] == spec.deep_view());
        let discovery = match spec.provider {
            Provider::Codex => codex,
            Provider::Openai => openai,
            Provider::Nanogpt => nanogpt,
            _ => &not_asked,
        };
        let allowed = if spec.provider == Provider::Codex && restricted {
            Some(&spec.available_models)
        } else {
            None
        };
        catalogs.push(offer(spec, allowed, discovery));
    }
    assert(catalogs.deep_view() =~= offers(surroundings, view, answers));
    Ok(catalogs)
}

/// What came of asking NanoGPT: the newest model of each family, or the message
/// that says why there is none.
pub open spec fn nanogpt_discovered(named: Result<Seq<Seq<char>>, ErrorView>) -> DiscoveryView {
    match named {
        Err(error) => DiscoveryView::Failed(error_text(error)),
        Ok(ids) => match selected_models(ids) {
            Err(error) => DiscoveryView::Failed(error_text(error)),
            Ok(models) => DiscoveryView::Named(models),
        },
    }
}

/// Takes the models that NanoGPT named, or why it did not.
pub fn nanogpt_answer(named: Result<Vec<String>, Error>) -> (discovery: Discovery)
    ensures
        discovery.deep_view() == nanogpt_discovered(outcome(named)),
{
    match named {
        Err(error) => Discovery::Failed(error.message()),
        Ok(ids) => match select_nanogpt_models(&ids) {
            Err(error) => Discovery::Failed(error.message()),
            Ok(models) => Discovery::Named(models),
        },
    }
}

/// Takes the models that an account can use, or why they are not known.
pub fn models_answer(found: Result<Vec<ModelSpec>, Error>) -> (discovery: Discovery)
    ensures
        discovery.deep_view() == match outcome(found) {
            Ok(models) => DiscoveryView::Found(models),
            Err(error) => DiscoveryView::Failed(error_text(error)),
        },
{
    match found {
        Ok(models) => Discovery::Found(models),
        Err(error) => Discovery::Failed(error.message()),
    }
}

/// A registry that was discovered has the configured defaults, and the other
/// providers as they are configured; where NanoGPT did not answer, it has no models.
pub proof fn a_discovered_registry_keeps_what_is_configured(
    configured: RegistryView,
    nanogpt: DiscoveryView,
)
    ensures
        registry_offered(configured, nanogpt).len() == configured.len(),
        forall|i: int|
            0 <= i < configured.len() ==> {
                let spec = #[trigger] registry_offered(configured, nanogpt)[i];
                &&& spec.provider == configured[i].provider
                &&& spec.default_model == configured[i].default_model
                &&& configured[i].provider != Provider::Nanogpt ==> spec == configured[i]
                &&& configured[i].provider == Provider::Nanogpt && nanogpt is Failed
                    ==> spec.available_models.len() == 0
            },
{
}

/// How long it takes until a provider that did not answer is asked again, in
/// seconds.
pub const RETRY_AFTER: u64 = 15;

/// Whether what the providers that are asked with a key of the environment said
/// that many seconds ago is still used: for five minutes, and for a quarter of one
/// where one of them did not answer.
pub fn answers_are_fresh(openai: &Discovery, nanogpt: &Discovery, age: u64) -> (fresh: bool)
    ensures
        fresh == (age < if openai is Failed || nanogpt is Failed {
            15u64
        } else {
            300
        }),
{
    match (openai, nanogpt) {
        (Discovery::Failed(_), _) | (_, Discovery::Failed(_)) => age < RETRY_AFTER,
        _ => age < DISCOVERY_TTL,
    }
}

/// A text, or nothing, as JSON.
pub open spec fn text_or_null(text: Option<Seq<char>>) -> JsonView {
    match text {
        Some(text) => text_json(text),
        None => JsonView::Null,
    }
}

/// A number, or nothing, as JSON.
pub open spec fn number_or_null(n: Option<u64>) -> JsonView {
    match n {
        Some(n) => number_json(n),
        None => JsonView::Null,
    }
}

/// A model as JSON.
pub open spec fn model_json(model: ModelView) -> ObjectView {
    let object = with(no_members(), "id"@, text_json(model.id));
    let object = with(object, "displayName"@, text_json(model.display_name));
    let object = with(object, "contextWindow"@, number_or_null(model.context_window));
    let object = with(object, "compactThreshold"@, number_or_null(model.compact_threshold));
    let object = with(
        object,
        "reasoningEfforts"@,
        JsonView::List(texts_json(model.reasoning_efforts)),
    );
    let object = with(
        object,
        "defaultReasoningEffort"@,
        text_or_null(model.default_reasoning_effort),
    );
    let object = with(object, "supportsImages"@, JsonView::Bool(model.supports_images));
    with(object, "supportsToolSearch"@, JsonView::Bool(model.supports_tool_search))
}

/// Models as JSON.
pub open spec fn models_json(models: Seq<ModelView>) -> Seq<JsonView> {
    Seq::new(models.len(), |i: int| JsonView::Object(model_json(models[i])))
}

/// What a provider offers, as JSON.
pub open spec fn catalog_json(catalog: CatalogView) -> ObjectView {
    let object = with(
        spec_json(catalog.spec),
        "modelDetails"@,
        JsonView::List(models_json(catalog.model_details)),
    );
    match catalog.discovery_error {
        Some(message) => with(object, "discoveryError"@, text_json(message)),
        None => object,
    }
}

/// What the providers offer, as JSON.
pub open spec fn catalogs_json(catalogs: Seq<CatalogView>) -> Seq<JsonView> {
    Seq::new(catalogs.len(), |i: int| JsonView::Object(catalog_json(catalogs[i])))
}

fn optional_text(text: &Option<String>) -> (json: Json)
    ensures
        json@ == text_or_null(text.deep_view()),
{
    match text {
        Some(text) => Json::text(text.as_str()),
        None => Json::Null,
    }
}

fn optional_number(n: Option<u64>) -> (json: Json)
    ensures
        json@ == number_or_null(n),
{
    match n {
        Some(n) => Json::number(n),
        None => Json::Null,
    }
}

/// A model as JSON.
pub fn model_object(model: &ModelSpec) -> (object: JsonObject)
    ensures
        object@ == model_json(model.deep_view()),
{
    JsonObject::new().with_text("id", model.id.as_str()).with_text(
        "displayName",
        model.display_name.as_str(),
    ).with("contextWindow", optional_number(model.context_window)).with(
        "compactThreshold",
        optional_number(model.compact_threshold),
    ).with("reasoningEfforts", texts_list(&model.reasoning_efforts)).with(
        "defaultReasoningEffort",
        optional_text(&model.default_reasoning_effort),
    ).with("supportsImages", Json::Bool(model.supports_images)).with(
        "supportsToolSearch",
        Json::Bool(model.supports_tool_search),
    )
}

fn models_list(models: &Vec<ModelSpec>) -> (json: Json)
    ensures
        json@ == JsonView::List(models_json(models.deep_view())),
{
    let mut list: Vec<Json> = Vec::new();
    for i in 0..models.len()
        invariant
            list@.len() == i,
            forall|k: int|
                0 <= k < i ==> (#[trigger] list@[k])@ == JsonView::Object(
                    model_json(models@[k].deep_view()),
                ),
    {
        list.push(Json::object(model_object(&models[i])));
    }
    assert(list.deep_view() =~= models_json(models.deep_view()));
    Json::list(list)
}

/// What the providers offer, as JSON.
pub fn catalogs_as_json(catalogs: &Vec<ProviderCatalog>) -> (json: Json)
    ensures
        json@ == JsonView::List(catalogs_json(catalogs.deep_view())),
{
    let mut list: Vec<Json> = Vec::new();
    for i in 0..catalogs.len()
        invariant
            list@.len() == i,
            forall|k: int|
                0 <= k < i ==> (#[trigger] list@[k])@ == JsonView::Object(
                    catalog_json(catalogs@[k].deep_view()),
                ),
    {
        let catalog = &catalogs[i];
        let mut object = spec_object(&catalog.spec).with(
            "modelDetails",
            models_list(&catalog.model_details),
        );
        match &catalog.discovery_error {
            Some(message) => object.insert("discoveryError", Json::text(message.as_str())),
            None => {},
        }
        list.push(Json::object(object));
    }
    assert(list.deep_view() =~= catalogs_json(catalogs.deep_view()));
    Json::list(list)
}

} // verus!
