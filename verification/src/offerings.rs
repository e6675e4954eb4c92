//! What holds of the providers, their models and the requests that go by them.
use vstd::prelude::*;
#[allow(unused_imports)]
use vstd::utf8::encode_utf8;

#[allow(unused_imports)]
use crate::auth::environment_context;
#[allow(unused_imports)]
use crate::catalog::{
    assistants, catalog_key, catalog_model, chosen_model, compact_threshold, context_json,
    is_assistant, is_recent, is_special, listed, map_json, model_named, models_address,
    named_models, response_efforts, with_defaults, CodexModelView, ModelView,
};
#[allow(unused_imports)]
use crate::codec::sha256;
#[allow(unused_imports)]
use crate::discovery::{
    catalog_json, catalogs_json, discovered, is_asked, model_json, models_json, nanogpt_discovered,
    offered, CatalogView, DiscoveriesView, DiscoveryView,
};
#[allow(unused_imports)]
use crate::endpoint::endpoint;
#[allow(unused_imports)]
use crate::error::{error_text, ErrorView};
#[allow(unused_imports)]
use crate::json::{field, json_text, JsonView, NumberView};
#[allow(unused_imports)]
use crate::ordered::{find, found_after_put, put};
#[allow(unused_imports)]
use crate::providers::{
    base_url_of, deduplicated, deduplicated_models_are_the_named_ones_once, digit_runs,
    each_trimmed, env_text, env_value, is_candidate, latest, listed_models, nanogpt_models_address,
    present, provider_name, registry_of, registry_with, replaced, selected_models, spec_json,
    spec_of, specs_json, texts_json, version_less, version_of, with_replaced_models, ContextView,
    EnvView, EnvironmentView, Family, Provider, ProviderCapabilities, RegistryView, SpecView,
};
#[allow(unused_imports)]
use crate::response::{context_fault, CodexProtocol, ContextManagement, RequestView};
#[allow(unused_imports)]
use crate::text::{
    after_prefix, begins_with, decimal, finishes_with, is_digit, pieces, trimmed, without_endings,
    without_trailing,
};
#[allow(unused_imports)]
use crate::wording::{
    a_separator_parts_the_pieces, a_text_without_separators_is_one_piece,
    a_written_number_is_read_back, an_ending_is_taken_from_a_text, lemma_decimal,
    what_was_put_to_a_text_is_taken_again,
};

verus! {

/// No two providers have the same name.
pub proof fn providers_have_their_own_names(a: Provider, b: Provider)
    ensures
        provider_name(a) == provider_name(b) <==> a == b,
        provider_name(Provider::Codex) == "codex"@,
        provider_name(Provider::Openai) == "openai"@,
        provider_name(Provider::Nanogpt) == "nanogpt"@,
        provider_name(Provider::Azure) == "azure"@,
        provider_name(Provider::Bedrock) == "bedrock"@,
{
    reveal_strlit("codex");
    reveal_strlit("openai");
    reveal_strlit("nanogpt");
    reveal_strlit("azure");
    reveal_strlit("bedrock");
    assert("codex"@.len() == 5 && "codex"@[0] == 'c');
    assert("openai"@.len() == 6);
    assert("nanogpt"@.len() == 7 && "nanogpt"@[0] == 'n');
    assert("azure"@.len() == 5 && "azure"@[0] == 'a');
    assert("bedrock"@.len() == 7 && "bedrock"@[0] == 'b');
}

/// The models that a list names are its pieces without the blanks around them,
/// each once and none without a name; a list has to name one.
pub proof fn a_list_names_its_models(raw: Seq<char>, name: Seq<char>, fallback: Seq<Seq<char>>)
    ensures
        match listed_models(EnvView::Text(raw), name, fallback) {
            Ok(models) => {
                &&& models.len() > 0
                &&& models.no_duplicates()
                &&& forall|m: Seq<char>| #[trigger]
                    models.contains(m) <==> m.len() > 0 && exists|i: int|
                        0 <= i < pieces(raw, ',').len() && m == trimmed(
                            #[trigger] pieces(raw, ',')[i],
                        )
            },
            Err(_) => forall|i: int|
                0 <= i < pieces(raw, ',').len() ==> trimmed(#[trigger] pieces(raw, ',')[i]).len()
                    == 0,
        },
        listed_models(EnvView::Unset, name, fallback) == Ok::<Seq<Seq<char>>, ErrorView>(
            deduplicated(fallback),
        ),
{
    let named = each_trimmed(pieces(raw, ','));
    deduplicated_models_are_the_named_ones_once(named);
    let models = deduplicated(named);
    assert forall|m: Seq<char>| #[trigger] models.contains(m) <==> m.len() > 0 && exists|i: int|
        0 <= i < pieces(raw, ',').len() && m == trimmed(#[trigger] pieces(raw, ',')[i]) by {
        if models.contains(m) {
            let i = choose|i: int| 0 <= i < named.len() && named[i] == m;
            assert(m == trimmed(pieces(raw, ',')[i]));
        }
        if m.len() > 0 && exists|i: int|
            0 <= i < pieces(raw, ',').len() && m == trimmed(#[trigger] pieces(raw, ',')[i]) {
            let i = choose|i: int|
                0 <= i < pieces(raw, ',').len() && m == trimmed(#[trigger] pieces(raw, ',')[i]);
            assert(named[i] == m);
            assert(named.contains(m));
        }
    }
    if models.len() == 0 {
        assert forall|i: int| 0 <= i < pieces(raw, ',').len() implies trimmed(
            #[trigger] pieces(raw, ',')[i],
        ).len() == 0 by {
            let m = trimmed(pieces(raw, ',')[i]);
            assert(named[i] == m);
            assert(named.contains(m));
            if m.len() > 0 {
                assert(models.contains(m));
            }
        }
    }
}

/// The first model with a name stays the first: it is the default of its provider.
pub proof fn the_first_model_stays_first(models: Seq<Seq<char>>)
    requires
        models.len() > 0,
        models[0].len() > 0,
    ensures
        deduplicated(models).len() > 0,
        deduplicated(models)[0] == models[0],
    decreases models.len(),
{
    let earlier = models.drop_last();
    if earlier.len() > 0 {
        the_first_model_stays_first(earlier);
    } else {
        assert(earlier =~= Seq::empty());
        assert(deduplicated(earlier) =~= Seq::empty());
    }
}

/// A registry has the four providers, each with its models, of which the first is
/// the default, and each at its own address; it can do everything with each.
pub proof fn a_registry_has_the_four_providers(
    codex: Seq<Seq<char>>,
    openai: Seq<Seq<char>>,
    nanogpt: Seq<Seq<char>>,
    azure: Seq<Seq<char>>,
)
    ensures
        ({
            let registry = registry_with(codex, openai, nanogpt, azure);
            &&& registry.len() == 4
            &&& forall|i: int|
                0 <= i < 4 ==> (#[trigger] registry[i]).default_model
                    == registry[i].available_models[0] && registry[i].capabilities == (
                ProviderCapabilities {
                    supports_tools: true,
                    supports_structured_output: true,
                    supports_streaming: true,
                    supports_images: true,
                    supports_pdf: true,
                    supports_reasoning: true,
                })
            &&& spec_of(registry, Provider::Codex) matches Some(spec) && spec.available_models
                == codex && spec.base_url == Some("https://chatgpt.com/backend-api/codex"@)
                && spec.provider == Provider::Codex
            &&& spec_of(registry, Provider::Openai) matches Some(spec) && spec.available_models
                == openai && spec.base_url == Some("https://api.openai.com/v1"@) && spec.provider
                == Provider::Openai
            &&& spec_of(registry, Provider::Nanogpt) matches Some(spec) && spec.available_models
                == nanogpt && spec.base_url == Some("https://nano-gpt.com/api/v1"@)
                && spec.provider == Provider::Nanogpt
            &&& spec_of(registry, Provider::Azure) matches Some(spec) && spec.available_models
                == azure && spec.base_url is None && spec.provider == Provider::Azure
            &&& spec_of(registry, Provider::Bedrock) is None
        }),
{
    let registry = registry_with(codex, openai, nanogpt, azure);
    reveal_with_fuel(spec_of, 5);
    assert(registry.drop_first()[0] == registry[1]);
    assert(registry.drop_first().drop_first()[0] == registry[2]);
    assert(registry.drop_first().drop_first().drop_first()[0] == registry[3]);
}

/// What the environment says of a provider's models goes to that provider alone.
pub proof fn the_environment_lists_models_for_their_provider(environment: EnvironmentView)
    ensures
        registry_of(environment) matches Ok(registry) ==> {
            &&& registry.len() == 4
            &&& registry[0].provider == Provider::Codex
            &&& registry[1].provider == Provider::Openai
            &&& registry[2].provider == Provider::Nanogpt
            &&& registry[3].provider == Provider::Azure
            &&& env_value(environment, "CODEX_MODELS"@) matches EnvView::Text(raw)
                ==> registry[0].available_models == deduplicated(each_trimmed(pieces(raw, ',')))
            &&& env_value(environment, "OPENAI_MODELS"@) matches EnvView::Text(raw)
                ==> registry[1].available_models == deduplicated(each_trimmed(pieces(raw, ',')))
            &&& env_value(environment, "NANOGPT_MODELS"@) matches EnvView::Text(raw)
                ==> registry[2].available_models == deduplicated(each_trimmed(pieces(raw, ',')))
            &&& env_value(environment, "AZURE_OPENAI_MODELS"@) matches EnvView::Text(raw)
                ==> registry[3].available_models == deduplicated(each_trimmed(pieces(raw, ',')))
        },
        env_value(environment, "CODEX_MODELS"@) is Unreadable || env_value(
            environment,
            "OPENAI_MODELS"@,
        ) is Unreadable || env_value(environment, "NANOGPT_MODELS"@) is Unreadable || env_value(
            environment,
            "AZURE_OPENAI_MODELS"@,
        ) is Unreadable ==> registry_of(environment) is Err,
{
}

/// Where the environment lists no models for a provider, the one that it names is
/// the default.
pub proof fn the_environment_names_the_default(environment: EnvironmentView, model: Seq<char>)
    requires
        model.len() > 0,
    ensures
        registry_of(environment) matches Ok(registry) ==> {
            &&& env_value(environment, "OPENAI_MODELS"@) is Unset && env_text(
                environment,
                "OPENAI_MODEL"@,
            ) == Some(model) ==> registry[1].default_model == model
            &&& env_value(environment, "NANOGPT_MODELS"@) is Unset && env_text(
                environment,
                "NANOGPT_MODEL"@,
            ) == Some(model) ==> registry[2].default_model == model
            &&& env_value(environment, "AZURE_OPENAI_MODELS"@) is Unset && env_text(
                environment,
                "AZURE_OPENAI_MODEL"@,
            ) == Some(model) ==> registry[3].default_model == model
            &&& env_value(environment, "CODEX_MODELS"@) is Unset ==> registry[0].default_model
                == "gpt-5.6-sol"@
        },
{
    reveal_strlit("gpt-5.6-sol");
    the_first_model_stays_first(seq!["gpt-5.6-sol"@, "gpt-5.6-terra"@, "gpt-5.6-luna"@]);
    the_first_model_stays_first(seq![model, "gpt-5.5-mini"@]);
    the_first_model_stays_first(
        seq![model, "moonshotai/kimi-k2.6"@, "zai-org/glm-5.1"@, "deepseek/deepseek-v3.2"@],
    );
    the_first_model_stays_first(seq![model, "gpt-5-mini"@, "gpt-5-nano"@, "gpt-5.5"@]);
}

/// A provider that is given other models has them and keeps all else, and so do the
/// other providers.
pub proof fn only_the_models_of_one_provider_are_replaced(
    registry: RegistryView,
    provider: Provider,
    models: Seq<Seq<char>>,
    other: Provider,
)
    ensures
        match replaced(registry, provider, models) {
            Ok(after) => {
                &&& after.len() == registry.len()
                &&& spec_of(registry, provider) matches Some(before)
                &&& spec_of(after, provider) == Some(
                    SpecView { available_models: deduplicated(models), ..before },
                )
                &&& deduplicated(models).len() > 0
                &&& other != provider ==> spec_of(after, other) == spec_of(registry, other)
            },
            Err(_) => deduplicated(models).len() == 0 || spec_of(registry, provider) is None,
        },
{
    lemma_replaced(registry, provider, deduplicated(models), other);
}

proof fn lemma_replaced(
    registry: RegistryView,
    provider: Provider,
    models: Seq<Seq<char>>,
    other: Provider,
)
    ensures
        with_replaced_models(registry, provider, models).len() == registry.len(),
        spec_of(registry, provider) matches Some(before) ==> spec_of(
            with_replaced_models(registry, provider, models),
            provider,
        ) == Some(SpecView { available_models: models, ..before }),
        other != provider ==> spec_of(with_replaced_models(registry, provider, models), other)
            == spec_of(registry, other),
    decreases registry.len(),
{
    if registry.len() > 0 {
        let after = with_replaced_models(registry, provider, models);
        if registry[0].provider == provider {
            assert(after.drop_first() =~= registry.drop_first());
        } else {
            lemma_replaced(registry.drop_first(), provider, models, other);
            assert(after.drop_first() =~= with_replaced_models(
                registry.drop_first(),
                provider,
                models,
            ));
        }
    }
}

/// The address of a request is its own where it has one, else its provider's.
pub proof fn a_request_goes_to_its_own_address_first(context: ContextView, spec: SpecView)
    ensures
        context.base_url matches Some(url) ==> base_url_of(context, spec) == Ok::<
            Seq<char>,
            ErrorView,
        >(url),
        context.base_url is None ==> match spec.base_url {
            Some(url) => base_url_of(context, spec) == Ok::<Seq<char>, ErrorView>(url),
            None => base_url_of(context, spec) is Err,
        },
{
}

/// A provider as JSON says everything of it.
pub proof fn a_provider_is_told_whole(spec: SpecView)
    ensures
        ({
            let told = spec_json(spec);
            &&& find(told, "provider"@) == Some(JsonView::Text(provider_name(spec.provider)))
            &&& find(told, "defaultModel"@) == Some(JsonView::Text(spec.default_model))
            &&& find(told, "availableModels"@) == Some(
                JsonView::List(texts_json(spec.available_models)),
            )
            &&& find(told, "baseUrl"@) == Some(
                match spec.base_url {
                    Some(url) => JsonView::Text(url),
                    None => JsonView::Null,
                },
            )
            &&& find(told, "capabilities"@) matches Some(can)
            &&& field(can, "supportsTools"@) == Some(
                JsonView::Bool(spec.capabilities.supports_tools),
            )
            &&& field(can, "supportsStructuredOutput"@) == Some(
                JsonView::Bool(spec.capabilities.supports_structured_output),
            )
            &&& field(can, "supportsStreaming"@) == Some(
                JsonView::Bool(spec.capabilities.supports_streaming),
            )
            &&& field(can, "supportsImages"@) == Some(
                JsonView::Bool(spec.capabilities.supports_images),
            )
            &&& field(can, "supportsPdf"@) == Some(
                JsonView::Bool(spec.capabilities.supports_pdf),
            )
            &&& field(can, "supportsReasoning"@) == Some(
                JsonView::Bool(spec.capabilities.supports_reasoning),
            )
        }),
{
    broadcast use found_after_put;

    reveal_strlit("provider");
    reveal_strlit("defaultModel");
    reveal_strlit("availableModels");
    reveal_strlit("baseUrl");
    reveal_strlit("capabilities");
    reveal_strlit("supportsTools");
    reveal_strlit("supportsStructuredOutput");
    reveal_strlit("supportsStreaming");
    reveal_strlit("supportsImages");
    reveal_strlit("supportsPdf");
    reveal_strlit("supportsReasoning");
    assert("provider"@.len() == 8);
    assert("defaultModel"@.len() == 12 && "defaultModel"@[0] == 'd');
    assert("availableModels"@.len() == 15);
    assert("baseUrl"@.len() == 7);
    assert("capabilities"@.len() == 12 && "capabilities"@[0] == 'c');
    assert("supportsTools"@.len() == 13);
    assert("supportsStructuredOutput"@.len() == 24);
    assert("supportsStreaming"@.len() == 17 && "supportsStreaming"@[8] == 'S');
    assert("supportsImages"@.len() == 14);
    assert("supportsPdf"@.len() == 11);
    assert("supportsReasoning"@.len() == 17 && "supportsReasoning"@[8] == 'R');
}

/// Texts as JSON are the texts in order.
pub proof fn texts_are_told_in_order(texts: Seq<Seq<char>>, i: int)
    requires
        0 <= i < texts.len(),
    ensures
        texts_json(texts).len() == texts.len(),
        texts_json(texts)[i] == JsonView::Text(texts[i]),
{
}

/// A model as JSON says everything of it.
pub proof fn a_model_is_told_whole(model: ModelView)
    ensures
        ({
            let told = model_json(model);
            &&& find(told, "id"@) == Some(JsonView::Text(model.id))
            &&& find(told, "displayName"@) == Some(JsonView::Text(model.display_name))
            &&& find(told, "contextWindow"@) == Some(
                match model.context_window {
                    Some(n) => JsonView::Number(NumberView::PosInt(n)),
                    None => JsonView::Null,
                },
            )
            &&& find(told, "compactThreshold"@) == Some(
                match model.compact_threshold {
                    Some(n) => JsonView::Number(NumberView::PosInt(n)),
                    None => JsonView::Null,
                },
            )
            &&& find(told, "reasoningEfforts"@) == Some(
                JsonView::List(texts_json(model.reasoning_efforts)),
            )
            &&& find(told, "defaultReasoningEffort"@) == Some(
                match model.default_reasoning_effort {
                    Some(effort) => JsonView::Text(effort),
                    None => JsonView::Null,
                },
            )
            &&& find(told, "supportsImages"@) == Some(JsonView::Bool(model.supports_images))
            &&& find(told, "supportsToolSearch"@) == Some(
                JsonView::Bool(model.supports_tool_search),
            )
        }),
{
    broadcast use found_after_put;

    reveal_strlit("id");
    reveal_strlit("displayName");
    reveal_strlit("contextWindow");
    reveal_strlit("compactThreshold");
    reveal_strlit("reasoningEfforts");
    reveal_strlit("defaultReasoningEffort");
    reveal_strlit("supportsImages");
    reveal_strlit("supportsToolSearch");
    assert("id"@.len() == 2);
    assert("displayName"@.len() == 11);
    assert("contextWindow"@.len() == 13);
    assert("compactThreshold"@.len() == 16 && "compactThreshold"@[0] == 'c');
    assert("reasoningEfforts"@.len() == 16 && "reasoningEfforts"@[0] == 'r');
    assert("defaultReasoningEffort"@.len() == 22);
    assert("supportsImages"@.len() == 14);
    assert("supportsToolSearch"@.len() == 18);
}

/// What a provider offers, as JSON, is the provider with its models, and why there
/// are none where it did not answer.
pub proof fn an_offer_is_told_whole(catalog: CatalogView, key: Seq<char>)
    ensures
        ({
            let told = catalog_json(catalog);
            &&& find(told, "modelDetails"@) == Some(
                JsonView::List(models_json(catalog.model_details)),
            )
            &&& find(told, "discoveryError"@) == match catalog.discovery_error {
                Some(message) => Some(JsonView::Text(message)),
                None => None,
            }
            &&& key != "modelDetails"@ && key != "discoveryError"@ ==> find(told, key) == find(
                spec_json(catalog.spec),
                key,
            )
        }),
{
    broadcast use found_after_put;

    reveal_strlit("modelDetails");
    reveal_strlit("discoveryError");
    reveal_strlit("provider");
    reveal_strlit("defaultModel");
    reveal_strlit("availableModels");
    reveal_strlit("baseUrl");
    reveal_strlit("capabilities");
    assert("modelDetails"@.len() == 12 && "modelDetails"@[0] == 'm');
    assert("discoveryError"@.len() == 14);
    assert("provider"@.len() == 8);
    assert("defaultModel"@.len() == 12 && "defaultModel"@[0] == 'd');
    assert("availableModels"@.len() == 15);
    assert("baseUrl"@.len() == 7);
    assert("capabilities"@.len() == 12 && "capabilities"@[0] == 'c');
}

/// What a provider offers is what it named and is allowed; all else stays as it is
/// configured.
pub proof fn an_offer_is_what_was_found(
    configured: SpecView,
    allowed: Option<Seq<Seq<char>>>,
    models: Seq<ModelView>,
    names: Seq<Seq<char>>,
    message: Seq<char>,
)
    ensures
        offered(configured, allowed, DiscoveryView::NotAsked).spec == configured,
        offered(configured, None, DiscoveryView::Named(names)).spec.available_models
            == deduplicated(names),
        offered(configured, allowed, DiscoveryView::Found(models)).spec.available_models.len()
            == offered(configured, allowed, DiscoveryView::Found(models)).model_details.len(),
        forall|i: int|
            0 <= i < offered(
                configured,
                allowed,
                DiscoveryView::Found(models),
            ).model_details.len() ==> offered(
                configured,
                allowed,
                DiscoveryView::Found(models),
            ).spec.available_models[i] == (#[trigger] offered(
                configured,
                allowed,
                DiscoveryView::Found(models),
            ).model_details[i]).id,
        ({
            let failed = offered(configured, allowed, DiscoveryView::Failed(message));
            failed.discovery_error == Some(message) && failed.spec.available_models.len() == 0
                && failed.spec.base_url == configured.base_url && failed.spec.default_model
                == configured.default_model
        }),
{
}

/// A model of the catalog keeps its name, its window, its efforts but Ultra, its
/// default effort and what it can take.
pub proof fn a_listed_model_keeps_what_the_catalog_says(model: CodexModelView, effort: Seq<char>)
    ensures
        ({
            let out = catalog_model(model);
            &&& out.id == model.slug
            &&& out.display_name == model.display_name
            &&& out.context_window == model.context_window
            &&& out.default_reasoning_effort == model.default_reasoning_level
            &&& out.supports_tool_search == model.supports_search_tool
            &&& out.supports_images <==> model.input_modalities.contains("image"@)
            &&& out.reasoning_efforts.contains(effort) <==> effort != "ultra"@
                && model.supported_reasoning_levels.contains(effort)
            &&& out.compact_threshold == compact_threshold(
                model.auto_compact_token_limit,
                model.context_window,
            )
        }),
{
    lemma_efforts(model.supported_reasoning_levels, effort);
}

proof fn lemma_efforts(efforts: Seq<Seq<char>>, effort: Seq<char>)
    ensures
        response_efforts(efforts).contains(effort) <==> effort != "ultra"@ && efforts.contains(
            effort,
        ),
    decreases efforts.len(),
{
    if efforts.len() > 0 {
        let earlier = efforts.drop_last();
        lemma_efforts(earlier, effort);
        let kept = response_efforts(earlier);
        assert(efforts.contains(effort) <==> earlier.contains(effort) || efforts.last() == effort)
            by {
            if efforts.contains(effort) {
                let i = choose|i: int| 0 <= i < efforts.len() && efforts[i] == effort;
                if i < earlier.len() {
                    assert(earlier[i] == effort);
                }
            }
            if earlier.contains(effort) {
                let i = choose|i: int| 0 <= i < earlier.len() && earlier[i] == effort;
                assert(efforts[i] == effort);
            }
            assert(efforts[efforts.len() - 1] == efforts.last());
        }
        let pushed = kept.push(efforts.last());
        assert(pushed.contains(effort) <==> kept.contains(effort) || efforts.last() == effort) by {
            if pushed.contains(effort) {
                let i = choose|i: int| 0 <= i < pushed.len() && pushed[i] == effort;
                if i < kept.len() {
                    assert(kept[i] == effort);
                }
            }
            if kept.contains(effort) {
                let i = choose|i: int| 0 <= i < kept.len() && kept[i] == effort;
                assert(pushed[i] == effort);
            }
            assert(pushed[kept.len() as int] == efforts.last());
        }
    }
}

/// A conversation is compacted at the smaller of the limit that the catalog gives
/// and nine tenths of the context window, rounded down.
pub proof fn compaction_is_due_at_the_smaller_limit(limit: u64, window: u64)
    ensures
        compact_threshold(Some(limit), None) == Some(limit),
        compact_threshold(None, None) is None,
        compact_threshold(None, Some(window)) matches Some(most) && 10 * most <= 9 * window < 10 * (
        most + 1) && compact_threshold(Some(limit), Some(window)) == Some(
            if limit < most {
                limit
            } else {
                most
            },
        ),
{
}

proof fn lemma_no_separator(n: nat, c: char)
    requires
        !is_digit(c),
    ensures
        !decimal(n).contains(c),
{
    lemma_decimal(n);
    if decimal(n).contains(c) {
        let i = choose|i: int| 0 <= i < decimal(n).len() && decimal(n)[i] == c;
        assert(is_digit(decimal(n)[i]));
    }
}

/// The versions from 5.3 on are recent.
pub proof fn versions_from_5_3_on_are_recent(major: u32, minor: u32)
    ensures
        is_recent(decimal(major as nat).push('.') + decimal(minor as nat)) <==> major > 5 || (major
            == 5 && minor >= 3),
        is_recent(decimal(major as nat)) <==> major > 5,
{
    let a = decimal(major as nat);
    let b = decimal(minor as nat);
    lemma_no_separator(major as nat, '.');
    lemma_no_separator(minor as nat, '.');
    a_separator_parts_the_pieces(a, '.', b);
    a_text_without_separators_is_one_piece(a, '.');
    a_text_without_separators_is_one_piece(b, '.');
    a_written_number_is_read_back(major);
    a_written_number_is_read_back(minor);
    assert(seq![a] + seq![b] =~= seq![a, b]);
}

/// An assistant is a model `gpt-` with a recent version, and with any other parts
/// of its name but those that mark one made for one purpose.
pub proof fn an_assistant_is_a_recent_general_model(id: Seq<char>, part: Seq<char>)
    requires
        !part.contains('-'),
    ensures
        is_assistant("gpt-"@ + part) <==> is_recent(part) && part != "chat"@ && part != "pro"@
            && part != "audio"@ && part != "realtime"@ && part != "search"@ && part != "cyber"@,
        begins_with(id, "gpt-"@) ==> (is_assistant(id.push('-') + part) <==> is_assistant(id)
            && part != "chat"@ && part != "pro"@ && part != "audio"@ && part != "realtime"@ && part
            != "search"@ && part != "cyber"@),
        !begins_with(id, "gpt-"@) ==> !is_assistant(id),
{
    what_was_put_to_a_text_is_taken_again(part, "gpt-"@);
    a_text_without_separators_is_one_piece(part, '-');
    if is_recent(part) {
        assert(!is_special(part) ==> forall|i: int|
            0 <= i < pieces(part, '-').len() ==> !is_special(#[trigger] pieces(part, '-')[i]));
        assert(is_special(part) ==> is_special(pieces(part, '-')[0]));
    }
    if begins_with(id, "gpt-"@) {
        reveal_strlit("gpt-");
        let rest = id.skip(4);
        let longer = id.push('-') + part;
        assert(longer.subrange(0, 4) =~= id.subrange(0, 4));
        assert(longer.skip(4) =~= rest.push('-') + part);
        a_separator_parts_the_pieces(rest, '-', part);
        let before = pieces(rest, '-');
        crate::text::lemma_pieces_not_empty(rest, '-');
        let all = pieces(longer.skip(4), '-');
        assert(all == before + seq![part]);
        assert(all[0] == before[0]);
        if is_assistant(longer) {
            assert forall|i: int| 0 <= i < before.len() implies !is_special(
                #[trigger] before[i],
            ) by {
                assert(all[i] == before[i]);
            }
            assert(!is_special(all[before.len() as int]));
        }
        if is_assistant(id) && !is_special(part) {
            assert forall|i: int| 0 <= i < all.len() implies !is_special(#[trigger] all[i]) by {
                if i < before.len() {
                    assert(all[i] == before[i]);
                }
            }
        }
    }
}

/// The models of an account are its assistants, in the order of their names and each
/// once.
pub proof fn the_models_of_an_account_are_its_assistants(ids: Seq<Seq<char>>, id: Seq<char>)
    ensures
        assistants(ids).contains(id) <==> ids.contains(id) && is_assistant(id),
    decreases ids.len(),
{
    if ids.len() > 0 {
        let earlier = ids.drop_last();
        the_models_of_an_account_are_its_assistants(earlier, id);
        let kept = assistants(earlier);
        let pushed = kept.push(ids.last());
        assert(ids.contains(id) <==> earlier.contains(id) || ids.last() == id) by {
            if ids.contains(id) {
                let i = choose|i: int| 0 <= i < ids.len() && ids[i] == id;
                if i < earlier.len() {
                    assert(earlier[i] == id);
                }
            }
            if earlier.contains(id) {
                let i = choose|i: int| 0 <= i < earlier.len() && earlier[i] == id;
                assert(ids[i] == id);
            }
            assert(ids[ids.len() - 1] == ids.last());
        }
        assert(pushed.contains(id) <==> kept.contains(id) || ids.last() == id) by {
            if pushed.contains(id) {
                let i = choose|i: int| 0 <= i < pushed.len() && pushed[i] == id;
                if i < kept.len() {
                    assert(kept[i] == id);
                }
            }
            if kept.contains(id) {
                let i = choose|i: int| 0 <= i < kept.len() && kept[i] == id;
                assert(pushed[i] == id);
            }
            assert(pushed[kept.len() as int] == ids.last());
        }
    }
}

/// Of a model of which only the name is known, nothing is claimed but that it takes
/// images.
pub proof fn a_named_model_has_its_name(ids: Seq<Seq<char>>, i: int)
    requires
        0 <= i < ids.len(),
    ensures
        named_models(ids).len() == ids.len(),
        named_models(ids)[i].id == ids[i],
        named_models(ids)[i].display_name == ids[i],
        named_models(ids)[i].supports_images,
        !named_models(ids)[i].supports_tool_search,
        named_models(ids)[i].reasoning_efforts.len() == 0,
        named_models(ids)[i].context_window is None,
        named_models(ids)[i].compact_threshold is None,
{
}

/// The models of an account are asked for at Codex or where the context says, and
/// of no other provider.
pub proof fn models_are_asked_for_where_the_account_is(context: ContextView)
    ensures
        context.provider != Provider::Codex && context.provider != Provider::Openai
            ==> models_address(context) is Err,
        context_fault(context) is Some ==> models_address(context) is Err,
        context.provider == Provider::Openai ==> models_address(context) == endpoint(
            match context.base_url {
                Some(url) => url,
                None => "https://api.openai.com/v1"@,
            },
            "models"@,
            context.query,
        ),
        context.provider == Provider::Codex && context_fault(context) is None ==> models_address(
            context,
        ) == endpoint(
            "https://chatgpt.com/backend-api/codex"@,
            "models"@,
            if find(context.query, "client_version"@) is Some {
                context.query
            } else {
                put(context.query, "client_version"@, "0.153.4"@)
            },
        ),
{
}

/// What is kept of an account is kept under all that its requests are made with.
pub proof fn an_account_is_kept_under_its_whole_context(context: ContextView)
    ensures
        ({
            let told = context_json(context);
            &&& find(told, "provider"@) == Some(JsonView::Text(provider_name(context.provider)))
            &&& find(told, "apiKey"@) == Some(JsonView::Text(context.api_key))
            &&& find(told, "baseUrl"@) == match context.base_url {
                Some(url) => Some(JsonView::Text(url)),
                None => None,
            }
            &&& find(told, "headers"@) == if context.headers.len() > 0 {
                Some(JsonView::Object(map_json(context.headers)))
            } else {
                None
            }
            &&& find(told, "query"@) == if context.query.len() > 0 {
                Some(JsonView::Object(map_json(context.query)))
            } else {
                None
            }
        }),
{
    broadcast use found_after_put;

    reveal_strlit("provider");
    reveal_strlit("apiKey");
    reveal_strlit("baseUrl");
    reveal_strlit("headers");
    reveal_strlit("query");
    assert("provider"@.len() == 8);
    assert("apiKey"@.len() == 6);
    assert("baseUrl"@.len() == 7 && "baseUrl"@[0] == 'b');
    assert("headers"@.len() == 7 && "headers"@[0] == 'h');
    assert("query"@.len() == 5);
}

/// A request gets a model that its account can use: the one that it names, else the
/// configured one, else the first; its effort is one that the model has, and the
/// model's own where it names none.
pub proof fn a_request_gets_a_model_of_its_account(
    request: RequestView,
    models: Seq<ModelView>,
    configured: Seq<char>,
    i: int,
)
    requires
        0 <= i < models.len(),
        forall|k: int| 0 <= k < i ==> (#[trigger] models[k]).id != models[i].id,
    ensures
        request.model == Some(models[i].id) || (request.model is None && models[i].id == configured)
            || (request.model is None && i == 0 && forall|k: int|
            0 <= k < models.len() ==> (#[trigger] models[k]).id != configured) ==> match request.reasoning_effort {
            Some(effort) => if models[i].reasoning_efforts.contains(effort) {
                with_defaults(request, models, configured) matches Ok(out) && out.model == Some(
                    models[i].id,
                ) && out.reasoning_effort == Some(effort)
            } else {
                with_defaults(request, models, configured) is Err
            },
            None => with_defaults(request, models, configured) matches Ok(out) && out.model == Some(
                models[i].id,
            ) && out.reasoning_effort == models[i].default_reasoning_effort,
        },
        request.model matches Some(name) ==> (forall|k: int|
            0 <= k < models.len() ==> (#[trigger] models[k]).id != name) ==> with_defaults(
            request,
            models,
            configured,
        ) is Err,
{
    lemma_named(models, models[i].id, i);
    if request.model is Some {
        lemma_not_named(models, request.model->0);
    }
    lemma_not_named(models, configured);
}

proof fn lemma_named(models: Seq<ModelView>, id: Seq<char>, at: int)
    requires
        0 <= at < models.len(),
        models[at].id == id,
        forall|k: int| 0 <= k < at ==> (#[trigger] models[k]).id != id,
    ensures
        model_named(models, id) == Some(models[at]),
    decreases models.len(),
{
    if at > 0 {
        assert(models[0].id != id);
        let rest = models.drop_first();
        assert forall|k: int| 0 <= k < at - 1 implies (#[trigger] rest[k]).id != id by {
            assert(rest[k] == models[k + 1]);
        }
        lemma_named(rest, id, at - 1);
    }
}

proof fn lemma_not_named(models: Seq<ModelView>, id: Seq<char>)
    ensures
        (forall|k: int| 0 <= k < models.len() ==> (#[trigger] models[k]).id != id) ==> model_named(
            models,
            id,
        ) is None,
    decreases models.len(),
{
    if models.len() > 0 && forall|k: int|
        0 <= k < models.len() ==> (#[trigger] models[k]).id != id {
        assert(models[0].id != id);
        let rest = models.drop_first();
        assert forall|k: int| 0 <= k < rest.len() implies (#[trigger] rest[k]).id != id by {
            assert(rest[k] == models[k + 1]);
        }
        lemma_not_named(rest, id);
    }
}

/// A request that compacts by requests of its own and names no limit gets the
/// model's, and goes out in the light form where it names no form.
pub proof fn the_limit_of_the_model_is_filled_in(
    request: RequestView,
    models: Seq<ModelView>,
    configured: Seq<char>,
)
    requires
        chosen_model(models, request.model, configured) is Some,
        request.context_management matches Some(
            ContextManagement::RemoteV2 { auto_compact_token_limit: None, .. },
        ),
    ensures
        with_defaults(request, models, configured) matches Ok(out) ==> {
            &&& out.context_management matches Some(
                ContextManagement::RemoteV2 { auto_compact_token_limit, previous_usage, .. },
            ) && auto_compact_token_limit == chosen_model(
                models,
                request.model,
                configured,
            )->0.compact_threshold && previous_usage
                == request.context_management->0->RemoteV2_previous_usage
            &&& request.codex_protocol is None ==> out.codex_protocol == Some(
                CodexProtocol::ResponsesLite,
            )
        },
{
}

/// The newest of each family is selected, thinking and not, and nothing else.
pub proof fn the_newest_of_each_family_is_selected(ids: Seq<Seq<char>>, id: Seq<char>)
    ensures
        match selected_models(ids) {
            Ok(models) => models.contains(id) <==> {
                ||| latest(ids, Family::DeepSeek, false) == Some(id)
                ||| latest(ids, Family::DeepSeek, true) == Some(id)
                ||| latest(ids, Family::Glm, false) == Some(id)
                ||| latest(ids, Family::Glm, true) == Some(id)
                ||| latest(ids, Family::Kimi, false) == Some(id)
                ||| latest(ids, Family::Kimi, true) == Some(id)
            },
            Err(_) => latest(ids, Family::DeepSeek, false) is None && latest(
                ids,
                Family::DeepSeek,
                true,
            ) is None && latest(ids, Family::Glm, false) is None && latest(ids, Family::Glm, true)
                is None && latest(ids, Family::Kimi, false) is None && latest(
                ids,
                Family::Kimi,
                true,
            ) is None,
        },
{
    let all = seq![
        latest(ids, Family::DeepSeek, false),
        latest(ids, Family::DeepSeek, true),
        latest(ids, Family::Glm, false),
        latest(ids, Family::Glm, true),
        latest(ids, Family::Kimi, false),
        latest(ids, Family::Kimi, true),
    ];
    lemma_present(all, id);
    assert(all[0] == latest(ids, Family::DeepSeek, false));
    assert(all[1] == latest(ids, Family::DeepSeek, true));
    assert(all[2] == latest(ids, Family::Glm, false));
    assert(all[3] == latest(ids, Family::Glm, true));
    assert(all[4] == latest(ids, Family::Kimi, false));
    assert(all[5] == latest(ids, Family::Kimi, true));
    if present(all).len() == 0 {
        lemma_all_absent(all);
    }
}

proof fn lemma_present(texts: Seq<Option<Seq<char>>>, text: Seq<char>)
    ensures
        present(texts).contains(text) <==> exists|i: int|
            0 <= i < texts.len() && #[trigger] texts[i] == Some(text),
    decreases texts.len(),
{
    if texts.len() > 0 {
        let earlier = texts.drop_last();
        lemma_present(earlier, text);
        let kept = present(earlier);
        assert((exists|i: int| 0 <= i < texts.len() && #[trigger] texts[i] == Some(text)) <==> (
        exists|i: int| 0 <= i < earlier.len() && #[trigger] earlier[i] == Some(text))
            || texts.last() == Some(text)) by {
            if exists|i: int| 0 <= i < texts.len() && #[trigger] texts[i] == Some(text) {
                let i = choose|i: int| 0 <= i < texts.len() && #[trigger] texts[i] == Some(text);
                if i < earlier.len() {
                    assert(earlier[i] == Some(text));
                }
            }
            if exists|i: int| 0 <= i < earlier.len() && #[trigger] earlier[i] == Some(text) {
                let i = choose|i: int|
                    0 <= i < earlier.len() && #[trigger] earlier[i] == Some(text);
                assert(texts[i] == Some(text));
            }
            assert(texts[texts.len() - 1] == texts.last());
        }
        if let Some(last) = texts.last() {
            let pushed = kept.push(last);
            assert(pushed.contains(text) <==> kept.contains(text) || last == text) by {
                if pushed.contains(text) {
                    let i = choose|i: int| 0 <= i < pushed.len() && pushed[i] == text;
                    if i < kept.len() {
                        assert(kept[i] == text);
                    }
                }
                if kept.contains(text) {
                    let i = choose|i: int| 0 <= i < kept.len() && kept[i] == text;
                    assert(pushed[i] == text);
                }
                assert(pushed[kept.len() as int] == last);
            }
        }
    }
}

proof fn lemma_all_absent(texts: Seq<Option<Seq<char>>>)
    requires
        present(texts).len() == 0,
    ensures
        forall|i: int| 0 <= i < texts.len() ==> #[trigger] texts[i] is None,
    decreases texts.len(),
{
    if texts.len() > 0 {
        let earlier = texts.drop_last();
        lemma_all_absent(earlier);
        assert forall|i: int| 0 <= i < texts.len() implies #[trigger] texts[i] is None by {
            if i < earlier.len() {
                assert(earlier[i] is None);
            }
        }
    }
}

/// The names of the models that are supported: for DeepSeek a number and `-pro`, for
/// the others numbers with full stops between them, and each with `:thinking` behind
/// it where it thinks.
#[verifier::spinoff_prover]
#[verifier::rlimit(40)]
pub proof fn supported_models_have_these_names(a: nat, b: nat)
    ensures
        ({
            let deepseek = "deepseek/deepseek-v"@ + (decimal(a) + "-pro"@);
            let glm = "zai-org/glm-"@ + (decimal(a).push('.') + decimal(b));
            let kimi = "moonshotai/kimi-k"@ + (decimal(a).push('.') + decimal(b));
            &&& is_candidate(Family::DeepSeek, false, deepseek)
            &&& is_candidate(Family::DeepSeek, true, deepseek + ":thinking"@)
            &&& is_candidate(Family::Glm, false, glm)
            &&& is_candidate(Family::Glm, true, glm + ":thinking"@)
            &&& is_candidate(Family::Kimi, false, kimi)
            &&& is_candidate(Family::Kimi, true, kimi + ":thinking"@)
        }),
{
    let pro = decimal(a) + "-pro"@;
    let dotted = decimal(a).push('.') + decimal(b);
    lemma_decimal(a);
    lemma_decimal(b);
    reveal_strlit("-pro");
    assert(pro.last() == 'o');
    assert(is_digit(decimal(b)[decimal(b).len() - 1]));
    assert(dotted.last() == decimal(b).last());
    what_was_put_to_a_text_is_taken_again(decimal(a), "-pro"@);
    lemma_no_separator(a, '.');
    lemma_no_separator(b, '.');
    a_separator_parts_the_pieces(decimal(a), '.', decimal(b));
    a_text_without_separators_is_one_piece(decimal(a), '.');
    a_text_without_separators_is_one_piece(decimal(b), '.');
    assert(pieces(dotted, '.') =~= seq![decimal(a), decimal(b)]);
    lemma_name("deepseek/deepseek-v"@, pro);
    lemma_name("zai-org/glm-"@, dotted);
    lemma_name("moonshotai/kimi-k"@, dotted);
}

#[verifier::spinoff_prover]
#[verifier::rlimit(40)]
proof fn lemma_name(prefix: Seq<char>, version: Seq<char>)
    requires
        version.len() > 0,
        version.last() != 'g',
    ensures
        begins_with(prefix + version, prefix),
        begins_with(prefix + version + ":thinking"@, prefix),
        !finishes_with(prefix + version, ":thinking"@),
        finishes_with(prefix + version + ":thinking"@, ":thinking"@),
        after_prefix(without_endings(prefix + version, ":thinking"@), prefix) == Some(version),
        after_prefix(without_endings(prefix + version + ":thinking"@, ":thinking"@), prefix)
            == Some(version),
{
    let id = prefix + version;
    assert(id.last() == version.last());
    lemma_does_not_think(id);
    lemma_still_begins(prefix, version, ":thinking"@);
    lemma_still_ends(id, ":thinking"@);
    lemma_ending(id, ":thinking"@);
}

proof fn lemma_still_begins(prefix: Seq<char>, version: Seq<char>, ending: Seq<char>)
    ensures
        begins_with(prefix + version, prefix),
        begins_with(prefix + version + ending, prefix),
        after_prefix(prefix + version, prefix) == Some(version),
{
    what_was_put_to_a_text_is_taken_again(version, prefix);
    let n = prefix.len() as int;
    assert((prefix + version + ending).subrange(0, n) =~= prefix);
}

proof fn lemma_still_ends(id: Seq<char>, ending: Seq<char>)
    ensures
        finishes_with(id + ending, ending),
{
    what_was_put_to_a_text_is_taken_again(id, ending);
}

proof fn lemma_ending(id: Seq<char>, ending: Seq<char>)
    requires
        ending.len() > 0,
        !finishes_with(id, ending),
    ensures
        without_endings(id, ending) == id,
        without_endings(id + ending, ending) == id,
{
    an_ending_is_taken_from_a_text(id, ending);
}

proof fn lemma_does_not_think(id: Seq<char>)
    requires
        id.len() > 0,
        id.last() != 'g',
    ensures
        ":thinking"@.len() > 0,
        !finishes_with(id, ":thinking"@),
{
    reveal_strlit(":thinking");
    assert(":thinking"@.len() == 9 && ":thinking"@[8] == 'g');
    if finishes_with(id, ":thinking"@) {
        let n = id.len() - 9;
        assert(id.subrange(n, n + 9)[8] == id.last());
    }
}

/// The version of a model is the numbers in its name: one more number behind what is
/// no digit is the next number of the version.
pub proof fn a_version_is_the_numbers_of_a_name(before: Seq<char>, c: char, n: u32)
    requires
        !is_digit(c),
    ensures
        version_of(before.push(c) + decimal(n as nat)) == version_of(before).push(n),
        version_of(before.push(c)) == version_of(before),
{
    let digits = decimal(n as nat);
    lemma_decimal(n as nat);
    assert(before.push(c).drop_last() =~= before);
    let runs = digit_runs(before);
    let parted = runs.push(Seq::empty());
    assert(digit_runs(before.push(c)) == parted);
    lemma_run(before.push(c), runs, digits);
    a_written_number_is_read_back(n);
    assert(parted.drop_last() =~= runs);
    assert(runs.push(digits).drop_last() =~= runs);
}

proof fn lemma_run(before: Seq<char>, runs: Seq<Seq<char>>, digits: Seq<char>)
    requires
        digit_runs(before) == runs.push(Seq::empty()),
        forall|i: int| 0 <= i < digits.len() ==> is_digit(#[trigger] digits[i]),
    ensures
        digit_runs(before + digits) == runs.push(digits),
    decreases digits.len(),
{
    if digits.len() == 0 {
        assert(before + digits =~= before);
        assert(digits =~= Seq::empty());
    } else {
        let shorter = digits.drop_last();
        assert forall|i: int| 0 <= i < shorter.len() implies is_digit(#[trigger] shorter[i]) by {
            assert(shorter[i] == digits[i]);
        }
        lemma_run(before, runs, shorter);
        assert((before + digits).drop_last() =~= before + shorter);
        assert(is_digit(digits[digits.len() - 1]));
        assert(shorter.push(digits.last()) =~= digits);
        assert(digit_runs(before + digits) =~= runs.push(digits));
    }
}

/// The first number in which two versions differ says which is older; where they
/// do not differ so far, the shorter one is.
pub proof fn the_first_difference_says_which_is_older(
    common: Seq<u32>,
    a: Seq<u32>,
    b: Seq<u32>,
    x: u32,
    y: u32,
)
    requires
        x < y,
    ensures
        version_less(common.push(x) + a, common.push(y) + b),
        !version_less(common.push(y) + b, common.push(x) + a),
        version_less(common, common.push(y) + b),
    decreases common.len(),
{
    if common.len() == 0 {
        assert((common.push(x) + a)[0] == x);
        assert((common.push(y) + b)[0] == y);
    } else {
        let rest = common.drop_first();
        assert((common.push(x) + a).drop_first() =~= rest.push(x) + a);
        assert((common.push(y) + b).drop_first() =~= rest.push(y) + b);
        the_first_difference_says_which_is_older(rest, a, b, x, y);
    }
}

/// A context out of the environment holds the key and the address of its provider.
pub proof fn a_context_holds_the_key_of_its_provider(environment: EnvironmentView, key: Seq<char>)
    requires
        trimmed(key).len() > 0,
    ensures
        env_text(environment, "OPENAI_API_KEY"@) == Some(key) ==> (environment_context(
            Provider::Openai,
            environment,
        ) matches Ok(context) && context.api_key == key && context.base_url == Some(
            "https://api.openai.com/v1"@,
        ) && context.headers.len() == 0 && context.query.len() == 0),
        env_text(environment, "OPENAI_API_KEY"@) is None ==> environment_context(
            Provider::Openai,
            environment,
        ) is Err,
        env_text(environment, "NANOGPT_API_KEY"@) == Some(key) ==> (environment_context(
            Provider::Nanogpt,
            environment,
        ) matches Ok(context) && context.api_key == key && context.base_url == Some(
            match env_text(environment, "NANOGPT_BASE_URL"@) {
                Some(url) => url,
                None => "https://nano-gpt.com/api/v1"@,
            },
        )),
        env_text(environment, "NANOGPT_API_KEY"@) is None ==> environment_context(
            Provider::Nanogpt,
            environment,
        ) is Err,
{
}

/// A context for Azure holds the key, also as the header that Azure reads, its
/// endpoint in its final form and the version where one is named.
pub proof fn a_context_for_azure_holds_its_endpoint(environment: EnvironmentView)
    ensures
        match environment_context(Provider::Azure, environment) {
            Ok(context) => {
                &&& Some(context.api_key) == match env_text(environment, "AZURE_OPENAI_API_KEY"@) {
                    Some(key) => Some(key),
                    None => env_text(environment, "AZURE_OPENAI_KEY"@),
                }
                &&& find(context.headers, "api-key"@) == Some(context.api_key)
                &&& env_text(environment, "AZURE_OPENAI_ENDPOINT"@) matches Some(address)
                &&& crate::auth::azure_endpoint(address) matches Ok(url)
                &&& context.base_url == Some(url)
                &&& match env_text(environment, "AZURE_OPENAI_API_VERSION"@) {
                    Some(version) => if trimmed(version).len() > 0 {
                        find(context.query, "api-version"@) == Some(version)
                    } else {
                        context.query.len() == 0
                    },
                    None => context.query.len() == 0,
                }
            },
            Err(_) => {
                ||| env_text(environment, "AZURE_OPENAI_API_KEY"@) is None && env_text(
                    environment,
                    "AZURE_OPENAI_KEY"@,
                ) is None
                ||| env_text(environment, "AZURE_OPENAI_ENDPOINT"@) is None
                ||| crate::auth::azure_endpoint(
                    env_text(environment, "AZURE_OPENAI_ENDPOINT"@)->0,
                ) is Err
            },
        },
{
    broadcast use found_after_put;

}

/// Each provider offers what came of asking it, and no other's; Codex is restricted to
/// the models that the environment lists for it, and no other provider is.
pub proof fn each_provider_offers_what_it_said(
    environment: EnvironmentView,
    discoveries: DiscoveriesView,
    i: int,
)
    ensures
        discovered(environment, discoveries) matches Ok(catalogs) ==> {
            &&& registry_of(environment) matches Ok(registry)
            &&& catalogs.len() == registry.len()
            &&& 0 <= i < registry.len() ==> catalogs[i] == match registry[i].provider {
                Provider::Codex => offered(
                    registry[i],
                    if env_value(environment, "CODEX_MODELS"@) is Unset {
                        None
                    } else {
                        Some(registry[i].available_models)
                    },
                    discoveries.codex,
                ),
                Provider::Openai => offered(registry[i], None, discoveries.openai),
                Provider::Nanogpt => offered(registry[i], None, discoveries.nanogpt),
                _ => offered(registry[i], None, DiscoveryView::NotAsked),
            }
        },
        registry_of(environment) is Ok <==> discovered(environment, discoveries) is Ok,
{
}

/// A provider is asked for its models where there is a key to ask with: Codex with a
/// context of its own, OpenAI where no models are listed for it, and NanoGPT.
pub proof fn a_provider_is_asked_with_a_key(
    environment: EnvironmentView,
    context: Option<ContextView>,
)
    ensures
        is_asked(Provider::Codex, environment, context) <==> (context matches Some(context)
            && context.provider == Provider::Codex),
        is_asked(Provider::Openai, environment, context) <==> !(env_value(
            environment,
            "OPENAI_API_KEY"@,
        ) is Unset) && env_value(environment, "OPENAI_MODELS"@) is Unset,
        is_asked(Provider::Nanogpt, environment, context) <==> !(env_value(
            environment,
            "NANOGPT_API_KEY"@,
        ) is Unset),
        !is_asked(Provider::Azure, environment, context),
        !is_asked(Provider::Bedrock, environment, context),
{
}

/// What NanoGPT answers is the newest models of its families, or why there are none.
pub proof fn nanogpt_answers_with_its_newest_models(ids: Seq<Seq<char>>, error: ErrorView)
    ensures
        nanogpt_discovered(Err(error)) == DiscoveryView::Failed(error_text(error)),
        selected_models(ids) matches Ok(models) ==> nanogpt_discovered(Ok(ids))
            == DiscoveryView::Named(models),
        selected_models(ids) matches Err(fault) ==> nanogpt_discovered(Ok(ids))
            == DiscoveryView::Failed(error_text(fault)),
{
}

/// The models of NanoGPT are listed under the address that the environment names for
/// it.
pub proof fn the_models_of_nanogpt_are_listed_at_its_base(environment: EnvironmentView)
    ensures
        env_text(environment, "NANOGPT_BASE_URL"@) matches Some(url) ==> nanogpt_models_address(
            environment,
        ) == without_trailing(url, '/') + "/models"@,
        env_text(environment, "NANOGPT_BASE_URL"@) is None ==> nanogpt_models_address(environment)
            == "https://nano-gpt.com/api/v1/models"@,
{
    reveal_strlit("https://nano-gpt.com/api/v1");
    reveal_strlit("/models");
    reveal_strlit("https://nano-gpt.com/api/v1/models");
    assert("https://nano-gpt.com/api/v1"@.last() == '1');
    assert("https://nano-gpt.com/api/v1"@ + "/models"@ =~= "https://nano-gpt.com/api/v1/models"@);
}

/// Providers and offers are told one for one and in order.
pub proof fn offers_are_told_in_order(
    specs: RegistryView,
    catalogs: Seq<CatalogView>,
    models: Seq<ModelView>,
    i: int,
)
    ensures
        specs_json(specs).len() == specs.len(),
        0 <= i < specs.len() ==> specs_json(specs)[i] == JsonView::Object(spec_json(specs[i])),
        catalogs_json(catalogs).len() == catalogs.len(),
        0 <= i < catalogs.len() ==> catalogs_json(catalogs)[i] == JsonView::Object(
            catalog_json(catalogs[i]),
        ),
        models_json(models).len() == models.len(),
        0 <= i < models.len() ==> models_json(models)[i] == JsonView::Object(model_json(models[i])),
{
}

/// What is kept of an account is kept under a digest of its context.
pub proof fn an_account_is_kept_under_a_digest(context: ContextView)
    ensures
        catalog_key(context) == sha256(
            encode_utf8(json_text(JsonView::Object(context_json(context)))),
        ),
{
}

/// What the environment says under a name is what stands there first.
pub proof fn the_environment_says_what_stands_first(
    before: EnvironmentView,
    name: Seq<char>,
    value: EnvView,
    after: EnvironmentView,
)
    requires
        forall|i: int| 0 <= i < before.len() ==> (#[trigger] before[i]).0 != name,
    ensures
        env_value(before + seq![(name, value)] + after, name) == value,
        env_value(before, name) is Unset,
    decreases before.len(),
{
    let whole = before + seq![(name, value)] + after;
    if before.len() == 0 {
        assert(whole[0] == (name, value));
    } else {
        assert(whole[0] == before[0]);
        assert(before[0].0 != name);
        let rest = before.drop_first();
        assert forall|i: int| 0 <= i < rest.len() implies (#[trigger] rest[i]).0 != name by {
            assert(rest[i] == before[i + 1]);
        }
        assert(whole.drop_first() =~= rest + seq![(name, value)] + after);
        the_environment_says_what_stands_first(rest, name, value, after);
    }
}

/// A registry is had where what the environment lists can be read and names a model
/// for each provider that it lists models for.
pub proof fn a_registry_is_had_of_every_readable_environment(environment: EnvironmentView)
    ensures
        registry_of(environment) is Ok <==> {
            &&& can_be_listed(env_value(environment, "CODEX_MODELS"@))
            &&& can_be_listed(env_value(environment, "OPENAI_MODELS"@))
            &&& can_be_listed(env_value(environment, "NANOGPT_MODELS"@))
            &&& can_be_listed(env_value(environment, "AZURE_OPENAI_MODELS"@))
        },
{
}

/// Whether a value of the environment is no list at all, or one with a model in it.
pub open spec fn can_be_listed(value: EnvView) -> bool {
    match value {
        EnvView::Unset => true,
        EnvView::Unreadable(_) => false,
        EnvView::Text(raw) => deduplicated(each_trimmed(pieces(raw, ','))).len() > 0,
    }
}

/// A context for Bedrock is had where both keys are.
pub proof fn a_context_for_bedrock_needs_both_keys(environment: EnvironmentView)
    ensures
        environment_context(Provider::Bedrock, environment) is Ok <==> env_text(
            environment,
            "AWS_ACCESS_KEY_ID"@,
        ) is Some && env_text(environment, "AWS_SECRET_ACCESS_KEY"@) is Some,
{
}

} // verus!
