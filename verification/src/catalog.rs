//! The models that an account can use.
use vstd::prelude::*;

use crate::codec::sha256_of;
#[allow(unused_imports)]
use crate::codec::sha256;
use crate::endpoint::endpoint_url;
#[allow(unused_imports)]
use crate::endpoint::endpoint;
use crate::error::Error;
#[allow(unused_imports)]
use crate::error::{outcome, ErrorView};
use crate::json::{json_text_of, Json, JsonObject};
#[allow(unused_imports)]
use crate::json::{json_text, no_members, or_empty, text_json, with, JsonView, ObjectView};
use crate::ordered::{sort_texts, StringMap};
#[allow(unused_imports)]
use crate::ordered::{put_if_absent, sorted_texts};
use crate::providers::{Provider, ProviderRegistry, RequestContext, DISCOVERY_TTL};
#[allow(unused_imports)]
use crate::providers::{provider_name, spec_of, ContextView, RegistryView};
use crate::response::{
    validate_request_context, CodexProtocol, ContextManagement, ResponseRequest,
};
#[allow(unused_imports)]
use crate::response::{context_fault, RequestView};
use crate::text::{
    cat, cat3, clone_option, clone_texts, has_text, owned, parse_u32, same, split, strip_prefix,
    utf8_bytes,
};
#[allow(unused_imports)]
use crate::text::{after_prefix, lemma_pieces_not_empty, number_u32, pieces};
#[allow(unused_imports)]
use vstd::utf8::encode_utf8;

verus! {

/// A model and what it can do.
#[derive(Debug)]
pub struct ModelSpec {
    pub id: String,
    pub display_name: String,
    pub context_window: Option<u64>,
    pub compact_threshold: Option<u64>,
    pub reasoning_efforts: Vec<String>,
    pub default_reasoning_effort: Option<String>,
    pub supports_images: bool,
    pub supports_tool_search: bool,
}

/// What a model is.
pub struct ModelView {
    pub id: Seq<char>,
    pub display_name: Seq<char>,
    pub context_window: Option<u64>,
    pub compact_threshold: Option<u64>,
    pub reasoning_efforts: Seq<Seq<char>>,
    pub default_reasoning_effort: Option<Seq<char>>,
    pub supports_images: bool,
    pub supports_tool_search: bool,
}

impl DeepView for ModelSpec {
    type V = ModelView;

    open spec fn deep_view(&self) -> ModelView {
        ModelView {
            id: self.id@,
            display_name: self.display_name@,
            context_window: self.context_window,
            compact_threshold: self.compact_threshold,
            reasoning_efforts: self.reasoning_efforts.deep_view(),
            default_reasoning_effort: self.default_reasoning_effort.deep_view(),
            supports_images: self.supports_images,
            supports_tool_search: self.supports_tool_search,
        }
    }
}

impl Clone for ModelSpec {
    fn clone(&self) -> (copy: Self)
        ensures
            copy.deep_view() == self.deep_view(),
    {
        ModelSpec {
            id: self.id.clone(),
            display_name: self.display_name.clone(),
            context_window: self.context_window,
            compact_threshold: self.compact_threshold,
            reasoning_efforts: clone_texts(&self.reasoning_efforts),
            default_reasoning_effort: clone_option(&self.default_reasoning_effort),
            supports_images: self.supports_images,
            supports_tool_search: self.supports_tool_search,
        }
    }
}

/// A model as the catalog of Codex lists it.
#[derive(Debug)]
pub struct CodexModel {
    pub slug: String,
    pub display_name: String,
    pub visibility: String,
    pub context_window: Option<u64>,
    pub auto_compact_token_limit: Option<u64>,
    pub supported_reasoning_levels: Vec<String>,
    pub default_reasoning_level: Option<String>,
    pub supports_search_tool: bool,
    pub input_modalities: Vec<String>,
}

/// What a model of the catalog is.
pub struct CodexModelView {
    pub slug: Seq<char>,
    pub display_name: Seq<char>,
    pub visibility: Seq<char>,
    pub context_window: Option<u64>,
    pub auto_compact_token_limit: Option<u64>,
    pub supported_reasoning_levels: Seq<Seq<char>>,
    pub default_reasoning_level: Option<Seq<char>>,
    pub supports_search_tool: bool,
    pub input_modalities: Seq<Seq<char>>,
}

impl DeepView for CodexModel {
    type V = CodexModelView;

    open spec fn deep_view(&self) -> CodexModelView {
        CodexModelView {
            slug: self.slug@,
            display_name: self.display_name@,
            visibility: self.visibility@,
            context_window: self.context_window,
            auto_compact_token_limit: self.auto_compact_token_limit,
            supported_reasoning_levels: self.supported_reasoning_levels.deep_view(),
            default_reasoning_level: self.default_reasoning_level.deep_view(),
            supports_search_tool: self.supports_search_tool,
            input_modalities: self.input_modalities.deep_view(),
        }
    }
}

/// The size from which a conversation with a model is compacted: the limit of
/// the catalog, and no more than nine tenths of the context window.
pub open spec fn compact_threshold(limit: Option<u64>, window: Option<u64>) -> Option<u64> {
    let most = match window {
        Some(window) => Some((window as nat * 9 / 10) as u64),
        None => None,
    };
    match (limit, most) {
        (Some(a), Some(b)) => Some(
            if a < b {
                a
            } else {
                b
            },
        ),
        (Some(a), None) => Some(a),
        (None, b) => b,
    }
}

/// The efforts that are one response's.
pub open spec fn response_efforts(efforts: Seq<Seq<char>>) -> Seq<Seq<char>>
    decreases efforts.len(),
{
    if efforts.len() == 0 {
        Seq::empty()
    } else if efforts.last() == "ultra"@ {
        response_efforts(efforts.drop_last())
    } else {
        response_efforts(efforts.drop_last()).push(efforts.last())
    }
}

/// A model of the catalog.
pub open spec fn catalog_model(model: CodexModelView) -> ModelView {
    ModelView {
        id: model.slug,
        display_name: model.display_name,
        context_window: model.context_window,
        compact_threshold: compact_threshold(
            model.auto_compact_token_limit,
            model.context_window,
        ),
        reasoning_efforts: response_efforts(model.supported_reasoning_levels),
        default_reasoning_effort: model.default_reasoning_level,
        supports_images: model.input_modalities.contains("image"@),
        supports_tool_search: model.supports_search_tool,
    }
}

/// The models of the catalog that are listed.
pub open spec fn listed(models: Seq<CodexModelView>) -> Seq<ModelView>
    decreases models.len(),
{
    if models.len() == 0 {
        Seq::empty()
    } else if models.last().visibility == "list"@ {
        listed(models.drop_last()).push(catalog_model(models.last()))
    } else {
        listed(models.drop_last())
    }
}

/// A conversation is compacted at no more than nine tenths of the context window,
/// and at no more than the limit of the catalog.
pub proof fn compaction_comes_before_the_window_is_full(limit: Option<u64>, window: Option<u64>)
    ensures
        compact_threshold(limit, window) matches Some(threshold) ==> {
            &&& (window matches Some(window) ==> threshold <= window as nat * 9 / 10)
            &&& (limit matches Some(limit) ==> threshold <= limit)
        },
        compact_threshold(limit, window) is None <==> limit is None && window is None,
{
}

/// The models that come out of the catalog are those that it lists, and none of
/// them offers Ultra as the effort of a response.
pub proof fn hidden_models_and_ultra_are_not_exposed(models: Seq<CodexModelView>)
    ensures
        forall|i: int|
            0 <= i < listed(models).len() ==> {
                &&& !(#[trigger] listed(models)[i]).reasoning_efforts.contains("ultra"@)
                &&& exists|k: int|
                    0 <= k < models.len() && (#[trigger] models[k]).visibility == "list"@
                        && listed(models)[i] == catalog_model(models[k])
            },
        forall|k: int|
            0 <= k < models.len() && (#[trigger] models[k]).visibility == "list"@
                ==> listed(models).contains(catalog_model(models[k])),
    decreases models.len(),
{
    if models.len() > 0 {
        let earlier = models.drop_last();
        let out = listed(models);
        hidden_models_and_ultra_are_not_exposed(earlier);
        lemma_response_efforts(models.last().supported_reasoning_levels);
        assert forall|i: int| 0 <= i < out.len() implies {
            &&& !(#[trigger] out[i]).reasoning_efforts.contains("ultra"@)
            &&& exists|k: int|
                0 <= k < models.len() && (#[trigger] models[k]).visibility == "list"@ && out[i]
                    == catalog_model(models[k])
        } by {
            if i < listed(earlier).len() {
                assert(out[i] == listed(earlier)[i]);
                let k = choose|k: int|
                    0 <= k < earlier.len() && (#[trigger] earlier[k]).visibility == "list"@
                        && listed(earlier)[i] == catalog_model(earlier[k]);
                assert(models[k] == earlier[k]);
            } else {
                assert(models[models.len() - 1] == models.last());
            }
        }
        assert forall|k: int|
            0 <= k < models.len() && (#[trigger] models[k]).visibility
                == "list"@ implies out.contains(catalog_model(models[k])) by {
            if k < earlier.len() {
                assert(earlier[k] == models[k]);
                assert(listed(earlier).contains(catalog_model(earlier[k])));
                let i = choose|i: int|
                    0 <= i < listed(earlier).len() && listed(earlier)[i] == catalog_model(
                        earlier[k],
                    );
                assert(out[i] == catalog_model(models[k]));
            } else {
                assert(out[out.len() - 1] == catalog_model(models[k]));
            }
        }
    }
}

/// Ultra is not among the efforts of one response.
proof fn lemma_response_efforts(efforts: Seq<Seq<char>>)
    ensures
        !response_efforts(efforts).contains("ultra"@),
    decreases efforts.len(),
{
    if efforts.len() > 0 {
        lemma_response_efforts(efforts.drop_last());
    }
}

fn threshold_of(limit: Option<u64>, window: Option<u64>) -> (threshold: Option<u64>)
    ensures
        threshold == compact_threshold(limit, window),
{
    let most: Option<u64> = match window {
        Some(window) => {
            let tens: u64 = window / 10;
            let ones: u64 = window % 10;
            assert(window as nat * 9 / 10 == tens * 9 + ones * 9 / 10) by (nonlinear_arith)
                requires
                    tens == window / 10,
                    ones == window % 10,
            ;
            Some(tens * 9 + ones * 9 / 10)
        },
        None => None,
    };
    match (limit, most) {
        (Some(a), Some(b)) => Some(
            if a < b {
                a
            } else {
                b
            },
        ),
        (Some(a), None) => Some(a),
        (None, b) => b,
    }
}

fn efforts_of(efforts: &Vec<String>) -> (out: Vec<String>)
    ensures
        out.deep_view() == response_efforts(efforts.deep_view()),
{
    let ghost all = efforts.deep_view();
    let mut out: Vec<String> = Vec::new();
    assert(out.deep_view() =~= Seq::empty());
    assert(all.take(0) =~= Seq::empty());
    for i in 0..efforts.len()
        invariant
            all == efforts.deep_view(),
            out.deep_view() == response_efforts(all.take(i as int)),
    {
        let ghost so_far = all.take(i as int + 1);
        assert(so_far.drop_last() =~= all.take(i as int));
        assert(so_far.last() == efforts@[i as int]@);
        if !same(efforts[i].as_str(), "ultra") {
            let ghost before = out.deep_view();
            out.push(efforts[i].clone());
            assert(out.deep_view() =~= before.push(efforts@[i as int]@));
        }
    }
    assert(all.take(all.len() as int) =~= all);
    out
}

/// The models of the catalog of Codex that are listed.
pub fn codex_models(models: &Vec<CodexModel>) -> (out: Vec<ModelSpec>)
    ensures
        out.deep_view() == listed(models.deep_view()),
{
    let ghost all = models.deep_view();
    let mut out: Vec<ModelSpec> = Vec::new();
    assert(out.deep_view() =~= Seq::empty());
    assert(all.take(0) =~= Seq::empty());
    for i in 0..models.len()
        invariant
            all == models.deep_view(),
            out.deep_view() == listed(all.take(i as int)),
    {
        let ghost so_far = all.take(i as int + 1);
        assert(so_far.drop_last() =~= all.take(i as int));
        assert(so_far.last() == models@[i as int].deep_view());
        let model = &models[i];
        if same(model.visibility.as_str(), "list") {
            let ghost before = out.deep_view();
            out.push(
                ModelSpec {
                    id: model.slug.clone(),
                    display_name: model.display_name.clone(),
                    context_window: model.context_window,
                    compact_threshold: threshold_of(
                        model.auto_compact_token_limit,
                        model.context_window,
                    ),
                    reasoning_efforts: efforts_of(&model.supported_reasoning_levels),
                    default_reasoning_effort: clone_option(&model.default_reasoning_level),
                    supports_images: has_text(&model.input_modalities, "image"),
                    supports_tool_search: model.supports_search_tool,
                },
            );
            assert(out.deep_view() =~= before.push(catalog_model(model.deep_view())));
        }
    }
    assert(all.take(all.len() as int) =~= all);
    out
}

/// Whether a part of a model's name marks it as made for one purpose.
pub open spec fn is_special(part: Seq<char>) -> bool {
    part == "chat"@ || part == "pro"@ || part == "audio"@ || part == "realtime"@ || part
        == "search"@ || part == "cyber"@
}

/// Whether a version is 5.3 or later. A number that cannot be read is no version
/// where it is the first, and 0 where it is the second.
pub open spec fn is_recent(version: Seq<char>) -> bool {
    let numbers = pieces(version, '.');
    match number_u32(numbers[0]) {
        None => false,
        Some(major) => {
            let minor = if numbers.len() > 1 {
                match number_u32(numbers[1]) {
                    Some(minor) => minor,
                    None => 0,
                }
            } else {
                0
            };
            major > 5 || (major == 5 && minor >= 3)
        },
    }
}

/// Whether a model is a general GPT assistant from version 5.3 on.
pub open spec fn is_assistant(id: Seq<char>) -> bool {
    match after_prefix(id, "gpt-"@) {
        None => false,
        Some(rest) => {
            let parts = pieces(rest, '-');
            is_recent(parts[0]) && forall|i: int|
                0 <= i < parts.len() ==> !is_special(#[trigger] parts[i])
        },
    }
}

fn recent(version: &str) -> (yes: bool)
    ensures
        yes == is_recent(version@),
{
    let numbers = split(version, '.');
    proof {
        lemma_pieces_not_empty(version@, '.');
    }
    let ghost all = numbers.deep_view();
    assert(all.len() == numbers@.len());
    assert(all[0] == numbers@[0]@);
    let major: u32 = match parse_u32(numbers[0].as_str()) {
        Some(major) => major,
        None => return false,
    };
    let minor: u32 = if numbers.len() > 1 {
        assert(all[1] == numbers@[1]@);
        match parse_u32(numbers[1].as_str()) {
            Some(minor) => minor,
            None => 0,
        }
    } else {
        0
    };
    major > 5 || (major == 5 && minor >= 3)
}

/// Whether a model is a general GPT assistant from version 5.3 on.
pub fn assistant_model(id: &str) -> (yes: bool)
    ensures
        yes == is_assistant(id@),
{
    let rest = match strip_prefix(id, "gpt-") {
        Some(rest) => rest,
        None => return false,
    };
    let parts = split(rest.as_str(), '-');
    let ghost all = parts.deep_view();
    proof {
        lemma_pieces_not_empty(rest@, '-');
    }
    assert(all.len() == parts@.len());
    assert(all[0] == parts@[0]@);
    if !recent(parts[0].as_str()) {
        return false;
    }
    for i in 0..parts.len()
        invariant
            all == parts.deep_view(),
            all == pieces(rest@, '-'),
            after_prefix(id@, "gpt-"@) == Some(rest@),
            forall|k: int| 0 <= k < i ==> !is_special(#[trigger] all[k]),
    {
        assert(all[i as int] == parts@[i as int]@);
        let part = parts[i].as_str();
        if same(part, "chat") || same(part, "pro") || same(part, "audio") || same(part, "realtime")
            || same(part, "search") || same(part, "cyber") {
            return false;
        }
    }
    true
}

/// The assistants among some models.
pub open spec fn assistants(ids: Seq<Seq<char>>) -> Seq<Seq<char>>
    decreases ids.len(),
{
    if ids.len() == 0 {
        Seq::empty()
    } else if is_assistant(ids.last()) {
        assistants(ids.drop_last()).push(ids.last())
    } else {
        assistants(ids.drop_last())
    }
}

/// A model of which only the name is known.
pub open spec fn named_model(id: Seq<char>) -> ModelView {
    ModelView {
        id,
        display_name: id,
        context_window: None,
        compact_threshold: None,
        reasoning_efforts: Seq::empty(),
        default_reasoning_effort: None,
        supports_images: true,
        supports_tool_search: false,
    }
}

/// Models of which only the names are known.
pub open spec fn named_models(ids: Seq<Seq<char>>) -> Seq<ModelView> {
    Seq::new(ids.len(), |i: int| named_model(ids[i]))
}

/// The assistants among the models of an account, in order, each once.
pub fn api_models(ids: &Vec<String>) -> (models: Vec<ModelSpec>)
    ensures
        models.deep_view() == named_models(sorted_texts(assistants(ids.deep_view()))),
{
    let ghost all = ids.deep_view();
    let mut kept: Vec<String> = Vec::new();
    assert(kept.deep_view() =~= Seq::empty());
    assert(all.take(0) =~= Seq::empty());
    for i in 0..ids.len()
        invariant
            all == ids.deep_view(),
            kept.deep_view() == assistants(all.take(i as int)),
    {
        let ghost so_far = all.take(i as int + 1);
        assert(so_far.drop_last() =~= all.take(i as int));
        assert(so_far.last() == ids@[i as int]@);
        if assistant_model(ids[i].as_str()) {
            let ghost before = kept.deep_view();
            kept.push(ids[i].clone());
            assert(kept.deep_view() =~= before.push(ids@[i as int]@));
        }
    }
    assert(all.take(all.len() as int) =~= all);
    let sorted = sort_texts(&kept);
    let mut models: Vec<ModelSpec> = Vec::new();
    for i in 0..sorted.len()
        invariant
            models@.len() == i,
            forall|k: int|
                0 <= k < i ==> (#[trigger] models@[k]).deep_view() == named_model(sorted@[k]@),
    {
        let none: Vec<String> = Vec::new();
        assert(none.deep_view() =~= Seq::empty());
        models.push(
            ModelSpec {
                display_name: sorted[i].clone(),
                id: sorted[i].clone(),
                context_window: None,
                compact_threshold: None,
                reasoning_efforts: none,
                default_reasoning_effort: None,
                supports_images: true,
                supports_tool_search: false,
            },
        );
    }
    assert(models.deep_view() =~= named_models(sorted.deep_view()));
    models
}

/// Where the models of an account are listed.
pub open spec fn models_address(context: ContextView) -> Result<Seq<char>, ErrorView> {
    if context.provider != Provider::Codex && context.provider != Provider::Openai {
        Err(
            ErrorView::UnsupportedCapability(
                provider_name(context.provider),
                "model discovery"@,
            ),
        )
    } else {
        match context_fault(context) {
            Some(error) => Err(error),
            None => if context.provider == Provider::Codex {
                endpoint(
                    "https://chatgpt.com/backend-api/codex"@,
                    "models"@,
                    put_if_absent(context.query, "client_version"@, "0.153.4"@),
                )
            } else {
                endpoint(
                    match context.base_url {
                        Some(url) => url,
                        None => "https://api.openai.com/v1"@,
                    },
                    "models"@,
                    context.query,
                )
            },
        }
    }
}

/// Where the models of an account are listed.
pub fn discovery_url(context: &RequestContext) -> (url: Result<String, Error>)
    ensures
        outcome(url) == models_address(context.deep_view()),
{
    if context.provider != Provider::Codex && context.provider != Provider::Openai {
        return Err(
            Error::UnsupportedCapability(owned(context.provider.as_str()), "model discovery"),
        );
    }
    match validate_request_context(context) {
        Ok(()) => {},
        Err(error) => return Err(error),
    }
    if context.provider == Provider::Codex {
        let mut query = context.query.clone();
        query.insert_if_absent("client_version", "0.153.4");
        endpoint_url("https://chatgpt.com/backend-api/codex", "models", &query)
    } else {
        match &context.base_url {
            Some(url) => endpoint_url(url.as_str(), "models", &context.query),
            None => endpoint_url("https://api.openai.com/v1", "models", &context.query),
        }
    }
}

/// Texts under names, as JSON.
pub open spec fn map_json(entries: Seq<(Seq<char>, Seq<char>)>) -> ObjectView
    decreases entries.len(),
{
    if entries.len() == 0 {
        no_members()
    } else {
        with(map_json(entries.drop_last()), entries.last().0, text_json(entries.last().1))
    }
}

/// The context of a request, as JSON.
pub open spec fn context_json(context: ContextView) -> ObjectView {
    let object = with(no_members(), "provider"@, text_json(provider_name(context.provider)));
    let object = with(object, "apiKey"@, text_json(context.api_key));
    let object = match context.base_url {
        Some(url) => with(object, "baseUrl"@, text_json(url)),
        None => object,
    };
    let object = if context.headers.len() > 0 {
        with(object, "headers"@, JsonView::Object(map_json(context.headers)))
    } else {
        object
    };
    if context.query.len() > 0 {
        with(object, "query"@, JsonView::Object(map_json(context.query)))
    } else {
        object
    }
}

/// What the models of an account are kept under: a digest of the whole context,
/// its credentials among it.
pub open spec fn catalog_key(context: ContextView) -> Seq<u8> {
    sha256(encode_utf8(json_text(JsonView::Object(context_json(context)))))
}

fn map_object(map: &StringMap) -> (object: JsonObject)
    ensures
        object@ == map_json(map.deep_view()),
{
    let ghost all = map.deep_view();
    let length: usize = map.len();
    let mut object = JsonObject::new();
    assert(all.take(0) =~= Seq::empty());
    for i in 0..length
        invariant
            length == all.len(),
            all == map.deep_view(),
            object@ == map_json(all.take(i as int)),
    {
        let ghost so_far = all.take(i as int + 1);
        assert(so_far.drop_last() =~= all.take(i as int));
        assert(so_far.last() == all[i as int]);
        object.insert(map.key(i), Json::text(map.value(i)));
    }
    assert(all.take(all.len() as int) =~= all);
    object
}

/// What the models of an account are kept under.
pub fn cache_key(context: &RequestContext) -> (key: Vec<u8>)
    ensures
        key@ == catalog_key(context.deep_view()),
{
    let mut object = JsonObject::new().with_text("provider", context.provider.as_str()).with_text(
        "apiKey",
        context.api_key.as_str(),
    );
    match &context.base_url {
        Some(url) => object.insert("baseUrl", Json::text(url.as_str())),
        None => {},
    }
    if !context.headers.is_empty() {
        object.insert("headers", Json::object(map_object(&context.headers)));
    }
    if !context.query.is_empty() {
        object.insert("query", Json::object(map_object(&context.query)));
    }
    let text = json_text_of(&Json::object(object));
    sha256_of(utf8_bytes(text.as_str()).as_slice())
}

/// Whether what is kept of an account stays: as long as it is in use, is being
/// filled, or was filled less than five minutes ago.
pub fn keeps_entry(in_use: bool, locked: bool, age: Option<u64>) -> (keeps: bool)
    ensures
        keeps == (in_use || locked || (age matches Some(age) && age < 300)),
{
    in_use || locked || match age {
        Some(age) => age < DISCOVERY_TTL,
        None => false,
    }
}

/// The models that were found for an account: there has to be one.
pub fn discovered_models(provider: Provider, models: Vec<ModelSpec>) -> (found: Result<
    Vec<ModelSpec>,
    Error,
>)
    ensures
        outcome(found) == if models@.len() == 0 {
            Err(
                ErrorView::State(
                    provider_name(provider) + " discovery returned no assistant models"@,
                ),
            )
        } else {
            Ok(models.deep_view())
        },
{
    if models.len() == 0 {
        return Err(
            Error::State(cat(provider.as_str(), " discovery returned no assistant models")),
        );
    }
    Ok(models)
}

/// The first model with a name.
pub open spec fn model_named(models: Seq<ModelView>, id: Seq<char>) -> Option<ModelView>
    decreases models.len(),
{
    if models.len() == 0 {
        None
    } else if models[0].id == id {
        Some(models[0])
    } else {
        model_named(models.drop_first(), id)
    }
}

/// The model of a request: the one that it names; else the configured one, or the
/// first where that is not offered.
pub open spec fn chosen_model(
    models: Seq<ModelView>,
    wanted: Option<Seq<char>>,
    configured: Seq<char>,
) -> Option<ModelView> {
    match wanted {
        Some(id) => model_named(models, id),
        None => match model_named(models, configured) {
            Some(model) => Some(model),
            None => if models.len() > 0 {
                Some(models[0])
            } else {
                None
            },
        },
    }
}

/// The protocol of a request: the one that it chooses; else the light one where
/// it compacts by requests of its own, and the standard one where it does not.
pub open spec fn chosen_protocol(request: RequestView) -> CodexProtocol {
    match (request.codex_protocol, request.context_management) {
        (Some(protocol), _) => protocol,
        (None, Some(ContextManagement::RemoteV2 { .. })) => CodexProtocol::ResponsesLite,
        _ => CodexProtocol::ResponsesStandard,
    }
}

/// How a request compacts: as it chooses, at the model's threshold where it names
/// none; in the standard form by the server where it chooses nothing.
pub open spec fn chosen_management(request: RequestView, threshold: Option<u64>) -> Option<
    ContextManagement,
> {
    match request.context_management {
        Some(
            ContextManagement::RemoteV2 {
                previous_usage,
                previous_usage_input_item_count,
                auto_compact_token_limit: None,
                retained_message_token_budget,
            },
        ) => Some(
            ContextManagement::RemoteV2 {
                previous_usage,
                previous_usage_input_item_count,
                auto_compact_token_limit: threshold,
                retained_message_token_budget,
            },
        ),
        Some(management) => Some(management),
        None => match (chosen_protocol(request), threshold) {
            (CodexProtocol::ResponsesStandard, Some(compact_threshold)) => Some(
                ContextManagement::Server { compact_threshold },
            ),
            _ => None,
        },
    }
}

/// A request with what it leaves open filled in from the models that its account
/// can use.
pub open spec fn with_defaults(
    request: RequestView,
    models: Seq<ModelView>,
    configured: Seq<char>,
) -> Result<RequestView, ErrorView> {
    match chosen_model(models, request.model, configured) {
        None => Err(
            ErrorView::UnsupportedModel {
                provider: "codex"@,
                model: or_empty(request.model),
            },
        ),
        Some(model) => if request.reasoning_effort matches Some(effort)
            && !model.reasoning_efforts.contains(effort) {
            Err(
                ErrorView::State(
                    "model "@ + model.id + " does not support reasoning effort "@
                        + request.reasoning_effort->0,
                ),
            )
        } else {
            Ok(
                RequestView {
                    model: Some(model.id),
                    reasoning_effort: match request.reasoning_effort {
                        Some(effort) => Some(effort),
                        None => model.default_reasoning_effort,
                    },
                    codex_protocol: Some(chosen_protocol(request)),
                    context_management: chosen_management(request, model.compact_threshold),
                    ..request
                },
            )
        },
    }
}

/// What a request for Codex becomes once the models of its account are known.
pub open spec fn prepared(
    request: RequestView,
    models: Seq<ModelView>,
    registry: RegistryView,
) -> Result<RequestView, ErrorView> {
    match spec_of(registry, Provider::Codex) {
        None => Err(ErrorView::UnknownProvider(provider_name(Provider::Codex))),
        Some(spec) => with_defaults(request, models, spec.default_model),
    }
}

/// What a request chooses itself is not changed: its model, its effort, its
/// protocol and its way to compact.
pub proof fn explicit_choices_take_precedence(
    request: RequestView,
    models: Seq<ModelView>,
    registry: RegistryView,
)
    ensures
        prepared(request, models, registry) matches Ok(out) ==> {
            &&& request.model is Some ==> out.model == request.model
            &&& request.reasoning_effort is Some ==> out.reasoning_effort
                == request.reasoning_effort
            &&& request.codex_protocol is Some ==> out.codex_protocol == request.codex_protocol
            &&& request.context_management matches Some(ContextManagement::Server { .. })
                ==> out.context_management == request.context_management
            &&& request.context_management matches Some(
                ContextManagement::RemoteV2 { auto_compact_token_limit: Some(_), .. },
            ) ==> out.context_management == request.context_management
            &&& out.input == request.input && out.context == request.context && out.tools
                == request.tools && out.instructions == request.instructions
        },
{
    if let Some(spec) = spec_of(registry, Provider::Codex) {
        if let Some(id) = request.model {
            lemma_model_named(models, id);
        }
    }
}

proof fn lemma_model_named(models: Seq<ModelView>, id: Seq<char>)
    ensures
        model_named(models, id) matches Some(model) ==> model.id == id,
    decreases models.len(),
{
    if models.len() > 0 {
        lemma_model_named(models.drop_first(), id);
    }
}

/// A request that leaves its protocol and its compaction open goes out in the
/// standard form, compacted by the server at the model's threshold where it has
/// one.
pub proof fn standard_with_server_compaction_is_the_default(
    request: RequestView,
    models: Seq<ModelView>,
    registry: RegistryView,
)
    requires
        request.codex_protocol is None,
        request.context_management is None,
        spec_of(registry, Provider::Codex) is Some,
    ensures
        prepared(request, models, registry) matches Ok(out) ==> {
            &&& out.codex_protocol == Some(CodexProtocol::ResponsesStandard)
            &&& out.context_management == match chosen_model(
                models,
                request.model,
                spec_of(registry, Provider::Codex)->0.default_model,
            )->0.compact_threshold {
                Some(compact_threshold) => Some(ContextManagement::Server { compact_threshold }),
                None => None,
            }
        },
{
}

fn find_model(models: &Vec<ModelSpec>, id: &str) -> (at: Option<usize>)
    ensures
        match at {
            Some(at) => at < models@.len() && model_named(models.deep_view(), id@) == Some(
                models@[at as int].deep_view(),
            ),
            None => model_named(models.deep_view(), id@) is None,
        },
{
    let ghost all = models.deep_view();
    assert(all.skip(0) =~= all);
    for i in 0..models.len()
        invariant
            all == models.deep_view(),
            model_named(all, id@) == model_named(all.skip(i as int), id@),
    {
        let ghost rest = all.skip(i as int);
        assert(rest[0] == models@[i as int].deep_view());
        assert(rest.drop_first() =~= all.skip(i as int + 1));
        if same(models[i].id.as_str(), id) {
            return Some(i);
        }
    }
    None
}

/// Fills in what a request for Codex leaves open.
pub fn apply_model_defaults(
    request: ResponseRequest,
    models: &Vec<ModelSpec>,
    registry: &ProviderRegistry,
) -> (out: Result<ResponseRequest, Error>)
    ensures
        outcome(out) == prepared(request.deep_view(), models.deep_view(), registry.deep_view()),
{
    let ghost asked = request.deep_view();
    let configured = match registry.get(&Provider::Codex) {
        Ok(spec) => spec.default_model.clone(),
        Err(error) => return Err(error),
    };
    let at: Option<usize> = match &request.model {
        Some(id) => find_model(models, id.as_str()),
        None => match find_model(models, configured.as_str()) {
            Some(at) => Some(at),
            None => if models.len() > 0 {
                Some(0)
            } else {
                None
            },
        },
    };
    let model = match at {
        Some(at) => {
            assert(models.deep_view()[at as int] == models@[at as int].deep_view());
            &models[at]
        },
        None => {
            let wanted = match &request.model {
                Some(id) => id.clone(),
                None => {
                    let none = String::new();
                    assert(none@ =~= Seq::empty());
                    none
                },
            };
            return Err(Error::UnsupportedModel { provider: owned("codex"), model: wanted });
        },
    };
    assert(chosen_model(models.deep_view(), asked.model, configured@) == Some(model.deep_view()));
    let mut request = request;
    let effort = match &request.reasoning_effort {
        Some(effort) => {
            if !has_text(&model.reasoning_efforts, effort.as_str()) {
                let start = cat3(
                    "model ",
                    model.id.as_str(),
                    " does not support reasoning effort ",
                );
                return Err(Error::State(cat(start.as_str(), effort.as_str())));
            }
            Some(effort.clone())
        },
        None => clone_option(&model.default_reasoning_effort),
    };
    let protocol = match (request.codex_protocol, request.context_management) {
        (Some(protocol), _) => protocol,
        (None, Some(ContextManagement::RemoteV2 { .. })) => CodexProtocol::ResponsesLite,
        _ => CodexProtocol::ResponsesStandard,
    };
    let management = match request.context_management {
        Some(
            ContextManagement::RemoteV2 {
                previous_usage,
                previous_usage_input_item_count,
                auto_compact_token_limit,
                retained_message_token_budget,
            },
        ) => Some(
            ContextManagement::RemoteV2 {
                previous_usage,
                previous_usage_input_item_count,
                auto_compact_token_limit: match auto_compact_token_limit {
                    Some(limit) => Some(limit),
                    None => model.compact_threshold,
                },
                retained_message_token_budget,
            },
        ),
        Some(ContextManagement::Server { compact_threshold }) => Some(
            ContextManagement::Server { compact_threshold },
        ),
        None => match (protocol, model.compact_threshold) {
            (CodexProtocol::ResponsesStandard, Some(compact_threshold)) => Some(
                ContextManagement::Server { compact_threshold },
            ),
            _ => None,
        },
    };
    request.model = Some(model.id.clone());
    request.reasoning_effort = effort;
    request.codex_protocol = Some(protocol);
    request.context_management = management;
    Ok(request)
}

/// Whether the models of its account have to be known before a request goes out.
pub fn needs_models(request: &ResponseRequest) -> (yes: bool)
    ensures
        yes == (request.deep_view().context.provider == Provider::Codex),
{
    request.context.provider == Provider::Codex
}

/// Makes a request ready to go out: one for Codex gets what it leaves open, any
/// other stays as it is.
pub fn prepare_response_request(
    request: ResponseRequest,
    models: &Vec<ModelSpec>,
    registry: &ProviderRegistry,
) -> (out: Result<ResponseRequest, Error>)
    ensures
        outcome(out) == if request.deep_view().context.provider == Provider::Codex {
            prepared(request.deep_view(), models.deep_view(), registry.deep_view())
        } else {
            Ok(request.deep_view())
        },
{
    if !needs_models(&request) {
        return Ok(request);
    }
    apply_model_defaults(request, models, registry)
}

} // verus!
