//! What holds of the beginning of a response and of the size of its conversation.
use vstd::prelude::*;
#[allow(unused_imports)]
use vstd::utf8::encode_utf8;

#[allow(unused_imports)]
use crate::bedrock::{round_output, BedrockRoundView};
#[allow(unused_imports)]
use crate::error::{error_text, ErrorView};
#[allow(unused_imports)]
use crate::json::{JsonView, NumberView, ObjectView};
#[allow(unused_imports)]
use crate::machine::{
    bedrock_taken, begun, conversation_tokens, features_with_compaction, finished, in_order,
    not_empty, placed_all, request_headers, started, uses_lite, uses_standard, MachineView,
    RoundKind,
};
#[allow(unused_imports)]
use crate::ordered::{
    find, found_after_put, key_named, same_name, sorted_texts, sorted_texts_are_the_texts_in_order,
};
#[allow(unused_imports)]
use crate::properties::lemma_key_named;
#[allow(unused_imports)]
use crate::providers::{each_trimmed, spec_of, ContextView, Provider, RegistryView, SpecView};
#[allow(unused_imports)]
use crate::response::{
    context_fault, is_compaction, ActionView, CodexProtocol, ContextManagement, RequestView,
};
#[allow(unused_imports)]
use crate::text::{begins_with, debug_text, decimal, joined, pieces, trimmed, without_trailing};
#[allow(unused_imports)]
use crate::tokens::{
    capped, input_tokens, is_retainable, item_tokens, list_tokens, object_tokens, retainable,
    retainable_from, retained, retention_cost, retention_costs, value_tokens,
};

verus! {

/// A text is a token for each four bytes, begun or full, and at least one; a text
/// under a name that counts nothing is none; any other value that holds no others
/// is one.
pub proof fn four_bytes_are_a_token(text: Seq<char>, b: bool, n: NumberView)
    ensures
        ({
            let bytes = encode_utf8(text).len();
            let tokens = value_tokens(JsonView::Text(text), false);
            &&& tokens >= 1
            &&& bytes <= 4 * tokens
            &&& bytes > 0 ==> 4 * (tokens - 1) < bytes
            &&& bytes == 0 ==> tokens == 1
        }),
        value_tokens(JsonView::Text(text), true) == 0,
        value_tokens(JsonView::Bool(b), false) == 1,
        value_tokens(JsonView::Number(n), false) == 1,
        value_tokens(JsonView::Null, false) == 1,
{
}

proof fn lemma_list_before(list: Seq<JsonView>, more: JsonView, n: nat, weightless: bool)
    requires
        n <= list.len(),
    ensures
        list_tokens(list.push(more), n, weightless) == list_tokens(list, n, weightless),
    decreases n,
{
    if n > 0 {
        lemma_list_before(list, more, (n - 1) as nat, weightless);
        assert(list.push(more)[n - 1] == list[n - 1]);
    }
}

proof fn lemma_object_before(object: ObjectView, more: (Seq<char>, JsonView), n: nat)
    requires
        n <= object.len(),
    ensures
        object_tokens(object.push(more), n) == object_tokens(object, n),
    decreases n,
{
    if n > 0 {
        lemma_object_before(object, more, (n - 1) as nat);
        assert(object.push(more)[n - 1] == object[n - 1]);
    }
}

/// The tokens of a list and of an object are those of what they hold, together.
/// What is encrypted, the address of an image and an id count nothing.
pub proof fn tokens_add_up(
    list: Seq<JsonView>,
    object: ObjectView,
    key: Seq<char>,
    value: JsonView,
    weightless: bool,
)
    ensures
        value_tokens(JsonView::List(Seq::empty()), weightless) == 0,
        value_tokens(JsonView::List(list.push(value)), weightless) == value_tokens(
            JsonView::List(list),
            weightless,
        ) + value_tokens(value, weightless),
        item_tokens(Seq::empty()) == 0,
        item_tokens(object.push((key, value))) == item_tokens(object) + value_tokens(
            value,
            key == "encrypted_content"@ || key == "image_url"@ || key == "id"@,
        ),
        input_tokens(Seq::empty()) == 0,
{
    let longer = list.push(value);
    lemma_list_before(list, value, list.len(), weightless);
    assert(longer[list.len() as int] == value);
    let wider = object.push((key, value));
    lemma_object_before(object, (key, value), object.len());
    assert(wider[object.len() as int] == (key, value));
}

/// The tokens of a conversation are those of its items, together.
pub proof fn tokens_of_items_add_up(items: Seq<ObjectView>, item: ObjectView)
    ensures
        input_tokens(items.push(item)) == input_tokens(items) + item_tokens(item),
{
    assert(items.push(item).drop_last() =~= items);
}

/// The messages of the user, the developer and the system are kept in a compaction,
/// as far as they fit; what the assistant and the tools say is not.
pub proof fn messages_of_the_user_are_kept(item: ObjectView, role: Seq<char>)
    requires
        find(item, "role"@) == Some(JsonView::Text(role)),
    ensures
        find(item, "type"@) == Some(JsonView::Text("message"@)) ==> (is_retainable(item) <==> role
            == "user"@ || role == "developer"@ || role == "system"@),
        find(item, "type"@) != Some(JsonView::Text("message"@)) ==> !is_retainable(item),
{
}

/// As many of the newest messages are kept as fit: wherever one begins, if the
/// messages from there on fit into the budget, no fewer are kept.
pub proof fn as_many_messages_are_kept_as_fit(items: Seq<ObjectView>, budget: nat, from: int)
    requires
        0 <= from <= items.len(),
        retention_costs(retainable_from(items, from)) <= budget,
    ensures
        retained(items, budget).len() >= retainable_from(items, from).len(),
    decreases items.len(),
{
    if from < items.len() {
        let item = items.last();
        let earlier = items.drop_last();
        assert(items.skip(from).drop_last() =~= earlier.skip(from));
        assert(items.skip(from).last() == item);
        let before = retainable_from(earlier, from);
        if !is_retainable(item) {
            as_many_messages_are_kept_as_fit(earlier, budget, from);
        } else {
            let all = retainable_from(items, from);
            assert(all == before.push(item));
            assert(all.drop_last() =~= before);
            assert(retention_costs(all) == retention_costs(before) + retention_cost(item));
            if retention_cost(item) == budget {
                lemma_costs(before);
            } else {
                as_many_messages_are_kept_as_fit(
                    earlier,
                    (budget - retention_cost(item)) as nat,
                    from,
                );
            }
        }
    } else {
        assert(items.skip(from) =~= Seq::empty());
    }
}

proof fn lemma_costs(items: Seq<ObjectView>)
    ensures
        retention_costs(items) >= items.len(),
    decreases items.len(),
{
    if items.len() > 0 {
        lemma_costs(items.drop_last());
    }
}

/// Where all messages fit, all are kept, in order.
pub proof fn all_messages_are_kept_where_they_fit(items: Seq<ObjectView>, budget: nat)
    requires
        retention_costs(retainable(items)) <= budget,
    ensures
        retained(items, budget) == retainable(items),
    decreases items.len(),
{
    if items.len() > 0 {
        let item = items.last();
        let earlier = items.drop_last();
        let before = retainable(earlier);
        if !is_retainable(item) {
            all_messages_are_kept_where_they_fit(earlier, budget);
        } else {
            assert(retainable(items).drop_last() =~= before);
            if retention_cost(item) == budget {
                lemma_costs(before);
                assert(retained(items, budget) =~= retainable(items));
            } else {
                all_messages_are_kept_where_they_fit(
                    earlier,
                    (budget - retention_cost(item)) as nat,
                );
            }
        }
    }
}

/// A round compacts the conversation where the light form was asked to, and the
/// conversation is as large as the limit or larger: 244800 tokens where no other
/// limit was given. Any other round asks for a response.
pub proof fn a_round_compacts_from_the_limit_on(machine: MachineView)
    requires
        !machine.completed,
        machine.round_items.len() == 0,
    ensures
        ({
            let (after, done) = begun(machine);
            &&& done is Ok
            &&& !after.round_completed
            &&& after.round_usage is None && after.round_response_id is None
                && after.round_server_compaction_index is None
            &&& after.running_input == machine.running_input
            &&& after.round_kind == RoundKind::Compaction <==> uses_lite(machine)
                && match machine.request.context_management {
                Some(ContextManagement::RemoteV2 { auto_compact_token_limit: Some(limit), .. }) =>
                    conversation_tokens(machine) >= limit,
                Some(ContextManagement::RemoteV2 { auto_compact_token_limit: None, .. }) =>
                    conversation_tokens(machine) >= 244_800,
                _ => false,
            }
        }),
{
}

/// A compacting round leaves of the conversation the newest messages that fit into
/// the budget, 64000 tokens where no other was given, and the compacted conversation
/// behind them.
pub proof fn a_compacting_round_keeps_the_newest_messages(machine: MachineView, item: ObjectView)
    requires
        !machine.completed,
        machine.round_completed,
        machine.round_kind == RoundKind::Compaction,
        in_order(machine.round_items) == seq![item],
    ensures
        ({
            let budget: nat = match machine.request.context_management {
                Some(
                    ContextManagement::RemoteV2 {
                        retained_message_token_budget: Some(budget),
                        ..
                    },
                ) => budget as nat,
                _ => 64_000,
            };
            let (after, next) = finished(machine);
            if is_compaction(item) {
                &&& next matches Ok(ActionView::Compacted { items, usage })
                &&& items == retained(machine.running_input, budget).push(item)
                &&& usage == machine.round_usage
                &&& after.running_input == items
                &&& after.history_replaced
                &&& after.round_items.len() == 0
                &&& !after.completed
            } else {
                next is Err && after.running_input == machine.running_input
            }
        }),
{
}

proof fn lemma_not_empty_contains(texts: Seq<Seq<char>>, text: Seq<char>)
    ensures
        not_empty(texts).contains(text) <==> texts.contains(text) && text.len() > 0,
    decreases texts.len(),
{
    if texts.len() > 0 {
        let earlier = texts.drop_last();
        lemma_not_empty_contains(earlier, text);
        let kept = not_empty(earlier);
        let pushed = kept.push(texts.last());
        assert(texts.contains(text) <==> earlier.contains(text) || texts.last() == text) by {
            if texts.contains(text) {
                let i = choose|i: int| 0 <= i < texts.len() && texts[i] == text;
                if i < earlier.len() {
                    assert(earlier[i] == text);
                }
            }
            if earlier.contains(text) {
                let i = choose|i: int| 0 <= i < earlier.len() && earlier[i] == text;
                assert(texts[i] == text);
            }
            assert(texts[texts.len() - 1] == texts.last());
        }
        assert(pushed.contains(text) <==> kept.contains(text) || texts.last() == text) by {
            if pushed.contains(text) {
                let i = choose|i: int| 0 <= i < pushed.len() && pushed[i] == text;
                if i < kept.len() {
                    assert(kept[i] == text);
                }
            }
            if kept.contains(text) {
                let i = choose|i: int| 0 <= i < kept.len() && kept[i] == text;
                assert(pushed[i] == text);
            }
            assert(pushed[kept.len() as int] == texts.last());
        }
    }
}

/// The features that a compacting round asks for are those of its caller, and the
/// one that compacts.
pub proof fn compaction_is_added_to_the_features(features: Seq<char>)
    ensures
        exists|names: Seq<Seq<char>>| #[trigger]
            joined(names, ","@) == features_with_compaction(features) && names.contains(
                "remote_compaction_v2"@,
            ) && (forall|name: Seq<char>|
                name != "remote_compaction_v2"@ ==> (#[trigger] names.contains(name) <==> name.len()
                    > 0 && each_trimmed(pieces(features, ',')).contains(name))),
{
    let own = not_empty(each_trimmed(pieces(features, ',')));
    let asked = own.push("remote_compaction_v2"@);
    let names = sorted_texts(asked);
    sorted_texts_are_the_texts_in_order(asked);
    assert(asked[own.len() as int] == "remote_compaction_v2"@);
    assert forall|name: Seq<char>| name != "remote_compaction_v2"@ implies (
    #[trigger] names.contains(name) <==> name.len() > 0 && each_trimmed(
        pieces(features, ','),
    ).contains(name)) by {
        lemma_not_empty_contains(each_trimmed(pieces(features, ',')), name);
        if asked.contains(name) {
            let i = choose|i: int| 0 <= i < asked.len() && asked[i] == name;
            assert(own[i] == name);
        }
        if own.contains(name) {
            let i = choose|i: int| 0 <= i < own.len() && own[i] == name;
            assert(asked[i] == name);
        }
    }
    assert(joined(names, ","@) == features_with_compaction(features));
}

/// A compacting round asks for its feature.
pub proof fn a_compacting_round_asks_for_its_feature(machine: MachineView)
    requires
        machine.round_kind == RoundKind::Compaction,
    ensures
        exists|name: Seq<char>, features: Seq<char>|
            same_name(name, "x-codex-beta-features"@) && #[trigger] find(
                request_headers(machine),
                name,
            ) == Some(#[trigger] features_with_compaction(features)),
{
    broadcast use found_after_put;

    let plain = request_headers(MachineView { round_kind: RoundKind::Response, ..machine });
    lemma_key_named(plain, "x-codex-beta-features"@);
    let (name, features) = match key_named(plain, "x-codex-beta-features"@) {
        Some(name) => (name, crate::json::or_empty(find(plain, name))),
        None => ("x-codex-beta-features"@, Seq::empty()),
    };
    assert(find(request_headers(machine), name) == Some(features_with_compaction(features)));
}

/// A response begins with the conversation of its request, at the model that it
/// names or else the default of its provider, and at its own address or else its
/// provider's.
pub proof fn a_response_begins_with_its_request(registry: RegistryView, request: RequestView)
    ensures
        started(registry, request) matches Ok(machine) ==> {
            &&& spec_of(registry, request.context.provider) matches Some(spec)
            &&& machine.request == request
            &&& machine.running_input == request.input
            &&& machine.model == match request.model {
                Some(model) => model,
                None => spec.default_model,
            }
            &&& request.context.provider != Provider::Bedrock ==> Some(machine.base_url)
                == match request.context.base_url {
                Some(url) => Some(url),
                None => spec.base_url,
            }
            &&& machine.accumulated_items.len() == 0 && machine.response_items.len() == 0
            &&& !machine.history_replaced && !machine.completed && machine.tool_roundtrips == 0
            &&& context_fault(request.context) is None
            &&& spec.available_models.contains(machine.model) || (request.context.provider
                == Provider::Codex && request.codex_protocol is Some)
            &&& request.tools.len() > 0 ==> spec.capabilities.supports_tools
            &&& request.text_format is Some ==> spec.capabilities.supports_structured_output
            &&& request.codex_protocol is Some ==> request.context.provider == Provider::Codex
        },
        spec_of(registry, request.context.provider) is None ==> started(registry, request) is Err,
{
}

/// A plain request for a model that is offered is begun.
pub proof fn a_plain_request_is_begun(registry: RegistryView, request: RequestView, spec: SpecView)
    requires
        spec_of(registry, request.context.provider) == Some(spec),
        request.context.provider != Provider::Codex,
        request.context.provider != Provider::Bedrock,
        request.model matches Some(model) && spec.available_models.contains(model),
        request.tools.len() > 0 ==> spec.capabilities.supports_tools,
        request.text_format is Some ==> spec.capabilities.supports_structured_output,
        request.codex_protocol is None,
        request.context_management is None,
        request.context.base_url is Some || spec.base_url is Some,
    ensures
        started(registry, request) is Ok,
{
}

/// Codex takes a request with a token and an account, and at its own address alone;
/// Bedrock takes one with a key; the other providers take any.
pub proof fn a_context_is_fit_for_its_provider(context: ContextView)
    ensures
        context.provider == Provider::Codex ==> (context_fault(context) is None <==> {
            &&& trimmed(context.api_key).len() > 0
            &&& find(context.headers, "ChatGPT-Account-ID"@) matches Some(account) && trimmed(
                account,
            ).len() > 0
            &&& context.base_url matches Some(url) ==> without_trailing(url, '/')
                == "https://chatgpt.com/backend-api/codex"@
        }),
        context.provider == Provider::Bedrock ==> (context_fault(context) is None <==> (find(
            context.headers,
            "x-bedrock-access-key"@,
        ) matches Some(key) && key.len() > 0)),
        context.provider != Provider::Codex && context.provider != Provider::Bedrock
            ==> context_fault(context) is None,
{
}

/// Codex is spoken to in the form that was chosen; where none was, in the light one
/// for the models `gpt-5.6-`, and otherwise as any other provider.
pub proof fn codex_is_spoken_to_in_the_chosen_form(machine: MachineView)
    ensures
        machine.request.context.provider != Provider::Codex ==> !uses_lite(machine)
            && !uses_standard(machine),
        machine.request.context.provider == Provider::Codex ==> match machine.request.codex_protocol {
            Some(CodexProtocol::ResponsesLite) => uses_lite(machine) && !uses_standard(machine),
            Some(CodexProtocol::ResponsesStandard) => uses_standard(machine) && !uses_lite(machine),
            None => !uses_standard(machine) && (uses_lite(machine) <==> begins_with(
                machine.model,
                "gpt-5.6-"@,
            )),
        },
{
}

proof fn lemma_placed_all(more: Seq<ObjectView>)
    requires
        more.len() <= usize::MAX,
    ensures
        placed_all(Seq::empty(), more).len() == more.len(),
        forall|i: int|
            0 <= i < more.len() ==> #[trigger] placed_all(Seq::empty(), more)[i] == (
                i as usize,
                more[i],
            ),
    decreases more.len(),
{
    if more.len() > 0 {
        lemma_placed_all(more.drop_last());
        let before = placed_all(Seq::empty(), more.drop_last());
        let after = placed_all(Seq::empty(), more);
        let n = more.len() - 1;
        assert(n > 0 ==> before.last() == ((n - 1) as usize, more[n - 1]));
        assert(after =~= before.push((n as usize, more.last())));
        assert forall|i: int| 0 <= i < more.len() implies #[trigger] after[i] == (
            i as usize,
            more[i],
        ) by {
            if i < n {
                assert(after[i] == before[i]);
            }
        }
    }
}

/// What came in of a round with Bedrock are the items of that round, in order.
pub proof fn a_round_with_bedrock_brings_its_items(machine: MachineView, round: BedrockRoundView)
    requires
        machine.round_items.len() == 0,
        round_output(round).len() <= usize::MAX,
    ensures
        in_order(bedrock_taken(machine, round).round_items) == round_output(round),
        bedrock_taken(machine, round).round_completed,
        bedrock_taken(machine, round).running_input == machine.running_input,
{
    assert(machine.round_items =~= Seq::empty());
    lemma_placed_all(round_output(round));
    assert(in_order(bedrock_taken(machine, round).round_items) =~= round_output(round));
}

/// An error tells its reader what kind it is and what it says.
pub proof fn an_error_tells_what_it_is(a: Seq<char>, b: Seq<char>, status: u16)
    ensures
        error_text(ErrorView::Cancelled) == "response cancelled"@,
        error_text(ErrorView::UnknownProvider(a)) == "unknown provider: "@ + a,
        error_text(ErrorView::MissingBaseUrl(a)) == "provider "@ + a
            + " has no OpenAI-compatible base URL"@,
        error_text(ErrorView::UnsupportedModel { provider: a, model: b }) == "model "@ + debug_text(
            b,
        ) + " is not available for provider "@ + debug_text(a),
        error_text(ErrorView::UnsupportedCapability(a, b)) == "provider "@ + a
            + " does not support "@ + b,
        error_text(ErrorView::State(a)) == "invalid response state: "@ + a,
        error_text(ErrorView::Event(a)) == "invalid provider event: "@ + a,
        error_text(ErrorView::FunctionArguments(a)) == "invalid function-call arguments: "@ + a,
        error_text(ErrorView::Transport(a)) == "HTTP transport failed: "@ + a,
        error_text(ErrorView::HttpStatus { status, body: a }) == "provider returned HTTP "@
            + decimal(status as nat) + ": "@ + a,
        error_text(ErrorView::Http(a)) == "HTTP request failed: "@ + a,
        error_text(ErrorView::Io(a)) == "filesystem operation failed: "@ + a,
        error_text(ErrorView::Image(a)) == "image error: "@ + a,
        error_text(ErrorView::Json(a)) == "JSON error: "@ + a,
{
}

/// What a request may not ask for: the server cannot compact from nothing on, and a
/// usage that was reported before goes with its place in the conversation.
pub proof fn what_cannot_be_kept_small_is_refused(registry: RegistryView, request: RequestView)
    ensures
        request.context_management == Some(ContextManagement::Server { compact_threshold: 0 })
            ==> started(registry, request) is Err,
        request.context_management matches Some(
            ContextManagement::RemoteV2 { previous_usage, previous_usage_input_item_count, .. },
        ) ==> (started(registry, request) matches Ok(machine) ==> {
            &&& previous_usage is Some <==> previous_usage_input_item_count is Some
            &&& previous_usage_input_item_count matches Some(count) ==> count
                <= request.input.len()
            &&& machine.last_usage == previous_usage
            &&& machine.last_usage_input_item_count == previous_usage_input_item_count
        }),
{
}

/// The size of a conversation is what was reported of it last, and an estimate of what
/// has come since; where nothing was reported, an estimate of the whole.
pub proof fn the_size_is_what_was_reported_and_what_came_since(machine: MachineView)
    ensures
        match (machine.last_usage, machine.last_usage_input_item_count) {
            (Some(usage), Some(count)) => conversation_tokens(machine) == usage.total_tokens
                + input_tokens(machine.running_input.skip(count as int)),
            _ => conversation_tokens(machine) == input_tokens(machine.running_input),
        },
{
}

/// An estimate is the number of tokens, as far as it can be counted.
pub proof fn an_estimate_is_the_number_of_tokens(n: nat)
    ensures
        n <= u128::MAX ==> capped(n) == n,
        n > u128::MAX ==> capped(n) == u128::MAX,
{
}

/// A request to Codex in a form that was chosen is begun for whatever model it names,
/// with the way of compaction that goes with the form.
pub proof fn a_request_to_codex_is_begun(
    registry: RegistryView,
    request: RequestView,
    spec: SpecView,
)
    requires
        spec_of(registry, Provider::Codex) == Some(spec),
        request.context.provider == Provider::Codex,
        context_fault(request.context) is None,
        request.model is Some,
        spec.capabilities.supports_tools,
        spec.capabilities.supports_structured_output,
        spec.base_url is Some,
        match (request.codex_protocol, request.context_management) {
            (Some(_), None) => true,
            (
                Some(CodexProtocol::ResponsesStandard),
                Some(ContextManagement::Server { compact_threshold }),
            ) => compact_threshold > 0,
            (
                Some(CodexProtocol::ResponsesLite),
                Some(
                    ContextManagement::RemoteV2 {
                        previous_usage: None,
                        previous_usage_input_item_count: None,
                        ..
                    },
                ),
            ) => true,
            _ => false,
        },
    ensures
        started(registry, request) is Ok,
{
}

} // verus!
