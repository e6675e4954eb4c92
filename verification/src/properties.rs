//! What holds of every response.
use vstd::prelude::*;

#[allow(unused_imports)]
use crate::bedrock::{round_output, BedrockRoundView};
#[allow(unused_imports)]
use crate::catalog::models_address;
#[allow(unused_imports)]
use crate::endpoint::path_and_query;
#[allow(unused_imports)]
use crate::error::ErrorView;
#[allow(unused_imports)]
use crate::json::{
    no_members, or_empty, text_json, text_member, with, JsonView, ObjectView,
};
#[allow(unused_imports)]
use crate::machine::{
    already_complete, bedrock_taken, begun, codex_reasoning, common_body, compacts_next,
    conversation_tokens, features_with_compaction, finished, in_order, ingested, items_taken,
    last_compaction, lite_header, lite_preamble, output_items, placed, placed_all, request_body,
    request_headers, retained_budget, round_input, started, submitted, text_options, tool_calls,
    uses_lite, uses_standard, well_formed, wired, without_compactions, MachineView, RoundKind,
};
#[allow(unused_imports)]
use crate::ordered::{
    find, find_after_put, key_named, put, put_if_absent, same_name, without_named,
    without_named_keeps_order,
};
#[allow(unused_imports)]
use crate::providers::{spec_of, ContextView, Provider, RegistryView};
#[allow(unused_imports)]
use crate::response::{
    function_output_item, is_compaction, ActionView, ContextManagement, EventView, HistoryView,
    RequestView, ToolOutputView,
};
#[allow(unused_imports)]
use crate::text::{
    around_first, ascii_lower_text, begins_with, is_space, trimmed, trimmed_end, trimmed_start,
    without_leading, without_trailing,
};
#[allow(unused_imports)]
use crate::tokens::{input_tokens, retained, retained_messages_fit_the_budget, retention_costs};

verus! {

/// Every index is smaller than the next one.
pub open spec fn ascending(items: Seq<(usize, ObjectView)>) -> bool {
    forall|i: int, j: int|
        0 <= i < j < items.len() ==> (#[trigger] items[i]).0 < (#[trigger] items[j]).0
}

/// Whether an item calls itself a compacted conversation.
pub open spec fn named_compaction(item: ObjectView) -> bool {
    text_member(item, "type"@) == Some("compaction"@)
}

/// None of the items is a compacted conversation.
pub open spec fn no_compactions(items: Seq<ObjectView>) -> bool {
    forall|i: int| 0 <= i < items.len() ==> !named_compaction(#[trigger] items[i])
}

/// What holds of a response in every state: the items of the round stand in the
/// order of their indexes, the output holds no compacted conversation, and as
/// long as the conversation was not replaced it is the input with the new items
/// behind it.
pub open spec fn consistent(machine: MachineView) -> bool {
    &&& well_formed(machine)
    &&& ascending(machine.round_items)
    &&& no_compactions(machine.response_items)
    &&& !machine.history_replaced ==> machine.running_input == machine.request.input
        + machine.accumulated_items
}

/// A response begins in a consistent state.
pub proof fn a_new_response_is_consistent(registry: RegistryView, request: RequestView)
    ensures
        started(registry, request) matches Ok(machine) ==> consistent(machine),
{
    if let Ok(machine) = started(registry, request) {
        assert(machine.running_input =~= machine.request.input + machine.accumulated_items);
    }
}

/// An item that is placed keeps the order of the indexes, stands under its index,
/// and leaves what stands under the others.
pub proof fn placed_items_stand_in_order(
    items: Seq<(usize, ObjectView)>,
    index: usize,
    item: ObjectView,
)
    requires
        ascending(items),
    ensures
        ascending(placed(items, index, item)),
        placed(items, index, item).contains((index, item)),
        forall|other: (usize, ObjectView)|
            other.0 != index ==> (#[trigger] placed(items, index, item).contains(other)
                <==> items.contains(other)),
    decreases items.len(),
{
    let out = placed(items, index, item);
    if items.len() == 0 {
        assert(out[0] == (index, item));
    } else {
        let earlier = items.drop_last();
        let last = items.last();
        assert(items[items.len() - 1] == last);
        assert(ascending(earlier));
        assert forall|i: int| 0 <= i < earlier.len() implies (#[trigger] earlier[i]).0 < last.0 by {
            assert(items[i].0 < items[items.len() - 1].0);
        }
        if last.0 < index {
            assert(out[out.len() - 1] == (index, item));
            assert forall|other: (usize, ObjectView)| other.0 != index implies (
            #[trigger] out.contains(other) <==> items.contains(other)) by {
                if out.contains(other) {
                    let k = choose|k: int| 0 <= k < out.len() && out[k] == other;
                    assert(items[k] == other);
                }
                if items.contains(other) {
                    let k = choose|k: int| 0 <= k < items.len() && items[k] == other;
                    assert(out[k] == other);
                }
            }
        } else if last.0 == index {
            assert(out[out.len() - 1] == (index, item));
            assert forall|other: (usize, ObjectView)| other.0 != index implies (
            #[trigger] out.contains(other) <==> items.contains(other)) by {
                if out.contains(other) {
                    let k = choose|k: int| 0 <= k < out.len() && out[k] == other;
                    assert(items[k] == other);
                }
                if items.contains(other) {
                    let k = choose|k: int| 0 <= k < items.len() && items[k] == other;
                    assert(out[k] == other);
                }
            }
        } else {
            placed_items_stand_in_order(earlier, index, item);
            let rest = placed(earlier, index, item);
            let at = choose|k: int| 0 <= k < rest.len() && rest[k] == (index, item);
            assert(out[at] == (index, item));
            assert forall|k: int| 0 <= k < rest.len() implies (#[trigger] rest[k]).0 < last.0 by {
                if rest[k].0 != index {
                    assert(rest.contains(rest[k]));
                    assert(earlier.contains(rest[k]));
                    let j = choose|j: int| 0 <= j < earlier.len() && earlier[j] == rest[k];
                    assert(earlier[j].0 < last.0);
                }
            }
            assert(out[out.len() - 1] == last);
            assert forall|other: (usize, ObjectView)| other.0 != index implies (
            #[trigger] out.contains(other) <==> items.contains(other)) by {
                assert(rest.contains(other) <==> earlier.contains(other));
                if out.contains(other) {
                    let k = choose|k: int| 0 <= k < out.len() && out[k] == other;
                    if k < rest.len() {
                        assert(rest.contains(other));
                        let j = choose|j: int| 0 <= j < earlier.len() && earlier[j] == other;
                        assert(items[j] == other);
                    }
                }
                if items.contains(other) {
                    let k = choose|k: int| 0 <= k < items.len() && items[k] == other;
                    if k < earlier.len() {
                        assert(earlier[k] == other);
                        let j = choose|j: int| 0 <= j < rest.len() && rest[j] == other;
                        assert(out[j] == other);
                    }
                }
            }
        }
    }
}

/// It does not matter in which order two items come that have different indexes.
pub proof fn items_come_in_any_order(
    items: Seq<(usize, ObjectView)>,
    i: usize,
    a: ObjectView,
    j: usize,
    b: ObjectView,
)
    requires
        ascending(items),
        i != j,
    ensures
        placed(placed(items, i, a), j, b) == placed(placed(items, j, b), i, a),
    decreases items.len(),
{
    reveal_with_fuel(placed, 3);
    let one = placed(placed(items, i, a), j, b);
    let two = placed(placed(items, j, b), i, a);
    if items.len() == 0 {
        assert(placed(items, i, a).drop_last() =~= Seq::empty());
        assert(placed(items, j, b).drop_last() =~= Seq::empty());
        assert(one =~= two);
    } else {
        let earlier = items.drop_last();
        let last = items.last();
        assert(items.push((i, a)).drop_last() =~= items);
        assert(items.push((j, b)).drop_last() =~= items);
        assert(earlier.push((i, a)).drop_last() =~= earlier);
        assert(earlier.push((j, b)).drop_last() =~= earlier);
        assert(placed(earlier, i, a).push(last).drop_last() =~= placed(earlier, i, a));
        assert(placed(earlier, j, b).push(last).drop_last() =~= placed(earlier, j, b));
        if i < last.0 && j < last.0 {
            assert(ascending(earlier));
            items_come_in_any_order(earlier, i, a, j, b);
        }
        assert(one =~= two);
    }
}

pub(crate) proof fn lemma_without_compactions(items: Seq<ObjectView>)
    ensures
        no_compactions(without_compactions(items)),
    decreases items.len(),
{
    if items.len() > 0 {
        lemma_without_compactions(items.drop_last());
    }
}

pub(crate) proof fn lemma_type_of_output(output: ToolOutputView)
    ensures
        !named_compaction(function_output_item(output)),
{
    let item = function_output_item(output);
    let first = with(no_members(), "type"@, text_json("function_call_output"@));
    let second = with(first, "call_id"@, text_json(output.call_id));
    reveal_strlit("type");
    reveal_strlit("call_id");
    reveal_strlit("output");
    reveal_strlit("function_call_output");
    reveal_strlit("compaction");
    assert("call_id"@.len() != "type"@.len());
    assert("output"@.len() != "type"@.len());
    assert("function_call_output"@.len() != "compaction"@.len());
    find_after_put(no_members(), "type"@, text_json("function_call_output"@), "type"@);
    find_after_put(first, "call_id"@, text_json(output.call_id), "type"@);
    find_after_put(
        second,
        "output"@,
        match output.content {
            Some(content) => content,
            None => text_json(crate::json::json_text(output.result)),
        },
        "type"@,
    );
}

/// Whatever happens to a consistent response, it stays consistent.
pub proof fn every_step_keeps_a_response_consistent(
    machine: MachineView,
    event: JsonView,
    round: BedrockRoundView,
    outputs: Seq<ToolOutputView>,
)
    requires
        consistent(machine),
        machine.running_input.len() + machine.round_items.len() <= usize::MAX,
    ensures
        consistent(begun(machine).0),
        consistent(ingested(machine, event).0),
        consistent(bedrock_taken(machine, round)),
        consistent(finished(machine).0),
        consistent(submitted(machine, outputs).0),
{
    lemma_placed_all(machine.round_items, round_output(round));
    if let Some(JsonView::Object(item)) = crate::json::field(event, "item"@) {
        placed_items_stand_in_order(
            machine.round_items,
            crate::machine::output_index(event),
            item,
        );
    }
    let items = in_order(machine.round_items);
    lemma_without_compactions(items);
    let taken = items_taken(machine).0;
    assert(no_compactions(machine.response_items + without_compactions(items)));
    assert(machine.request.input + machine.accumulated_items + items
        =~= machine.request.input + (machine.accumulated_items + items));
    lemma_last_compaction(items);
    assert(consistent(taken));
    assert(consistent(finished(machine).0));
    let submitted_state = submitted(machine, outputs).0;
    assert(machine.request.input + machine.accumulated_items + output_items(outputs)
        =~= machine.request.input + (machine.accumulated_items + output_items(outputs)));
    assert forall|i: int| 0 <= i < submitted_state.response_items.len() implies !named_compaction(
        #[trigger] submitted_state.response_items[i],
    ) by {
        let n = machine.response_items.len() as int;
        if !machine.completed && i >= n {
            lemma_type_of_output(outputs[i - n]);
        } else if !machine.completed {
            assert(submitted_state.response_items[i] == machine.response_items[i]);
        }
    }
}

proof fn lemma_placed_all(items: Seq<(usize, ObjectView)>, more: Seq<ObjectView>)
    requires
        ascending(items),
    ensures
        ascending(placed_all(items, more)),
    decreases more.len(),
{
    if more.len() > 0 {
        lemma_placed_all(items, more.drop_last());
        placed_items_stand_in_order(
            placed_all(items, more.drop_last()),
            (more.len() - 1) as usize,
            more.last(),
        );
    }
}

/// A history that was once replaced stays so: later rounds, and the outputs of
/// tools between them, go on from what replaced it, and the response ends with the
/// whole conversation as its update.
pub proof fn a_replaced_history_stays_replaced(
    machine: MachineView,
    event: JsonView,
    round: BedrockRoundView,
    outputs: Seq<ToolOutputView>,
)
    requires
        machine.history_replaced,
    ensures
        begun(machine).0.history_replaced,
        ingested(machine, event).0.history_replaced,
        bedrock_taken(machine, round).history_replaced,
        submitted(machine, outputs).0.history_replaced,
        finished(machine).0.history_replaced,
        finished(machine).1 matches Ok(ActionView::Completed { result }) ==> result.history_update
            == (HistoryView::Replace { items: finished(machine).0.running_input }),
{
}

pub(crate) proof fn lemma_last_compaction(items: Seq<ObjectView>)
    ensures
        match last_compaction(items) {
            Some(at) => 0 <= at < items.len() && named_compaction(items[at]) && forall|i: int|
                at < i < items.len() ==> !named_compaction(#[trigger] items[i]),
            None => no_compactions(items),
        },
    decreases items.len(),
{
    if items.len() > 0 {
        let earlier = items.drop_last();
        lemma_last_compaction(earlier);
        assert(items[items.len() - 1] == items.last());
        assert forall|i: int| 0 <= i < earlier.len() implies #[trigger] items[i] == earlier[i] by {}
    }
}

/// A response that is complete refuses every further step, and stays as it is.
pub proof fn a_complete_response_is_final(machine: MachineView, outputs: Seq<ToolOutputView>)
    requires
        machine.completed,
    ensures
        wired(machine) is Err && wired(machine)->Err_0 == already_complete(),
        begun(machine) == (machine, Err::<(), ErrorView>(already_complete())),
        finished(machine) == (machine, Err::<ActionView, ErrorView>(already_complete())),
        submitted(machine, outputs) == (
            machine,
            Err::<Seq<EventView>, ErrorView>(already_complete()),
        ),
{
}

/// A round is not ended before its stream has come to its end, and a new one is
/// not begun before its items were taken.
pub proof fn an_open_round_is_not_passed_over(machine: MachineView)
    ensures
        !machine.round_completed ==> finished(machine).1 is Err && finished(machine).0 == machine,
        machine.round_items.len() > 0 ==> begun(machine).1 is Err && begun(machine).0 == machine,
{
}

/// The history of a response that was never compacted is its input with the items
/// of its update behind it; else its update is the whole conversation.
pub proof fn the_history_update_gives_the_conversation(machine: MachineView)
    requires
        consistent(machine),
        machine.running_input.len() + machine.round_items.len() <= usize::MAX,
    ensures
        finished(machine).1 matches Ok(ActionView::Completed { result }) ==> match result.history_update {
            HistoryView::Append { items } => finished(machine).0.running_input
                == machine.request.input + items,
            HistoryView::Replace { items } => finished(machine).0.running_input == items,
        },
{
    let nothing = BedrockRoundView { text: Seq::empty(), tool_calls: Seq::empty() };
    every_step_keeps_a_response_consistent(machine, JsonView::Null, nothing, Seq::empty());
}

/// What the server compacted replaces the history: the update begins with the
/// last compacted conversation and holds what came behind it, and the output of
/// the response keeps what came before.
pub proof fn server_compaction_replaces_the_history(machine: MachineView)
    requires
        machine.round_kind == RoundKind::Response,
        machine.round_server_compaction_index is Some,
    ensures
        finished(machine).1 matches Ok(ActionView::Completed { result }) ==> {
            let items = in_order(machine.round_items);
            &&& last_compaction(items) is Some
            &&& named_compaction(items[last_compaction(items)->0])
            &&& result.history_update == (HistoryView::Replace {
                items: items.skip(last_compaction(items)->0),
            })
            &&& result.output_items == machine.response_items + without_compactions(items)
        },
{
    lemma_last_compaction(in_order(machine.round_items));
}

/// What a compacting round leaves of the conversation are messages that fit the
/// budget, and the compacted conversation behind them.
pub proof fn remote_compaction_keeps_messages_within_the_budget(machine: MachineView)
    requires
        machine.round_kind == RoundKind::Compaction,
    ensures
        finished(machine).1 matches Ok(action) ==> {
            &&& action matches ActionView::Compacted { items, usage }
            &&& items.len() > 0
            &&& is_compaction(items.last())
            &&& retention_costs(items.drop_last()) <= retained_budget(machine)
            &&& finished(machine).0.running_input == items
            &&& finished(machine).0.history_replaced
            &&& usage == machine.round_usage
        },
{
    let kept = retained(machine.running_input, retained_budget(machine) as nat);
    retained_messages_fit_the_budget(machine.running_input, retained_budget(machine) as nat);
    if finished(machine).1 is Ok {
        let items = in_order(machine.round_items);
        assert(kept.push(items[0]).drop_last() =~= kept);
    }
}

/// After a round that reported its usage, the size of the conversation is what
/// was reported; after one that compacted it, an estimate of what remains.
pub proof fn reported_usage_is_the_size_of_the_conversation(machine: MachineView)
    requires
        machine.running_input.len() + machine.round_items.len() <= usize::MAX,
    ensures
        finished(machine).1 is Ok && machine.round_kind == RoundKind::Response
            ==> match machine.round_usage {
            Some(usage) => conversation_tokens(finished(machine).0) == usage.total_tokens,
            None => conversation_tokens(finished(machine).0) == input_tokens(
                finished(machine).0.running_input,
            ),
        },
        finished(machine).1 is Ok && machine.round_kind == RoundKind::Compaction
            ==> conversation_tokens(finished(machine).0) == input_tokens(
            finished(machine).0.running_input,
        ),
{
    let after = finished(machine).0;
    lemma_last_compaction(in_order(machine.round_items));
    assert(after.running_input.skip(after.running_input.len() as int) =~= Seq::empty());
}

/// The two ways to keep a conversation small do not mix: requests of their own go
/// with the light form, the server's work with the standard form, and nothing
/// else compacts.
pub proof fn the_ways_of_compaction_do_not_mix(registry: RegistryView, request: RequestView)
    ensures
        started(registry, request) matches Ok(machine) ==> match request.context_management {
            Some(ContextManagement::RemoteV2 { .. }) => uses_lite(machine) && !uses_standard(
                machine,
            ),
            Some(ContextManagement::Server { .. }) => uses_standard(machine) && !uses_lite(machine)
                && !compacts_next(machine),
            None => !compacts_next(machine),
        },
{
}

/// A round compacts only where the light form is used.
pub proof fn only_the_light_form_compacts_in_rounds(machine: MachineView)
    ensures
        begun(machine).1 is Ok && begun(machine).0.round_kind == RoundKind::Compaction ==> uses_lite(
            machine,
        ),
{
}

/// The outputs of tools come behind the conversation, one item for each, in order.
pub proof fn tool_outputs_come_behind_the_conversation(
    machine: MachineView,
    outputs: Seq<ToolOutputView>,
)
    requires
        !machine.completed,
    ensures
        submitted(machine, outputs).0.running_input.take(machine.running_input.len() as int)
            == machine.running_input,
        submitted(machine, outputs).0.running_input.skip(machine.running_input.len() as int)
            == output_items(outputs),
        output_items(outputs).len() == outputs.len(),
{
    let after = submitted(machine, outputs).0.running_input;
    assert(after.take(machine.running_input.len() as int) =~= machine.running_input);
    assert(after.skip(machine.running_input.len() as int) =~= output_items(outputs));
}

proof fn lemma_find_absent_name(
    entries: Seq<(Seq<char>, Seq<char>)>,
    name: Seq<char>,
    key: Seq<char>,
)
    requires
        same_name(key, name),
    ensures
        find(without_named(entries, name), key) is None,
{
    let kept = without_named(entries, name);
    without_named_keeps_order(entries, name);
    lemma_find_none(kept, key);
}

proof fn lemma_find_none(entries: Seq<(Seq<char>, Seq<char>)>, key: Seq<char>)
    requires
        forall|i: int| 0 <= i < entries.len() ==> (#[trigger] entries[i]).0 != key,
    ensures
        find(entries, key) is None,
    decreases entries.len(),
{
    if entries.len() > 0 {
        let rest = entries.drop_first();
        assert forall|i: int| 0 <= i < rest.len() implies (#[trigger] rest[i]).0 != key by {
            assert(entries[i + 1] == rest[i]);
        }
        assert(entries[0].0 != key);
        lemma_find_none(rest, key);
    }
}

pub(crate) proof fn lemma_key_named(entries: Seq<(Seq<char>, Seq<char>)>, name: Seq<char>)
    ensures
        key_named(entries, name) matches Some(key) ==> same_name(key, name),
    decreases entries.len(),
{
    if entries.len() > 0 {
        lemma_key_named(entries.drop_first(), name);
    }
}

proof fn lemma_feature_header_is_another(key: Seq<char>)
    requires
        same_name(key, "x-codex-beta-features"@),
    ensures
        !same_name(key, lite_header()),
{
    reveal_strlit("x-codex-beta-features");
    reveal_strlit("X-OpenAI-Internal-Codex-Responses-Lite");
    assert(ascii_lower_text("x-codex-beta-features"@).len() != ascii_lower_text(
        lite_header(),
    ).len());
}

/// The standard form omits the header of the light form, in whatever case its
/// caller wrote it; the light form has it.
pub proof fn only_the_light_form_has_its_header(machine: MachineView, key: Seq<char>)
    requires
        same_name(key, lite_header()),
    ensures
        !uses_lite(machine) ==> find(request_headers(machine), key) is None,
        uses_lite(machine) ==> find(request_headers(machine), lite_header()) == Some("true"@),
{
    let headers = put(
        machine.request.context.headers,
        "Authorization"@,
        "Bearer "@ + machine.request.context.api_key,
    );
    let headers = put_if_absent(headers, "Content-Type"@, "application/json"@);
    let headers = put_if_absent(headers, "Accept"@, "text/event-stream"@);
    let headers = put_if_absent(headers, "User-Agent"@, "lmx/"@ + crate::VERSION@);
    let kept = without_named(headers, lite_header());
    lemma_find_absent_name(headers, lite_header(), key);
    find_after_put(kept, lite_header(), "true"@, lite_header());
    let base = if uses_lite(machine) {
        put(kept, lite_header(), "true"@)
    } else {
        kept
    };
    lemma_key_named(base, "x-codex-beta-features"@);
    let name = match key_named(base, "x-codex-beta-features"@) {
        Some(name) => name,
        None => "x-codex-beta-features"@,
    };
    assert(same_name(name, "x-codex-beta-features"@));
    lemma_feature_header_is_another(name);
    assert(name != key);
    assert(name != lite_header());
    let features = features_with_compaction(
        match key_named(base, "x-codex-beta-features"@) {
            Some(name) => or_empty(find(base, name)),
            None => Seq::empty(),
        },
    );
    find_after_put(base, name, features, key);
    find_after_put(base, name, features, lite_header());
}

/// In the light form the tools and the instructions stand in the conversation,
/// not beside it.
pub proof fn the_light_form_has_its_tools_in_the_conversation(machine: MachineView)
    requires
        uses_lite(machine),
    ensures
        find(request_body(machine), "tools"@) is None,
        find(request_body(machine), "instructions"@) is None,
        find(request_body(machine), "input"@) == Some(
            JsonView::List(lite_preamble(machine.request) + round_input(machine)),
        ),
{
    lemma_lite_member(machine, "tools"@);
    lemma_lite_member(machine, "instructions"@);
    reveal_strlit("tools");
    reveal_strlit("input");
    reveal_strlit("instructions");
    reveal_strlit("reasoning");
    assert("reasoning"@.len() != "input"@.len());
    let body = common_body(machine);
    let list = JsonView::List(lite_preamble(machine.request) + round_input(machine));
    let reasoning = JsonView::Object(codex_reasoning(machine.request.reasoning_effort));
    find_after_put(body, "input"@, list, "input"@);
    find_after_put(with(body, "input"@, list), "reasoning"@, reasoning, "input"@);
    assert("tools"@[0] == 't' && "input"@[0] == 'i');
}

spec fn lite_key(key: Seq<char>) -> bool {
    key == "tools"@ || key == "instructions"@
}

proof fn lemma_lite_member(machine: MachineView, key: Seq<char>)
    requires
        uses_lite(machine),
        lite_key(key),
    ensures
        find(request_body(machine), key) is None,
{
    reveal_strlit("tools");
    reveal_strlit("instructions");
    reveal_strlit("model");
    reveal_strlit("input");
    reveal_strlit("tool_choice");
    reveal_strlit("parallel_tool_calls");
    reveal_strlit("store");
    reveal_strlit("include");
    reveal_strlit("text");
    reveal_strlit("stream");
    reveal_strlit("reasoning");
    assert("model"@[0] == 'm' && "input"@.len() == 5 && "input"@[0] == 'i');
    assert("tools"@[0] == 't' && "instructions"@[0] == 'i' && "store"@[0] == 's');
    assert(key != "model"@ && key != "input"@ && key != "tool_choice"@ && key
        != "parallel_tool_calls"@ && key != "store"@ && key != "include"@ && key != "text"@ && key
        != "stream"@ && key != "reasoning"@);
    let request = machine.request;
    let b1 = with(no_members(), "model"@, text_json(machine.model));
    find_after_put(no_members(), "model"@, text_json(machine.model), key);
    let list = JsonView::List(round_input(machine));
    find_after_put(b1, "input"@, list, key);
    let b2 = with(b1, "input"@, list);
    let choice = match request.tool_choice {
        Some(choice) => choice,
        None => text_json("auto"@),
    };
    find_after_put(b2, "tool_choice"@, choice, key);
    let b3 = with(b2, "tool_choice"@, choice);
    find_after_put(b3, "parallel_tool_calls"@, JsonView::Bool(false), key);
    let b4 = with(b3, "parallel_tool_calls"@, JsonView::Bool(false));
    find_after_put(b4, "store"@, JsonView::Bool(false), key);
    let b5 = with(b4, "store"@, JsonView::Bool(false));
    let included = JsonView::List(seq![text_json("reasoning.encrypted_content"@)]);
    find_after_put(b5, "include"@, included, key);
    let b6 = with(b5, "include"@, included);
    let text = JsonView::Object(text_options(request));
    find_after_put(b6, "text"@, text, key);
    let b7 = with(b6, "text"@, text);
    find_after_put(b7, "stream"@, JsonView::Bool(true), key);
    let b8 = with(b7, "stream"@, JsonView::Bool(true));
    assert(b8 == common_body(machine));
    let whole = JsonView::List(lite_preamble(request) + round_input(machine));
    find_after_put(b8, "input"@, whole, key);
    let reasoning = JsonView::Object(codex_reasoning(request.reasoning_effort));
    find_after_put(with(b8, "input"@, whole), "reasoning"@, reasoning, key);
}

/// The address that Codex is at.
pub open spec fn codex_address() -> Seq<char> {
    "https://chatgpt.com/backend-api/codex"@
}

proof fn lemma_slashes_stay(s: Seq<char>)
    requires
        without_trailing(s, '/').len() > 0,
        !is_space(s[0]),
        !is_space(without_trailing(s, '/').last()),
    ensures
        trimmed(s) == s,
        without_trailing(s, '/')[0] == s[0],
    decreases s.len(),
{
    if s.last() == '/' {
        let shorter = s.drop_last();
        assert(without_trailing(s, '/') == without_trailing(shorter, '/'));
        if shorter.len() > 0 {
            lemma_slashes_stay(shorter);
        }
    }
    assert(trimmed_end(s) == s || trimmed_start(s) == s);
}

/// The credentials of a request to Codex go to Codex alone: the address of every
/// such request begins with the address that Codex is at.
pub proof fn codex_requests_go_only_to_codex(
    registry: RegistryView,
    request: RequestView,
    machine: MachineView,
)
    requires
        request.context.provider == Provider::Codex,
        spec_of(registry, Provider::Codex) matches Some(spec) && spec.base_url == Some(
            codex_address(),
        ),
        started(registry, request) matches Ok(first) && first.base_url == machine.base_url,
    ensures
        wired(machine) matches Ok(wire) ==> begins_with(
            wire.url,
            codex_address() + "/responses"@,
        ),
{
    if let Ok(wire) = wired(machine) {
        let base = machine.base_url;
        reveal_strlit("https://chatgpt.com/backend-api/codex");
        assert(codex_address().last() == 'x');
        assert(without_trailing(codex_address(), '/') == codex_address());
        assert(without_trailing(base, '/') == codex_address());
        assert(codex_address()[0] == 'h');
        lemma_begins_without_trailing(base);
        lemma_slashes_stay(base);
        assert(without_trailing(trimmed(base), '/') == codex_address());
        reveal_strlit("responses");
        lemma_no_query();
        assert(path_and_query("responses"@) == ("responses"@, ""@));
        reveal_strlit("");
        reveal_strlit("/");
        reveal_strlit("/responses");
        let url = codex_address() + "/"@ + "responses"@;
        assert(url =~= codex_address() + "/responses"@);
        let query = machine.request.context.query;
        assert(wire.url.take(url.len() as int) =~= url);
    }
}

/// A response goes to the same model at the same address from its beginning to its
/// end, for the same request.
pub proof fn a_response_keeps_its_address(
    machine: MachineView,
    event: JsonView,
    round: BedrockRoundView,
    outputs: Seq<ToolOutputView>,
)
    ensures
        same_target(begun(machine).0, machine),
        same_target(ingested(machine, event).0, machine),
        same_target(bedrock_taken(machine, round), machine),
        same_target(finished(machine).0, machine),
        same_target(submitted(machine, outputs).0, machine),
{
}

/// Whether two states are of a response to the same request, from the same model at
/// the same address.
pub open spec fn same_target(a: MachineView, b: MachineView) -> bool {
    a.request == b.request && a.model == b.model && a.base_url == b.base_url
}

/// The models of a Codex account are asked for at Codex, whatever base URL its
/// context has.
pub proof fn codex_models_are_asked_for_at_codex(context: ContextView)
    requires
        context.provider == Provider::Codex,
    ensures
        models_address(context) matches Ok(url) ==> begins_with(url, codex_address() + "/models"@),
{
    if let Ok(url) = models_address(context) {
        let base = codex_address();
        reveal_strlit("https://chatgpt.com/backend-api/codex");
        assert(base.last() == 'x' && base[0] == 'h');
        assert(without_trailing(base, '/') == base);
        lemma_slashes_stay(base);
        reveal_strlit("models");
        let path = "models"@;
        assert(without_leading(path, '/') == path);
        assert(!path.contains('?'));
        assert(around_first(path, '?') is None);
        reveal_strlit("");
        reveal_strlit("/");
        reveal_strlit("/models");
        let start = base + "/"@ + path;
        assert(start =~= base + "/models"@);
        assert(url.take(start.len() as int) =~= start);
    }
}

proof fn lemma_begins_without_trailing(s: Seq<char>)
    ensures
        without_trailing(s, '/').len() > 0 ==> without_trailing(s, '/')[0] == s[0],
    decreases s.len(),
{
    if s.len() > 0 && s.last() == '/' {
        lemma_begins_without_trailing(s.drop_last());
    }
}

proof fn lemma_no_query()
    ensures
        path_and_query("responses"@) == ("responses"@, ""@),
{
    reveal_strlit("responses");
    let path = "responses"@;
    assert(without_leading(path, '/') == path);
    assert(!path.contains('?'));
    assert(around_first(path, '?') is None);
}

} // verus!
