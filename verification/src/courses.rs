//! What holds of a response over all of its rounds.
use vstd::prelude::*;

#[allow(unused_imports)]
use crate::bedrock::BedrockRoundView;
#[allow(unused_imports)]
use crate::error::ErrorView;
#[allow(unused_imports)]
use crate::json::{field, or_empty, text_field, text_member, JsonView, ObjectView};
#[allow(unused_imports)]
use crate::machine::{
    already_complete, bedrock_taken, begun, finished, in_order, ingested, is_function_call,
    last_compaction, output_index, output_items, placed, started, submitted, tool_calls,
    uses_standard, wired, MachineView, RoundKind,
};
#[allow(unused_imports)]
use crate::properties::{
    a_complete_response_is_final, ascending, lemma_last_compaction, lemma_type_of_output,
    lemma_without_compactions, named_compaction, no_compactions,
};
#[allow(unused_imports)]
use crate::providers::RegistryView;
#[allow(unused_imports)]
use crate::response::{
    is_compaction, tool_call, ActionView, EventView, HistoryView, RequestView, ToolOutputView,
};

verus! {

/// What can happen to a response.
pub enum Step {
    /// A round is begun.
    Begin,
    /// An event of its stream comes in.
    Ingest(JsonView),
    /// A round with Bedrock comes in.
    Bedrock(BedrockRoundView),
    /// A round is ended.
    Finish,
    /// Tools give their outputs.
    Submit(Seq<ToolOutputView>),
}

/// The state after a step.
pub open spec fn stepped(machine: MachineView, step: Step) -> MachineView {
    match step {
        Step::Begin => begun(machine).0,
        Step::Ingest(event) => ingested(machine, event).0,
        Step::Bedrock(round) => bedrock_taken(machine, round),
        Step::Finish => finished(machine).0,
        Step::Submit(outputs) => submitted(machine, outputs).0,
    }
}

/// The state after some steps.
pub open spec fn course(machine: MachineView, steps: Seq<Step>) -> MachineView
    decreases steps.len(),
{
    if steps.len() == 0 {
        machine
    } else {
        stepped(course(machine, steps.drop_last()), steps.last())
    }
}

/// Whether the items of a round are taken when it is ended.
pub open spec fn takes_items(machine: MachineView) -> bool {
    !machine.completed && machine.round_completed
}

/// Whether a step puts something in the place of the conversation.
pub open spec fn replaces(machine: MachineView, step: Step) -> bool {
    step is Finish && takes_items(machine) && (machine.round_kind == RoundKind::Compaction
        || machine.round_server_compaction_index is Some)
}

/// None of the steps puts something in the place of the conversation.
pub open spec fn replaces_nothing(machine: MachineView, steps: Seq<Step>) -> bool {
    forall|i: int|
        0 <= i < steps.len() ==> !replaces(course(machine, steps.take(i)), #[trigger] steps[i])
}

/// The items that a step brings: those of the round that it ends, or those with the
/// outputs of tools.
pub open spec fn brings(machine: MachineView, step: Step) -> Seq<ObjectView> {
    match step {
        Step::Finish => if takes_items(machine) {
            in_order(machine.round_items)
        } else {
            Seq::empty()
        },
        Step::Submit(outputs) => if machine.completed {
            Seq::empty()
        } else {
            output_items(outputs)
        },
        _ => Seq::empty(),
    }
}

/// The items that some steps bring, in order.
pub open spec fn brought(machine: MachineView, steps: Seq<Step>) -> Seq<ObjectView>
    decreases steps.len(),
{
    if steps.len() == 0 {
        Seq::empty()
    } else {
        brought(machine, steps.drop_last()) + brings(
            course(machine, steps.drop_last()),
            steps.last(),
        )
    }
}

/// As long as nothing is put in its place, a conversation goes on: every item of a
/// round and every output of a tool comes behind it, in order, and nothing else.
pub proof fn a_conversation_goes_on(machine: MachineView, steps: Seq<Step>)
    requires
        replaces_nothing(machine, steps),
    ensures
        course(machine, steps).running_input == machine.running_input + brought(machine, steps),
        course(machine, steps).history_replaced == machine.history_replaced,
    decreases steps.len(),
{
    if steps.len() > 0 {
        let earlier = steps.drop_last();
        assert forall|i: int| 0 <= i < earlier.len() implies !replaces(
            course(machine, earlier.take(i)),
            #[trigger] earlier[i],
        ) by {
            assert(earlier.take(i) =~= steps.take(i));
            assert(earlier[i] == steps[i]);
        }
        a_conversation_goes_on(machine, earlier);
        assert(steps.take(steps.len() - 1) =~= earlier);
        assert(!replaces(course(machine, earlier), steps[steps.len() - 1]));
        let before = course(machine, earlier);
        assert(before.running_input + brings(before, steps.last()) =~= machine.running_input + (
        brought(machine, earlier) + brings(before, steps.last())));
        assert(stepped(before, steps.last()).running_input =~= before.running_input + brings(
            before,
            steps.last(),
        ));
    } else {
        assert(machine.running_input + Seq::<ObjectView>::empty() =~= machine.running_input);
    }
}

/// Whether an event brings an item that calls itself a compacted conversation.
pub open spec fn brings_compaction(event: JsonView) -> bool {
    &&& or_empty(text_field(event, "type"@)) == "response.output_item.done"@
    &&& field(event, "item"@) matches Some(JsonView::Object(item)) && named_compaction(item)
}

/// None of the steps takes in a compacted conversation.
pub open spec fn without_compaction_items(steps: Seq<Step>) -> bool {
    forall|i: int|
        0 <= i < steps.len() ==> ((#[trigger] steps[i]) matches Step::Ingest(event)
            ==> !brings_compaction(event))
}

/// In the standard form nothing is put in the place of the conversation unless an
/// item comes that calls itself a compacted one.
pub proof fn only_a_compaction_item_replaces_the_conversation(
    machine: MachineView,
    steps: Seq<Step>,
)
    requires
        uses_standard(machine),
        machine.round_kind == RoundKind::Response,
        machine.round_server_compaction_index is None,
        without_compaction_items(steps),
    ensures
        replaces_nothing(machine, steps),
        uses_standard(course(machine, steps)),
        course(machine, steps).round_kind == RoundKind::Response,
        course(machine, steps).round_server_compaction_index is None,
    decreases steps.len(),
{
    if steps.len() > 0 {
        let earlier = steps.drop_last();
        assert forall|i: int| 0 <= i < earlier.len() implies ((
        #[trigger] earlier[i]) matches Step::Ingest(event) ==> !brings_compaction(event)) by {
            assert(earlier[i] == steps[i]);
        }
        only_a_compaction_item_replaces_the_conversation(machine, earlier);
        assert(steps[steps.len() - 1] == steps.last());
        assert forall|i: int| 0 <= i < steps.len() implies !replaces(
            course(machine, steps.take(i)),
            #[trigger] steps[i],
        ) by {
            if i < earlier.len() {
                assert(earlier.take(i) =~= steps.take(i));
                assert(earlier[i] == steps[i]);
            } else {
                assert(steps.take(i) =~= earlier);
            }
        }
    }
}

/// A compacted conversation that comes in the standard form stands under its index,
/// is told of, and stays noted whatever event comes next.
pub proof fn a_compaction_item_is_noted(machine: MachineView, event: JsonView, later: JsonView)
    requires
        uses_standard(machine),
        machine.round_kind == RoundKind::Response,
        or_empty(text_field(event, "type"@)) == "response.output_item.done"@,
        field(event, "item"@) matches Some(JsonView::Object(item)) && is_compaction(item),
    ensures
        ({
            let item = field(event, "item"@)->0->Object_0;
            let (after, events) = ingested(machine, event);
            &&& after.round_server_compaction_index == Some(output_index(event))
            &&& after.round_items == placed(machine.round_items, output_index(event), item)
            &&& events == Ok::<Seq<EventView>, ErrorView>(
                seq![EventView::ContextCompacted { items: seq![item], usage: None }],
            )
        }),
        ingested(ingested(machine, event).0, later).0.round_server_compaction_index is Some,
{
    reveal_strlit("response.output_item.done");
    reveal_strlit("response.output_text.delta");
}

/// The compacted conversation that counts is the one with the greatest index of its
/// round.
pub proof fn the_last_compaction_has_the_greatest_index(items: Seq<(usize, ObjectView)>)
    requires
        ascending(items),
    ensures
        match last_compaction(in_order(items)) {
            Some(at) => 0 <= at < items.len() && named_compaction(items[at].1) && forall|i: int|
                0 <= i < items.len() && named_compaction((#[trigger] items[i]).1) ==> items[i].0
                    <= items[at].0,
            None => forall|i: int|
                0 <= i < items.len() ==> !named_compaction((#[trigger] items[i]).1),
        },
{
    let plain = in_order(items);
    lemma_last_compaction(plain);
    assert forall|i: int| 0 <= i < items.len() implies (#[trigger] items[i]).1 == plain[i] by {}
}

proof fn lemma_output_without_compactions(machine: MachineView, steps: Seq<Step>)
    requires
        no_compactions(machine.response_items),
    ensures
        no_compactions(course(machine, steps).response_items),
    decreases steps.len(),
{
    if steps.len() > 0 {
        let before = course(machine, steps.drop_last());
        lemma_output_without_compactions(machine, steps.drop_last());
        lemma_without_compactions(in_order(before.round_items));
        let after = stepped(before, steps.last());
        if let Step::Submit(outputs) = steps.last() {
            assert forall|i: int| 0 <= i < after.response_items.len() implies !named_compaction(
                #[trigger] after.response_items[i],
            ) by {
                let n = before.response_items.len() as int;
                if !before.completed && i >= n {
                    lemma_type_of_output(outputs[i - n]);
                }
            }
        }
    }
}

/// Once the server has compacted a response in the standard form, its history is
/// the last compacted conversation, what came behind it in its round, and then, in
/// order, every item and every output of a tool that came in the rounds after it;
/// nothing older is in it. The output of the response holds no compacted
/// conversation.
pub proof fn the_history_after_a_server_compaction(machine: MachineView, steps: Seq<Step>)
    requires
        uses_standard(machine),
        takes_items(machine),
        machine.round_kind == RoundKind::Response,
        machine.round_server_compaction_index is Some,
        last_compaction(in_order(machine.round_items)) is Some,
        no_compactions(machine.response_items),
        without_compaction_items(steps),
    ensures
        ({
            let items = in_order(machine.round_items);
            let at = last_compaction(items)->0;
            let first = finished(machine).0;
            let last = course(first, steps);
            &&& 0 <= at < items.len() && named_compaction(items[at])
            &&& forall|i: int| at < i < items.len() ==> !named_compaction(#[trigger] items[i])
            &&& first.running_input == items.skip(at)
            &&& last.running_input == items.skip(at) + brought(first, steps)
            &&& finished(last).1 matches Ok(ActionView::Completed { result }) ==> {
                &&& result.history_update == (HistoryView::Replace {
                    items: items.skip(at) + brought(first, steps) + in_order(last.round_items),
                })
                &&& no_compactions(result.output_items)
            }
        }),
{
    let items = in_order(machine.round_items);
    lemma_last_compaction(items);
    let first = finished(machine).0;
    assert(first.round_server_compaction_index is None);
    assert(first.running_input == items.skip(last_compaction(items)->0));
    assert(first.history_replaced);
    only_a_compaction_item_replaces_the_conversation(first, steps);
    a_conversation_goes_on(first, steps);
    let last = course(first, steps);
    lemma_without_compactions(items);
    assert(no_compactions(first.response_items));
    lemma_output_without_compactions(first, steps);
    lemma_without_compactions(in_order(last.round_items));
}

/// Whether a step ends a round that asks for tools.
pub open spec fn asks(machine: MachineView, step: Step) -> bool {
    step is Finish && (finished(machine).1 matches Ok(ActionView::ToolCalls { .. }))
}

/// How many of the steps end a round that asks for tools.
pub open spec fn times_asked(machine: MachineView, steps: Seq<Step>) -> nat
    decreases steps.len(),
{
    if steps.len() == 0 {
        0
    } else {
        times_asked(machine, steps.drop_last()) + if asks(
            course(machine, steps.drop_last()),
            steps.last(),
        ) {
            1nat
        } else {
            0
        }
    }
}

/// The end of a round that asks for tools counts one, nothing else counts, and the
/// result of a response says how often tools were asked for.
pub proof fn every_round_with_tools_counts_once(machine: MachineView, step: Step)
    requires
        machine.tool_roundtrips < 255 || !asks(machine, step),
    ensures
        stepped(machine, step).tool_roundtrips == machine.tool_roundtrips + if asks(machine, step) {
            1int
        } else {
            0
        },
        finished(machine).1 matches Ok(ActionView::Completed { result }) ==> result.tool_roundtrips
            == machine.tool_roundtrips,
{
}

/// After any steps the count has grown by as many rounds as asked for tools.
pub proof fn rounds_with_tools_are_counted(machine: MachineView, steps: Seq<Step>)
    requires
        machine.tool_roundtrips + times_asked(machine, steps) <= 255,
    ensures
        course(machine, steps).tool_roundtrips == machine.tool_roundtrips + times_asked(
            machine,
            steps,
        ),
    decreases steps.len(),
{
    if steps.len() > 0 {
        rounds_with_tools_are_counted(machine, steps.drop_last());
        every_round_with_tools_counts_once(course(machine, steps.drop_last()), steps.last());
    }
}

/// A round with one item: the event that brings it, and the event that ends it.
pub struct OneItemRound {
    pub item: JsonView,
    pub end: JsonView,
}

/// Whether the round is what its events say: an item, and its end.
pub open spec fn is_one_item_round(round: OneItemRound) -> bool {
    &&& or_empty(text_field(round.item, "type"@)) == "response.output_item.done"@
    &&& field(round.item, "item"@) matches Some(JsonView::Object(_))
    &&& or_empty(text_field(round.end, "type"@)) == "response.completed"@
}

/// The item of a round.
pub open spec fn item_of(round: OneItemRound) -> ObjectView {
    field(round.item, "item"@)->0->Object_0
}

/// A round that asks for one tool, by a call that can be read.
pub open spec fn is_tool_round(round: OneItemRound) -> bool {
    is_one_item_round(round) && is_function_call(item_of(round)) && tool_call(item_of(round)) is Ok
}

/// A round in which only a message comes.
pub open spec fn is_message_round(round: OneItemRound) -> bool {
    is_one_item_round(round) && text_member(item_of(round), "type"@) == Some("message"@)
}

/// The state after the events of a round.
pub open spec fn with_round(machine: MachineView, round: OneItemRound) -> MachineView {
    ingested(ingested(machine, round.item).0, round.end).0
}

/// The state after rounds that were each ended and followed by outputs of tools.
pub open spec fn after_tool_rounds(
    machine: MachineView,
    rounds: Seq<(OneItemRound, Seq<ToolOutputView>)>,
) -> MachineView
    decreases rounds.len(),
{
    if rounds.len() == 0 {
        machine
    } else {
        let before = after_tool_rounds(machine, rounds.drop_last());
        submitted(finished(with_round(before, rounds.last().0)).0, rounds.last().1).0
    }
}

/// Whether a response waits for the events of a round.
pub open spec fn awaits_round(machine: MachineView) -> bool {
    &&& !machine.completed
    &&& machine.round_items.len() == 0
    &&& machine.round_kind == RoundKind::Response
    &&& machine.round_server_compaction_index is None
}

/// A new response waits for its first round and has not asked for tools.
pub proof fn a_new_response_awaits_its_first_round(registry: RegistryView, request: RequestView)
    ensures
        started(registry, request) matches Ok(machine) ==> awaits_round(machine)
            && machine.tool_roundtrips == 0,
{
}

proof fn lemma_one_item(machine: MachineView, round: OneItemRound)
    requires
        awaits_round(machine),
        is_one_item_round(round),
        !named_compaction(item_of(round)),
    ensures
        ({
            let heard = with_round(machine, round);
            &&& in_order(heard.round_items) == seq![item_of(round)]
            &&& heard.round_completed && !heard.completed
            &&& heard.round_kind == RoundKind::Response
            &&& heard.round_server_compaction_index is None
            &&& heard.tool_roundtrips == machine.tool_roundtrips
        }),
{
    reveal_strlit("response.output_item.done");
    reveal_strlit("response.output_text.delta");
    reveal_strlit("response.completed");
    reveal_strlit("response.image_generation_call.partial_image");
    assert("response.output_item.done"@.len() != "response.output_text.delta"@.len());
    assert("response.completed"@.len() != "response.output_text.delta"@.len());
    assert("response.completed"@.len() != "response.output_item.done"@.len());
    assert("response.completed"@.len()
        != "response.image_generation_call.partial_image"@.len());
    let taken = ingested(machine, round.item).0;
    assert(taken.round_items == seq![(output_index(round.item), item_of(round))]);
    assert(in_order(with_round(machine, round).round_items) =~= seq![item_of(round)]);
}

proof fn lemma_tool_round(machine: MachineView, round: OneItemRound, outputs: Seq<ToolOutputView>)
    requires
        awaits_round(machine),
        machine.tool_roundtrips < 255,
        is_tool_round(round),
    ensures
        finished(with_round(machine, round)).1 == Ok::<ActionView, ErrorView>(
            ActionView::ToolCalls { calls: seq![tool_call(item_of(round))->Ok_0] },
        ),
        ({
            let after = submitted(finished(with_round(machine, round)).0, outputs).0;
            awaits_round(after) && after.tool_roundtrips == machine.tool_roundtrips + 1
        }),
{
    reveal_strlit("function_call");
    reveal_strlit("compaction");
    assert("function_call"@.len() != "compaction"@.len());
    lemma_one_item(machine, round);
    let items = seq![item_of(round)];
    assert(items.drop_last() =~= Seq::empty());
    reveal_with_fuel(tool_calls, 2);
    assert(tool_calls(items)->Ok_0 =~= seq![tool_call(item_of(round))->Ok_0]);
}

proof fn lemma_message_round(machine: MachineView, round: OneItemRound)
    requires
        awaits_round(machine),
        is_message_round(round),
    ensures
        finished(with_round(machine, round)).0.completed,
        finished(with_round(machine, round)).1 matches Ok(ActionView::Completed { result })
            && result.tool_roundtrips == machine.tool_roundtrips,
{
    reveal_strlit("message");
    reveal_strlit("function_call");
    reveal_strlit("compaction");
    assert("message"@.len() != "compaction"@.len());
    assert("message"@.len() != "function_call"@.len());
    lemma_one_item(machine, round);
    let items = seq![item_of(round)];
    assert(items.drop_last() =~= Seq::empty());
    reveal_with_fuel(tool_calls, 2);
}

proof fn lemma_tool_rounds(
    machine: MachineView,
    rounds: Seq<(OneItemRound, Seq<ToolOutputView>)>,
)
    requires
        awaits_round(machine),
        machine.tool_roundtrips + rounds.len() <= 255,
        forall|i: int| 0 <= i < rounds.len() ==> is_tool_round((#[trigger] rounds[i]).0),
    ensures
        awaits_round(after_tool_rounds(machine, rounds)),
        after_tool_rounds(machine, rounds).tool_roundtrips == machine.tool_roundtrips
            + rounds.len(),
    decreases rounds.len(),
{
    if rounds.len() > 0 {
        let earlier = rounds.drop_last();
        assert forall|i: int| 0 <= i < earlier.len() implies is_tool_round(
            (#[trigger] earlier[i]).0,
        ) by {
            assert(earlier[i] == rounds[i]);
        }
        lemma_tool_rounds(machine, earlier);
        assert(is_tool_round(rounds[rounds.len() - 1].0));
        lemma_tool_round(
            after_tool_rounds(machine, earlier),
            rounds.last().0,
            rounds.last().1,
        );
    }
}

/// As many rounds as can be counted may ask for a tool, one after the other: each
/// ends with its call. A round with a message then completes the response, which
/// says how many they were, and after it nothing is accepted any more.
pub proof fn any_countable_number_of_tool_rounds_is_permitted(
    machine: MachineView,
    rounds: Seq<(OneItemRound, Seq<ToolOutputView>)>,
    closing: OneItemRound,
    outputs: Seq<ToolOutputView>,
)
    requires
        awaits_round(machine),
        machine.tool_roundtrips + rounds.len() <= 255,
        forall|i: int| 0 <= i < rounds.len() ==> is_tool_round((#[trigger] rounds[i]).0),
        is_message_round(closing),
    ensures
        forall|i: int|
            0 <= i < rounds.len() ==> finished(
                with_round(after_tool_rounds(machine, rounds.take(i)), (#[trigger] rounds[i]).0),
            ).1 == Ok::<ActionView, ErrorView>(
                ActionView::ToolCalls { calls: seq![tool_call(item_of(rounds[i].0))->Ok_0] },
            ),
        ({
            let (done, next) = finished(with_round(after_tool_rounds(machine, rounds), closing));
            &&& next matches Ok(ActionView::Completed { result }) && result.tool_roundtrips
                == machine.tool_roundtrips + rounds.len()
            &&& wired(done) is Err && wired(done)->Err_0 == already_complete()
            &&& finished(done) == (done, Err::<ActionView, ErrorView>(already_complete()))
            &&& submitted(done, outputs) == (
                done,
                Err::<Seq<EventView>, ErrorView>(already_complete()),
            )
        }),
{
    assert forall|i: int| 0 <= i < rounds.len() implies finished(
        with_round(after_tool_rounds(machine, rounds.take(i)), (#[trigger] rounds[i]).0),
    ).1 == Ok::<ActionView, ErrorView>(
        ActionView::ToolCalls { calls: seq![tool_call(item_of(rounds[i].0))->Ok_0] },
    ) by {
        let earlier = rounds.take(i);
        assert forall|k: int| 0 <= k < earlier.len() implies is_tool_round(
            (#[trigger] earlier[k]).0,
        ) by {
            assert(earlier[k] == rounds[k]);
        }
        lemma_tool_rounds(machine, earlier);
        lemma_tool_round(after_tool_rounds(machine, earlier), rounds[i].0, rounds[i].1);
    }
    lemma_tool_rounds(machine, rounds);
    let before = after_tool_rounds(machine, rounds);
    lemma_message_round(before, closing);
    a_complete_response_is_final(finished(with_round(before, closing)).0, outputs);
}

} // verus!
