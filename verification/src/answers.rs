//! What comes of the answers to a request for a response.
use vstd::prelude::*;

#[allow(unused_imports)]
use crate::error::ErrorView;
#[allow(unused_imports)]
use crate::json::{
    field, json_text, or_empty, parsed_json, text_field, JsonView, NumberView, ObjectView,
};
#[allow(unused_imports)]
use crate::machine::{
    asks_for_tools, finished, in_order, ingested, is_function_call, lemma_calls_are_asked_for,
    output_index, placed, submitted, tool_calls, MachineView, RoundKind,
};
#[allow(unused_imports)]
use crate::ordered::{find, found_after_put};
#[allow(unused_imports)]
use crate::response::{
    assistant_texts, failure_object, is_message_role, message_item, output_text, part_texts,
    tool_call, tool_output, usage_of, ActionView, EventView, ToolOutputView,
};
#[allow(unused_imports)]
use crate::text::{joined, trimmed};

verus! {

/// An item that asks for the tool `name` under the id `call_id`, with the text of
/// its arguments.
pub open spec fn asked(name: Seq<char>, call_id: Seq<char>, arguments: Seq<char>) -> ObjectView {
    seq![
        ("arguments"@, JsonView::Text(arguments)),
        ("call_id"@, JsonView::Text(call_id)),
        ("name"@, JsonView::Text(name)),
        ("type"@, JsonView::Text("function_call"@)),
    ]
}

proof fn lemma_asked(name: Seq<char>, call_id: Seq<char>, arguments: Seq<char>)
    ensures
        find(asked(name, call_id, arguments), "arguments"@) == Some(JsonView::Text(arguments)),
        find(asked(name, call_id, arguments), "call_id"@) == Some(JsonView::Text(call_id)),
        find(asked(name, call_id, arguments), "name"@) == Some(JsonView::Text(name)),
        find(asked(name, call_id, arguments), "type"@) == Some(JsonView::Text("function_call"@)),
{
    reveal_strlit("arguments");
    reveal_strlit("call_id");
    reveal_strlit("name");
    reveal_strlit("type");
    assert("arguments"@.len() == 9);
    assert("call_id"@.len() == 7);
    assert("name"@.len() == 4 && "name"@[0] == 'n');
    assert("type"@.len() == 4 && "type"@[0] == 't');
    let item = asked(name, call_id, arguments);
    reveal_with_fuel(find, 5);
    assert(item.drop_first()[0] == item[1]);
    assert(item.drop_first().drop_first()[0] == item[2]);
    assert(item.drop_first().drop_first().drop_first()[0] == item[3]);
}

/// A call is handed over under the name and the id that it was asked for with, and
/// with the arguments that its text writes. No text is an object without members;
/// a text that writes anything but an object is no call.
pub proof fn a_call_is_handed_over_as_it_was_asked_for(
    name: Seq<char>,
    call_id: Seq<char>,
    arguments: Seq<char>,
)
    ensures
        match tool_call(asked(name, call_id, arguments)) {
            Ok(call) => {
                &&& call.name == name
                &&& call.call_id == call_id
                &&& call.arguments is Object
                &&& arguments.len() == 0 ==> call.arguments == JsonView::Object(Seq::empty())
                &&& arguments.len() > 0 ==> parsed_json(arguments) == Ok::<JsonView, Seq<char>>(
                    call.arguments,
                )
            },
            Err(error) => arguments.len() > 0 && error is FunctionArguments && !(parsed_json(
                arguments,
            ) matches Ok(JsonView::Object(_))),
        },
{
    lemma_asked(name, call_id, arguments);
}

/// Whatever else an item holds, its call has the name and the id that stand in it.
pub proof fn a_call_has_the_name_of_its_item(item: ObjectView, name: Seq<char>, call_id: Seq<char>)
    requires
        find(item, "name"@) == Some(JsonView::Text(name)),
        find(item, "call_id"@) == Some(JsonView::Text(call_id)),
    ensures
        tool_call(item) matches Ok(call) ==> call.name == name && call.call_id == call_id,
        find(item, "arguments"@) is None || find(item, "arguments"@) == Some(JsonView::Null)
            ==> (tool_call(item) matches Ok(call) && call.arguments == JsonView::Object(
            Seq::empty(),
        )),
{
}

/// The calls of a round are handed to the host one for one and in order, each
/// under its own name and id.
pub proof fn the_host_is_handed_every_call_in_order(
    machine: MachineView,
    names: Seq<Seq<char>>,
    call_ids: Seq<Seq<char>>,
)
    requires
        names.len() > 0,
        names.len() == call_ids.len(),
        !machine.completed,
        machine.round_completed,
        machine.round_kind == RoundKind::Response,
        machine.round_server_compaction_index is None,
        in_order(machine.round_items) == Seq::new(
            names.len(),
            |i: int| asked(names[i], call_ids[i], Seq::empty()),
        ),
    ensures
        finished(machine).1 matches Ok(ActionView::ToolCalls { calls }) && calls.len()
            == names.len() && forall|i: int|
            0 <= i < names.len() ==> (#[trigger] calls[i]).name == names[i] && calls[i].call_id
                == call_ids[i],
{
    let items = in_order(machine.round_items);
    lemma_calls_in_order(items, names, call_ids);
}

proof fn lemma_calls_in_order(
    items: Seq<ObjectView>,
    names: Seq<Seq<char>>,
    call_ids: Seq<Seq<char>>,
)
    requires
        names.len() == call_ids.len(),
        items == Seq::new(names.len(), |i: int| asked(names[i], call_ids[i], Seq::empty())),
    ensures
        tool_calls(items) matches Ok(calls) && calls.len() == names.len() && forall|i: int|
            0 <= i < names.len() ==> (#[trigger] calls[i]).name == names[i] && calls[i].call_id
                == call_ids[i],
    decreases names.len(),
{
    if names.len() > 0 {
        let earlier = items.drop_last();
        assert(earlier =~= Seq::new(
            (names.len() - 1) as nat,
            |i: int| asked(names.drop_last()[i], call_ids.drop_last()[i], Seq::empty()),
        ));
        lemma_calls_in_order(earlier, names.drop_last(), call_ids.drop_last());
        lemma_asked(names.last(), call_ids.last(), Seq::empty());
        assert(items.last() == asked(names.last(), call_ids.last(), Seq::empty()));
        let before = tool_calls(earlier)->Ok_0;
        let calls = tool_calls(items)->Ok_0;
        assert(calls == before.push(tool_call(items.last())->Ok_0));
        assert forall|i: int| 0 <= i < names.len() implies (#[trigger] calls[i]).name == names[i]
            && calls[i].call_id == call_ids[i] by {
            if i < names.len() - 1 {
                assert(calls[i] == before[i]);
                assert(names[i] == names.drop_last()[i]);
                assert(call_ids[i] == call_ids.drop_last()[i]);
            }
        }
    }
}

/// What is no call does not change the calls of a round, wherever it stands.
pub proof fn only_calls_are_handed_over(
    before: Seq<ObjectView>,
    item: ObjectView,
    after: Seq<ObjectView>,
)
    requires
        find(item, "type"@) != Some(JsonView::Text("function_call"@)),
    ensures
        tool_calls(before.push(item) + after) == tool_calls(before + after),
    decreases after.len(),
{
    let longer = before.push(item) + after;
    let shorter = before + after;
    if after.len() == 0 {
        assert(longer =~= before.push(item));
        assert(shorter =~= before);
        assert(longer.drop_last() =~= before);
    } else {
        assert(longer.drop_last() =~= before.push(item) + after.drop_last());
        assert(shorter.drop_last() =~= before + after.drop_last());
        only_calls_are_handed_over(before, item, after.drop_last());
    }
}

/// A piece of text is told as it comes and changes nothing else.
pub proof fn a_piece_of_text_is_told_as_it_comes(
    machine: MachineView,
    event: JsonView,
    delta: Seq<char>,
)
    requires
        machine.round_kind == RoundKind::Response,
        field(event, "type"@) == Some(JsonView::Text("response.output_text.delta"@)),
        field(event, "delta"@) == Some(JsonView::Text(delta)),
        delta.len() > 0,
    ensures
        ingested(machine, event) == (
            machine,
            Ok::<Seq<EventView>, ErrorView>(seq![EventView::TextDelta { delta }]),
        ),
{
}

/// A finished item is told with its index, and stands in the round under it.
pub proof fn a_finished_item_is_told_and_kept(
    machine: MachineView,
    event: JsonView,
    item: ObjectView,
    index: u64,
)
    requires
        machine.round_kind == RoundKind::Response,
        field(event, "type"@) == Some(JsonView::Text("response.output_item.done"@)),
        field(event, "item"@) == Some(JsonView::Object(item)),
        field(event, "output_index"@) == Some(JsonView::Number(NumberView::PosInt(index))),
        index <= usize::MAX,
        find(item, "type"@) != Some(JsonView::Text("compaction"@)),
    ensures
        ingested(machine, event).1 == Ok::<Seq<EventView>, ErrorView>(
            seq![EventView::OutputItem { output_index: index as usize, item }],
        ),
        ingested(machine, event).0.round_items == placed(
            machine.round_items,
            index as usize,
            item,
        ),
{
    reveal_strlit("response.output_item.done");
    reveal_strlit("response.output_text.delta");
    assert("response.output_item.done"@.len() == 25);
    assert("response.output_text.delta"@.len() == 26);
}

/// An event that ends a response without a result is an error and changes nothing.
pub proof fn a_failed_response_is_an_error(machine: MachineView, event: JsonView)
    requires
        field(event, "type"@) == Some(JsonView::Text("response.failed"@)) || field(event, "type"@)
            == Some(JsonView::Text("response.incomplete"@)),
    ensures
        ingested(machine, event).0 == machine,
        ingested(machine, event).1 matches Err(error) && error is Event,
{
    reveal_strlit("response.output_item.done");
    reveal_strlit("response.output_text.delta");
    reveal_strlit("response.failed");
    reveal_strlit("response.incomplete");
    reveal_strlit("response.completed");
    reveal_strlit("response.image_generation_call.partial_image");
    assert("response.output_item.done"@.len() == 25);
    assert("response.output_text.delta"@.len() == 26);
    assert("response.failed"@.len() == 15);
    assert("response.incomplete"@.len() == 19);
    assert("response.completed"@.len() == 18);
    assert("response.image_generation_call.partial_image"@.len() == 44);
}

/// A preview of an image is told with its number and its bytes.
pub proof fn a_preview_is_told_with_its_number(
    machine: MachineView,
    event: JsonView,
    index: u64,
    bytes: Seq<char>,
)
    requires
        field(event, "type"@) == Some(
            JsonView::Text("response.image_generation_call.partial_image"@),
        ),
        field(event, "partial_image_index"@) == Some(JsonView::Number(NumberView::PosInt(index))),
        field(event, "partial_image_b64"@) == Some(JsonView::Text(bytes)),
        bytes.len() > 0,
    ensures
        ingested(machine, event).0 == machine,
        index < 256 ==> ingested(machine, event).1 == Ok::<Seq<EventView>, ErrorView>(
            seq![
                EventView::ImageGenerationPartial {
                    partial_image_index: index as u8,
                    partial_image_base64: bytes,
                },
            ],
        ),
        index >= 256 ==> ingested(machine, event).1 is Err,
{
    reveal_strlit("response.output_item.done");
    reveal_strlit("response.output_text.delta");
    reveal_strlit("response.image_generation_call.partial_image");
    assert("response.output_item.done"@.len() == 25);
    assert("response.output_text.delta"@.len() == 26);
    assert("response.image_generation_call.partial_image"@.len() == 44);
}

/// What a provider reports of the tokens is taken number by number; where it says
/// nothing of a cache, none was used.
pub proof fn reported_tokens_are_taken_number_by_number(
    report: JsonView,
    input: u64,
    output: u64,
    total: u64,
)
    requires
        field(report, "input_tokens"@) == Some(JsonView::Number(NumberView::PosInt(input))),
        field(report, "output_tokens"@) == Some(JsonView::Number(NumberView::PosInt(output))),
        field(report, "total_tokens"@) == Some(JsonView::Number(NumberView::PosInt(total))),
    ensures
        usage_of(report) matches Some(usage) && {
            &&& usage.input_tokens == input
            &&& usage.output_tokens == output
            &&& usage.total_tokens == total
            &&& match field(report, "input_tokens_details"@) {
                Some(details) => {
                    &&& field(details, "cached_tokens"@) matches Some(
                        JsonView::Number(NumberView::PosInt(cached)),
                    ) ==> usage.cached_input_tokens == cached
                    &&& field(details, "cache_write_tokens"@) matches Some(
                        JsonView::Number(NumberView::PosInt(written)),
                    ) ==> usage.cache_write_input_tokens == written
                    &&& field(details, "cached_tokens"@) is None ==> usage.cached_input_tokens == 0
                    &&& field(details, "cache_write_tokens"@) is None
                        ==> usage.cache_write_input_tokens == 0
                },
                None => usage.cached_input_tokens == 0 && usage.cache_write_input_tokens == 0,
            }
        },
{
}

/// A report that lacks one of the three numbers is none.
pub proof fn an_incomplete_report_is_none(report: JsonView)
    ensures
        field(report, "input_tokens"@) is None || field(report, "output_tokens"@) is None || field(
            report,
            "total_tokens"@,
        ) is None ==> usage_of(report) is None,
{
}

/// The id and the usage that the last event of a stream reports are those of the
/// result.
pub proof fn the_result_has_the_id_and_usage_of_its_last_event(
    machine: MachineView,
    event: JsonView,
    response: JsonView,
    id: Seq<char>,
    usage: JsonView,
)
    requires
        machine.round_kind == RoundKind::Response,
        field(event, "type"@) == Some(JsonView::Text("response.completed"@)),
        field(event, "response"@) == Some(response),
        field(response, "id"@) == Some(JsonView::Text(id)),
        field(response, "usage"@) == Some(usage),
    ensures
        ingested(machine, event).1 == Ok::<Seq<EventView>, ErrorView>(Seq::empty()),
        finished(ingested(machine, event).0).1 matches Ok(ActionView::Completed { result })
            ==> result.response_id == Some(id) && result.usage == usage_of(usage) && result.model
            == machine.model,
{
    reveal_strlit("response.output_item.done");
    reveal_strlit("response.output_text.delta");
    reveal_strlit("response.completed");
    reveal_strlit("response.image_generation_call.partial_image");
    assert("response.output_item.done"@.len() == 25);
    assert("response.output_text.delta"@.len() == 26);
    assert("response.completed"@.len() == 18);
    assert("response.image_generation_call.partial_image"@.len() == 44);
}

/// A message of the assistant with one text.
pub open spec fn said(text: Seq<char>) -> ObjectView {
    seq![
        ("content"@, JsonView::Text(text)),
        ("role"@, JsonView::Text("assistant"@)),
        ("type"@, JsonView::Text("message"@)),
    ]
}

proof fn lemma_said(text: Seq<char>)
    ensures
        find(said(text), "content"@) == Some(JsonView::Text(text)),
        find(said(text), "role"@) == Some(JsonView::Text("assistant"@)),
        find(said(text), "type"@) == Some(JsonView::Text("message"@)),
{
    reveal_strlit("content");
    reveal_strlit("role");
    reveal_strlit("type");
    assert("content"@.len() == 7);
    assert("role"@.len() == 4 && "role"@[0] == 'r');
    assert("type"@.len() == 4 && "type"@[0] == 't');
    let item = said(text);
    reveal_with_fuel(find, 4);
    assert(item.drop_first()[0] == item[1]);
    assert(item.drop_first().drop_first()[0] == item[2]);
}

/// The text of a result is what the assistant said, without blanks at its ends;
/// what it said in several messages stands on several lines.
pub proof fn the_text_is_what_the_assistant_said(first: Seq<char>, second: Seq<char>)
    requires
        first.len() > 0,
        second.len() > 0,
    ensures
        output_text(seq![said(first)]) == trimmed(first),
        output_text(seq![said(first), said(second)]) == trimmed(first + "\n"@ + second),
        output_text(Seq::empty()) == Seq::<char>::empty(),
{
    lemma_said(first);
    lemma_said(second);
    reveal_with_fuel(assistant_texts, 3);
    reveal_with_fuel(joined, 3);
    let one = seq![said(first)];
    let two = seq![said(first), said(second)];
    assert(one.drop_last() =~= Seq::empty());
    assert(two.drop_last() =~= one);
    assert(two.last() == said(second));
    assert(assistant_texts(one) =~= seq![first]);
    assert(assistant_texts(two) =~= seq![first, second]);
    assert(assistant_texts(two).drop_last() =~= seq![first]);
    assert(trimmed(Seq::empty()) =~= Seq::<char>::empty());
}

/// Every message of the assistant that says something adds its text at the end;
/// what is no message, or another's, adds nothing.
pub proof fn only_the_assistant_is_heard(items: Seq<ObjectView>, item: ObjectView, text: Seq<char>)
    ensures
        text.len() > 0 ==> assistant_texts(items.push(said(text))) == assistant_texts(items).push(
            text,
        ),
        find(item, "type"@) != Some(JsonView::Text("message"@)) || find(item, "role"@) != Some(
            JsonView::Text("assistant"@),
        ) ==> assistant_texts(items.push(item)) == assistant_texts(items),
{
    lemma_said(text);
    assert(items.push(said(text)).drop_last() =~= items);
    assert(items.push(item).drop_last() =~= items);
}

/// What a tool gave back goes to the model under the id of its call: its content
/// where it has one, else its result as JSON text. The host is told of it.
pub proof fn an_output_answers_its_call(
    machine: MachineView,
    outputs: Seq<ToolOutputView>,
    i: int,
)
    requires
        !machine.completed,
        0 <= i < outputs.len(),
    ensures
        ({
            let (after, told) = submitted(machine, outputs);
            let item = after.running_input[machine.running_input.len() + i];
            &&& after.running_input.len() == machine.running_input.len() + outputs.len()
            &&& after.response_items[machine.response_items.len() + i] == item
            &&& after.accumulated_items[machine.accumulated_items.len() + i] == item
            &&& find(item, "type"@) == Some(JsonView::Text("function_call_output"@))
            &&& find(item, "call_id"@) == Some(JsonView::Text(outputs[i].call_id))
            &&& find(item, "output"@) == Some(
                match outputs[i].content {
                    Some(content) => content,
                    None => JsonView::Text(json_text(outputs[i].result)),
                },
            )
            &&& told matches Ok(events)
            &&& events.len() == outputs.len()
            &&& events[i] == (EventView::ToolCallCompleted {
                name: Seq::empty(),
                call_id: outputs[i].call_id,
                result: outputs[i].result,
                output_item: item,
            })
        }),
{
    broadcast use found_after_put;

    reveal_strlit("type");
    reveal_strlit("call_id");
    reveal_strlit("output");
    assert("type"@.len() == 4);
    assert("call_id"@.len() == 7);
    assert("output"@.len() == 6);
}

/// What a host hands over for a tool: an envelope with a result and its content,
/// one with a result alone, or the result itself.
pub proof fn an_envelope_is_opened(call_id: Seq<char>, value: JsonView)
    ensures
        tool_output(call_id, value).call_id == call_id,
        field(value, "type"@) == Some(JsonView::Text("content"@)) ==> tool_output(
            call_id,
            value,
        ).content == field(value, "content"@),
        field(value, "type"@) != Some(JsonView::Text("content"@)) ==> tool_output(
            call_id,
            value,
        ).content is None,
        field(value, "type"@) == Some(JsonView::Text("content"@)) || field(value, "type"@) == Some(
            JsonView::Text("json"@),
        ) ==> tool_output(call_id, value).result == match field(value, "result"@) {
            Some(result) => result,
            None => JsonView::Null,
        },
        field(value, "type"@) != Some(JsonView::Text("content"@)) && field(value, "type"@) != Some(
            JsonView::Text("json"@),
        ) ==> tool_output(call_id, value).result == value,
{
}

/// A tool that failed says so, and why.
pub proof fn a_failure_says_why(call_id: Seq<char>, error: Seq<char>)
    ensures
        ({
            let output = tool_output(call_id, JsonView::Object(failure_object(error)));
            &&& output.call_id == call_id
            &&& output.content is None
            &&& field(output.result, "ok"@) == Some(JsonView::Bool(false))
            &&& field(output.result, "error"@) == Some(JsonView::Text(error))
        }),
{
    broadcast use found_after_put;

    reveal_strlit("ok");
    reveal_strlit("error");
    reveal_strlit("type");
    reveal_strlit("result");
    assert("ok"@.len() == 2);
    assert("error"@.len() == 5);
    assert("type"@.len() == 4);
    assert("result"@.len() == 6);
}

/// A message holds who speaks and what is said.
pub proof fn a_message_says_who_speaks(role: Seq<char>, text: Seq<char>)
    ensures
        find(message_item(role, text), "type"@) == Some(JsonView::Text("message"@)),
        find(message_item(role, text), "role"@) == Some(JsonView::Text(role)),
        find(message_item(role, text), "content"@) == Some(JsonView::Text(text)),
{
    broadcast use found_after_put;

    reveal_strlit("type");
    reveal_strlit("role");
    reveal_strlit("content");
    assert("type"@.len() == 4 && "type"@[0] == 't');
    assert("role"@.len() == 4 && "role"@[0] == 'r');
    assert("content"@.len() == 7);
}

/// A round asks for tools where one of its items is a call: then, and only then, its
/// end hands calls to the host, and otherwise the response is complete.
pub proof fn a_round_with_a_call_does_not_complete(machine: MachineView)
    requires
        machine.round_kind == RoundKind::Response,
    ensures
        finished(machine).1 matches Ok(ActionView::ToolCalls { calls }) ==> asks_for_tools(machine)
            && calls.len() > 0,
        finished(machine).1 matches Ok(ActionView::Completed { .. }) ==> !asks_for_tools(machine),
        asks_for_tools(machine) <==> exists|i: int|
            0 <= i < machine.round_items.len() && find(
                (#[trigger] machine.round_items[i]).1,
                "type"@,
            ) == Some(JsonView::Text("function_call"@)),
{
    let items = in_order(machine.round_items);
    lemma_calls_are_asked_for(items);
    if asks_for_tools(machine) {
        let i = choose|i: int|
            0 <= i < machine.round_items.len() && is_function_call(
                #[trigger] machine.round_items[i].1,
            );
        assert(is_function_call(items[i]));
        assert(find((machine.round_items[i]).1, "type"@) == Some(JsonView::Text("function_call"@)));
    }
    if exists|i: int| 0 <= i < items.len() && is_function_call(#[trigger] items[i]) {
        let i = choose|i: int| 0 <= i < items.len() && is_function_call(#[trigger] items[i]);
        assert(is_function_call(machine.round_items[i].1));
    }
}

/// The last event of a stream may hold the response or be it; an item without an
/// index stands first.
pub proof fn an_event_may_be_the_response_itself(
    machine: MachineView,
    event: JsonView,
    id: Seq<char>,
    usage: JsonView,
)
    requires
        field(event, "type"@) == Some(JsonView::Text("response.completed"@)),
        field(event, "response"@) is None,
        field(event, "id"@) == Some(JsonView::Text(id)),
        field(event, "usage"@) == Some(usage),
    ensures
        ingested(machine, event).0.round_completed,
        ingested(machine, event).0.round_response_id == Some(id),
        ingested(machine, event).0.round_usage == usage_of(usage),
        ingested(machine, event).0.round_items == machine.round_items,
        output_index(event) == 0 || field(event, "output_index"@) is Some,
{
    reveal_strlit("response.output_item.done");
    reveal_strlit("response.output_text.delta");
    reveal_strlit("response.completed");
    reveal_strlit("response.image_generation_call.partial_image");
    assert("response.output_item.done"@.len() == 25);
    assert("response.output_text.delta"@.len() == 26);
    assert("response.completed"@.len() == 18);
    assert("response.image_generation_call.partial_image"@.len() == 44);
}

/// An event that is not known changes nothing and tells nothing.
pub proof fn an_unknown_event_changes_nothing(machine: MachineView, event: JsonView)
    requires
        ({
            let kind = or_empty(text_field(event, "type"@));
            kind != "response.output_text.delta"@ && kind != "response.output_item.done"@ && kind
                != "response.image_generation_call.partial_image"@ && kind != "response.completed"@
                && kind != "response.incomplete"@ && kind != "response.failed"@
        }),
    ensures
        ingested(machine, event) == (machine, Ok::<Seq<EventView>, ErrorView>(Seq::empty())),
{
}

/// A message can be the user's, the assistant's, the system's or the developer's.
pub proof fn a_message_has_one_of_four_speakers(role: Seq<char>)
    ensures
        is_message_role(role) <==> role == "user"@ || role == "assistant"@ || role == "system"@
            || role == "developer"@,
{
}

/// The text of a message in parts is the texts of its parts, one to a line.
pub proof fn the_text_of_parts_is_their_lines(
    items: Seq<ObjectView>,
    item: ObjectView,
    parts: Seq<JsonView>,
    a: Seq<char>,
    b: Seq<char>,
)
    requires
        find(item, "type"@) == Some(JsonView::Text("message"@)),
        find(item, "role"@) == Some(JsonView::Text("assistant"@)),
        find(item, "content"@) == Some(JsonView::List(parts)),
        parts.len() == 2,
        field(parts[0], "text"@) == Some(JsonView::Text(a)),
        field(parts[1], "text"@) == Some(JsonView::Text(b)),
    ensures
        assistant_texts(items.push(item)) == assistant_texts(items).push(a + "\n"@ + b),
{
    reveal_strlit("\n");
    assert(items.push(item).drop_last() =~= items);
    reveal_with_fuel(part_texts, 3);
    reveal_with_fuel(joined, 3);
    let one = parts.drop_last();
    assert(one[0] == parts[0]);
    assert(one.drop_last() =~= Seq::empty());
    assert(part_texts(one) =~= seq![a]);
    assert(part_texts(parts) =~= seq![a, b]);
    assert(seq![a, b].drop_last() =~= seq![a]);
}

} // verus!
