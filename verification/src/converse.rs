//! What a conversation keeps when it is held with Amazon Bedrock.
use vstd::prelude::*;

#[allow(unused_imports)]
use crate::auth::bedrock_context;
#[allow(unused_imports)]
use crate::bedrock::{
    all_told, appended, bedrock_body, bedrock_choice, bedrock_reasoning, bedrock_request, converse,
    converse_address, credentials_in, part_block, part_blocks, round_after, round_after_all,
    round_output, stream_events, told, tool_result_block, tool_spec, tool_specs, tool_use_block,
    BedrockRequestView, BedrockRoundView, StreamEventView,
};
#[allow(unused_imports)]
use crate::eventstream::FrameView;
#[allow(unused_imports)]
use crate::json::{
    field, json_text, number_field, parsed_json, text_field, text_member, JsonView, ObjectView,
};
#[allow(unused_imports)]
use crate::machine::MachineView;
#[allow(unused_imports)]
use crate::ordered::{find, found_after_put};
#[allow(unused_imports)]
use crate::providers::{env_text, ContextView, EnvironmentView};
#[allow(unused_imports)]
use crate::response::{part_texts, tool_call, EventView};
#[allow(unused_imports)]
use crate::text::{first_place, joined, stands_at};
#[allow(unused_imports)]
use crate::wording::what_was_put_to_a_text_is_taken_again;

verus! {

/// Whether a message is one of `role` with nothing but a text.
pub open spec fn says(message: JsonView, role: Seq<char>, text: Seq<char>) -> bool {
    &&& text_field(message, "role"@) == Some(role)
    &&& field(message, "content"@) matches Some(JsonView::List(blocks))
    &&& blocks.len() == 1
    &&& text_field(blocks[0], "text"@) == Some(text)
}

/// A message of a conversation with a text becomes one message of the same
/// speaker: the assistant's stays the assistant's, and what the system or the
/// developer says goes to the system. Any other speaker is the user.
pub proof fn a_message_keeps_its_speaker(
    input: Seq<ObjectView>,
    instructions: Seq<char>,
    item: ObjectView,
    text: Seq<char>,
)
    requires
        find(item, "type"@) == Some(JsonView::Text("message"@)),
        find(item, "content"@) == Some(JsonView::Text(text)),
    ensures
        ({
            let (system, messages) = converse(input, instructions);
            let (more_system, more) = converse(input.push(item), instructions);
            let role = text_member(item, "role"@);
            if role == Some("system"@) || role == Some("developer"@) {
                &&& more == messages
                &&& more_system.len() == system.len() + 1
                &&& more_system.drop_last() == system
                &&& text_field(more_system.last(), "text"@) == Some(text)
            } else {
                &&& more_system == system
                &&& more.len() == messages.len() + 1
                &&& more.drop_last() == messages
                &&& role == Some("assistant"@) ==> says(more.last(), "assistant"@, text)
                &&& role != Some("assistant"@) ==> says(more.last(), "user"@, text)
            }
        }),
{
    broadcast use found_after_put;

    reveal_strlit("role");
    reveal_strlit("content");
    reveal_strlit("text");
    reveal_strlit("system");
    reveal_strlit("developer");
    reveal_strlit("assistant");
    reveal_strlit("user");
    assert("role"@.len() == 4 && "role"@[0] == 'r');
    assert("content"@.len() == 7);
    assert("text"@.len() == 4 && "text"@[0] == 't');
    assert("system"@.len() == 6);
    assert("developer"@.len() == 9 && "developer"@[0] == 'd');
    assert("assistant"@.len() == 9 && "assistant"@[0] == 'a');
    assert("user"@.len() == 4 && "user"@[0] == 'u');
    assert(input.push(item).drop_last() =~= input);
    let (system, messages) = converse(input, instructions);
    let (more_system, more) = converse(input.push(item), instructions);
    assert(more.len() > messages.len() ==> more.drop_last() =~= messages);
    assert(more_system.len() > system.len() ==> more_system.drop_last() =~= system);
}

/// The instructions are the first thing that the system is told.
pub proof fn instructions_go_to_the_system(instructions: Seq<char>)
    ensures
        converse(Seq::empty(), instructions).1 == Seq::<JsonView>::empty(),
        instructions.len() == 0 ==> converse(Seq::empty(), instructions).0 == Seq::<
            JsonView,
        >::empty(),
        instructions.len() > 0 ==> converse(Seq::empty(), instructions).0.len() == 1
            && text_field(converse(Seq::empty(), instructions).0[0], "text"@) == Some(
            instructions,
        ),
{
    broadcast use found_after_put;

}

/// A text among the parts of a message becomes a block with that text, and what is
/// neither a text nor an image becomes none.
pub proof fn parts_become_blocks(parts: Seq<JsonView>, part: JsonView)
    ensures
        field(part, "text"@) matches Some(JsonView::Text(text)) ==> part_blocks(
            parts.push(part),
        ).len() == part_blocks(parts).len() + 1 && part_blocks(parts.push(part)).drop_last()
            == part_blocks(parts) && text_field(part_blocks(parts.push(part)).last(), "text"@)
            == Some(text),
        field(part, "text"@) is None && field(part, "image_url"@) is None ==> part_blocks(
            parts.push(part),
        ) == part_blocks(parts),
{
    broadcast use found_after_put;

    assert(parts.push(part).drop_last() =~= parts);
    assert(part_block(part) is Some ==> part_blocks(parts.push(part)).drop_last()
        =~= part_blocks(parts));
}

/// The last block of the last message.
pub open spec fn last_block(messages: Seq<JsonView>) -> JsonView {
    field(messages.last(), "content"@)->0->List_0.last()
}

/// The blocks of the last message.
pub open spec fn last_blocks(messages: Seq<JsonView>) -> Seq<JsonView> {
    field(messages.last(), "content"@)->0->List_0
}

/// Whether the last message is one of `role`, with blocks.
pub open spec fn last_is_of(messages: Seq<JsonView>, role: Seq<char>) -> bool {
    &&& messages.len() > 0
    &&& text_field(messages.last(), "role"@) == Some(role)
    &&& field(messages.last(), "content"@) matches Some(JsonView::List(_))
}

/// A block is put behind the others of `role`: into the last message where it is
/// of that role, else into a message of its own. Nothing else changes.
pub open spec fn comes_behind(before: Seq<JsonView>, after: Seq<JsonView>, role: Seq<char>) -> bool {
    &&& last_is_of(after, role)
    &&& if last_is_of(before, role) {
        &&& after.len() == before.len()
        &&& after.drop_last() == before.drop_last()
        &&& last_blocks(after).len() == last_blocks(before).len() + 1
        &&& last_blocks(after).drop_last() == last_blocks(before)
    } else {
        &&& after.len() == before.len() + 1
        &&& after.drop_last() == before
        &&& last_blocks(after).len() == 1
    }
}

/// A block that is put behind the others of a role is the last one of that role.
pub proof fn a_block_comes_behind_the_others(
    messages: Seq<JsonView>,
    role: Seq<char>,
    block: JsonView,
)
    ensures
        comes_behind(messages, appended(messages, role, block), role),
        last_block(appended(messages, role, block)) == block,
{
    broadcast use found_after_put;

    reveal_strlit("role");
    reveal_strlit("content");
    assert("role"@.len() == 4);
    assert("content"@.len() == 7);
    let after = appended(messages, role, block);
    if last_is_of(messages, role) {
        assert(after.drop_last() =~= messages.drop_last());
        assert(last_blocks(after).drop_last() =~= last_blocks(messages));
    } else {
        assert(after.drop_last() =~= messages);
    }
}

/// A call is the assistant's: under its id and its name, with its arguments.
pub proof fn a_call_is_the_assistants(
    input: Seq<ObjectView>,
    instructions: Seq<char>,
    item: ObjectView,
    name: Seq<char>,
    call_id: Seq<char>,
)
    requires
        find(item, "type"@) == Some(JsonView::Text("function_call"@)),
        find(item, "name"@) == Some(JsonView::Text(name)),
        find(item, "call_id"@) == Some(JsonView::Text(call_id)),
    ensures
        ({
            let (system, messages) = converse(input, instructions);
            let (more_system, more) = converse(input.push(item), instructions);
            &&& more_system == system
            &&& comes_behind(messages, more, "assistant"@)
            &&& field(last_block(more), "toolUse"@) matches Some(call)
            &&& text_field(call, "toolUseId"@) == Some(call_id)
            &&& text_field(call, "name"@) == Some(name)
            &&& find(item, "arguments"@) is None ==> field(call, "input"@) == Some(
                JsonView::Object(Seq::empty()),
            )
            &&& find(item, "arguments"@) matches Some(JsonView::Text(raw)) ==> raw.len() > 0 ==> (
            parsed_json(raw) matches Ok(arguments) ==> field(call, "input"@) == Some(arguments))
        }),
{
    broadcast use found_after_put;

    reveal_strlit("message");
    reveal_strlit("function_call");
    reveal_strlit("toolUseId");
    reveal_strlit("name");
    reveal_strlit("input");
    assert("message"@.len() == 7);
    assert("function_call"@.len() == 13);
    assert("toolUseId"@.len() == 9);
    assert("name"@.len() == 4);
    assert("input"@.len() == 5);
    assert(input.push(item).drop_last() =~= input);
    a_block_comes_behind_the_others(
        converse(input, instructions).1,
        "assistant"@,
        tool_use_block(item),
    );
}

/// What a tool gave back is the user's: under the id of its call, with its text.
pub proof fn an_output_is_the_users(
    input: Seq<ObjectView>,
    instructions: Seq<char>,
    item: ObjectView,
    call_id: Seq<char>,
    output: JsonView,
)
    requires
        find(item, "type"@) == Some(JsonView::Text("function_call_output"@)),
        find(item, "call_id"@) == Some(JsonView::Text(call_id)),
        find(item, "output"@) == Some(output),
    ensures
        ({
            let (system, messages) = converse(input, instructions);
            let (more_system, more) = converse(input.push(item), instructions);
            &&& more_system == system
            &&& comes_behind(messages, more, "user"@)
            &&& field(last_block(more), "toolResult"@) matches Some(result)
            &&& text_field(result, "toolUseId"@) == Some(call_id)
            &&& field(result, "content"@) matches Some(JsonView::List(blocks))
            &&& blocks.len() == 1
            &&& text_field(blocks[0], "text"@) == Some(
                match output {
                    JsonView::Text(text) => text,
                    _ => json_text(output),
                },
            )
        }),
{
    broadcast use found_after_put;

    reveal_strlit("message");
    reveal_strlit("function_call");
    reveal_strlit("function_call_output");
    reveal_strlit("content");
    reveal_strlit("toolUseId");
    reveal_strlit("text");
    assert("message"@.len() == 7 && "message"@[0] == 'm');
    assert("function_call"@.len() == 13);
    assert("function_call_output"@.len() == 20);
    assert("content"@.len() == 7 && "content"@[0] == 'c');
    assert("toolUseId"@.len() == 9);
    assert("text"@.len() == 4);
    assert(input.push(item).drop_last() =~= input);
    a_block_comes_behind_the_others(
        converse(input, instructions).1,
        "user"@,
        tool_result_block(item),
    );
}

/// What is neither a message nor a call nor its output is left out.
pub proof fn other_items_are_left_out(
    input: Seq<ObjectView>,
    instructions: Seq<char>,
    item: ObjectView,
)
    requires
        text_member(item, "type"@) != Some("message"@),
        text_member(item, "type"@) != Some("function_call"@),
        text_member(item, "type"@) != Some("function_call_output"@),
    ensures
        converse(input.push(item), instructions) == converse(input, instructions),
{
    reveal_strlit("message");
    reveal_strlit("function_call");
    reveal_strlit("function_call_output");
    assert("message"@.len() == 7);
    assert("function_call"@.len() == 13);
    assert("function_call_output"@.len() == 20);
    assert(input.push(item).drop_last() =~= input);
}

/// A function is offered under its name, with its description and what it takes;
/// what is no function with a name is not offered.
pub proof fn a_function_is_offered_under_its_name(tools: Seq<JsonView>, tool: JsonView)
    ensures
        match field(tool, "function"@) {
            Some(function) => match text_field(function, "name"@) {
                Some(name) => {
                    let specs = tool_specs(tools.push(tool));
                    &&& specs.len() == tool_specs(tools).len() + 1
                    &&& specs.drop_last() == tool_specs(tools)
                    &&& field(specs.last(), "toolSpec"@) matches Some(spec)
                    &&& text_field(spec, "name"@) == Some(name)
                    &&& text_field(spec, "description"@) == Some(
                        match text_field(function, "description"@) {
                            Some(description) => description,
                            None => Seq::empty(),
                        },
                    )
                    &&& field(spec, "inputSchema"@) matches Some(schema)
                    &&& match field(function, "parameters"@) {
                        Some(parameters) => field(schema, "json"@) == Some(parameters),
                        None => field(schema, "json"@) matches Some(parameters) && text_field(
                            parameters,
                            "type"@,
                        ) == Some("object"@) && field(parameters, "properties"@) == Some(
                            JsonView::Object(Seq::empty()),
                        ),
                    }
                },
                None => tool_specs(tools.push(tool)) == tool_specs(tools),
            },
            None => tool_specs(tools.push(tool)) == tool_specs(tools),
        },
{
    broadcast use found_after_put;

    reveal_strlit("name");
    reveal_strlit("description");
    reveal_strlit("inputSchema");
    reveal_strlit("type");
    reveal_strlit("properties");
    assert("name"@.len() == 4 && "name"@[0] == 'n');
    assert("description"@.len() == 11 && "description"@[0] == 'd');
    assert("inputSchema"@.len() == 11 && "inputSchema"@[0] == 'i');
    assert("type"@.len() == 4 && "type"@[0] == 't');
    assert("properties"@.len() == 10);
    assert(tools.push(tool).drop_last() =~= tools);
    assert(tool_spec(tool) is Some ==> tool_specs(tools.push(tool)).drop_last() =~= tool_specs(
        tools,
    ));
}

/// The body of a request holds its messages, what the system is told, its tools
/// and how the model thinks, each where there is any.
pub proof fn a_body_holds_its_request(request: BedrockRequestView)
    ensures
        ({
            let body = bedrock_body(request);
            &&& find(body, "messages"@) == Some(JsonView::List(request.messages))
            &&& find(body, "system"@) == if request.system.len() > 0 {
                Some(JsonView::List(request.system))
            } else {
                None
            }
            &&& find(body, "inferenceConfig"@) matches Some(config) && number_field(
                config,
                "maxTokens"@,
            ) == Some(16384u64)
            &&& match find(body, "toolConfig"@) {
                Some(config) => request.tools.len() > 0 && field(config, "tools"@) == Some(
                    JsonView::List(request.tools),
                ) && field(config, "toolChoice"@) == request.tool_choice,
                None => request.tools.len() == 0,
            }
            &&& match find(body, "additionalModelRequestFields"@) {
                Some(fields) => request.reasoning is Some && field(fields, "thinking"@)
                    == request.reasoning,
                None => request.reasoning is None,
            }
        }),
{
    broadcast use found_after_put;

    reveal_strlit("messages");
    reveal_strlit("inferenceConfig");
    reveal_strlit("system");
    reveal_strlit("toolConfig");
    reveal_strlit("additionalModelRequestFields");
    reveal_strlit("tools");
    reveal_strlit("toolChoice");
    assert("messages"@.len() == 8);
    assert("inferenceConfig"@.len() == 15);
    assert("system"@.len() == 6);
    assert("toolConfig"@.len() == 10 && "toolConfig"@[5] == 'o');
    assert("additionalModelRequestFields"@.len() == 28);
    assert("tools"@.len() == 5);
    assert("toolChoice"@.len() == 10 && "toolChoice"@[5] == 'h');
}

/// The request of a round holds the conversation so far, the model and the tools
/// that were asked for.
pub proof fn a_round_is_asked_for_with_its_conversation(machine: MachineView)
    ensures
        ({
            let request = bedrock_request(machine);
            &&& request.model == machine.model
            &&& (request.system, request.messages) == converse(
                machine.running_input,
                machine.request.instructions,
            )
            &&& request.tools == tool_specs(machine.request.tools)
            &&& request.tool_choice == bedrock_choice(machine.request.tool_choice)
            &&& request.reasoning == bedrock_reasoning(machine.request.reasoning_effort)
        }),
{
}

/// How a tool is chosen: by the model, any of them, or none.
pub proof fn a_choice_is_handed_on(choice: JsonView)
    ensures
        bedrock_choice(None) is None,
        choice == JsonView::Text("none"@) ==> bedrock_choice(Some(choice)) is None,
        choice == JsonView::Text("required"@) ==> (bedrock_choice(Some(choice)) matches Some(chosen)
            && field(chosen, "any"@) is Some && field(chosen, "auto"@) is None),
        choice == JsonView::Text("auto"@) || !(choice is Text) ==> (bedrock_choice(
            Some(choice),
        ) matches Some(chosen) && field(chosen, "auto"@) is Some && field(chosen, "any"@) is None),
        choice is Text && choice != JsonView::Text("none"@) && choice != JsonView::Text(
            "required"@,
        ) && choice != JsonView::Text("auto"@) ==> bedrock_choice(Some(choice)) == Some(choice),
{
    broadcast use found_after_put;

    reveal_strlit("auto");
    reveal_strlit("any");
    reveal_strlit("none");
    reveal_strlit("required");
    assert("auto"@.len() == 4 && "auto"@[0] == 'a');
    assert("any"@.len() == 3);
    assert("none"@.len() == 4 && "none"@[0] == 'n');
    assert("required"@.len() == 8);
}

/// More effort may take more tokens to think, and every effort is handed on.
pub proof fn more_effort_may_think_more(effort: Seq<char>)
    ensures
        bedrock_reasoning(None) is None,
        bedrock_reasoning(Some(effort)) matches Some(thinking) && text_field(thinking, "type"@)
            == Some("enabled"@) && number_field(thinking, "budget_tokens"@) == Some(
            if effort == "low"@ {
                1024u64
            } else if effort == "medium"@ {
                4096u64
            } else if effort == "high"@ {
                16384u64
            } else {
                8192u64
            },
        ),
{
    broadcast use found_after_put;

    reveal_strlit("type");
    reveal_strlit("budget_tokens");
    reveal_strlit("low");
    reveal_strlit("medium");
    reveal_strlit("high");
    assert("type"@.len() == 4 && "type"@[0] == 't');
    assert("budget_tokens"@.len() == 13);
    assert("low"@.len() == 3);
    assert("medium"@.len() == 6);
    assert("high"@.len() == 4 && "high"@[0] == 'h');
}

/// A model answers under its region.
pub proof fn a_model_answers_in_its_region(region: Seq<char>, model: Seq<char>)
    ensures
        ({
            let (host, path, url) = converse_address(region, model);
            &&& host == "bedrock-runtime."@ + region + ".amazonaws.com"@
            &&& path == "/model/"@ + model + "/converse-stream"@
            &&& url == "https://"@ + host + path
        }),
{
}

/// What a frame of the stream says: a piece of text, a call that begins, a piece
/// of its arguments, or the end.
pub proof fn a_frame_says_what_it_holds(payload: JsonView)
    ensures
        ({
            let delta = FrameView { event_type: "contentBlockDelta"@, payload };
            let start = FrameView { event_type: "contentBlockStart"@, payload };
            let stop = FrameView { event_type: "messageStop"@, payload };
            &&& stream_events(stop) == seq![StreamEventView::Stop]
            &&& field(payload, "delta"@) matches Some(inner) ==> {
                &&& field(inner, "text"@) matches Some(JsonView::Text(text)) ==> text.len() > 0
                    && field(inner, "toolUse"@) is None ==> stream_events(delta)
                    == seq![StreamEventView::TextDelta(text)]
                &&& field(inner, "text"@) is None ==> (field(inner, "toolUse"@) matches Some(call)
                    ==> (field(call, "input"@) matches Some(JsonView::Text(chunk))
                    ==> stream_events(delta) == seq![StreamEventView::ToolInputDelta(chunk)]))
            }
            &&& field(payload, "start"@) matches Some(inner) ==> (field(
                inner,
                "toolUse"@,
            ) matches Some(call) ==> (text_field(call, "name"@) matches Some(name) ==> (text_field(
                call,
                "toolUseId"@,
            ) matches Some(call_id) ==> stream_events(start)
                == seq![StreamEventView::ToolStart { name, call_id }])))
        }),
{
    reveal_strlit("contentBlockDelta");
    reveal_strlit("contentBlockStart");
    reveal_strlit("messageStop");
    assert("contentBlockDelta"@.len() == 17 && "contentBlockDelta"@[12] == 'D');
    assert("contentBlockStart"@.len() == 17 && "contentBlockStart"@[12] == 'S');
    assert("messageStop"@.len() == 11);
    if let Some(inner) = field(payload, "delta"@) {
        assert(stream_events(FrameView { event_type: "contentBlockDelta"@, payload })
            =~= crate::bedrock::delta_text(inner) + crate::bedrock::delta_input(inner));
        assert(crate::bedrock::delta_text(inner) + Seq::<StreamEventView>::empty()
            =~= crate::bedrock::delta_text(inner));
        assert(Seq::<StreamEventView>::empty() + crate::bedrock::delta_input(inner)
            =~= crate::bedrock::delta_input(inner));
    }
}

/// The pieces of a text come one behind the other, and so do the pieces of the
/// arguments of the call that began last.
pub proof fn pieces_come_one_behind_the_other(
    round: BedrockRoundView,
    name: Seq<char>,
    call_id: Seq<char>,
    one: Seq<char>,
    two: Seq<char>,
)
    ensures
        ({
            let heard = round_after(
                round_after(round, StreamEventView::TextDelta(one)),
                StreamEventView::TextDelta(two),
            );
            heard.text == round.text + one + two && heard.tool_calls == round.tool_calls
        }),
        ({
            let begun = round_after(round, StreamEventView::ToolStart { name, call_id });
            let called = round_after(
                round_after(begun, StreamEventView::ToolInputDelta(one)),
                StreamEventView::ToolInputDelta(two),
            );
            &&& called.text == round.text
            &&& called.tool_calls.len() == round.tool_calls.len() + 1
            &&& called.tool_calls.drop_last() == round.tool_calls
            &&& called.tool_calls.last().name == name
            &&& called.tool_calls.last().call_id == call_id
            &&& called.tool_calls.last().arguments_json == one + two
        }),
        round_after(round, StreamEventView::Stop) == round,
{
    let begun = round_after(round, StreamEventView::ToolStart { name, call_id });
    let first = round_after(begun, StreamEventView::ToolInputDelta(one));
    let called = round_after(first, StreamEventView::ToolInputDelta(two));
    assert(begun.tool_calls.drop_last() =~= round.tool_calls);
    assert(first.tool_calls.drop_last() =~= round.tool_calls);
    assert(called.tool_calls.drop_last() =~= round.tool_calls);
    assert(Seq::<char>::empty() + one + two =~= one + two);
}

/// The items of a round are its text, as a message of the assistant, and then its
/// calls in order, each of which is handed to the host under its name and its id.
pub proof fn the_items_of_a_round_are_its_text_and_calls(round: BedrockRoundView, i: int)
    requires
        0 <= i < round.tool_calls.len(),
    ensures
        ({
            let items = round_output(round);
            let before: int = if round.text.len() > 0 {
                1
            } else {
                0
            };
            let call = round.tool_calls[i];
            let item = items[before + i];
            &&& items.len() == before + round.tool_calls.len()
            &&& round.text.len() > 0 ==> find(items[0], "type"@) == Some(
                JsonView::Text("message"@),
            ) && find(items[0], "role"@) == Some(JsonView::Text("assistant"@)) && find(
                items[0],
                "content"@,
            ) == Some(JsonView::Text(round.text))
            &&& find(item, "type"@) == Some(JsonView::Text("function_call"@))
            &&& find(item, "name"@) == Some(JsonView::Text(call.name))
            &&& find(item, "call_id"@) == Some(JsonView::Text(call.call_id))
            &&& call.arguments_json.len() > 0 ==> find(item, "arguments"@) == Some(
                JsonView::Text(call.arguments_json),
            )
            &&& call.arguments_json.len() == 0 ==> find(item, "arguments"@) == Some(
                JsonView::Text("{}"@),
            )
            &&& tool_call(item) matches Ok(asked) ==> asked.name == call.name && asked.call_id
                == call.call_id
        }),
{
    broadcast use found_after_put;

    reveal_strlit("type");
    reveal_strlit("name");
    reveal_strlit("call_id");
    reveal_strlit("arguments");
    reveal_strlit("role");
    reveal_strlit("content");
    assert("type"@.len() == 4 && "type"@[0] == 't');
    assert("name"@.len() == 4 && "name"@[0] == 'n');
    assert("call_id"@.len() == 7 && "call_id"@[1] == 'a');
    assert("arguments"@.len() == 9);
    assert("role"@.len() == 4 && "role"@[0] == 'r');
    assert("content"@.len() == 7 && "content"@[1] == 'o');
}

/// The credentials of the environment are the ones that a request is signed with.
pub proof fn the_credentials_of_the_environment_are_used(environment: EnvironmentView)
    ensures
        bedrock_context(environment) matches Ok(context) ==> (credentials_in(context) matches Ok(
            credentials,
        ) && {
            &&& env_text(environment, "AWS_ACCESS_KEY_ID"@) == Some(credentials.access_key)
            &&& env_text(environment, "AWS_SECRET_ACCESS_KEY"@) == Some(credentials.secret_key)
            &&& env_text(environment, "AWS_SESSION_TOKEN"@) == credentials.session_token
            &&& credentials.region == match (
                env_text(environment, "AWS_REGION"@),
                env_text(environment, "AWS_DEFAULT_REGION"@),
            ) {
                (Some(region), _) => region,
                (None, Some(region)) => region,
                (None, None) => "us-east-1"@,
            }
        }),
{
    broadcast use found_after_put;

    reveal_strlit("x-bedrock-access-key");
    reveal_strlit("x-bedrock-secret-key");
    reveal_strlit("x-bedrock-region");
    reveal_strlit("x-bedrock-session-token");
    assert("x-bedrock-access-key"@.len() == 20 && "x-bedrock-access-key"@[10] == 'a');
    assert("x-bedrock-secret-key"@.len() == 20 && "x-bedrock-secret-key"@[10] == 's');
    assert("x-bedrock-region"@.len() == 16);
    assert("x-bedrock-session-token"@.len() == 23);
}

/// A message in parts becomes one message of the same speaker with a block for each
/// part; what it says to the system is the texts of its parts, one to a line.
pub proof fn a_message_in_parts_keeps_its_speaker(
    input: Seq<ObjectView>,
    instructions: Seq<char>,
    item: ObjectView,
    parts: Seq<JsonView>,
)
    requires
        find(item, "type"@) == Some(JsonView::Text("message"@)),
        find(item, "content"@) == Some(JsonView::List(parts)),
    ensures
        ({
            let (system, messages) = converse(input, instructions);
            let (more_system, more) = converse(input.push(item), instructions);
            let role = text_member(item, "role"@);
            if role == Some("system"@) || role == Some("developer"@) {
                &&& more == messages
                &&& more_system.len() == system.len() + 1
                &&& more_system.drop_last() == system
                &&& text_field(more_system.last(), "text"@) == Some(
                    joined(part_texts(parts), "\n"@),
                )
            } else {
                &&& more_system == system
                &&& more.len() == messages.len() + 1
                &&& more.drop_last() == messages
                &&& text_field(more.last(), "role"@) == Some(
                    if role == Some("assistant"@) {
                        "assistant"@
                    } else {
                        "user"@
                    },
                )
                &&& field(more.last(), "content"@) == Some(JsonView::List(part_blocks(parts)))
            }
        }),
{
    broadcast use found_after_put;

    reveal_strlit("role");
    reveal_strlit("content");
    reveal_strlit("text");
    reveal_strlit("system");
    reveal_strlit("developer");
    reveal_strlit("assistant");
    reveal_strlit("user");
    assert("role"@.len() == 4 && "role"@[0] == 'r');
    assert("content"@.len() == 7);
    assert("text"@.len() == 4 && "text"@[0] == 't');
    assert("system"@.len() == 6);
    assert("developer"@.len() == 9 && "developer"@[0] == 'd');
    assert("assistant"@.len() == 9 && "assistant"@[0] == 'a');
    assert("user"@.len() == 4 && "user"@[0] == 'u');
    assert(input.push(item).drop_last() =~= input);
    let (system, messages) = converse(input, instructions);
    let (more_system, more) = converse(input.push(item), instructions);
    assert(more.len() > messages.len() ==> more.drop_last() =~= messages);
    assert(more_system.len() > system.len() ==> more_system.drop_last() =~= system);
}

/// An image that its address holds becomes a block with its format and its bytes.
pub proof fn an_image_becomes_a_block(
    part: JsonView,
    image: JsonView,
    format: Seq<char>,
    bytes: Seq<char>,
)
    requires
        field(part, "text"@) is None,
        field(part, "image_url"@) == Some(image),
        field(image, "url"@) == Some(
            JsonView::Text("data:image/"@ + (format + ";base64,"@ + bytes)),
        ),
        !format.contains(';'),
    ensures
        ({
            &&& part_block(part) matches Some(block)
            &&& field(block, "image"@) matches Some(shown)
            &&& text_field(shown, "format"@) == Some(format)
            &&& field(shown, "source"@) matches Some(source)
            &&& text_field(source, "bytes"@) == Some(bytes)
        }),
{
    broadcast use found_after_put;

    reveal_strlit("format");
    reveal_strlit("source");
    reveal_strlit(";base64,");
    assert("format"@.len() == 6 && "format"@[0] == 'f');
    assert("source"@.len() == 6 && "source"@[0] == 's');
    assert(";base64,"@.len() == 8);
    assert(";base64,"@[0] == ';');
    let data = format + ";base64,"@ + bytes;
    what_was_put_to_a_text_is_taken_again(data, "data:image/"@);
    let n = format.len() as int;
    assert(data.subrange(n, n + 8) =~= ";base64,"@);
    assert(stands_at(data, ";base64,"@, n));
    assert forall|k: int| 0 <= k < n implies !stands_at(data, ";base64,"@, k) by {
        if stands_at(data, ";base64,"@, k) {
            assert(data.subrange(k, k + 8)[0] == data[k]);
            assert(data[k] == format[k]);
            assert(format.contains(format[k]));
        }
    }
    lemma_first_place(data, ";base64,"@, 0, n);
    assert(data.take(n) =~= format);
    assert(data.skip(n + 8) =~= bytes);
}

proof fn lemma_first_place(s: Seq<char>, pattern: Seq<char>, from: int, at: int)
    requires
        0 <= from <= at <= s.len(),
        stands_at(s, pattern, at),
        pattern.len() > 0,
        forall|k: int| from <= k < at ==> !stands_at(s, pattern, k),
    ensures
        first_place(s, pattern, from) == at,
    decreases at - from,
{
    if from < at {
        lemma_first_place(s, pattern, from + 1, at);
    }
}

/// The arguments of a call are handed on as a value: what cannot be read and what is
/// not there is an object without members.
pub proof fn arguments_are_handed_on_as_a_value(item: ObjectView)
    ensures
        ({
            let given = match field(tool_use_block(item), "toolUse"@) {
                Some(call) => field(call, "input"@),
                None => None,
            };
            match find(item, "arguments"@) {
                Some(JsonView::Text(raw)) => match parsed_json(raw) {
                    Ok(arguments) => raw.len() > 0 ==> given == Some(arguments),
                    Err(_) => given == Some(JsonView::Object(Seq::empty())),
                },
                Some(JsonView::Null) => given == Some(JsonView::Object(Seq::empty())),
                Some(value) => given == Some(value),
                None => given == Some(JsonView::Object(Seq::empty())),
            }
        }),
        find(item, "arguments"@) == Some(JsonView::Text(Seq::empty())) ==> (field(
            tool_use_block(item),
            "toolUse"@,
        ) matches Some(call) && field(call, "input"@) == Some(JsonView::Object(Seq::empty()))),
{
    broadcast use found_after_put;

    reveal_strlit("toolUseId");
    reveal_strlit("name");
    reveal_strlit("input");
    assert("toolUseId"@.len() == 9);
    assert("name"@.len() == 4);
    assert("input"@.len() == 5);
}

/// What is told of a stream: each piece of text as it comes, and each call as it
/// begins.
pub proof fn a_stream_is_told_as_it_comes(
    round: BedrockRoundView,
    events: Seq<StreamEventView>,
    event: StreamEventView,
)
    ensures
        round_after_all(round, events.push(event)) == round_after(
            round_after_all(round, events),
            event,
        ),
        round_after_all(round, Seq::empty()) == round,
        all_told(Seq::empty()) == Seq::<EventView>::empty(),
        event matches StreamEventView::TextDelta(delta) ==> all_told(events.push(event))
            == all_told(events).push(EventView::TextDelta { delta }),
        event matches StreamEventView::ToolStart { name, call_id } ==> all_told(events.push(event))
            == all_told(events).push(
            EventView::ToolCallStarted {
                name,
                call_id,
                arguments: JsonView::Object(Seq::empty()),
            },
        ),
        event is ToolInputDelta || event is Stop ==> all_told(events.push(event)) == all_told(
            events,
        ),
{
    assert(events.push(event).drop_last() =~= events);
    assert(all_told(events.push(event)) =~= all_told(events) + told(event));
    if event is ToolInputDelta || event is Stop {
        assert(all_told(events) + told(event) =~= all_told(events));
    }
    if let StreamEventView::TextDelta(delta) = event {
        assert(all_told(events) + told(event) =~= all_told(events).push(
            EventView::TextDelta { delta },
        ));
    }
    if let StreamEventView::ToolStart { name, call_id } = event {
        assert(all_told(events) + told(event) =~= all_told(events).push(
            EventView::ToolCallStarted {
                name,
                call_id,
                arguments: JsonView::Object(Seq::empty()),
            },
        ));
    }
}

/// The credentials of a context stand in its headers, both keys have to be there, and
/// the region is `us-east-1` where none is named.
pub proof fn the_credentials_of_a_context_stand_in_its_headers(context: ContextView)
    ensures
        match credentials_in(context) {
            Ok(credentials) => {
                &&& find(context.headers, "x-bedrock-access-key"@) == Some(credentials.access_key)
                &&& find(context.headers, "x-bedrock-secret-key"@) == Some(credentials.secret_key)
                &&& find(context.headers, "x-bedrock-session-token"@) == credentials.session_token
                &&& credentials.region == match find(context.headers, "x-bedrock-region"@) {
                    Some(region) => region,
                    None => "us-east-1"@,
                }
            },
            Err(_) => find(context.headers, "x-bedrock-access-key"@) is None || find(
                context.headers,
                "x-bedrock-secret-key"@,
            ) is None,
        },
{
}

} // verus!
