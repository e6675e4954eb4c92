//! What the requests for a response hold.
use vstd::prelude::*;

#[allow(unused_imports)]
use crate::endpoint::endpoint;
#[allow(unused_imports)]
use crate::error::ErrorView;
#[allow(unused_imports)]
use crate::json::{field, number_field, text_field, text_member, JsonView, ObjectView};
#[allow(unused_imports)]
use crate::machine::{
    lite_header, lite_preamble, request_body, request_headers, round_input, uses_lite,
    uses_standard, wired, MachineView, RoundKind,
};
#[allow(unused_imports)]
use crate::ordered::{
    find, found_after_put, key_named, put, put_if_absent, same_name, without_named,
};
#[allow(unused_imports)]
use crate::properties::{lemma_key_named, the_light_form_has_its_tools_in_the_conversation};
#[allow(unused_imports)]
use crate::providers::Provider;
#[allow(unused_imports)]
use crate::response::{input_item, picked, without_identity, ContextManagement};
#[allow(unused_imports)]
use crate::text::ascii_lower_text;

verus! {

/// Beside the light form, a request names the tools and the instructions, and asks
/// for the reasoning that was wanted.
pub proof fn other_forms_have_their_tools_beside_the_conversation(machine: MachineView)
    requires
        !uses_lite(machine),
    ensures
        find(request_body(machine), "tools"@) == Some(JsonView::List(machine.request.tools)),
        find(request_body(machine), "instructions"@) == Some(
            JsonView::Text(machine.request.instructions),
        ),
        machine.request.reasoning_effort matches Some(effort) ==> (find(
            request_body(machine),
            "reasoning"@,
        ) matches Some(reasoning) && text_field(reasoning, "effort"@) == Some(effort)),
{
    broadcast use found_after_put;

    reveal_strlit("model");
    reveal_strlit("input");
    reveal_strlit("tool_choice");
    reveal_strlit("parallel_tool_calls");
    reveal_strlit("store");
    reveal_strlit("include");
    reveal_strlit("text");
    reveal_strlit("stream");
    reveal_strlit("instructions");
    reveal_strlit("tools");
    reveal_strlit("reasoning");
    reveal_strlit("context_management");
    reveal_strlit("effort");
    reveal_strlit("summary");
    reveal_strlit("context");
    assert("model"@.len() == 5 && "model"@[0] == 'm');
    assert("input"@.len() == 5 && "input"@[0] == 'i');
    assert("tool_choice"@.len() == 11);
    assert("parallel_tool_calls"@.len() == 19);
    assert("store"@.len() == 5 && "store"@[0] == 's');
    assert("include"@.len() == 7 && "include"@[0] == 'i');
    assert("text"@.len() == 4);
    assert("stream"@.len() == 6 && "stream"@[0] == 's');
    assert("instructions"@.len() == 12);
    assert("tools"@.len() == 5 && "tools"@[0] == 't');
    assert("reasoning"@.len() == 9);
    assert("context_management"@.len() == 18);
    assert("effort"@.len() == 6 && "effort"@[0] == 'e');
    assert("summary"@.len() == 7 && "summary"@[0] == 's');
    assert("context"@.len() == 7 && "context"@[0] == 'c');
}

/// Every request names the model, asks for a stream that is not stored, and says
/// how a tool is chosen and how the text is wanted.
pub proof fn every_request_says_what_was_asked_for(machine: MachineView)
    ensures
        find(request_body(machine), "model"@) == Some(JsonView::Text(machine.model)),
        find(request_body(machine), "stream"@) == Some(JsonView::Bool(true)),
        find(request_body(machine), "store"@) == Some(JsonView::Bool(false)),
        find(request_body(machine), "parallel_tool_calls"@) == Some(JsonView::Bool(false)),
        find(request_body(machine), "include"@) == Some(
            JsonView::List(seq![JsonView::Text("reasoning.encrypted_content"@)]),
        ),
        find(request_body(machine), "tool_choice"@) == Some(
            match machine.request.tool_choice {
                Some(choice) => choice,
                None => JsonView::Text("auto"@),
            },
        ),
        find(request_body(machine), "text"@) matches Some(text) && text_field(text, "verbosity"@)
            == Some(machine.request.text_verbosity) && field(text, "format"@)
            == machine.request.text_format,
{
    broadcast use found_after_put;

    reveal_strlit("model");
    reveal_strlit("input");
    reveal_strlit("tool_choice");
    reveal_strlit("parallel_tool_calls");
    reveal_strlit("store");
    reveal_strlit("include");
    reveal_strlit("text");
    reveal_strlit("stream");
    reveal_strlit("instructions");
    reveal_strlit("tools");
    reveal_strlit("reasoning");
    reveal_strlit("context_management");
    reveal_strlit("verbosity");
    reveal_strlit("format");
    assert("model"@.len() == 5 && "model"@[0] == 'm');
    assert("input"@.len() == 5 && "input"@[0] == 'i');
    assert("tool_choice"@.len() == 11);
    assert("parallel_tool_calls"@.len() == 19);
    assert("store"@.len() == 5 && "store"@[0] == 's');
    assert("include"@.len() == 7);
    assert("text"@.len() == 4);
    assert("stream"@.len() == 6 && "stream"@[0] == 's');
    assert("instructions"@.len() == 12);
    assert("tools"@.len() == 5 && "tools"@[0] == 't');
    assert("reasoning"@.len() == 9 && "reasoning"@[0] == 'r');
    assert("context_management"@.len() == 18);
    assert("verbosity"@.len() == 9 && "verbosity"@[0] == 'v');
    assert("format"@.len() == 6 && "format"@[0] == 'f');
}

/// Reasoning is asked for where an effort was given; Codex, in either of its
/// forms, is always asked to reason over all turns.
pub proof fn reasoning_is_asked_for_as_it_was_wanted(machine: MachineView)
    ensures
        uses_lite(machine) || uses_standard(machine) ==> (find(
            request_body(machine),
            "reasoning"@,
        ) matches Some(reasoning) && text_field(reasoning, "context"@) == Some("all_turns"@)
            && field(reasoning, "summary"@) == Some(JsonView::Null) && text_field(
            reasoning,
            "effort"@,
        ) == machine.request.reasoning_effort),
        !uses_lite(machine) && !uses_standard(machine) ==> match find(
            request_body(machine),
            "reasoning"@,
        ) {
            Some(reasoning) => machine.request.reasoning_effort is Some && text_field(
                reasoning,
                "effort"@,
            ) == machine.request.reasoning_effort && field(reasoning, "context"@) is None
                && field(reasoning, "summary"@) == Some(JsonView::Null),
            None => machine.request.reasoning_effort is None,
        },
{
    broadcast use found_after_put;

    reveal_strlit("model");
    reveal_strlit("input");
    reveal_strlit("tool_choice");
    reveal_strlit("parallel_tool_calls");
    reveal_strlit("store");
    reveal_strlit("include");
    reveal_strlit("text");
    reveal_strlit("stream");
    reveal_strlit("instructions");
    reveal_strlit("tools");
    reveal_strlit("reasoning");
    reveal_strlit("context_management");
    reveal_strlit("effort");
    reveal_strlit("summary");
    reveal_strlit("context");
    assert("model"@.len() == 5 && "model"@[0] == 'm');
    assert("input"@.len() == 5 && "input"@[0] == 'i');
    assert("tool_choice"@.len() == 11);
    assert("parallel_tool_calls"@.len() == 19);
    assert("store"@.len() == 5 && "store"@[0] == 's');
    assert("include"@.len() == 7 && "include"@[0] == 'i');
    assert("text"@.len() == 4);
    assert("stream"@.len() == 6 && "stream"@[0] == 's');
    assert("instructions"@.len() == 12);
    assert("tools"@.len() == 5 && "tools"@[0] == 't');
    assert("reasoning"@.len() == 9);
    assert("context_management"@.len() == 18);
    assert("effort"@.len() == 6 && "effort"@[0] == 'e');
    assert("summary"@.len() == 7 && "summary"@[0] == 's');
    assert("context"@.len() == 7 && "context"@[0] == 'c');
}

/// The server is asked to compact in the standard form alone, from the size on
/// that was given.
pub proof fn the_server_compacts_where_it_was_asked_to(machine: MachineView)
    ensures
        match (find(request_body(machine), "context_management"@), machine.request.context_management) {
            (
                Some(JsonView::List(ways)),
                Some(ContextManagement::Server { compact_threshold }),
            ) => uses_standard(machine) && ways.len() == 1 && text_field(ways[0], "type"@) == Some(
                "compaction"@,
            ) && number_field(ways[0], "compact_threshold"@) == Some(compact_threshold),
            (None, Some(ContextManagement::Server { .. })) => !uses_standard(machine),
            (found, _) => found is None,
        },
{
    broadcast use found_after_put;

    reveal_strlit("model");
    reveal_strlit("input");
    reveal_strlit("tool_choice");
    reveal_strlit("parallel_tool_calls");
    reveal_strlit("store");
    reveal_strlit("include");
    reveal_strlit("text");
    reveal_strlit("stream");
    reveal_strlit("instructions");
    reveal_strlit("tools");
    reveal_strlit("reasoning");
    reveal_strlit("context_management");
    reveal_strlit("type");
    reveal_strlit("compact_threshold");
    assert("model"@.len() == 5 && "model"@[0] == 'm');
    assert("input"@.len() == 5 && "input"@[0] == 'i');
    assert("tool_choice"@.len() == 11);
    assert("parallel_tool_calls"@.len() == 19);
    assert("store"@.len() == 5 && "store"@[0] == 's');
    assert("include"@.len() == 7);
    assert("text"@.len() == 4 && "text"@[1] == 'e');
    assert("stream"@.len() == 6);
    assert("instructions"@.len() == 12);
    assert("tools"@.len() == 5 && "tools"@[0] == 't');
    assert("reasoning"@.len() == 9);
    assert("context_management"@.len() == 18);
    assert("type"@.len() == 4 && "type"@[1] == 'y');
    assert("compact_threshold"@.len() == 17);
}

/// The conversation of a round with Codex' light form or with any other, as far as
/// it comes from the conversation so far: behind what the light form puts before
/// it, every item in order, and a trigger where it is to be compacted.
pub proof fn a_request_holds_the_whole_conversation(machine: MachineView)
    ensures
        ({
            let before: int = if !uses_lite(machine) {
                0
            } else if machine.request.instructions.len() == 0 {
                1
            } else {
                2
            };
            let after: int = if machine.round_kind == RoundKind::Compaction {
                1
            } else {
                0
            };
            let said = machine.running_input;
            &&& find(request_body(machine), "input"@) matches Some(JsonView::List(input))
            &&& input.len() == before + said.len() + after
            &&& forall|i: int|
                0 <= i < said.len() ==> #[trigger] input[before + i] == JsonView::Object(
                    input_item(said[i]),
                )
            &&& machine.round_kind == RoundKind::Compaction ==> text_field(
                input.last(),
                "type"@,
            ) == Some("compaction_trigger"@)
        }),
{
    broadcast use found_after_put;

    reveal_strlit("model");
    reveal_strlit("input");
    reveal_strlit("tool_choice");
    reveal_strlit("parallel_tool_calls");
    reveal_strlit("store");
    reveal_strlit("include");
    reveal_strlit("text");
    reveal_strlit("stream");
    reveal_strlit("instructions");
    reveal_strlit("tools");
    reveal_strlit("reasoning");
    reveal_strlit("context_management");
    assert("model"@.len() == 5 && "model"@[0] == 'm');
    assert("input"@.len() == 5 && "input"@[0] == 'i');
    assert("tool_choice"@.len() == 11);
    assert("parallel_tool_calls"@.len() == 19);
    assert("store"@.len() == 5 && "store"@[0] == 's');
    assert("include"@.len() == 7);
    assert("text"@.len() == 4);
    assert("stream"@.len() == 6);
    assert("instructions"@.len() == 12);
    assert("tools"@.len() == 5 && "tools"@[0] == 't');
    assert("reasoning"@.len() == 9);
    assert("context_management"@.len() == 18);
}

/// In the light form the first item names the tools, and the second, where there
/// are instructions, is a message of the developer that holds them.
pub proof fn the_light_form_says_its_tools_and_instructions_first(machine: MachineView)
    requires
        uses_lite(machine),
    ensures
        ({
            let request = machine.request;
            &&& find(request_body(machine), "input"@) matches Some(JsonView::List(input))
            &&& input.len() > 0
            &&& text_field(input[0], "type"@) == Some("additional_tools"@)
            &&& text_field(input[0], "role"@) == Some("developer"@)
            &&& field(input[0], "tools"@) == Some(JsonView::List(request.tools))
            &&& request.instructions.len() > 0 ==> {
                &&& input.len() > 1
                &&& text_field(input[1], "type"@) == Some("message"@)
                &&& text_field(input[1], "role"@) == Some("developer"@)
                &&& field(input[1], "content"@) matches Some(JsonView::List(parts))
                &&& parts.len() == 1
                &&& text_field(parts[0], "type"@) == Some("input_text"@)
                &&& text_field(parts[0], "text"@) == Some(request.instructions)
            }
        }),
{
    broadcast use found_after_put;

    the_light_form_has_its_tools_in_the_conversation(machine);
    reveal_strlit("type");
    reveal_strlit("role");
    reveal_strlit("tools");
    reveal_strlit("content");
    reveal_strlit("text");
    assert("type"@.len() == 4 && "type"@[0] == 't' && "type"@[1] == 'y');
    assert("role"@.len() == 4 && "role"@[0] == 'r');
    assert("tools"@.len() == 5);
    assert("content"@.len() == 7);
    assert("text"@.len() == 4 && "text"@[0] == 't' && "text"@[1] == 'e');
    let input = lite_preamble(machine.request) + round_input(machine);
    assert(input[0] == lite_preamble(machine.request)[0]);
    if machine.request.instructions.len() > 0 {
        assert(input[1] == lite_preamble(machine.request)[1]);
    }
}

proof fn lemma_found_in_picked(item: ObjectView, keys: Seq<Seq<char>>, key: Seq<char>)
    ensures
        find(picked(item, keys), key) == if keys.contains(key) {
            find(item, key)
        } else {
            None
        },
    decreases keys.len(),
{
    broadcast use found_after_put;

    if keys.len() > 0 {
        let earlier = keys.drop_last();
        lemma_found_in_picked(item, earlier, key);
        assert(keys.contains(key) <==> earlier.contains(key) || keys.last() == key) by {
            if keys.contains(key) {
                let i = choose|i: int| 0 <= i < keys.len() && keys[i] == key;
                if i < earlier.len() {
                    assert(earlier[i] == key);
                }
            }
            if earlier.contains(key) {
                let i = choose|i: int| 0 <= i < earlier.len() && earlier[i] == key;
                assert(keys[i] == key);
            }
            assert(keys[keys.len() - 1] == keys.last());
        }
    }
}

pub(crate) proof fn lemma_found_after_push(item: ObjectView, last: (Seq<char>, JsonView), key: Seq<char>)
    ensures
        find(item.push(last), key) == match find(item, key) {
            Some(value) => Some(value),
            None => if last.0 == key {
                Some(last.1)
            } else {
                None
            },
        },
    decreases item.len(),
{
    let longer = item.push(last);
    if item.len() == 0 {
        assert(longer.drop_first() =~= Seq::empty());
        assert(find(longer.drop_first(), key) is None);
    } else {
        assert(longer.drop_first() =~= item.drop_first().push(last));
        lemma_found_after_push(item.drop_first(), last, key);
    }
}

proof fn lemma_found_without_identity(item: ObjectView, key: Seq<char>)
    ensures
        find(without_identity(item), key) == if key == "id"@ || key == "status"@ {
            None
        } else {
            find(item, key)
        },
    decreases item.len(),
{
    if item.len() > 0 {
        let earlier = item.drop_last();
        lemma_found_without_identity(earlier, key);
        lemma_found_after_push(earlier, item.last(), key);
        assert(earlier.push(item.last()) =~= item);
        lemma_found_after_push(without_identity(earlier), item.last(), key);
    }
}

/// A message is handed over with its role and its content and nothing else.
pub proof fn a_message_goes_in_with_its_role_and_content(item: ObjectView, key: Seq<char>)
    requires
        find(item, "type"@) == Some(JsonView::Text("message"@)),
    ensures
        find(input_item(item), key) == if key == "type"@ || key == "role"@ || key == "content"@ {
            find(item, key)
        } else {
            None
        },
{
    let keys = seq!["type"@, "role"@, "content"@];
    assert(keys[0] == "type"@ && keys[1] == "role"@ && keys[2] == "content"@);
    lemma_found_in_picked(item, keys, key);
}

/// A call is handed over with its id, its name and its arguments and nothing else.
pub proof fn a_call_goes_in_with_its_name_and_arguments(item: ObjectView, key: Seq<char>)
    requires
        find(item, "type"@) == Some(JsonView::Text("function_call"@)),
    ensures
        find(input_item(item), key) == if key == "type"@ || key == "call_id"@ || key == "name"@
            || key == "arguments"@ {
            find(item, key)
        } else {
            None
        },
{
    reveal_strlit("function_call");
    reveal_strlit("message");
    assert("function_call"@.len() == 13);
    assert("message"@.len() == 7);
    let keys = seq!["type"@, "call_id"@, "name"@, "arguments"@];
    assert(keys[0] == "type"@ && keys[1] == "call_id"@ && keys[2] == "name"@ && keys[3]
        == "arguments"@);
    lemma_found_in_picked(item, keys, key);
}

/// What a tool gave back is handed over with the id of its call and nothing else.
pub proof fn an_output_goes_in_with_the_id_of_its_call(item: ObjectView, key: Seq<char>)
    requires
        find(item, "type"@) == Some(JsonView::Text("function_call_output"@)),
    ensures
        find(input_item(item), key) == if key == "type"@ || key == "call_id"@ || key == "output"@ {
            find(item, key)
        } else {
            None
        },
{
    reveal_strlit("function_call_output");
    reveal_strlit("function_call");
    reveal_strlit("message");
    assert("function_call_output"@.len() == 20);
    assert("function_call"@.len() == 13);
    assert("message"@.len() == 7);
    let keys = seq!["type"@, "call_id"@, "output"@];
    assert(keys[0] == "type"@ && keys[1] == "call_id"@ && keys[2] == "output"@);
    lemma_found_in_picked(item, keys, key);
}

/// Any other item is handed over whole, but for its id and its status.
pub proof fn any_other_item_goes_in_without_its_identity(item: ObjectView, key: Seq<char>)
    requires
        text_member(item, "type"@) != Some("message"@),
        text_member(item, "type"@) != Some("function_call"@),
        text_member(item, "type"@) != Some("function_call_output"@),
    ensures
        find(input_item(item), key) == if key == "id"@ || key == "status"@ {
            None
        } else {
            find(item, key)
        },
{
    lemma_found_without_identity(item, key);
}

proof fn lemma_kept_beside_a_name(
    entries: Seq<(Seq<char>, Seq<char>)>,
    name: Seq<char>,
    key: Seq<char>,
)
    requires
        !same_name(key, name),
    ensures
        find(without_named(entries, name), key) == find(entries, key),
    decreases entries.len(),
{
    if entries.len() > 0 {
        let earlier = entries.drop_last();
        lemma_kept_beside_a_name(earlier, name, key);
        lemma_header_after_push(earlier, entries.last(), key);
        assert(earlier.push(entries.last()) =~= entries);
        lemma_header_after_push(without_named(earlier, name), entries.last(), key);
    }
}

proof fn lemma_header_after_push(
    entries: Seq<(Seq<char>, Seq<char>)>,
    last: (Seq<char>, Seq<char>),
    key: Seq<char>,
)
    ensures
        find(entries.push(last), key) == match find(entries, key) {
            Some(value) => Some(value),
            None => if last.0 == key {
                Some(last.1)
            } else {
                None
            },
        },
    decreases entries.len(),
{
    let longer = entries.push(last);
    if entries.len() == 0 {
        assert(longer.drop_first() =~= Seq::empty());
        assert(find(longer.drop_first(), key) is None);
    } else {
        assert(longer.drop_first() =~= entries.drop_first().push(last));
        lemma_header_after_push(entries.drop_first(), last, key);
    }
}

proof fn lemma_header(machine: MachineView, key: Seq<char>)
    requires
        !same_name(key, lite_header()),
        !same_name(key, "x-codex-beta-features"@),
    ensures
        find(request_headers(machine), key) == if key == "Authorization"@ {
            Some("Bearer "@ + machine.request.context.api_key)
        } else if find(machine.request.context.headers, key) is Some {
            find(machine.request.context.headers, key)
        } else if key == "Content-Type"@ {
            Some("application/json"@)
        } else if key == "Accept"@ {
            Some("text/event-stream"@)
        } else if key == "User-Agent"@ {
            Some("lmx/"@ + crate::VERSION@)
        } else {
            None
        },
{
    broadcast use found_after_put;

    reveal_strlit("Authorization");
    reveal_strlit("Content-Type");
    reveal_strlit("Accept");
    reveal_strlit("User-Agent");
    assert("Authorization"@.len() == 13);
    assert("Content-Type"@.len() == 12);
    assert("Accept"@.len() == 6);
    assert("User-Agent"@.len() == 10);
    let given = put(
        machine.request.context.headers,
        "Authorization"@,
        "Bearer "@ + machine.request.context.api_key,
    );
    let typed = put_if_absent(given, "Content-Type"@, "application/json"@);
    let accepting = put_if_absent(typed, "Accept"@, "text/event-stream"@);
    let named = put_if_absent(accepting, "User-Agent"@, "lmx/"@ + crate::VERSION@);
    lemma_kept_beside_a_name(named, lite_header(), key);
    let kept = without_named(named, lite_header());
    let base = if uses_lite(machine) {
        put(kept, lite_header(), "true"@)
    } else {
        kept
    };
    assert(key != lite_header());
    assert(find(base, key) == find(named, key));
    lemma_key_named(base, "x-codex-beta-features"@);
}

proof fn lemma_other_header(key: Seq<char>)
    requires
        key.len() < 20,
    ensures
        !same_name(key, lite_header()),
        !same_name(key, "x-codex-beta-features"@),
{
    reveal_strlit("x-codex-beta-features");
    reveal_strlit("X-OpenAI-Internal-Codex-Responses-Lite");
    assert("x-codex-beta-features"@.len() == 21);
    assert("X-OpenAI-Internal-Codex-Responses-Lite"@.len() == 38);
    assert(ascii_lower_text(key).len() == key.len());
    assert(ascii_lower_text(lite_header()).len() == 38);
    assert(ascii_lower_text("x-codex-beta-features"@).len() == 21);
}

/// A request carries the key of its context as a bearer token, whatever else its
/// caller put there, and asks for a stream of events where the caller did not say
/// otherwise.
pub proof fn a_request_carries_its_key(machine: MachineView)
    ensures
        find(request_headers(machine), "Authorization"@) == Some(
            "Bearer "@ + machine.request.context.api_key,
        ),
        find(request_headers(machine), "Content-Type"@) == Some(
            match find(machine.request.context.headers, "Content-Type"@) {
                Some(own) => own,
                None => "application/json"@,
            },
        ),
        find(request_headers(machine), "Accept"@) == Some(
            match find(machine.request.context.headers, "Accept"@) {
                Some(own) => own,
                None => "text/event-stream"@,
            },
        ),
        find(request_headers(machine), "User-Agent"@) == Some(
            match find(machine.request.context.headers, "User-Agent"@) {
                Some(own) => own,
                None => "lmx/"@ + crate::VERSION@,
            },
        ),
{
    reveal_strlit("Authorization");
    reveal_strlit("Content-Type");
    reveal_strlit("Accept");
    reveal_strlit("User-Agent");
    assert("Authorization"@.len() == 13);
    assert("Content-Type"@.len() == 12);
    assert("Accept"@.len() == 6);
    assert("User-Agent"@.len() == 10);
    lemma_other_header("Authorization"@);
    lemma_other_header("Content-Type"@);
    lemma_other_header("Accept"@);
    lemma_other_header("User-Agent"@);
    lemma_header(machine, "Authorization"@);
    lemma_header(machine, "Content-Type"@);
    lemma_header(machine, "Accept"@);
    lemma_header(machine, "User-Agent"@);
}

/// The headers of a context reach the provider as they are, and no others are made
/// up. The token, the header of the light form and the list of features have rules
/// of their own.
pub proof fn headers_of_the_context_are_kept(machine: MachineView, key: Seq<char>)
    requires
        key != "Authorization"@,
        !same_name(key, lite_header()),
        !same_name(key, "x-codex-beta-features"@),
    ensures
        find(machine.request.context.headers, key) matches Some(value) ==> find(
            request_headers(machine),
            key,
        ) == Some(value),
        find(machine.request.context.headers, key) is None && key != "Content-Type"@ && key
            != "Accept"@ && key != "User-Agent"@ ==> find(request_headers(machine), key) is None,
{
    lemma_header(machine, key);
}

/// A round that compacts asks for the feature by its name; any other round leaves
/// the features as its caller has them.
pub proof fn compaction_is_asked_for_by_its_feature(machine: MachineView)
    requires
        key_named(machine.request.context.headers, "x-codex-beta-features"@) is None,
        machine.round_kind == RoundKind::Response,
    ensures
        find(request_headers(machine), "x-codex-beta-features"@) is None,
{
    broadcast use found_after_put;

    reveal_strlit("Authorization");
    reveal_strlit("Content-Type");
    reveal_strlit("Accept");
    reveal_strlit("User-Agent");
    reveal_strlit("x-codex-beta-features");
    reveal_strlit("X-OpenAI-Internal-Codex-Responses-Lite");
    assert("Authorization"@.len() == 13);
    assert("Content-Type"@.len() == 12);
    assert("Accept"@.len() == 6);
    assert("User-Agent"@.len() == 10);
    assert("x-codex-beta-features"@.len() == 21);
    assert("X-OpenAI-Internal-Codex-Responses-Lite"@.len() == 38);
    lemma_no_such_key(machine.request.context.headers, "x-codex-beta-features"@);
    let given = put(
        machine.request.context.headers,
        "Authorization"@,
        "Bearer "@ + machine.request.context.api_key,
    );
    let typed = put_if_absent(given, "Content-Type"@, "application/json"@);
    let accepting = put_if_absent(typed, "Accept"@, "text/event-stream"@);
    let named = put_if_absent(accepting, "User-Agent"@, "lmx/"@ + crate::VERSION@);
    assert(ascii_lower_text(lite_header()).len() == 38);
    assert(ascii_lower_text("x-codex-beta-features"@).len() == 21);
    lemma_kept_beside_a_name(named, lite_header(), "x-codex-beta-features"@);
}

proof fn lemma_no_such_key(entries: Seq<(Seq<char>, Seq<char>)>, name: Seq<char>)
    requires
        key_named(entries, name) is None,
    ensures
        find(entries, name) is None,
    decreases entries.len(),
{
    if entries.len() > 0 {
        lemma_no_such_key(entries.drop_first(), name);
    }
}

/// A request goes to the endpoint for responses, with the headers and the body of
/// its round; a response of Bedrock or one that is complete has none.
pub proof fn a_request_is_posted_to_responses(machine: MachineView)
    ensures
        match wired(machine) {
            Ok(wire) => {
                &&& !machine.completed
                &&& machine.request.context.provider != Provider::Bedrock
                &&& wire.method == "POST"@
                &&& endpoint(machine.base_url, "responses"@, machine.request.context.query) == Ok::<
                    Seq<char>,
                    ErrorView,
                >(wire.url)
                &&& wire.headers == request_headers(machine)
                &&& wire.body == JsonView::Object(request_body(machine))
            },
            Err(_) => machine.completed || machine.request.context.provider == Provider::Bedrock
                || endpoint(machine.base_url, "responses"@, machine.request.context.query) is Err,
        },
{
}

} // verus!
