//! The rounds of a response.
use vstd::prelude::*;

use crate::bedrock::{output_of, BedrockRound};
#[allow(unused_imports)]
use crate::bedrock::{round_output, BedrockRoundView};
use crate::endpoint::endpoint_url;
#[allow(unused_imports)]
use crate::endpoint::endpoint;
use crate::error::{event_error, state_error, Error};
#[allow(unused_imports)]
use crate::error::{outcome, ErrorView};
use crate::json::{clone_list, clone_objects, extend_objects, json_text_of, Json, JsonObject};
#[allow(unused_imports)]
use crate::json::{
    field, json_text, no_members, number_field, number_json, or_empty, text_field, text_json,
    text_member, with, JsonView, ObjectView,
};
use crate::ordered::{sort_texts, StringMap};
#[allow(unused_imports)]
use crate::ordered::{find, key_named, put, put_if_absent, sorted_texts, without_named};
use crate::providers::{Provider, ProviderRegistry};
#[allow(unused_imports)]
use crate::providers::{base_url_of, each_trimmed, provider_name, spec_of, RegistryView, SpecView};
use crate::response::{
    function_call_output_item, openai_input_item, output_text_from_items, parse_response_usage,
    parse_tool_call, text_or_empty, validate_compaction_item, validate_request_context,
    CodexProtocol, ContextManagement, CoreEvent, InferenceHistoryUpdate, NextAction, ResponseItem,
    ResponseRequest, ResponseResult, ResponseUsage, ToolCall, ToolOutput, WireRequest,
};
#[allow(unused_imports)]
use crate::response::{
    context_fault, function_output_item, input_item, is_compaction, no_compaction, output_text,
    tool_call, usage_of, ActionView, EventView, HistoryView, RequestView, ResultView,
    ToolCallView, ToolOutputView, WireView,
};
use crate::text::{
    cat, cat3, clone_option, decimal_of, has_text, join, owned, split, starts_with, trim,
};
#[allow(unused_imports)]
use crate::text::{begins_with, decimal, joined, pieces, trimmed};
use crate::tokens::{estimate_input_tokens, retain_compaction_messages};
#[allow(unused_imports)]
use crate::tokens::{input_tokens, retained};
use crate::VERSION;

verus! {

/// What a round is for: a response, or a smaller conversation.
#[derive(Clone, Copy, Debug, PartialEq, Eq, Structural)]
pub enum RoundKind {
    Response,
    Compaction,
}

/// From how many tokens on a conversation with Codex is compacted.
pub const CODEX_GPT_5_6_AUTO_COMPACT_TOKEN_LIMIT: u64 = 244_800;

/// How many tokens of messages remain when a conversation with Codex is compacted.
pub const CODEX_RETAINED_MESSAGE_TOKEN_BUDGET: u64 = 64_000;

/// The rounds of one response, whatever its provider. It builds every request and
/// takes in every event; a host runs the tools between the rounds.
#[derive(Debug)]
pub struct ResponseMachine {
    request: ResponseRequest,
    model: String,
    base_url: String,
    running_input: Vec<ResponseItem>,
    accumulated_items: Vec<ResponseItem>,
    response_items: Vec<ResponseItem>,
    round_items: Vec<(usize, ResponseItem)>,
    round_completed: bool,
    round_kind: RoundKind,
    round_response_id: Option<String>,
    round_usage: Option<ResponseUsage>,
    round_server_compaction_index: Option<usize>,
    last_response_id: Option<String>,
    last_usage: Option<ResponseUsage>,
    last_usage_input_item_count: Option<usize>,
    history_replaced: bool,
    tool_roundtrips: u8,
    completed: bool,
}

/// The state of a response.
pub struct MachineView {
    pub request: RequestView,
    pub model: Seq<char>,
    pub base_url: Seq<char>,
    pub running_input: Seq<ObjectView>,
    pub accumulated_items: Seq<ObjectView>,
    pub response_items: Seq<ObjectView>,
    pub round_items: Seq<(usize, ObjectView)>,
    pub round_completed: bool,
    pub round_kind: RoundKind,
    pub round_response_id: Option<Seq<char>>,
    pub round_usage: Option<ResponseUsage>,
    pub round_server_compaction_index: Option<usize>,
    pub last_response_id: Option<Seq<char>>,
    pub last_usage: Option<ResponseUsage>,
    pub last_usage_input_item_count: Option<usize>,
    pub history_replaced: bool,
    pub tool_roundtrips: u8,
    pub completed: bool,
}

impl DeepView for ResponseMachine {
    type V = MachineView;

    closed spec fn deep_view(&self) -> MachineView {
        MachineView {
            request: self.request.deep_view(),
            model: self.model@,
            base_url: self.base_url@,
            running_input: self.running_input.deep_view(),
            accumulated_items: self.accumulated_items.deep_view(),
            response_items: self.response_items.deep_view(),
            round_items: self.round_items.deep_view(),
            round_completed: self.round_completed,
            round_kind: self.round_kind,
            round_response_id: self.round_response_id.deep_view(),
            round_usage: self.round_usage,
            round_server_compaction_index: self.round_server_compaction_index,
            last_response_id: self.last_response_id.deep_view(),
            last_usage: self.last_usage,
            last_usage_input_item_count: self.last_usage_input_item_count,
            history_replaced: self.history_replaced,
            tool_roundtrips: self.tool_roundtrips,
            completed: self.completed,
        }
    }
}

/// A state that a response can be in: the last reported usage goes with a place
/// in the conversation.
pub open spec fn well_formed(machine: MachineView) -> bool {
    match machine.last_usage_input_item_count {
        Some(count) => machine.last_usage is Some && count <= machine.running_input.len(),
        None => machine.last_usage is None,
    }
}

/// The form in which Codex takes a request: the one that was chosen, else the
/// light one for the models that are known to take it.
pub open spec fn codex_protocol(request: RequestView, model: Seq<char>) -> Option<CodexProtocol> {
    if request.context.provider != Provider::Codex {
        None
    } else if request.codex_protocol is Some {
        request.codex_protocol
    } else if begins_with(model, "gpt-5.6-"@) {
        Some(CodexProtocol::ResponsesLite)
    } else {
        None
    }
}

/// Whether requests go to Codex in the light form.
pub open spec fn uses_lite(machine: MachineView) -> bool {
    codex_protocol(machine.request, machine.model) == Some(CodexProtocol::ResponsesLite)
}

/// Whether requests go to Codex in the standard form.
pub open spec fn uses_standard(machine: MachineView) -> bool {
    codex_protocol(machine.request, machine.model) == Some(CodexProtocol::ResponsesStandard)
}

/// The model that a request goes to.
pub open spec fn request_model(request: RequestView, spec: SpecView) -> Seq<char> {
    match request.model {
        Some(model) => model,
        None => spec.default_model,
    }
}

/// Whether a conversation can be kept small in that way: the light form by
/// requests of its own, the standard form by the server.
pub open spec fn manages_context(
    protocol: Option<CodexProtocol>,
    management: ContextManagement,
) -> bool {
    match management {
        ContextManagement::RemoteV2 { .. } => protocol == Some(CodexProtocol::ResponsesLite),
        ContextManagement::Server { .. } => protocol == Some(CodexProtocol::ResponsesStandard),
    }
}

/// Why a response cannot be begun, where it cannot.
pub open spec fn request_fault(request: RequestView, spec: SpecView) -> Option<ErrorView> {
    let name = provider_name(spec.provider);
    let model = request_model(request, spec);
    let protocol = codex_protocol(request, model);
    if context_fault(request.context) is Some {
        context_fault(request.context)
    } else if !spec.available_models.contains(model) && !(request.context.provider
        == Provider::Codex && request.codex_protocol is Some) {
        Some(ErrorView::UnsupportedModel { provider: name, model })
    } else if request.tools.len() > 0 && !spec.capabilities.supports_tools {
        Some(ErrorView::UnsupportedCapability(name, "tools"@))
    } else if request.text_format is Some && !spec.capabilities.supports_structured_output {
        Some(ErrorView::UnsupportedCapability(name, "native structured output"@))
    } else if request.codex_protocol is Some && request.context.provider != Provider::Codex {
        Some(
            ErrorView::UnsupportedCapability(name, "GPT-5.6 Codex Responses protocol selection"@),
        )
    } else {
        match request.context_management {
            Some(ContextManagement::Server { compact_threshold: 0 }) => Some(
                ErrorView::State("server compact threshold must be greater than zero"@),
            ),
            Some(management) => if manages_context(protocol, management) {
                None
            } else {
                Some(
                    ErrorView::UnsupportedCapability(
                        name,
                        "selected Codex context-management protocol"@,
                    ),
                )
            },
            None => None,
        }
    }
}

/// The usage that a request brings along, with the place in the conversation that
/// it was reported at.
pub open spec fn previous_usage(request: RequestView) -> (Option<ResponseUsage>, Option<usize>) {
    match request.context_management {
        Some(
            ContextManagement::RemoteV2 { previous_usage, previous_usage_input_item_count, .. },
        ) => (previous_usage, previous_usage_input_item_count),
        _ => (None, None),
    }
}

/// Where a request goes. Bedrock has addresses of its own.
pub open spec fn request_base_url(request: RequestView, spec: SpecView) -> Result<
    Seq<char>,
    ErrorView,
> {
    if request.context.provider == Provider::Bedrock {
        Ok(Seq::empty())
    } else {
        base_url_of(request.context, spec)
    }
}

/// The state in which a response begins.
pub open spec fn started(registry: RegistryView, request: RequestView) -> Result<
    MachineView,
    ErrorView,
> {
    match spec_of(registry, request.context.provider) {
        None => Err(ErrorView::UnknownProvider(provider_name(request.context.provider))),
        Some(spec) => match request_fault(request, spec) {
            Some(error) => Err(error),
            None => match request_base_url(request, spec) {
                Err(error) => Err(error),
                Ok(base_url) => {
                    let (usage, count) = previous_usage(request);
                    let together = match (usage, count) {
                        (Some(_), Some(count)) => count <= request.input.len(),
                        (None, None) => true,
                        _ => false,
                    };
                    if !together {
                        Err(
                            ErrorView::State(
                                "previous usage requires its valid input item count checkpoint"@,
                            ),
                        )
                    } else {
                        Ok(
                            MachineView {
                                request,
                                model: request_model(request, spec),
                                base_url,
                                running_input: request.input,
                                accumulated_items: Seq::empty(),
                                response_items: Seq::empty(),
                                round_items: Seq::empty(),
                                round_completed: false,
                                round_kind: RoundKind::Response,
                                round_response_id: None,
                                round_usage: None,
                                round_server_compaction_index: None,
                                last_response_id: None,
                                last_usage: usage,
                                last_usage_input_item_count: count,
                                history_replaced: false,
                                tool_roundtrips: 0,
                                completed: false,
                            },
                        )
                    }
                },
            },
        },
    }
}

/// What is said of a response that has ended.
pub open spec fn already_complete() -> ErrorView {
    ErrorView::State("response is already complete"@)
}

/// The size from which the conversation is compacted.
pub open spec fn compact_limit(limit: Option<u64>) -> u64 {
    match limit {
        Some(limit) => limit,
        None => CODEX_GPT_5_6_AUTO_COMPACT_TOKEN_LIMIT,
    }
}

/// About how many tokens the conversation is: what was reported last, and an
/// estimate of what has come since.
pub open spec fn conversation_tokens(machine: MachineView) -> nat {
    match (machine.last_usage, machine.last_usage_input_item_count) {
        (Some(usage), Some(count)) => usage.total_tokens as nat + input_tokens(
            machine.running_input.skip(count as int),
        ),
        _ => input_tokens(machine.running_input),
    }
}

/// Whether the next round compacts the conversation.
pub open spec fn compacts_next(machine: MachineView) -> bool {
    match machine.request.context_management {
        Some(ContextManagement::RemoteV2 { auto_compact_token_limit, .. }) => uses_lite(machine)
            && conversation_tokens(machine) >= compact_limit(auto_compact_token_limit),
        _ => false,
    }
}

/// The state after a round was begun.
pub open spec fn begun(machine: MachineView) -> (MachineView, Result<(), ErrorView>) {
    if machine.completed {
        (machine, Err(already_complete()))
    } else if machine.round_items.len() > 0 {
        (machine, Err(ErrorView::State("response round has unprocessed output items"@)))
    } else {
        (
            MachineView {
                round_completed: false,
                round_response_id: None,
                round_usage: None,
                round_server_compaction_index: None,
                round_kind: if compacts_next(machine) {
                    RoundKind::Compaction
                } else {
                    RoundKind::Response
                },
                ..machine
            },
            Ok(()),
        )
    }
}

/// The items with one more at its index, in the order of the indexes; it takes
/// the place of one that stood there.
pub open spec fn placed(items: Seq<(usize, ObjectView)>, index: usize, item: ObjectView) -> Seq<
    (usize, ObjectView),
>
    decreases items.len(),
{
    if items.len() == 0 {
        seq![(index, item)]
    } else if items.last().0 < index {
        items.push((index, item))
    } else if items.last().0 == index {
        items.drop_last().push((index, item))
    } else {
        placed(items.drop_last(), index, item).push(items.last())
    }
}

/// The number, or 0 where there is none.
pub open spec fn or_zero(n: Option<u64>) -> u64 {
    match n {
        Some(n) => n,
        None => 0,
    }
}

/// The index of an output item.
pub open spec fn output_index(event: JsonView) -> usize {
    or_zero(number_field(event, "output_index"@)) as usize
}

/// No events.
pub open spec fn no_events() -> Seq<EventView> {
    Seq::empty()
}

/// What an output item does.
pub open spec fn item_done(machine: MachineView, index: usize, item: ObjectView) -> (
    MachineView,
    Result<Seq<EventView>, ErrorView>,
) {
    let taken = MachineView { round_items: placed(machine.round_items, index, item), ..machine };
    if machine.round_kind == RoundKind::Compaction {
        (taken, Ok(no_events()))
    } else if uses_standard(machine) && text_member(item, "type"@) == Some("compaction"@) {
        if is_compaction(item) {
            (
                MachineView { round_server_compaction_index: Some(index), ..taken },
                Ok(seq![EventView::ContextCompacted { items: seq![item], usage: None }]),
            )
        } else {
            (taken, Err(no_compaction()))
        }
    } else {
        (taken, Ok(seq![EventView::OutputItem { output_index: index, item }]))
    }
}

/// What a preview of an image is.
pub open spec fn partial_image(event: JsonView) -> Result<Seq<EventView>, ErrorView> {
    match number_field(event, "partial_image_index"@) {
        None => Err(
            ErrorView::Event(
                "image generation partial event did not include partial_image_index"@,
            ),
        ),
        Some(index) => if index > 255 {
            Err(ErrorView::Event("partial image index exceeds u8"@))
        } else if or_empty(text_field(event, "partial_image_b64"@)).len() == 0 {
            Err(
                ErrorView::Event(
                    "image generation partial event did not include partial_image_b64"@,
                ),
            )
        } else {
            Ok(
                seq![
                    EventView::ImageGenerationPartial {
                        partial_image_index: index as u8,
                        partial_image_base64: or_empty(text_field(event, "partial_image_b64"@)),
                    },
                ],
            )
        },
    }
}

/// The response that an event speaks of.
pub open spec fn response_in(event: JsonView) -> JsonView {
    match field(event, "response"@) {
        Some(response) => response,
        None => event,
    }
}

/// The state after an event of the stream, and what is told of it.
pub open spec fn ingested(machine: MachineView, event: JsonView) -> (
    MachineView,
    Result<Seq<EventView>, ErrorView>,
) {
    let kind = or_empty(text_field(event, "type"@));
    if kind == "response.output_text.delta"@ {
        let delta = or_empty(text_field(event, "delta"@));
        if machine.round_kind == RoundKind::Compaction || delta.len() == 0 {
            (machine, Ok(no_events()))
        } else {
            (machine, Ok(seq![EventView::TextDelta { delta }]))
        }
    } else if kind == "response.output_item.done"@ {
        match field(event, "item"@) {
            Some(JsonView::Object(item)) => item_done(machine, output_index(event), item),
            _ => (
                machine,
                Err(ErrorView::Event("response.output_item.done is missing an object item"@)),
            ),
        }
    } else if kind == "response.image_generation_call.partial_image"@ {
        (machine, partial_image(event))
    } else if kind == "response.completed"@ {
        (
            MachineView {
                round_completed: true,
                round_response_id: text_field(response_in(event), "id"@),
                round_usage: match field(response_in(event), "usage"@) {
                    Some(usage) => usage_of(usage),
                    None => None,
                },
                ..machine
            },
            Ok(no_events()),
        )
    } else if kind == "response.incomplete"@ {
        (machine, Err(ErrorView::Event("request ended incomplete: "@ + json_text(event))))
    } else if kind == "response.failed"@ {
        (machine, Err(ErrorView::Event("request failed during stream: "@ + json_text(event))))
    } else {
        (machine, Ok(no_events()))
    }
}

/// The items without their indexes.
pub open spec fn in_order(items: Seq<(usize, ObjectView)>) -> Seq<ObjectView> {
    Seq::new(items.len(), |i: int| items[i].1)
}

/// The items that are no compacted conversation.
pub open spec fn without_compactions(items: Seq<ObjectView>) -> Seq<ObjectView>
    decreases items.len(),
{
    if items.len() == 0 {
        Seq::empty()
    } else if text_member(items.last(), "type"@) == Some("compaction"@) {
        without_compactions(items.drop_last())
    } else {
        without_compactions(items.drop_last()).push(items.last())
    }
}

/// The place of the last compacted conversation.
pub open spec fn last_compaction(items: Seq<ObjectView>) -> Option<int>
    decreases items.len(),
{
    if items.len() == 0 {
        None
    } else if text_member(items.last(), "type"@) == Some("compaction"@) {
        Some(items.len() - 1)
    } else {
        last_compaction(items.drop_last())
    }
}

/// Whether an item asks for a tool.
pub open spec fn is_function_call(item: ObjectView) -> bool {
    text_member(item, "type"@) == Some("function_call"@)
}

/// The calls that some items ask for, or what is wrong with the first that cannot
/// be read.
pub open spec fn tool_calls(items: Seq<ObjectView>) -> Result<Seq<ToolCallView>, ErrorView>
    decreases items.len(),
{
    if items.len() == 0 {
        Ok(Seq::empty())
    } else {
        match tool_calls(items.drop_last()) {
            Err(error) => Err(error),
            Ok(calls) => if !is_function_call(items.last()) {
                Ok(calls)
            } else {
                match tool_call(items.last()) {
                    Err(error) => Err(error),
                    Ok(call) => Ok(calls.push(call)),
                }
            },
        }
    }
}

/// The tokens of messages that remain when the conversation is compacted.
pub open spec fn retained_budget(machine: MachineView) -> u64 {
    match machine.request.context_management {
        Some(
            ContextManagement::RemoteV2 { retained_message_token_budget: Some(budget), .. },
        ) => budget,
        _ => CODEX_RETAINED_MESSAGE_TOKEN_BUDGET,
    }
}

/// The end of a round that compacts the conversation: the messages that are kept
/// and the compacted conversation take its place.
pub open spec fn compaction_finished(machine: MachineView) -> (
    MachineView,
    Result<ActionView, ErrorView>,
) {
    let items = in_order(machine.round_items);
    let emptied = MachineView { round_items: Seq::empty(), ..machine };
    if items.len() != 1 {
        (
            emptied,
            Err(
                ErrorView::Event(
                    "remote compaction v2 returned "@ + decimal(items.len())
                        + " output items instead of exactly one"@,
                ),
            ),
        )
    } else if !is_compaction(items[0]) {
        (emptied, Err(no_compaction()))
    } else {
        let replacement = retained(
            machine.running_input,
            retained_budget(machine) as nat,
        ).push(items[0]);
        (
            MachineView {
                running_input: replacement,
                history_replaced: true,
                last_response_id: machine.round_response_id,
                round_response_id: None,
                round_usage: None,
                last_usage: None,
                last_usage_input_item_count: None,
                ..emptied
            },
            Ok(ActionView::Compacted { items: replacement, usage: machine.round_usage }),
        )
    }
}

/// The state after the items of a round were taken into the conversation. What
/// the server compacted begins it anew.
pub open spec fn items_taken(machine: MachineView) -> (MachineView, Result<(), ErrorView>) {
    let items = in_order(machine.round_items);
    let heard = MachineView {
        round_items: Seq::empty(),
        last_response_id: machine.round_response_id,
        round_response_id: None,
        response_items: machine.response_items + without_compactions(items),
        round_server_compaction_index: None,
        ..machine
    };
    if machine.round_server_compaction_index is Some {
        match last_compaction(items) {
            None => (
                heard,
                Err(
                    ErrorView::State(
                        "server compaction index did not resolve to a compaction item"@,
                    ),
                ),
            ),
            Some(at) => (
                usage_taken(
                    MachineView {
                        accumulated_items: items.skip(at),
                        running_input: items.skip(at),
                        history_replaced: true,
                        ..heard
                    },
                ),
                Ok(()),
            ),
        }
    } else {
        (
            usage_taken(
                MachineView {
                    accumulated_items: machine.accumulated_items + items,
                    running_input: machine.running_input + items,
                    ..heard
                },
            ),
            Ok(()),
        )
    }
}

/// The state after the usage of a round was noted.
pub open spec fn usage_taken(machine: MachineView) -> MachineView {
    MachineView {
        last_usage: machine.round_usage,
        last_usage_input_item_count: if machine.round_usage is Some {
            Some(machine.running_input.len() as usize)
        } else {
            None
        },
        round_usage: None,
        ..machine
    }
}

/// The response as it stands.
pub open spec fn result_of(machine: MachineView) -> ResultView {
    ResultView {
        provider: provider_name(machine.request.context.provider),
        model: machine.model,
        output_items: machine.response_items,
        output_text: output_text(machine.response_items),
        tool_roundtrips: machine.tool_roundtrips,
        response_id: machine.last_response_id,
        usage: machine.last_usage,
        history_update: if machine.history_replaced {
            HistoryView::Replace { items: machine.running_input }
        } else {
            HistoryView::Append { items: machine.accumulated_items }
        },
    }
}

/// The state after a round, and what comes next.
pub open spec fn finished(machine: MachineView) -> (MachineView, Result<ActionView, ErrorView>) {
    if machine.completed {
        (machine, Err(already_complete()))
    } else if !machine.round_completed {
        (machine, Err(ErrorView::State("request ended without a completed stream event"@)))
    } else if machine.round_kind == RoundKind::Compaction {
        compaction_finished(machine)
    } else {
        let (taken, fault) = items_taken(machine);
        match fault {
            Err(error) => (taken, Err(error)),
            Ok(()) => match tool_calls(in_order(machine.round_items)) {
                Err(error) => (taken, Err(error)),
                Ok(calls) => if calls.len() == 0 {
                    (
                        MachineView { completed: true, ..taken },
                        Ok(ActionView::Completed { result: result_of(taken) }),
                    )
                } else {
                    (
                        MachineView {
                            tool_roundtrips: (taken.tool_roundtrips + 1) as u8,
                            ..taken
                        },
                        Ok(ActionView::ToolCalls { calls }),
                    )
                },
            },
        }
    }
}

/// Whether an item of the round asks for a tool.
pub open spec fn asks_for_tools(machine: MachineView) -> bool {
    exists|i: int|
        0 <= i < machine.round_items.len() && is_function_call(#[trigger] machine.round_items[i].1)
}

/// The items that hand the outputs of tools to the model.
pub open spec fn output_items(outputs: Seq<ToolOutputView>) -> Seq<ObjectView> {
    Seq::new(outputs.len(), |i: int| function_output_item(outputs[i]))
}

/// What is told of the outputs of tools.
pub open spec fn output_events(outputs: Seq<ToolOutputView>) -> Seq<EventView> {
    Seq::new(
        outputs.len(),
        |i: int|
            EventView::ToolCallCompleted {
                name: Seq::empty(),
                call_id: outputs[i].call_id,
                result: outputs[i].result,
                output_item: function_output_item(outputs[i]),
            },
    )
}

/// The state after tools gave their outputs.
pub open spec fn submitted(machine: MachineView, outputs: Seq<ToolOutputView>) -> (
    MachineView,
    Result<Seq<EventView>, ErrorView>,
) {
    if machine.completed {
        (machine, Err(already_complete()))
    } else {
        (
            MachineView {
                accumulated_items: machine.accumulated_items + output_items(outputs),
                response_items: machine.response_items + output_items(outputs),
                running_input: machine.running_input + output_items(outputs),
                ..machine
            },
            Ok(output_events(outputs)),
        )
    }
}

/// The items with others at the indexes from 0 on.
pub open spec fn placed_all(items: Seq<(usize, ObjectView)>, more: Seq<ObjectView>) -> Seq<
    (usize, ObjectView),
>
    decreases more.len(),
{
    if more.len() == 0 {
        items
    } else {
        placed(placed_all(items, more.drop_last()), (more.len() - 1) as usize, more.last())
    }
}

/// The state after a round with Bedrock has come in.
pub open spec fn bedrock_taken(machine: MachineView, round: BedrockRoundView) -> MachineView {
    MachineView {
        round_items: placed_all(machine.round_items, round_output(round)),
        round_completed: true,
        ..machine
    }
}

/// The header that asks Codex for the light form.
pub open spec fn lite_header() -> Seq<char> {
    "X-OpenAI-Internal-Codex-Responses-Lite"@
}

/// The texts that are not empty.
pub open spec fn not_empty(texts: Seq<Seq<char>>) -> Seq<Seq<char>>
    decreases texts.len(),
{
    if texts.len() == 0 {
        Seq::empty()
    } else if texts.last().len() == 0 {
        not_empty(texts.drop_last())
    } else {
        not_empty(texts.drop_last()).push(texts.last())
    }
}

/// The features that are asked for, with compaction among them.
pub open spec fn features_with_compaction(features: Seq<char>) -> Seq<char> {
    joined(
        sorted_texts(
            not_empty(each_trimmed(pieces(features, ','))).push("remote_compaction_v2"@),
        ),
        ","@,
    )
}

/// The headers with compaction among the features that they ask for.
pub open spec fn headers_with_compaction(headers: Seq<(Seq<char>, Seq<char>)>) -> Seq<
    (Seq<char>, Seq<char>),
> {
    match key_named(headers, "x-codex-beta-features"@) {
        Some(name) => put(
            headers,
            name,
            features_with_compaction(or_empty(find(headers, name))),
        ),
        None => put(headers, "x-codex-beta-features"@, features_with_compaction(Seq::empty())),
    }
}

/// The headers of a request.
pub open spec fn request_headers(machine: MachineView) -> Seq<(Seq<char>, Seq<char>)> {
    let headers = put(
        machine.request.context.headers,
        "Authorization"@,
        "Bearer "@ + machine.request.context.api_key,
    );
    let headers = put_if_absent(headers, "Content-Type"@, "application/json"@);
    let headers = put_if_absent(headers, "Accept"@, "text/event-stream"@);
    let headers = put_if_absent(headers, "User-Agent"@, "lmx/"@ + VERSION@);
    let headers = without_named(headers, lite_header());
    let headers = if uses_lite(machine) {
        put(headers, lite_header(), "true"@)
    } else {
        headers
    };
    if machine.round_kind == RoundKind::Compaction {
        headers_with_compaction(headers)
    } else {
        headers
    }
}

/// The conversation as a request holds it.
pub open spec fn input_list(items: Seq<ObjectView>) -> Seq<JsonView> {
    Seq::new(items.len(), |i: int| JsonView::Object(input_item(items[i])))
}

/// The conversation of a round: to be compacted, it ends in a trigger.
pub open spec fn round_input(machine: MachineView) -> Seq<JsonView> {
    let input = input_list(machine.running_input);
    if machine.round_kind == RoundKind::Compaction {
        input.push(
            JsonView::Object(with(no_members(), "type"@, text_json("compaction_trigger"@))),
        )
    } else {
        input
    }
}

/// The item that brings the tools along in the light form.
pub open spec fn additional_tools(tools: Seq<JsonView>) -> JsonView {
    JsonView::Object(
        with(
            with(
                with(no_members(), "type"@, text_json("additional_tools"@)),
                "role"@,
                text_json("developer"@),
            ),
            "tools"@,
            JsonView::List(tools),
        ),
    )
}

/// The message that brings the instructions along in the light form.
pub open spec fn developer_message(instructions: Seq<char>) -> JsonView {
    let part = with(
        with(no_members(), "type"@, text_json("input_text"@)),
        "text"@,
        text_json(instructions),
    );
    JsonView::Object(
        with(
            with(
                with(no_members(), "type"@, text_json("message"@)),
                "role"@,
                text_json("developer"@),
            ),
            "content"@,
            JsonView::List(seq![JsonView::Object(part)]),
        ),
    )
}

/// What the light form puts before the conversation.
pub open spec fn lite_preamble(request: RequestView) -> Seq<JsonView> {
    if request.instructions.len() == 0 {
        seq![additional_tools(request.tools)]
    } else {
        seq![additional_tools(request.tools), developer_message(request.instructions)]
    }
}

/// How Codex is asked to reason.
pub open spec fn codex_reasoning(effort: Option<Seq<char>>) -> ObjectView {
    let reasoning = with(
        with(no_members(), "summary"@, JsonView::Null),
        "context"@,
        text_json("all_turns"@),
    );
    match effort {
        Some(effort) => with(reasoning, "effort"@, text_json(effort)),
        None => reasoning,
    }
}

/// How a text is asked for.
pub open spec fn text_options(request: RequestView) -> ObjectView {
    let text = with(no_members(), "verbosity"@, text_json(request.text_verbosity));
    match request.text_format {
        Some(format) => with(text, "format"@, format),
        None => text,
    }
}

/// What every request holds.
pub open spec fn common_body(machine: MachineView) -> ObjectView {
    let request = machine.request;
    let body = with(no_members(), "model"@, text_json(machine.model));
    let body = with(body, "input"@, JsonView::List(round_input(machine)));
    let body = with(
        body,
        "tool_choice"@,
        match request.tool_choice {
            Some(choice) => choice,
            None => text_json("auto"@),
        },
    );
    let body = with(body, "parallel_tool_calls"@, JsonView::Bool(false));
    let body = with(body, "store"@, JsonView::Bool(false));
    let body = with(
        body,
        "include"@,
        JsonView::List(seq![text_json("reasoning.encrypted_content"@)]),
    );
    let body = with(body, "text"@, JsonView::Object(text_options(request)));
    with(body, "stream"@, JsonView::Bool(true))
}

/// The body with the instructions and the tools of a request.
pub open spec fn with_instructions(body: ObjectView, request: RequestView) -> ObjectView {
    with(
        with(body, "instructions"@, text_json(request.instructions)),
        "tools"@,
        JsonView::List(request.tools),
    )
}

/// The body of a request.
pub open spec fn request_body(machine: MachineView) -> ObjectView {
    let request = machine.request;
    let body = common_body(machine);
    if uses_lite(machine) {
        let body = with(
            body,
            "input"@,
            JsonView::List(lite_preamble(request) + round_input(machine)),
        );
        with(body, "reasoning"@, JsonView::Object(codex_reasoning(request.reasoning_effort)))
    } else if uses_standard(machine) {
        let body = with(
            with_instructions(body, request),
            "reasoning"@,
            JsonView::Object(codex_reasoning(request.reasoning_effort)),
        );
        match request.context_management {
            Some(ContextManagement::Server { compact_threshold }) => with(
                body,
                "context_management"@,
                JsonView::List(
                    seq![
                        JsonView::Object(
                            with(
                                with(no_members(), "type"@, text_json("compaction"@)),
                                "compact_threshold"@,
                                number_json(compact_threshold),
                            ),
                        ),
                    ],
                ),
            ),
            _ => body,
        }
    } else {
        let body = with_instructions(body, request);
        match request.reasoning_effort {
            Some(effort) => with(
                body,
                "reasoning"@,
                JsonView::Object(
                    with(
                        with(no_members(), "effort"@, text_json(effort)),
                        "summary"@,
                        JsonView::Null,
                    ),
                ),
            ),
            None => body,
        }
    }
}

/// The request of a round.
pub open spec fn wired(machine: MachineView) -> Result<WireView, ErrorView> {
    if machine.completed {
        Err(already_complete())
    } else if machine.request.context.provider == Provider::Bedrock {
        Err(
            ErrorView::State(
                "bedrock provider uses its own transport; wire_request is not applicable"@,
            ),
        )
    } else {
        match endpoint(machine.base_url, "responses"@, machine.request.context.query) {
            Err(error) => Err(error),
            Ok(url) => Ok(
                WireView {
                    method: "POST"@,
                    url,
                    headers: request_headers(machine),
                    body: JsonView::Object(request_body(machine)),
                },
            ),
        }
    }
}

fn place(items: &mut Vec<(usize, ResponseItem)>, index: usize, item: ResponseItem)
    ensures
        final(items).deep_view() == placed(old(items).deep_view(), index, item@),
{
    let ghost all = items.deep_view();
    let mut at: usize = items.len();
    assert(all.take(all.len() as int) =~= all);
    assert(all.skip(all.len() as int) =~= Seq::empty());
    let ghost goal = placed(all, index, item@);
    assert(goal =~= goal + all.skip(all.len() as int));
    while at > 0 && items[at - 1].0 > index
        invariant
            at <= items@.len(),
            all == items.deep_view(),
            goal == placed(all.take(at as int), index, item@) + all.skip(at as int),
        decreases at,
    {
        let ghost here = all.take(at as int);
        assert(here.last() == all[at - 1]);
        assert(here.drop_last() =~= all.take(at - 1));
        assert(all[at - 1].0 == items@[at - 1].0);
        assert(placed(here, index, item@) + all.skip(at as int) =~= placed(
            all.take(at - 1),
            index,
            item@,
        ) + all.skip(at - 1));
        at -= 1;
    }
    let ghost here = all.take(at as int);
    if at > 0 && items[at - 1].0 == index {
        assert(here.last() == all[at - 1]);
        items[at - 1] = (index, item);
        assert(items.deep_view() =~= all.update(at - 1, (index, item@)));
        assert(goal =~= all.update(at - 1, (index, item@)));
    } else {
        proof {
            if at > 0 {
                assert(here.last() == all[at - 1]);
                assert(all[at - 1].0 == items@[at - 1].0);
            }
        }
        items.insert(at, (index, item));
        assert(items.deep_view() =~= all.insert(at as int, (index, item@)));
        assert(goal =~= all.insert(at as int, (index, item@)));
    }
}

fn values(items: Vec<(usize, ResponseItem)>) -> (out: Vec<ResponseItem>)
    ensures
        out.deep_view() == in_order(items.deep_view()),
{
    let mut out: Vec<ResponseItem> = Vec::new();
    for i in 0..items.len()
        invariant
            out@.len() == i,
            forall|k: int| 0 <= k < i ==> (#[trigger] out@[k])@ == items@[k].1@,
    {
        out.push(items[i].1.clone());
    }
    assert(out.deep_view() =~= in_order(items.deep_view()));
    out
}

fn drop_compactions(items: &Vec<ResponseItem>) -> (out: Vec<ResponseItem>)
    ensures
        out.deep_view() == without_compactions(items.deep_view()),
{
    let ghost all = items.deep_view();
    let mut out: Vec<ResponseItem> = Vec::new();
    assert(out.deep_view() =~= Seq::empty());
    assert(all.take(0) =~= Seq::empty());
    for i in 0..items.len()
        invariant
            all == items.deep_view(),
            out.deep_view() == without_compactions(all.take(i as int)),
    {
        let ghost so_far = all.take(i as int + 1);
        assert(so_far.drop_last() =~= all.take(i as int));
        assert(so_far.last() == items@[i as int]@);
        if !items[i].has_text("type", "compaction") {
            let ghost before = out.deep_view();
            out.push(items[i].clone());
            assert(out.deep_view() =~= before.push(items@[i as int]@));
        }
    }
    assert(all.take(all.len() as int) =~= all);
    out
}

fn find_last_compaction(items: &Vec<ResponseItem>) -> (at: Option<usize>)
    ensures
        match at {
            Some(at) => at < items@.len() && last_compaction(items.deep_view()) == Some(at as int),
            None => last_compaction(items.deep_view()) is None,
        },
{
    let ghost all = items.deep_view();
    let mut left: usize = items.len();
    assert(all.take(all.len() as int) =~= all);
    while left > 0
        invariant
            left <= items@.len(),
            all == items.deep_view(),
            last_compaction(all) == last_compaction(all.take(left as int)),
        decreases left,
    {
        let ghost here = all.take(left as int);
        left -= 1;
        assert(here.drop_last() =~= all.take(left as int));
        assert(here.last() == items@[left as int]@);
        if items[left].has_text("type", "compaction") {
            return Some(left);
        }
    }
    None
}

fn items_from(items: &Vec<ResponseItem>, from: usize) -> (out: Vec<ResponseItem>)
    requires
        from <= items@.len(),
    ensures
        out.deep_view() == items.deep_view().skip(from as int),
{
    let mut out: Vec<ResponseItem> = Vec::new();
    for i in from..items.len()
        invariant
            from <= items@.len(),
            out@.len() == i - from,
            forall|k: int| 0 <= k < i - from ==> (#[trigger] out@[k])@ == items@[from + k]@,
    {
        out.push(items[i].clone());
    }
    assert(out.deep_view() =~= items.deep_view().skip(from as int));
    out
}

proof fn lemma_first_error(items: Seq<ObjectView>, n: int)
    requires
        0 <= n <= items.len(),
        tool_calls(items.take(n)) is Err,
    ensures
        tool_calls(items) == tool_calls(items.take(n)),
    decreases items.len() - n,
{
    if n == items.len() {
        assert(items.take(n) =~= items);
    } else {
        assert(items.take(n + 1).drop_last() =~= items.take(n));
        lemma_first_error(items, n + 1);
    }
}

pub(crate) proof fn lemma_calls_are_asked_for(items: Seq<ObjectView>)
    ensures
        tool_calls(items) matches Ok(calls) ==> (calls.len() > 0 <==> exists|i: int|
            0 <= i < items.len() && is_function_call(#[trigger] items[i])),
    decreases items.len(),
{
    if items.len() > 0 {
        let earlier = items.drop_last();
        lemma_calls_are_asked_for(earlier);
        if tool_calls(items) is Ok {
            if exists|i: int| 0 <= i < earlier.len() && is_function_call(#[trigger] earlier[i]) {
                let i = choose|i: int|
                    0 <= i < earlier.len() && is_function_call(#[trigger] earlier[i]);
                assert(items[i] == earlier[i]);
            }
            if is_function_call(items.last()) {
                assert(is_function_call(items[items.len() - 1]));
            }
            if exists|i: int| 0 <= i < items.len() && is_function_call(#[trigger] items[i]) {
                let i = choose|i: int|
                    0 <= i < items.len() && is_function_call(#[trigger] items[i]);
                if i < earlier.len() {
                    assert(is_function_call(earlier[i]));
                }
            }
        }
    }
}

fn parse_tool_calls(items: &Vec<ResponseItem>) -> (calls: Result<Vec<ToolCall>, Error>)
    ensures
        outcome(calls) == tool_calls(items.deep_view()),
{
    let ghost all = items.deep_view();
    let mut calls: Vec<ToolCall> = Vec::new();
    assert(calls.deep_view() =~= Seq::empty());
    assert(all.take(0) =~= Seq::empty());
    for i in 0..items.len()
        invariant
            all == items.deep_view(),
            tool_calls(all.take(i as int)) == Ok::<Seq<ToolCallView>, ErrorView>(
                calls.deep_view(),
            ),
    {
        let ghost so_far = all.take(i as int + 1);
        assert(so_far.drop_last() =~= all.take(i as int));
        assert(so_far.last() == items@[i as int]@);
        if items[i].has_text("type", "function_call") {
            match parse_tool_call(&items[i]) {
                Err(error) => {
                    proof {
                        lemma_first_error(all, i as int + 1);
                    }
                    return Err(error);
                },
                Ok(call) => {
                    let ghost before = calls.deep_view();
                    calls.push(call);
                    assert(calls.deep_view() =~= before.push(call.deep_view()));
                },
            }
        }
    }
    assert(all.take(all.len() as int) =~= all);
    Ok(calls)
}

/// The names of features out of a list that is separated by commas, with
/// compaction among them.
fn add_compaction_feature(features: &str) -> (out: String)
    ensures
        out@ == features_with_compaction(features@),
{
    let parts = split(features, ',');
    let ghost all = each_trimmed(parts.deep_view());
    let mut names: Vec<String> = Vec::new();
    assert(names.deep_view() =~= Seq::empty());
    assert(all.take(0) =~= Seq::empty());
    for i in 0..parts.len()
        invariant
            all == each_trimmed(parts.deep_view()),
            names.deep_view() == not_empty(all.take(i as int)),
    {
        let ghost so_far = all.take(i as int + 1);
        assert(so_far.drop_last() =~= all.take(i as int));
        assert(so_far.last() == trimmed(parts@[i as int]@));
        let name = trim(parts[i].as_str());
        if !name.as_str().is_empty() {
            let ghost before = names.deep_view();
            names.push(name);
            assert(names.deep_view() =~= before.push(name@));
        }
    }
    assert(all.take(all.len() as int) =~= all);
    let ghost before = names.deep_view();
    let feature = owned("remote_compaction_v2");
    names.push(feature);
    assert(names.deep_view() =~= before.push("remote_compaction_v2"@));
    join(&sort_texts(&names), ",")
}

fn input_values(items: &Vec<ResponseItem>) -> (out: Vec<Json>)
    ensures
        out.deep_view() == input_list(items.deep_view()),
{
    let mut out: Vec<Json> = Vec::new();
    for i in 0..items.len()
        invariant
            out@.len() == i,
            forall|k: int|
                0 <= k < i ==> (#[trigger] out@[k])@ == JsonView::Object(input_item(items@[k]@)),
    {
        out.push(Json::object(openai_input_item(&items[i])));
    }
    assert(out.deep_view() =~= input_list(items.deep_view()));
    out
}

fn reasoning_for_codex(effort: &Option<String>) -> (reasoning: Json)
    ensures
        reasoning@ == JsonView::Object(codex_reasoning(effort.deep_view())),
{
    let reasoning = JsonObject::new().with("summary", Json::Null).with_text("context", "all_turns");
    match effort {
        Some(effort) => Json::object(reasoning.with_text("effort", effort.as_str())),
        None => Json::object(reasoning),
    }
}

impl ResponseMachine {
    /// Begins a response.
    pub fn new(registry: &ProviderRegistry, request: ResponseRequest) -> (machine: Result<
        Self,
        Error,
    >)
        ensures
            outcome(machine) == started(registry.deep_view(), request.deep_view()),
            machine matches Ok(machine) ==> well_formed(machine.deep_view()),
    {
        let ghost asked = request.deep_view();
        let spec = match registry.get(&request.context.provider) {
            Ok(spec) => spec,
            Err(error) => return Err(error),
        };
        match validate_request_context(&request.context) {
            Ok(()) => {},
            Err(error) => return Err(error),
        }
        let model = match &request.model {
            Some(model) => model.clone(),
            None => spec.default_model.clone(),
        };
        let codex = request.context.provider == Provider::Codex;
        if !has_text(&spec.available_models, model.as_str()) && !(codex
            && request.codex_protocol.is_some()) {
            return Err(
                Error::UnsupportedModel { provider: owned(spec.provider.as_str()), model },
            );
        }
        if request.tools.len() > 0 && !spec.capabilities.supports_tools {
            return Err(Error::UnsupportedCapability(owned(spec.provider.as_str()), "tools"));
        }
        if request.text_format.is_some() && !spec.capabilities.supports_structured_output {
            return Err(
                Error::UnsupportedCapability(
                    owned(spec.provider.as_str()),
                    "native structured output",
                ),
            );
        }
        if request.codex_protocol.is_some() && !codex {
            return Err(
                Error::UnsupportedCapability(
                    owned(spec.provider.as_str()),
                    "GPT-5.6 Codex Responses protocol selection",
                ),
            );
        }
        let protocol = effective_protocol(&request, model.as_str());
        match &request.context_management {
            Some(ContextManagement::Server { compact_threshold }) => {
                if *compact_threshold == 0 {
                    return Err(state_error("server compact threshold must be greater than zero"));
                }
                if protocol != Some(CodexProtocol::ResponsesStandard) {
                    return Err(
                        Error::UnsupportedCapability(
                            owned(spec.provider.as_str()),
                            "selected Codex context-management protocol",
                        ),
                    );
                }
            },
            Some(ContextManagement::RemoteV2 { .. }) => {
                if protocol != Some(CodexProtocol::ResponsesLite) {
                    return Err(
                        Error::UnsupportedCapability(
                            owned(spec.provider.as_str()),
                            "selected Codex context-management protocol",
                        ),
                    );
                }
            },
            None => {},
        }
        assert(request_fault(asked, spec.deep_view()) is None);
        let base_url = if request.context.provider == Provider::Bedrock {
            let none = String::new();
            assert(none@ =~= Seq::empty());
            none
        } else {
            match request.context.resolved_base_url(spec) {
                Ok(url) => url,
                Err(error) => return Err(error),
            }
        };
        let previous: (Option<ResponseUsage>, Option<usize>) = match &request.context_management {
            Some(
                ContextManagement::RemoteV2 { previous_usage, previous_usage_input_item_count, .. },
            ) => (*previous_usage, *previous_usage_input_item_count),
            _ => (None, None),
        };
        let together = match previous {
            (Some(_), Some(count)) => count <= request.input.len(),
            (None, None) => true,
            _ => false,
        };
        if !together {
            return Err(
                state_error("previous usage requires its valid input item count checkpoint"),
            );
        }
        let machine = ResponseMachine {
            running_input: clone_objects(&request.input),
            request,
            model,
            base_url,
            accumulated_items: Vec::new(),
            response_items: Vec::new(),
            round_items: Vec::new(),
            round_completed: false,
            round_kind: RoundKind::Response,
            round_response_id: None,
            round_usage: None,
            round_server_compaction_index: None,
            last_response_id: None,
            last_usage: previous.0,
            last_usage_input_item_count: previous.1,
            history_replaced: false,
            tool_roundtrips: 0,
            completed: false,
        };
        assert(machine.accumulated_items.deep_view() =~= Seq::empty());
        assert(machine.response_items.deep_view() =~= Seq::empty());
        assert(machine.round_items.deep_view() =~= Seq::empty());
        Ok(machine)
    }

    /// The model that the requests go to.
    pub fn model(&self) -> (model: &str)
        ensures
            model@ == self.deep_view().model,
    {
        self.model.as_str()
    }

    /// What the round is for.
    pub fn round_kind(&self) -> (kind: RoundKind)
        ensures
            kind == self.deep_view().round_kind,
    {
        self.round_kind
    }

    /// How often tools were asked for.
    pub fn tool_roundtrips(&self) -> (n: u8)
        ensures
            n == self.deep_view().tool_roundtrips,
    {
        self.tool_roundtrips
    }

    /// Whether an item of the round asks for a tool.
    pub fn wants_tools(&self) -> (yes: bool)
        ensures
            yes == asks_for_tools(self.deep_view()),
    {
        let ghost items = self.deep_view().round_items;
        for i in 0..self.round_items.len()
            invariant
                items == self.deep_view().round_items,
                items == self.round_items.deep_view(),
                forall|k: int| 0 <= k < i ==> !is_function_call(#[trigger] items[k].1),
        {
            assert(items[i as int].1 == self.round_items@[i as int].1@);
            if self.round_items[i].1.has_text("type", "function_call") {
                return true;
            }
        }
        false
    }

    /// The request that the response is for.
    pub fn request(&self) -> (request: &ResponseRequest)
        ensures
            request.deep_view() == self.deep_view().request,
    {
        &self.request
    }

    /// The conversation so far.
    pub fn running_input(&self) -> (items: &Vec<ResponseItem>)
        ensures
            items.deep_view() == self.deep_view().running_input,
    {
        &self.running_input
    }

    fn uses_codex_responses_lite(&self) -> (yes: bool)
        ensures
            yes == uses_lite(self.deep_view()),
    {
        effective_protocol(&self.request, self.model.as_str()) == Some(CodexProtocol::ResponsesLite)
    }

    fn uses_codex_responses_standard(&self) -> (yes: bool)
        ensures
            yes == uses_standard(self.deep_view()),
    {
        effective_protocol(&self.request, self.model.as_str()) == Some(
            CodexProtocol::ResponsesStandard,
        )
    }

    /// Whether the next round compacts the conversation.
    pub fn should_compact(&self) -> (yes: bool)
        requires
            well_formed(self.deep_view()),
        ensures
            yes == compacts_next(self.deep_view()),
    {
        let limit: u64 = match &self.request.context_management {
            Some(ContextManagement::RemoteV2 { auto_compact_token_limit, .. }) => {
                match auto_compact_token_limit {
                    Some(limit) => *limit,
                    None => CODEX_GPT_5_6_AUTO_COMPACT_TOKEN_LIMIT,
                }
            },
            _ => return false,
        };
        if !self.uses_codex_responses_lite() {
            return false;
        }
        match (self.last_usage, self.last_usage_input_item_count) {
            (Some(usage), Some(count)) => {
                let since = estimate_input_tokens(&self.running_input, count);
                since >= limit as u128 || usage.total_tokens as u128 + since >= limit as u128
            },
            _ => {
                assert(self.running_input.deep_view().skip(0)
                    =~= self.running_input.deep_view());
                estimate_input_tokens(&self.running_input, 0) >= limit as u128
            },
        }
    }

    /// Begins a round.
    pub fn begin_round(&mut self) -> (done: Result<(), Error>)
        requires
            well_formed(old(self).deep_view()),
        ensures
            (final(self).deep_view(), outcome(done)) == begun(old(self).deep_view()),
            well_formed(final(self).deep_view()),
    {
        if self.completed {
            return Err(state_error("response is already complete"));
        }
        if self.round_items.len() > 0 {
            return Err(state_error("response round has unprocessed output items"));
        }
        let compact = self.should_compact();
        self.round_completed = false;
        self.round_response_id = None;
        self.round_usage = None;
        self.round_server_compaction_index = None;
        self.round_kind = if compact {
            RoundKind::Compaction
        } else {
            RoundKind::Response
        };
        Ok(())
    }

    fn headers(&self) -> (headers: StringMap)
        ensures
            headers.deep_view() == request_headers(self.deep_view()),
    {
        let mut headers = self.request.context.headers.clone();
        let bearer = cat("Bearer ", self.request.context.api_key.as_str());
        headers.insert("Authorization", bearer.as_str());
        headers.insert_if_absent("Content-Type", "application/json");
        headers.insert_if_absent("Accept", "text/event-stream");
        let agent = cat("lmx/", VERSION);
        headers.insert_if_absent("User-Agent", agent.as_str());
        headers.remove_named("X-OpenAI-Internal-Codex-Responses-Lite");
        if self.uses_codex_responses_lite() {
            headers.insert("X-OpenAI-Internal-Codex-Responses-Lite", "true");
        }
        if self.round_kind == RoundKind::Compaction {
            let name: Option<String> = match headers.key_like("x-codex-beta-features") {
                Some(name) => Some(owned(name)),
                None => None,
            };
            match name {
                Some(name) => {
                    let before = text_or_empty(headers.get(name.as_str()));
                    let features = add_compaction_feature(before.as_str());
                    headers.insert(name.as_str(), features.as_str());
                },
                None => {
                    let before = text_or_empty(None);
                    let features = add_compaction_feature(before.as_str());
                    headers.insert("x-codex-beta-features", features.as_str());
                },
            }
        }
        headers
    }

    fn input(&self) -> (input: Vec<Json>)
        ensures
            input.deep_view() == round_input(self.deep_view()),
    {
        let mut input = input_values(&self.running_input);
        if self.round_kind == RoundKind::Compaction {
            let ghost before = input.deep_view();
            let trigger = Json::object(JsonObject::new().with_text("type", "compaction_trigger"));
            input.push(trigger);
            assert(input.deep_view() =~= before.push(trigger@));
        }
        input
    }

    fn text_options(&self) -> (text: Json)
        ensures
            text@ == JsonView::Object(text_options(self.deep_view().request)),
    {
        let text = JsonObject::new().with_text("verbosity", self.request.text_verbosity.as_str());
        match &self.request.text_format {
            Some(format) => Json::object(text.with("format", format.clone())),
            None => Json::object(text),
        }
    }

    fn common_body(&self) -> (body: JsonObject)
        ensures
            body@ == common_body(self.deep_view()),
    {
        let choice = match &self.request.tool_choice {
            Some(choice) => choice.clone(),
            None => Json::text("auto"),
        };
        JsonObject::new().with_text("model", self.model.as_str()).with(
            "input",
            Json::list(self.input()),
        ).with("tool_choice", choice).with("parallel_tool_calls", Json::Bool(false)).with(
            "store",
            Json::Bool(false),
        ).with("include", Json::list_of(Json::text("reasoning.encrypted_content"))).with(
            "text",
            self.text_options(),
        ).with("stream", Json::Bool(true))
    }

    fn lite_input(&self) -> (input: Vec<Json>)
        ensures
            input.deep_view() == lite_preamble(self.deep_view().request) + round_input(
                self.deep_view(),
            ),
    {
        let tools = Json::object(
            JsonObject::new().with_text("type", "additional_tools").with_text(
                "role",
                "developer",
            ).with("tools", Json::list(clone_list(&self.request.tools))),
        );
        let mut input: Vec<Json> = Vec::new();
        input.push(tools);
        if !self.request.instructions.as_str().is_empty() {
            let part = Json::object(
                JsonObject::new().with_text("type", "input_text").with_text(
                    "text",
                    self.request.instructions.as_str(),
                ),
            );
            input.push(
                Json::object(
                    JsonObject::new().with_text("type", "message").with_text(
                        "role",
                        "developer",
                    ).with("content", Json::list_of(part)),
                ),
            );
        }
        assert(input.deep_view() =~= lite_preamble(self.deep_view().request));
        let ghost before = input.deep_view();
        let mut rest = self.input();
        let ghost after = rest.deep_view();
        input.append(&mut rest);
        assert(input.deep_view() =~= before + after);
        input
    }

    fn body(&self) -> (body: JsonObject)
        ensures
            body@ == request_body(self.deep_view()),
    {
        let body = self.common_body();
        if self.uses_codex_responses_lite() {
            body.with("input", Json::list(self.lite_input())).with(
                "reasoning",
                reasoning_for_codex(&self.request.reasoning_effort),
            )
        } else {
            let standard = self.uses_codex_responses_standard();
            let body = body.with_text("instructions", self.request.instructions.as_str()).with(
                "tools",
                Json::list(clone_list(&self.request.tools)),
            );
            if standard {
                let body = body.with(
                    "reasoning",
                    reasoning_for_codex(&self.request.reasoning_effort),
                );
                match &self.request.context_management {
                    Some(ContextManagement::Server { compact_threshold }) => {
                        let management = Json::object(
                            JsonObject::new().with_text("type", "compaction").with(
                                "compact_threshold",
                                Json::number(*compact_threshold),
                            ),
                        );
                        body.with("context_management", Json::list_of(management))
                    },
                    _ => body,
                }
            } else {
                match &self.request.reasoning_effort {
                    Some(effort) => body.with(
                        "reasoning",
                        Json::object(
                            JsonObject::new().with_text("effort", effort.as_str()).with(
                                "summary",
                                Json::Null,
                            ),
                        ),
                    ),
                    None => body,
                }
            }
        }
    }

    /// The request of the round.
    pub fn wire_request(&self) -> (wire: Result<WireRequest, Error>)
        ensures
            outcome(wire) == wired(self.deep_view()),
    {
        if self.completed {
            return Err(state_error("response is already complete"));
        }
        if self.request.context.provider == Provider::Bedrock {
            return Err(
                state_error(
                    "bedrock provider uses its own transport; wire_request is not applicable",
                ),
            );
        }
        let url = match endpoint_url(
            self.base_url.as_str(),
            "responses",
            &self.request.context.query,
        ) {
            Ok(url) => url,
            Err(error) => return Err(error),
        };
        Ok(
            WireRequest {
                method: owned("POST"),
                url,
                headers: self.headers(),
                body: Json::object(self.body()),
            },
        )
    }

    fn ingest_item(&mut self, index: usize, item: &ResponseItem) -> (events: Result<
        Vec<CoreEvent>,
        Error,
    >)
        requires
            well_formed(old(self).deep_view()),
        ensures
            (final(self).deep_view(), outcome(events)) == item_done(
                old(self).deep_view(),
                index,
                item@,
            ),
            well_formed(final(self).deep_view()),
    {
        let standard = self.uses_codex_responses_standard();
        place(&mut self.round_items, index, item.clone());
        let mut events: Vec<CoreEvent> = Vec::new();
        if self.round_kind == RoundKind::Compaction {
            assert(events.deep_view() =~= no_events());
            Ok(events)
        } else if standard && item.has_text("type", "compaction") {
            match validate_compaction_item(item) {
                Err(error) => Err(error),
                Ok(()) => {
                    self.round_server_compaction_index = Some(index);
                    let mut items: Vec<ResponseItem> = Vec::new();
                    items.push(item.clone());
                    assert(items.deep_view() =~= seq![item@]);
                    events.push(CoreEvent::ContextCompacted { items, usage: None });
                    assert(events.deep_view() =~= seq![
                        EventView::ContextCompacted { items: seq![item@], usage: None },
                    ]);
                    Ok(events)
                },
            }
        } else {
            events.push(CoreEvent::OutputItem { output_index: index, item: item.clone() });
            assert(events.deep_view() =~= seq![
                EventView::OutputItem { output_index: index, item: item@ },
            ]);
            Ok(events)
        }
    }

    /// Takes in one event of the stream.
    pub fn ingest(&mut self, event: &Json) -> (events: Result<Vec<CoreEvent>, Error>)
        requires
            well_formed(old(self).deep_view()),
        ensures
            (final(self).deep_view(), outcome(events)) == ingested(old(self).deep_view(), event@),
            well_formed(final(self).deep_view()),
    {
        let kind = text_or_empty(event.get_text("type"));
        let kind = kind.as_str();
        let mut events: Vec<CoreEvent> = Vec::new();
        assert(events.deep_view() =~= no_events());
        if crate::text::same(kind, "response.output_text.delta") {
            let delta = text_or_empty(event.get_text("delta"));
            if self.round_kind != RoundKind::Compaction && !delta.as_str().is_empty() {
                events.push(CoreEvent::TextDelta { delta });
                assert(events.deep_view() =~= seq![EventView::TextDelta { delta: delta@ }]);
            }
            Ok(events)
        } else if crate::text::same(kind, "response.output_item.done") {
            let index: u64 = match event.get_u64("output_index") {
                Some(n) => n,
                None => 0,
            };
            match event.get("item") {
                Some(Json::Object(item)) => self.ingest_item(index as usize, item),
                _ => Err(event_error("response.output_item.done is missing an object item")),
            }
        } else if crate::text::same(kind, "response.image_generation_call.partial_image") {
            let index: u64 = match event.get_u64("partial_image_index") {
                Some(n) => n,
                None => return Err(
                    event_error(
                        "image generation partial event did not include partial_image_index",
                    ),
                ),
            };
            if index > 255 {
                return Err(event_error("partial image index exceeds u8"));
            }
            let image = text_or_empty(event.get_text("partial_image_b64"));
            if image.as_str().is_empty() {
                return Err(
                    event_error(
                        "image generation partial event did not include partial_image_b64",
                    ),
                );
            }
            events.push(
                CoreEvent::ImageGenerationPartial {
                    partial_image_index: index as u8,
                    partial_image_base64: image,
                },
            );
            assert(events.deep_view() =~= seq![
                EventView::ImageGenerationPartial {
                    partial_image_index: index as u8,
                    partial_image_base64: image@,
                },
            ]);
            Ok(events)
        } else if crate::text::same(kind, "response.completed") {
            let response = match event.get("response") {
                Some(response) => response,
                None => event,
            };
            self.round_completed = true;
            self.round_response_id = match response.get_text("id") {
                Some(id) => Some(owned(id)),
                None => None,
            };
            self.round_usage = match response.get("usage") {
                Some(usage) => parse_response_usage(usage),
                None => None,
            };
            Ok(events)
        } else if crate::text::same(kind, "response.incomplete") {
            let text = json_text_of(event);
            Err(Error::Event(cat("request ended incomplete: ", text.as_str())))
        } else if crate::text::same(kind, "response.failed") {
            let text = json_text_of(event);
            Err(Error::Event(cat("request failed during stream: ", text.as_str())))
        } else {
            Ok(events)
        }
    }

    /// Takes in a round with Bedrock, once its stream has come to its end.
    pub fn take_bedrock_round(&mut self, round: &BedrockRound)
        requires
            well_formed(old(self).deep_view()),
        ensures
            final(self).deep_view() == bedrock_taken(old(self).deep_view(), round.deep_view()),
            well_formed(final(self).deep_view()),
    {
        let items = output_of(round);
        let ghost all = items.deep_view();
        let ghost before = self.deep_view();
        assert(all.take(0) =~= Seq::empty());
        for i in 0..items.len()
            invariant
                all == items.deep_view(),
                self.deep_view() == (MachineView {
                    round_items: placed_all(before.round_items, all.take(i as int)),
                    ..before
                }),
        {
            let ghost so_far = all.take(i as int + 1);
            assert(so_far.drop_last() =~= all.take(i as int));
            assert(so_far.last() == items@[i as int]@);
            place(&mut self.round_items, i, items[i].clone());
        }
        assert(all.take(all.len() as int) =~= all);
        self.round_completed = true;
    }

    fn finish_compaction(&mut self) -> (next: Result<NextAction, Error>)
        requires
            well_formed(old(self).deep_view()),
        ensures
            (final(self).deep_view(), outcome(next)) == compaction_finished(
                old(self).deep_view(),
            ),
            well_formed(final(self).deep_view()),
    {
        let mut round: Vec<(usize, ResponseItem)> = Vec::new();
        std::mem::swap(&mut round, &mut self.round_items);
        assert(self.round_items.deep_view() =~= Seq::empty());
        let items = values(round);
        if items.len() != 1 {
            let count = decimal_of(items.len() as u64);
            return Err(
                Error::Event(
                    cat3(
                        "remote compaction v2 returned ",
                        count.as_str(),
                        " output items instead of exactly one",
                    ),
                ),
            );
        }
        match validate_compaction_item(&items[0]) {
            Ok(()) => {},
            Err(error) => return Err(error),
        }
        let budget: u64 = match &self.request.context_management {
            Some(ContextManagement::RemoteV2 { retained_message_token_budget, .. }) => {
                match retained_message_token_budget {
                    Some(budget) => *budget,
                    None => CODEX_RETAINED_MESSAGE_TOKEN_BUDGET,
                }
            },
            _ => CODEX_RETAINED_MESSAGE_TOKEN_BUDGET,
        };
        let mut replacement = retain_compaction_messages(&self.running_input, budget);
        let ghost kept = replacement.deep_view();
        replacement.push(items[0].clone());
        assert(replacement.deep_view() =~= kept.push(items.deep_view()[0]));
        self.running_input = clone_objects(&replacement);
        self.history_replaced = true;
        self.last_response_id = clone_option(&self.round_response_id);
        self.round_response_id = None;
        let usage = self.round_usage;
        self.round_usage = None;
        self.last_usage = None;
        self.last_usage_input_item_count = None;
        Ok(NextAction::Compacted { items: replacement, usage })
    }

    fn note_usage(&mut self)
        ensures
            final(self).deep_view() == usage_taken(old(self).deep_view()),
            well_formed(final(self).deep_view()),
    {
        self.last_usage = self.round_usage;
        self.last_usage_input_item_count = if self.round_usage.is_some() {
            Some(self.running_input.len())
        } else {
            None
        };
        self.round_usage = None;
    }

    fn take_items(&mut self, items: &Vec<ResponseItem>) -> (done: Result<(), Error>)
        requires
            well_formed(old(self).deep_view()),
            items.deep_view() == in_order(old(self).deep_view().round_items),
        ensures
            (final(self).deep_view(), outcome(done)) == items_taken(old(self).deep_view()),
            well_formed(final(self).deep_view()),
    {
        self.round_items = Vec::new();
        assert(self.round_items.deep_view() =~= Seq::empty());
        self.last_response_id = clone_option(&self.round_response_id);
        self.round_response_id = None;
        let heard = drop_compactions(items);
        extend_objects(&mut self.response_items, &heard);
        let compacted = self.round_server_compaction_index.is_some();
        self.round_server_compaction_index = None;
        if compacted {
            match find_last_compaction(items) {
                None => return Err(
                    state_error("server compaction index did not resolve to a compaction item"),
                ),
                Some(at) => {
                    self.accumulated_items = items_from(items, at);
                    self.running_input = items_from(items, at);
                    self.history_replaced = true;
                },
            }
        } else {
            extend_objects(&mut self.accumulated_items, items);
            extend_objects(&mut self.running_input, items);
        }
        self.note_usage();
        Ok(())
    }

    fn result(&self) -> (result: ResponseResult)
        ensures
            result.deep_view() == result_of(self.deep_view()),
    {
        ResponseResult {
            provider: owned(self.request.context.provider.as_str()),
            model: self.model.clone(),
            output_text: output_text_from_items(&self.response_items),
            output_items: clone_objects(&self.response_items),
            tool_roundtrips: self.tool_roundtrips,
            response_id: clone_option(&self.last_response_id),
            usage: self.last_usage,
            history_update: if self.history_replaced {
                InferenceHistoryUpdate::Replace { items: clone_objects(&self.running_input) }
            } else {
                InferenceHistoryUpdate::Append { items: clone_objects(&self.accumulated_items) }
            },
        }
    }

    /// Ends a round, once its stream has come to its end.
    pub fn finish_round(&mut self) -> (next: Result<NextAction, Error>)
        requires
            well_formed(old(self).deep_view()),
            old(self).deep_view().tool_roundtrips < 255 || !asks_for_tools(old(self).deep_view()),
        ensures
            (final(self).deep_view(), outcome(next)) == finished(old(self).deep_view()),
            well_formed(final(self).deep_view()),
    {
        if self.completed {
            return Err(state_error("response is already complete"));
        }
        if !self.round_completed {
            return Err(state_error("request ended without a completed stream event"));
        }
        if self.round_kind == RoundKind::Compaction {
            return self.finish_compaction();
        }
        let ghost before = self.deep_view();
        let mut round: Vec<(usize, ResponseItem)> = Vec::new();
        for i in 0..self.round_items.len()
            invariant
                round@.len() == i,
                forall|k: int|
                    0 <= k < i ==> (#[trigger] round@[k]).deep_view()
                        == self.round_items@[k].deep_view(),
        {
            round.push((self.round_items[i].0, self.round_items[i].1.clone()));
        }
        assert(round.deep_view() =~= self.round_items.deep_view());
        let items = values(round);
        match self.take_items(&items) {
            Ok(()) => {},
            Err(error) => return Err(error),
        }
        let calls = match parse_tool_calls(&items) {
            Ok(calls) => calls,
            Err(error) => return Err(error),
        };
        if calls.len() == 0 {
            let result = self.result();
            self.completed = true;
            return Ok(NextAction::Completed { result });
        }
        proof {
            lemma_calls_are_asked_for(items.deep_view());
            let i = choose|i: int|
                0 <= i < items.deep_view().len() && is_function_call(
                    #[trigger] items.deep_view()[i],
                );
            assert(is_function_call(before.round_items[i].1));
        }
        self.tool_roundtrips = self.tool_roundtrips + 1;
        Ok(NextAction::ToolCalls { calls })
    }

    /// Hands the outputs of tools to the model.
    pub fn submit_tool_outputs(&mut self, outputs: &Vec<ToolOutput>) -> (events: Result<
        Vec<CoreEvent>,
        Error,
    >)
        requires
            well_formed(old(self).deep_view()),
        ensures
            (final(self).deep_view(), outcome(events)) == submitted(
                old(self).deep_view(),
                outputs.deep_view(),
            ),
            well_formed(final(self).deep_view()),
    {
        if self.completed {
            return Err(state_error("response is already complete"));
        }
        let mut items: Vec<ResponseItem> = Vec::new();
        let mut events: Vec<CoreEvent> = Vec::new();
        for i in 0..outputs.len()
            invariant
                items@.len() == i,
                events@.len() == i,
                forall|k: int|
                    0 <= k < i ==> (#[trigger] items@[k])@ == output_items(
                        outputs.deep_view(),
                    )[k],
                forall|k: int|
                    0 <= k < i ==> (#[trigger] events@[k]).deep_view() == output_events(
                        outputs.deep_view(),
                    )[k],
        {
            let item = function_call_output_item(&outputs[i]);
            let name = text_or_empty(None);
            assert(outputs.deep_view()[i as int] == outputs@[i as int].deep_view());
            items.push(item.clone());
            events.push(
                CoreEvent::ToolCallCompleted {
                    name,
                    call_id: outputs[i].call_id.clone(),
                    result: outputs[i].result.clone(),
                    output_item: item,
                },
            );
        }
        assert(items.deep_view() =~= output_items(outputs.deep_view()));
        assert(events.deep_view() =~= output_events(outputs.deep_view()));
        extend_objects(&mut self.accumulated_items, &items);
        extend_objects(&mut self.response_items, &items);
        extend_objects(&mut self.running_input, &items);
        Ok(events)
    }
}

fn effective_protocol(request: &ResponseRequest, model: &str) -> (protocol: Option<CodexProtocol>)
    ensures
        protocol == codex_protocol(request.deep_view(), model@),
{
    if request.context.provider != Provider::Codex {
        None
    } else if request.codex_protocol.is_some() {
        request.codex_protocol
    } else if starts_with(model, "gpt-5.6-") {
        Some(CodexProtocol::ResponsesLite)
    } else {
        None
    }
}

} // verus!
