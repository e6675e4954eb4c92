//! Requests for a response, the items of a conversation and what comes of them.
use vstd::prelude::*;

use crate::error::{state_error, Error};
#[allow(unused_imports)]
use crate::error::{outcome, ErrorView};
use crate::json::{clone_list, clone_objects, parse_json, Json, JsonObject};
use crate::json::json_text_of;
#[allow(unused_imports)]
use crate::json::{
    entries_view, field, json_text, no_members, or_empty, parsed_json, text_field, text_json,
    text_member, with, JsonView, ObjectView,
};
#[allow(unused_imports)]
use crate::ordered::find;
use crate::ordered::StringMap;
use crate::providers::{Provider, RequestContext};
#[allow(unused_imports)]
use crate::providers::ContextView;
use crate::text::{cat, clone_option, debug_of, is_blank, join, owned, same, trim, trim_end_char};
#[allow(unused_imports)]
use crate::text::{debug_text, joined, trimmed, without_trailing};

verus! {

/// An item of a conversation.
pub type ResponseItem = JsonObject;

/// A message of a conversation.
pub open spec fn message_item(role: Seq<char>, content: Seq<char>) -> ObjectView {
    with(
        with(with(no_members(), "type"@, text_json("message"@)), "role"@, text_json(role)),
        "content"@,
        text_json(content),
    )
}

/// Whether a message can have the role.
pub open spec fn is_message_role(role: Seq<char>) -> bool {
    role == "user"@ || role == "assistant"@ || role == "system"@ || role == "developer"@
}

/// Builds a message of a conversation.
pub fn build_message_item(role: &str, text: &str) -> (item: Result<ResponseItem, Error>)
    ensures
        outcome(item) == if !is_message_role(role@) {
            Err(ErrorView::State("unsupported message role: "@ + debug_text(role@)))
        } else if trimmed(text@).len() == 0 {
            Err(ErrorView::State("message text must not be empty"@))
        } else {
            Ok(message_item(role@, text@))
        },
{
    if !(same(role, "user") || same(role, "assistant") || same(role, "system") || same(
        role,
        "developer",
    )) {
        return Err(state_error(cat("unsupported message role: ", debug_of(role).as_str()).as_str()));
    }
    if is_blank(text) {
        return Err(state_error("message text must not be empty"));
    }
    Ok(message(role, text))
}

pub(crate) fn message(role: &str, content: &str) -> (item: ResponseItem)
    ensures
        item@ == message_item(role@, content@),
{
    JsonObject::new().with_text("type", "message").with_text("role", role).with_text(
        "content",
        content,
    )
}

/// The form in which Codex takes a request.
#[derive(Clone, Copy, Debug, PartialEq, Eq, Structural)]
pub enum CodexProtocol {
    ResponsesLite,
    ResponsesStandard,
}

impl DeepView for CodexProtocol {
    type V = CodexProtocol;

    open spec fn deep_view(&self) -> CodexProtocol {
        *self
    }
}

/// The tokens that a response took.
#[derive(Clone, Copy, Debug, PartialEq, Eq, Structural)]
pub struct ResponseUsage {
    pub input_tokens: u64,
    pub cached_input_tokens: u64,
    pub cache_write_input_tokens: u64,
    pub output_tokens: u64,
    pub total_tokens: u64,
}

impl DeepView for ResponseUsage {
    type V = ResponseUsage;

    open spec fn deep_view(&self) -> ResponseUsage {
        *self
    }
}

impl Default for ResponseUsage {
    fn default() -> (usage: Self)
        ensures
            usage == (ResponseUsage {
                input_tokens: 0,
                cached_input_tokens: 0,
                cache_write_input_tokens: 0,
                output_tokens: 0,
                total_tokens: 0,
            }),
    {
        ResponseUsage {
            input_tokens: 0,
            cached_input_tokens: 0,
            cache_write_input_tokens: 0,
            output_tokens: 0,
            total_tokens: 0,
        }
    }
}

/// How a conversation is kept small: by requests of its own, or by the server.
#[derive(Clone, Copy, Debug, PartialEq, Eq, Structural)]
pub enum ContextManagement {
    RemoteV2 {
        previous_usage: Option<ResponseUsage>,
        previous_usage_input_item_count: Option<usize>,
        auto_compact_token_limit: Option<u64>,
        retained_message_token_budget: Option<u64>,
    },
    Server { compact_threshold: u64 },
}

impl DeepView for ContextManagement {
    type V = ContextManagement;

    open spec fn deep_view(&self) -> ContextManagement {
        *self
    }
}

/// A request for a response.
#[derive(Debug)]
pub struct ResponseRequest {
    pub input: Vec<ResponseItem>,
    pub context: RequestContext,
    pub model: Option<String>,
    pub instructions: String,
    pub tools: Vec<Json>,
    pub tool_choice: Option<Json>,
    pub reasoning_effort: Option<String>,
    pub text_verbosity: String,
    pub text_format: Option<Json>,
    pub codex_protocol: Option<CodexProtocol>,
    pub context_management: Option<ContextManagement>,
}

/// What a request for a response is.
pub struct RequestView {
    pub input: Seq<ObjectView>,
    pub context: ContextView,
    pub model: Option<Seq<char>>,
    pub instructions: Seq<char>,
    pub tools: Seq<JsonView>,
    pub tool_choice: Option<JsonView>,
    pub reasoning_effort: Option<Seq<char>>,
    pub text_verbosity: Seq<char>,
    pub text_format: Option<JsonView>,
    pub codex_protocol: Option<CodexProtocol>,
    pub context_management: Option<ContextManagement>,
}

impl DeepView for ResponseRequest {
    type V = RequestView;

    open spec fn deep_view(&self) -> RequestView {
        RequestView {
            input: self.input.deep_view(),
            context: self.context.deep_view(),
            model: self.model.deep_view(),
            instructions: self.instructions@,
            tools: self.tools.deep_view(),
            tool_choice: self.tool_choice.deep_view(),
            reasoning_effort: self.reasoning_effort.deep_view(),
            text_verbosity: self.text_verbosity@,
            text_format: self.text_format.deep_view(),
            codex_protocol: self.codex_protocol,
            context_management: self.context_management,
        }
    }
}

/// A copy of a value, where there is one.
pub fn clone_json(json: &Option<Json>) -> (copy: Option<Json>)
    ensures
        copy.deep_view() == json.deep_view(),
{
    match json {
        Some(json) => Some(json.clone()),
        None => None,
    }
}

impl Clone for ResponseRequest {
    fn clone(&self) -> (copy: Self)
        ensures
            copy.deep_view() == self.deep_view(),
    {
        ResponseRequest {
            input: clone_objects(&self.input),
            context: self.context.clone(),
            model: clone_option(&self.model),
            instructions: self.instructions.clone(),
            tools: clone_list(&self.tools),
            tool_choice: clone_json(&self.tool_choice),
            reasoning_effort: clone_option(&self.reasoning_effort),
            text_verbosity: self.text_verbosity.clone(),
            text_format: clone_json(&self.text_format),
            codex_protocol: self.codex_protocol,
            context_management: self.context_management,
        }
    }
}

/// How talkative a response is where a request does not say.
pub fn default_verbosity() -> (verbosity: String)
    ensures
        verbosity@ == "low"@,
{
    owned("low")
}

/// A request as it goes to a provider.
#[derive(Debug)]
pub struct WireRequest {
    pub method: String,
    pub url: String,
    pub headers: StringMap,
    pub body: Json,
}

/// What a request to a provider is.
pub struct WireView {
    pub method: Seq<char>,
    pub url: Seq<char>,
    pub headers: Seq<(Seq<char>, Seq<char>)>,
    pub body: JsonView,
}

impl DeepView for WireRequest {
    type V = WireView;

    open spec fn deep_view(&self) -> WireView {
        WireView {
            method: self.method@,
            url: self.url@,
            headers: self.headers.deep_view(),
            body: self.body@,
        }
    }
}

/// What happens while a response comes in.
#[derive(Debug)]
pub enum CoreEvent {
    TextDelta { delta: String },
    OutputItem { output_index: usize, item: ResponseItem },
    ImageGenerationPartial { partial_image_index: u8, partial_image_base64: String },
    ToolCallStarted { name: String, call_id: String, arguments: Json },
    ToolCallCompleted { name: String, call_id: String, result: Json, output_item: ResponseItem },
    ContextCompacted { items: Vec<ResponseItem>, usage: Option<ResponseUsage> },
    Completed { output_items: Vec<ResponseItem>, output_text: String, tool_roundtrips: u8 },
    Failed { error: String },
}

/// What happened while a response came in.
pub enum EventView {
    TextDelta { delta: Seq<char> },
    OutputItem { output_index: usize, item: ObjectView },
    ImageGenerationPartial { partial_image_index: u8, partial_image_base64: Seq<char> },
    ToolCallStarted { name: Seq<char>, call_id: Seq<char>, arguments: JsonView },
    ToolCallCompleted {
        name: Seq<char>,
        call_id: Seq<char>,
        result: JsonView,
        output_item: ObjectView,
    },
    ContextCompacted { items: Seq<ObjectView>, usage: Option<ResponseUsage> },
    Completed { output_items: Seq<ObjectView>, output_text: Seq<char>, tool_roundtrips: u8 },
    Failed { error: Seq<char> },
}

impl DeepView for CoreEvent {
    type V = EventView;

    open spec fn deep_view(&self) -> EventView {
        match self {
            CoreEvent::TextDelta { delta } => EventView::TextDelta { delta: delta@ },
            CoreEvent::OutputItem { output_index, item } => EventView::OutputItem {
                output_index: *output_index,
                item: item@,
            },
            CoreEvent::ImageGenerationPartial { partial_image_index, partial_image_base64 } =>
                EventView::ImageGenerationPartial {
                partial_image_index: *partial_image_index,
                partial_image_base64: partial_image_base64@,
            },
            CoreEvent::ToolCallStarted { name, call_id, arguments } => EventView::ToolCallStarted {
                name: name@,
                call_id: call_id@,
                arguments: arguments@,
            },
            CoreEvent::ToolCallCompleted { name, call_id, result, output_item } =>
                EventView::ToolCallCompleted {
                name: name@,
                call_id: call_id@,
                result: result@,
                output_item: output_item@,
            },
            CoreEvent::ContextCompacted { items, usage } => EventView::ContextCompacted {
                items: items.deep_view(),
                usage: *usage,
            },
            CoreEvent::Completed { output_items, output_text, tool_roundtrips } =>
                EventView::Completed {
                output_items: output_items.deep_view(),
                output_text: output_text@,
                tool_roundtrips: *tool_roundtrips,
            },
            CoreEvent::Failed { error } => EventView::Failed { error: error@ },
        }
    }
}

/// What a response does to the conversation: its items come behind it, or other
/// items take its place.
#[derive(Debug)]
pub enum InferenceHistoryUpdate {
    Append { items: Vec<ResponseItem> },
    Replace { items: Vec<ResponseItem> },
}

/// What a response does to the conversation.
pub enum HistoryView {
    Append { items: Seq<ObjectView> },
    Replace { items: Seq<ObjectView> },
}

impl DeepView for InferenceHistoryUpdate {
    type V = HistoryView;

    open spec fn deep_view(&self) -> HistoryView {
        match self {
            InferenceHistoryUpdate::Append { items } => HistoryView::Append {
                items: items.deep_view(),
            },
            InferenceHistoryUpdate::Replace { items } => HistoryView::Replace {
                items: items.deep_view(),
            },
        }
    }
}

/// A response.
#[derive(Debug)]
pub struct ResponseResult {
    pub provider: String,
    pub model: String,
    pub output_items: Vec<ResponseItem>,
    pub output_text: String,
    pub tool_roundtrips: u8,
    pub response_id: Option<String>,
    pub usage: Option<ResponseUsage>,
    pub history_update: InferenceHistoryUpdate,
}

/// What a response is.
pub struct ResultView {
    pub provider: Seq<char>,
    pub model: Seq<char>,
    pub output_items: Seq<ObjectView>,
    pub output_text: Seq<char>,
    pub tool_roundtrips: u8,
    pub response_id: Option<Seq<char>>,
    pub usage: Option<ResponseUsage>,
    pub history_update: HistoryView,
}

impl DeepView for ResponseResult {
    type V = ResultView;

    open spec fn deep_view(&self) -> ResultView {
        ResultView {
            provider: self.provider@,
            model: self.model@,
            output_items: self.output_items.deep_view(),
            output_text: self.output_text@,
            tool_roundtrips: self.tool_roundtrips,
            response_id: self.response_id.deep_view(),
            usage: self.usage,
            history_update: self.history_update.deep_view(),
        }
    }
}

/// A call of a tool that a response asks for.
#[derive(Debug)]
pub struct ToolCall {
    pub name: String,
    pub call_id: String,
    pub arguments: Json,
}

/// What a call of a tool is.
pub struct ToolCallView {
    pub name: Seq<char>,
    pub call_id: Seq<char>,
    pub arguments: JsonView,
}

impl DeepView for ToolCall {
    type V = ToolCallView;

    open spec fn deep_view(&self) -> ToolCallView {
        ToolCallView { name: self.name@, call_id: self.call_id@, arguments: self.arguments@ }
    }
}

/// What a tool gave back.
#[derive(Debug)]
pub struct ToolOutput {
    pub call_id: String,
    pub result: Json,
    pub content: Option<Json>,
}

/// What a tool gave back.
pub struct ToolOutputView {
    pub call_id: Seq<char>,
    pub result: JsonView,
    pub content: Option<JsonView>,
}

impl DeepView for ToolOutput {
    type V = ToolOutputView;

    open spec fn deep_view(&self) -> ToolOutputView {
        ToolOutputView {
            call_id: self.call_id@,
            result: self.result@,
            content: self.content.deep_view(),
        }
    }
}

/// What comes after a round.
#[derive(Debug)]
pub enum NextAction {
    ToolCalls { calls: Vec<ToolCall> },
    Compacted { items: Vec<ResponseItem>, usage: Option<ResponseUsage> },
    Completed { result: ResponseResult },
}

/// What comes after a round.
pub enum ActionView {
    ToolCalls { calls: Seq<ToolCallView> },
    Compacted { items: Seq<ObjectView>, usage: Option<ResponseUsage> },
    Completed { result: ResultView },
}

impl DeepView for NextAction {
    type V = ActionView;

    open spec fn deep_view(&self) -> ActionView {
        match self {
            NextAction::ToolCalls { calls } => ActionView::ToolCalls { calls: calls.deep_view() },
            NextAction::Compacted { items, usage } => ActionView::Compacted {
                items: items.deep_view(),
                usage: *usage,
            },
            NextAction::Completed { result } => ActionView::Completed {
                result: result.deep_view(),
            },
        }
    }
}

/// What a session hands out: events as they come, and the point where a host runs
/// tools or has the response.
#[derive(Debug)]
pub enum ResponseFrame {
    Event { event: CoreEvent },
    Ready { next: NextAction },
    Failed { error: String },
}

/// A round: what happened in it and what comes next.
#[derive(Debug)]
pub struct RoundResult {
    pub events: Vec<CoreEvent>,
    pub next: NextAction,
}

/// The value, or null where there is none.
pub open spec fn or_null(value: Option<JsonView>) -> JsonView {
    match value {
        Some(value) => value,
        None => JsonView::Null,
    }
}

/// What a tool gave back, out of the envelope that its host hands over: a
/// `content` envelope holds a result and its content, a `json` envelope a result,
/// and any other value is the result.
pub open spec fn tool_output(call_id: Seq<char>, value: JsonView) -> ToolOutputView {
    if text_field(value, "type"@) == Some("content"@) {
        ToolOutputView {
            call_id,
            result: or_null(field(value, "result"@)),
            content: field(value, "content"@),
        }
    } else if text_field(value, "type"@) == Some("json"@) {
        ToolOutputView { call_id, result: or_null(field(value, "result"@)), content: None }
    } else {
        ToolOutputView { call_id, result: value, content: None }
    }
}

fn copied(value: Option<&Json>) -> (copy: Option<Json>)
    ensures
        copy.deep_view() == value.deep_view(),
{
    match value {
        Some(value) => Some(value.clone()),
        None => None,
    }
}

/// Takes what a tool gave back out of its envelope.
pub fn normalize_tool_output(call_id: &str, value: Json) -> (output: ToolOutput)
    ensures
        output.deep_view() == tool_output(call_id@, value@),
{
    if value.has_text("type", "content") {
        ToolOutput {
            call_id: owned(call_id),
            result: value.member("result").clone(),
            content: copied(value.get("content")),
        }
    } else if value.has_text("type", "json") {
        ToolOutput {
            call_id: owned(call_id),
            result: value.member("result").clone(),
            content: None,
        }
    } else {
        ToolOutput { call_id: owned(call_id), result: value, content: None }
    }
}

/// What is said of a tool that failed.
pub open spec fn failure_object(error: Seq<char>) -> ObjectView {
    with(with(no_members(), "ok"@, JsonView::Bool(false)), "error"@, text_json(error))
}

/// What a tool that failed gave back.
pub fn tool_failure_output(call_id: &str, error: &str) -> (output: ToolOutput)
    ensures
        output.deep_view() == tool_output(call_id@, JsonView::Object(failure_object(error@))),
{
    let value = JsonObject::new().with("ok", Json::Bool(false)).with_text("error", error);
    normalize_tool_output(call_id, Json::object(value))
}

/// The item that hands a tool's output to the model: its content, else its result
/// as JSON text.
pub open spec fn function_output_item(output: ToolOutputView) -> ObjectView {
    with(
        with(
            with(no_members(), "type"@, text_json("function_call_output"@)),
            "call_id"@,
            text_json(output.call_id),
        ),
        "output"@,
        match output.content {
            Some(content) => content,
            None => text_json(json_text(output.result)),
        },
    )
}

/// The item that hands a tool's output to the model.
pub fn function_call_output_item(output: &ToolOutput) -> (item: ResponseItem)
    ensures
        item@ == function_output_item(output.deep_view()),
{
    let content = match &output.content {
        Some(content) => content.clone(),
        None => Json::Text(json_text_of(&output.result)),
    };
    JsonObject::new().with_text("type", "function_call_output").with_text(
        "call_id",
        output.call_id.as_str(),
    ).with("output", content)
}

/// The members of `item` under the names of `keys`.
pub open spec fn picked(item: ObjectView, keys: Seq<Seq<char>>) -> ObjectView
    decreases keys.len(),
{
    if keys.len() == 0 {
        no_members()
    } else {
        let earlier = picked(item, keys.drop_last());
        match find(item, keys.last()) {
            Some(value) => with(earlier, keys.last(), value),
            None => earlier,
        }
    }
}

/// The item without what only its provider knows it by.
pub open spec fn without_identity(item: ObjectView) -> ObjectView
    decreases item.len(),
{
    if item.len() == 0 {
        Seq::empty()
    } else if item.last().0 == "id"@ || item.last().0 == "status"@ {
        without_identity(item.drop_last())
    } else {
        without_identity(item.drop_last()).push(item.last())
    }
}

/// An item as a request holds it: messages, calls and their outputs with the
/// members that belong to them, other items without their identity.
pub open spec fn input_item(item: ObjectView) -> ObjectView {
    let kind = text_member(item, "type"@);
    if kind == Some("message"@) {
        picked(item, seq!["type"@, "role"@, "content"@])
    } else if kind == Some("function_call"@) {
        picked(item, seq!["type"@, "call_id"@, "name"@, "arguments"@])
    } else if kind == Some("function_call_output"@) {
        picked(item, seq!["type"@, "call_id"@, "output"@])
    } else {
        without_identity(item)
    }
}

fn pick(item: &JsonObject, keys: &Vec<&'static str>) -> (out: JsonObject)
    ensures
        out@ == picked(item@, keys.deep_view()),
{
    let ghost all = keys.deep_view();
    let mut out = JsonObject::new();
    assert(all.take(0) =~= Seq::empty());
    for i in 0..keys.len()
        invariant
            all == keys.deep_view(),
            out@ == picked(item@, all.take(i as int)),
    {
        let ghost so_far = all.take(i as int + 1);
        assert(so_far.drop_last() =~= all.take(i as int));
        assert(so_far.last() == keys@[i as int]@);
        match item.get(keys[i]) {
            Some(value) => out.insert(keys[i], value.clone()),
            None => {},
        }
    }
    assert(all.take(all.len() as int) =~= all);
    out
}

fn drop_identity(item: &JsonObject) -> (out: JsonObject)
    ensures
        out@ == without_identity(item@),
{
    let ghost all = item@;
    let mut entries: Vec<(String, Json)> = Vec::new();
    assert(entries_view(entries@) =~= Seq::empty());
    assert(all.take(0) =~= Seq::empty());
    for i in 0..item.entries.len()
        invariant
            all == entries_view(item.entries@),
            entries_view(entries@) == without_identity(all.take(i as int)),
    {
        let ghost so_far = all.take(i as int + 1);
        assert(so_far.drop_last() =~= all.take(i as int));
        assert(so_far.last() == all[i as int]);
        assert(all[i as int].0 == item.entries@[i as int].0@);
        let key = item.entries[i].0.as_str();
        if !same(key, "id") && !same(key, "status") {
            let ghost before = entries_view(entries@);
            let copy = item.entries[i].1.clone();
            entries.push((owned(key), copy));
            assert(entries_view(entries@) =~= before.push(all[i as int]));
        }
    }
    assert(all.take(all.len() as int) =~= all);
    JsonObject { entries }
}

/// An item as a request holds it.
pub fn openai_input_item(item: &ResponseItem) -> (out: JsonObject)
    ensures
        out@ == input_item(item@),
{
    let mut keys: Vec<&'static str> = Vec::new();
    if item.has_text("type", "message") {
        keys.push("type");
        keys.push("role");
        keys.push("content");
        assert(keys.deep_view() =~= seq!["type"@, "role"@, "content"@]);
        pick(item, &keys)
    } else if item.has_text("type", "function_call") {
        keys.push("type");
        keys.push("call_id");
        keys.push("name");
        keys.push("arguments");
        assert(keys.deep_view() =~= seq!["type"@, "call_id"@, "name"@, "arguments"@]);
        pick(item, &keys)
    } else if item.has_text("type", "function_call_output") {
        keys.push("type");
        keys.push("call_id");
        keys.push("output");
        assert(keys.deep_view() =~= seq!["type"@, "call_id"@, "output"@]);
        pick(item, &keys)
    } else {
        drop_identity(item)
    }
}

/// The arguments of a call. What is not there or empty is an object without
/// members; a text has to write an object.
pub open spec fn call_arguments(arguments: Option<JsonView>) -> Result<JsonView, ErrorView> {
    match arguments {
        None => Ok(JsonView::Object(no_members())),
        Some(JsonView::Null) => Ok(JsonView::Object(no_members())),
        Some(JsonView::Text(raw)) => if raw.len() == 0 {
            Ok(JsonView::Object(no_members()))
        } else {
            decoded_arguments(parsed_json(raw))
        },
        _ => Err(ErrorView::FunctionArguments("function_call arguments must be JSON text"@)),
    }
}

/// The arguments of a call that were read out of their text.
pub open spec fn decoded_arguments(decoded: Result<JsonView, Seq<char>>) -> Result<
    JsonView,
    ErrorView,
> {
    match decoded {
        Err(message) => Err(ErrorView::FunctionArguments(message)),
        Ok(value) => if value is Object {
            Ok(value)
        } else {
            Err(
                ErrorView::FunctionArguments(
                    "function_call arguments must decode to a JSON object"@,
                ),
            )
        },
    }
}

/// What came of reading a text as JSON.
pub open spec fn reading_of(decoded: Result<Json, String>) -> Result<JsonView, Seq<char>> {
    match decoded {
        Ok(value) => Ok(value@),
        Err(message) => Err(message@),
    }
}

/// Takes the arguments of a call as they were read out of their text.
pub fn decode_arguments(decoded: Result<Json, String>) -> (arguments: Result<Json, Error>)
    ensures
        outcome(arguments) == decoded_arguments(reading_of(decoded)),
{
    match decoded {
        Err(message) => Err(Error::FunctionArguments(message)),
        Ok(value) => {
            if value.as_object().is_some() {
                Ok(value)
            } else {
                Err(
                    Error::FunctionArguments(
                        owned("function_call arguments must decode to a JSON object"),
                    ),
                )
            }
        },
    }
}

/// The call that an item asks for.
pub open spec fn tool_call(item: ObjectView) -> Result<ToolCallView, ErrorView> {
    match call_arguments(find(item, "arguments"@)) {
        Err(error) => Err(error),
        Ok(arguments) => Ok(
            ToolCallView {
                name: or_empty(text_member(item, "name"@)),
                call_id: or_empty(text_member(item, "call_id"@)),
                arguments,
            },
        ),
    }
}

pub(crate) fn text_or_empty(text: Option<&str>) -> (out: String)
    ensures
        out@ == or_empty(text.deep_view()),
{
    match text {
        Some(text) => owned(text),
        None => {
            let out = String::new();
            assert(out@ =~= Seq::empty());
            out
        },
    }
}

/// The call that an item asks for.
pub fn parse_tool_call(item: &ResponseItem) -> (call: Result<ToolCall, Error>)
    ensures
        outcome(call) == tool_call(item@),
{
    let arguments = match item.get("arguments") {
        None => Json::object(JsonObject::new()),
        Some(Json::Null) => Json::object(JsonObject::new()),
        Some(Json::Text(raw)) => if raw.as_str().is_empty() {
            Json::object(JsonObject::new())
        } else {
            match decode_arguments(parse_json(raw.as_str())) {
                Ok(arguments) => arguments,
                Err(error) => return Err(error),
            }
        },
        _ => return Err(
            Error::FunctionArguments(owned("function_call arguments must be JSON text")),
        ),
    };
    Ok(
        ToolCall {
            name: text_or_empty(item.get_text("name")),
            call_id: text_or_empty(item.get_text("call_id")),
            arguments,
        },
    )
}

/// The texts of the parts of a message that have one.
pub open spec fn part_texts(parts: Seq<JsonView>) -> Seq<Seq<char>>
    decreases parts.len(),
{
    if parts.len() == 0 {
        Seq::empty()
    } else {
        match text_field(parts.last(), "text"@) {
            Some(text) => part_texts(parts.drop_last()).push(text),
            None => part_texts(parts.drop_last()),
        }
    }
}

/// The text of a message of the assistant, where it has one: its content, or the
/// texts of its parts, one to a line.
pub open spec fn assistant_text(item: ObjectView) -> Option<Seq<char>> {
    if text_member(item, "type"@) == Some("message"@) && text_member(item, "role"@) == Some(
        "assistant"@,
    ) {
        match find(item, "content"@) {
            Some(JsonView::Text(text)) => if text.len() > 0 {
                Some(text)
            } else {
                None
            },
            Some(JsonView::List(parts)) => {
                let text = joined(part_texts(parts), "\n"@);
                if text.len() > 0 {
                    Some(text)
                } else {
                    None
                }
            },
            _ => None,
        }
    } else {
        None
    }
}

/// The texts of the assistant's messages.
pub open spec fn assistant_texts(items: Seq<ObjectView>) -> Seq<Seq<char>>
    decreases items.len(),
{
    if items.len() == 0 {
        Seq::empty()
    } else {
        match assistant_text(items.last()) {
            Some(text) => assistant_texts(items.drop_last()).push(text),
            None => assistant_texts(items.drop_last()),
        }
    }
}

/// What the assistant says in some items, one message to a line.
pub open spec fn output_text(items: Seq<ObjectView>) -> Seq<char> {
    trimmed(joined(assistant_texts(items), "\n"@))
}

pub(crate) fn texts_of_parts(parts: &Vec<Json>) -> (texts: Vec<String>)
    ensures
        texts.deep_view() == part_texts(parts.deep_view()),
{
    let ghost all = parts.deep_view();
    let mut texts: Vec<String> = Vec::new();
    assert(texts.deep_view() =~= Seq::empty());
    assert(all.take(0) =~= Seq::empty());
    for i in 0..parts.len()
        invariant
            all == parts.deep_view(),
            texts.deep_view() == part_texts(all.take(i as int)),
    {
        let ghost so_far = all.take(i as int + 1);
        assert(so_far.drop_last() =~= all.take(i as int));
        assert(so_far.last() == parts@[i as int]@);
        match parts[i].get_text("text") {
            Some(text) => {
                let ghost before = texts.deep_view();
                texts.push(owned(text));
                assert(texts.deep_view() =~= before.push(text@));
            },
            None => {},
        }
    }
    assert(all.take(all.len() as int) =~= all);
    texts
}

fn text_of_assistant(item: &ResponseItem) -> (text: Option<String>)
    ensures
        text.deep_view() == assistant_text(item@),
{
    broadcast use crate::json::lemma_list_view;

    if !(item.has_text("type", "message") && item.has_text("role", "assistant")) {
        return None;
    }
    match item.get("content") {
        Some(Json::Text(text)) => if !text.as_str().is_empty() {
            Some(text.clone())
        } else {
            None
        },
        Some(Json::List(parts)) => {
            let text = join(&texts_of_parts(parts), "\n");
            if !text.as_str().is_empty() {
                Some(text)
            } else {
                None
            }
        },
        _ => None,
    }
}

/// What the assistant says in some items.
pub fn output_text_from_items(items: &Vec<ResponseItem>) -> (text: String)
    ensures
        text@ == output_text(items.deep_view()),
{
    let ghost all = items.deep_view();
    let mut texts: Vec<String> = Vec::new();
    assert(texts.deep_view() =~= Seq::empty());
    assert(all.take(0) =~= Seq::empty());
    for i in 0..items.len()
        invariant
            all == items.deep_view(),
            texts.deep_view() == assistant_texts(all.take(i as int)),
    {
        let ghost so_far = all.take(i as int + 1);
        assert(so_far.drop_last() =~= all.take(i as int));
        assert(so_far.last() == items@[i as int]@);
        match text_of_assistant(&items[i]) {
            Some(text) => {
                let ghost before = texts.deep_view();
                texts.push(text);
                assert(texts.deep_view() =~= before.push(text@));
            },
            None => {},
        }
    }
    assert(all.take(all.len() as int) =~= all);
    trim(join(&texts, "\n").as_str())
}

/// Whether an item is a compacted conversation.
pub open spec fn is_compaction(item: ObjectView) -> bool {
    &&& text_member(item, "type"@) == Some("compaction"@)
    &&& text_member(item, "encrypted_content"@) matches Some(content) && content.len() > 0
}

/// What is wrong with an item that is to be a compacted conversation and is none.
pub open spec fn no_compaction() -> ErrorView {
    ErrorView::Event("compaction response did not contain encrypted context"@)
}

pub(crate) fn validate_compaction_item(item: &ResponseItem) -> (valid: Result<(), Error>)
    ensures
        is_compaction(item@) <==> valid is Ok,
        valid matches Err(error) ==> error.deep_view() == no_compaction(),
{
    let content = match item.get_text("encrypted_content") {
        Some(content) => !content.is_empty(),
        None => false,
    };
    if !item.has_text("type", "compaction") || !content {
        return Err(
            Error::Event(owned("compaction response did not contain encrypted context")),
        );
    }
    Ok(())
}

/// The number of the member `key` of the details, 0 where there is none.
pub open spec fn detail(value: JsonView, key: Seq<char>) -> u64 {
    match field(value, "input_tokens_details"@) {
        Some(details) => match crate::json::number_field(details, key) {
            Some(n) => n,
            None => 0,
        },
        None => 0,
    }
}

/// The tokens that a response took, as the provider reports them.
pub open spec fn usage_of(value: JsonView) -> Option<ResponseUsage> {
    match (
        crate::json::number_field(value, "input_tokens"@),
        crate::json::number_field(value, "output_tokens"@),
        crate::json::number_field(value, "total_tokens"@),
    ) {
        (Some(input_tokens), Some(output_tokens), Some(total_tokens)) => Some(
            ResponseUsage {
                input_tokens,
                cached_input_tokens: detail(value, "cached_tokens"@),
                cache_write_input_tokens: detail(value, "cache_write_tokens"@),
                output_tokens,
                total_tokens,
            },
        ),
        _ => None,
    }
}

fn token_detail(value: &Json, key: &str) -> (n: u64)
    ensures
        n == detail(value@, key@),
{
    match value.get("input_tokens_details") {
        Some(details) => match details.get_u64(key) {
            Some(n) => n,
            None => 0,
        },
        None => 0,
    }
}

/// Reads the tokens that a response took.
pub fn parse_response_usage(value: &Json) -> (usage: Option<ResponseUsage>)
    ensures
        usage == usage_of(value@),
{
    match (
        value.get_u64("input_tokens"),
        value.get_u64("output_tokens"),
        value.get_u64("total_tokens"),
    ) {
        (Some(input_tokens), Some(output_tokens), Some(total_tokens)) => Some(
            ResponseUsage {
                input_tokens,
                cached_input_tokens: token_detail(value, "cached_tokens"),
                cache_write_input_tokens: token_detail(value, "cache_write_tokens"),
                output_tokens,
                total_tokens,
            },
        ),
        _ => None,
    }
}

/// Why a request cannot be made with a context, where it cannot: Bedrock needs
/// its credentials; Codex needs an access token and an account, and goes to no
/// other place.
pub open spec fn context_fault(context: ContextView) -> Option<ErrorView> {
    match context.provider {
        Provider::Bedrock => match find(context.headers, "x-bedrock-access-key"@) {
            Some(key) if key.len() > 0 => None,
            _ => Some(
                ErrorView::State(
                    "provider 'bedrock' requires AWS credentials in its request context"@,
                ),
            ),
        },
        Provider::Codex => if trimmed(context.api_key).len() == 0 {
            Some(
                ErrorView::State(
                    "provider 'codex' requires a non-empty request-scoped access token"@,
                ),
            )
        } else if !(find(context.headers, "ChatGPT-Account-ID"@) matches Some(account)
            && trimmed(account).len() > 0) {
            Some(
                ErrorView::State(
                    "provider 'codex' requires a non-empty ChatGPT-Account-ID header in its request-scoped context"@,
                ),
            )
        } else if context.base_url matches Some(url) && without_trailing(url, '/')
            != "https://chatgpt.com/backend-api/codex"@ {
            Some(
                ErrorView::State(
                    "provider 'codex' only permits the https://chatgpt.com/backend-api/codex base URL"@,
                ),
            )
        } else {
            None
        },
        _ => None,
    }
}

/// Checks that a request can be made with a context.
pub fn validate_request_context(context: &RequestContext) -> (valid: Result<(), Error>)
    ensures
        match valid {
            Ok(()) => context_fault(context.deep_view()) is None,
            Err(error) => context_fault(context.deep_view()) == Some(error.deep_view()),
        },
{
    match context.provider {
        Provider::Bedrock => {
            let given = match context.headers.get("x-bedrock-access-key") {
                Some(key) => !key.is_empty(),
                None => false,
            };
            if !given {
                return Err(
                    state_error(
                        "provider 'bedrock' requires AWS credentials in its request context",
                    ),
                );
            }
            Ok(())
        },
        Provider::Codex => {
            if is_blank(context.api_key.as_str()) {
                return Err(
                    state_error(
                        "provider 'codex' requires a non-empty request-scoped access token",
                    ),
                );
            }
            let account = match context.headers.get("ChatGPT-Account-ID") {
                Some(account) => !is_blank(account),
                None => false,
            };
            if !account {
                return Err(
                    state_error(
                        "provider 'codex' requires a non-empty ChatGPT-Account-ID header in its request-scoped context",
                    ),
                );
            }
            match &context.base_url {
                Some(url) => {
                    if !same(
                        trim_end_char(url.as_str(), '/').as_str(),
                        "https://chatgpt.com/backend-api/codex",
                    ) {
                        return Err(
                            state_error(
                                "provider 'codex' only permits the https://chatgpt.com/backend-api/codex base URL",
                            ),
                        );
                    }
                },
                None => {},
            }
            Ok(())
        },
        _ => Ok(()),
    }
}

} // verus!
