//! Conversations with Amazon Bedrock.
use vstd::prelude::*;

use crate::error::{state_error, Error};
#[allow(unused_imports)]
use crate::error::{outcome, ErrorView};
use crate::eventstream::BedrockEvent;
#[allow(unused_imports)]
use crate::eventstream::FrameView;
use crate::json::{clone_list, json_text_of, parse_json, Json, JsonObject};
#[allow(unused_imports)]
use crate::json::{
    as_text, field, json_text, lemma_list_view, no_members, number_json, or_empty, parsed_json,
    text_field, text_json, text_member, with, JsonView, ObjectView,
};
use crate::machine::ResponseMachine;
#[allow(unused_imports)]
use crate::machine::MachineView;
#[allow(unused_imports)]
use crate::ordered::find;
use crate::providers::RequestContext;
#[allow(unused_imports)]
use crate::providers::ContextView;
use crate::response::{message, text_or_empty, texts_of_parts, CoreEvent, ResponseItem};
#[allow(unused_imports)]
use crate::response::{message_item, part_texts, reading_of, EventView};
use crate::text::{cat, cat3, join, owned, same, split_once_text, strip_prefix};
#[allow(unused_imports)]
use crate::text::{after_prefix, around_text, joined};

verus! {

/// The credentials of an account.
#[derive(Debug)]
pub struct BedrockCredentials {
    pub access_key: String,
    pub secret_key: String,
    pub session_token: Option<String>,
    pub region: String,
}

/// What the credentials of an account are.
pub struct CredentialsView {
    pub access_key: Seq<char>,
    pub secret_key: Seq<char>,
    pub session_token: Option<Seq<char>>,
    pub region: Seq<char>,
}

impl DeepView for BedrockCredentials {
    type V = CredentialsView;

    open spec fn deep_view(&self) -> CredentialsView {
        CredentialsView {
            access_key: self.access_key@,
            secret_key: self.secret_key@,
            session_token: self.session_token.deep_view(),
            region: self.region@,
        }
    }
}

/// The credentials in the headers of a context.
pub open spec fn credentials_in(context: ContextView) -> Result<CredentialsView, ErrorView> {
    match (
        find(context.headers, "x-bedrock-access-key"@),
        find(context.headers, "x-bedrock-secret-key"@),
    ) {
        (None, _) => Err(ErrorView::State("bedrock context missing access key"@)),
        (_, None) => Err(ErrorView::State("bedrock context missing secret key"@)),
        (Some(access_key), Some(secret_key)) => Ok(
            CredentialsView {
                access_key,
                secret_key,
                session_token: find(context.headers, "x-bedrock-session-token"@),
                region: match find(context.headers, "x-bedrock-region"@) {
                    Some(region) => region,
                    None => "us-east-1"@,
                },
            },
        ),
    }
}

fn owned_option(text: Option<&str>) -> (out: Option<String>)
    ensures
        out.deep_view() == text.deep_view(),
{
    match text {
        Some(text) => Some(owned(text)),
        None => None,
    }
}

impl BedrockCredentials {
    /// The credentials in the headers of a context.
    pub fn from_context(context: &RequestContext) -> (credentials: Result<Self, Error>)
        ensures
            outcome(credentials) == credentials_in(context.deep_view()),
    {
        let access_key = match context.headers.get("x-bedrock-access-key") {
            Some(key) => owned(key),
            None => return Err(state_error("bedrock context missing access key")),
        };
        let secret_key = match context.headers.get("x-bedrock-secret-key") {
            Some(key) => owned(key),
            None => return Err(state_error("bedrock context missing secret key")),
        };
        let region = match context.headers.get("x-bedrock-region") {
            Some(region) => owned(region),
            None => owned("us-east-1"),
        };
        Ok(
            BedrockCredentials {
                access_key,
                secret_key,
                session_token: owned_option(context.headers.get("x-bedrock-session-token")),
                region,
            },
        )
    }
}

/// A call of a tool, with the JSON text of its arguments.
#[derive(Debug)]
pub struct CompletedToolCall {
    pub name: String,
    pub call_id: String,
    pub arguments_json: String,
}

/// What a call of a tool is.
pub struct CompletedCallView {
    pub name: Seq<char>,
    pub call_id: Seq<char>,
    pub arguments_json: Seq<char>,
}

impl DeepView for CompletedToolCall {
    type V = CompletedCallView;

    open spec fn deep_view(&self) -> CompletedCallView {
        CompletedCallView {
            name: self.name@,
            call_id: self.call_id@,
            arguments_json: self.arguments_json@,
        }
    }
}

/// A request to Bedrock.
#[derive(Debug)]
pub struct BedrockRequest {
    pub model: String,
    pub system: Vec<Json>,
    pub messages: Vec<Json>,
    pub tools: Vec<Json>,
    pub tool_choice: Option<Json>,
    pub reasoning: Option<Json>,
}

/// What a request to Bedrock is.
pub struct BedrockRequestView {
    pub model: Seq<char>,
    pub system: Seq<JsonView>,
    pub messages: Seq<JsonView>,
    pub tools: Seq<JsonView>,
    pub tool_choice: Option<JsonView>,
    pub reasoning: Option<JsonView>,
}

impl DeepView for BedrockRequest {
    type V = BedrockRequestView;

    open spec fn deep_view(&self) -> BedrockRequestView {
        BedrockRequestView {
            model: self.model@,
            system: self.system.deep_view(),
            messages: self.messages.deep_view(),
            tools: self.tools.deep_view(),
            tool_choice: self.tool_choice.deep_view(),
            reasoning: self.reasoning.deep_view(),
        }
    }
}

/// The tools of a request and how they are chosen.
pub open spec fn tool_config(request: BedrockRequestView) -> ObjectView {
    let config = with(no_members(), "tools"@, JsonView::List(request.tools));
    match request.tool_choice {
        Some(choice) => with(config, "toolChoice"@, choice),
        None => config,
    }
}

/// The body of a request.
pub open spec fn bedrock_body(request: BedrockRequestView) -> ObjectView {
    let body = with(no_members(), "messages"@, JsonView::List(request.messages));
    let body = with(
        body,
        "inferenceConfig"@,
        JsonView::Object(with(no_members(), "maxTokens"@, number_json(16384))),
    );
    let body = if request.system.len() > 0 {
        with(body, "system"@, JsonView::List(request.system))
    } else {
        body
    };
    let body = if request.tools.len() > 0 {
        with(body, "toolConfig"@, JsonView::Object(tool_config(request)))
    } else {
        body
    };
    match request.reasoning {
        Some(reasoning) => with(
            body,
            "additionalModelRequestFields"@,
            JsonView::Object(with(no_members(), "thinking"@, reasoning)),
        ),
        None => body,
    }
}

impl BedrockRequest {
    /// The body of the request.
    pub fn body(&self) -> (body: Json)
        ensures
            body@ == JsonView::Object(bedrock_body(self.deep_view())),
    {
        let mut body = JsonObject::new().with(
            "messages",
            Json::list(clone_list(&self.messages)),
        ).with(
            "inferenceConfig",
            Json::object(JsonObject::new().with("maxTokens", Json::number(16384))),
        );
        if self.system.len() > 0 {
            body.insert("system", Json::list(clone_list(&self.system)));
        }
        if self.tools.len() > 0 {
            let mut config = JsonObject::new().with("tools", Json::list(clone_list(&self.tools)));
            match &self.tool_choice {
                Some(choice) => config.insert("toolChoice", choice.clone()),
                None => {},
            }
            body.insert("toolConfig", Json::object(config));
        }
        match &self.reasoning {
            Some(reasoning) => body.insert(
                "additionalModelRequestFields",
                Json::object(JsonObject::new().with("thinking", reasoning.clone())),
            ),
            None => {},
        }
        Json::object(body)
    }
}

/// A block of text.
pub open spec fn text_block(text: Seq<char>) -> JsonView {
    JsonView::Object(with(no_members(), "text"@, text_json(text)))
}

/// A block with an image.
pub open spec fn image_block(format: Seq<char>, data: Seq<char>) -> JsonView {
    let source = with(no_members(), "bytes"@, text_json(data));
    let image = with(
        with(no_members(), "format"@, text_json(format)),
        "source"@,
        JsonView::Object(source),
    );
    JsonView::Object(with(no_members(), "image"@, JsonView::Object(image)))
}

/// The block for a part of a message, where there is one: a text, or an image
/// whose address holds it.
pub open spec fn part_block(part: JsonView) -> Option<JsonView> {
    match text_field(part, "text"@) {
        Some(text) => Some(text_block(text)),
        None => match field(part, "image_url"@) {
            None => None,
            Some(image) => match after_prefix(
                or_empty(text_field(image, "url"@)),
                "data:image/"@,
            ) {
                None => None,
                Some(data) => match around_text(data, ";base64,"@) {
                    Some((format, bytes)) => Some(image_block(format, bytes)),
                    None => Some(image_block("png"@, ""@)),
                },
            },
        },
    }
}

/// The blocks for the parts of a message.
pub open spec fn part_blocks(parts: Seq<JsonView>) -> Seq<JsonView>
    decreases parts.len(),
{
    if parts.len() == 0 {
        Seq::empty()
    } else {
        match part_block(parts.last()) {
            Some(block) => part_blocks(parts.drop_last()).push(block),
            None => part_blocks(parts.drop_last()),
        }
    }
}

/// A message of a conversation with Bedrock.
pub open spec fn converse_message(role: Seq<char>, content: Seq<JsonView>) -> JsonView {
    JsonView::Object(
        with(
            with(no_members(), "role"@, text_json(role)),
            "content"@,
            JsonView::List(content),
        ),
    )
}

/// The messages with one more block: in the last message where it has the role,
/// else in a message of its own.
pub open spec fn appended(messages: Seq<JsonView>, role: Seq<char>, block: JsonView) -> Seq<
    JsonView,
> {
    if messages.len() > 0 && text_field(messages.last(), "role"@) == Some(role) && (field(
        messages.last(),
        "content"@,
    ) matches Some(JsonView::List(_))) {
        let content = field(messages.last(), "content"@)->0->List_0;
        messages.drop_last().push(
            JsonView::Object(
                with(messages.last()->Object_0, "content"@, JsonView::List(content.push(block))),
            ),
        )
    } else {
        messages.push(converse_message(role, seq![block]))
    }
}

/// The arguments of a call, as far as they can be read.
pub open spec fn arguments_value(value: Option<JsonView>) -> JsonView {
    match value {
        None => JsonView::Object(no_members()),
        Some(JsonView::Null) => JsonView::Object(no_members()),
        Some(JsonView::Text(raw)) => if raw.len() == 0 {
            JsonView::Object(no_members())
        } else {
            or_no_members(parsed_json(raw))
        },
        Some(value) => value,
    }
}

/// The value that was read out of a text, or an object without members.
pub open spec fn or_no_members(decoded: Result<JsonView, Seq<char>>) -> JsonView {
    match decoded {
        Ok(value) => value,
        Err(_) => JsonView::Object(no_members()),
    }
}

/// The block for a call.
pub open spec fn tool_use_block(item: ObjectView) -> JsonView {
    let call = with(
        with(
            with(
                no_members(),
                "toolUseId"@,
                text_json(or_empty(text_member(item, "call_id"@))),
            ),
            "name"@,
            text_json(or_empty(text_member(item, "name"@))),
        ),
        "input"@,
        arguments_value(find(item, "arguments"@)),
    );
    JsonView::Object(with(no_members(), "toolUse"@, JsonView::Object(call)))
}

/// The text of what a tool gave back.
pub open spec fn output_text_of(output: Option<JsonView>) -> Seq<char> {
    match output {
        Some(JsonView::Text(text)) => text,
        Some(value) => json_text(value),
        None => "null"@,
    }
}

/// The block for what a tool gave back.
pub open spec fn tool_result_block(item: ObjectView) -> JsonView {
    let result = with(
        with(no_members(), "toolUseId"@, text_json(or_empty(text_member(item, "call_id"@)))),
        "content"@,
        JsonView::List(seq![text_block(output_text_of(find(item, "output"@)))]),
    );
    JsonView::Object(with(no_members(), "toolResult"@, JsonView::Object(result)))
}

/// The role of a message, the user's where it has none.
pub open spec fn message_role(item: ObjectView) -> Seq<char> {
    match text_member(item, "role"@) {
        Some(role) => role,
        None => "user"@,
    }
}

/// The blocks of what the system is told and the messages of a conversation.
pub type ConverseView = (Seq<JsonView>, Seq<JsonView>);

/// The conversation with one more message: what comes of the system or the
/// developer goes to the system.
pub open spec fn with_message(so_far: ConverseView, item: ObjectView) -> ConverseView {
    let (system, messages) = so_far;
    let role = message_role(item);
    if role == "system"@ || role == "developer"@ {
        match find(item, "content"@) {
            Some(JsonView::Text(text)) => (system.push(text_block(text)), messages),
            Some(JsonView::List(parts)) => (
                system.push(text_block(joined(part_texts(parts), "\n"@))),
                messages,
            ),
            _ => so_far,
        }
    } else {
        let speaker = if role == "assistant"@ {
            "assistant"@
        } else {
            "user"@
        };
        match find(item, "content"@) {
            Some(JsonView::Text(text)) => (
                system,
                messages.push(converse_message(speaker, seq![text_block(text)])),
            ),
            Some(JsonView::List(parts)) => (
                system,
                messages.push(converse_message(speaker, part_blocks(parts))),
            ),
            _ => so_far,
        }
    }
}

/// The conversation with one more item.
pub open spec fn with_item(so_far: ConverseView, item: ObjectView) -> ConverseView {
    let kind = or_empty(text_member(item, "type"@));
    if kind == "message"@ {
        with_message(so_far, item)
    } else if kind == "function_call"@ {
        (so_far.0, appended(so_far.1, "assistant"@, tool_use_block(item)))
    } else if kind == "function_call_output"@ {
        (so_far.0, appended(so_far.1, "user"@, tool_result_block(item)))
    } else {
        so_far
    }
}

/// A conversation in the form of Bedrock.
pub open spec fn converse(input: Seq<ObjectView>, instructions: Seq<char>) -> ConverseView
    decreases input.len(),
{
    if input.len() == 0 {
        if instructions.len() == 0 {
            (Seq::empty(), Seq::empty())
        } else {
            (seq![text_block(instructions)], Seq::empty())
        }
    } else {
        with_item(converse(input.drop_last(), instructions), input.last())
    }
}

fn make_text_block(text: &str) -> (block: Json)
    ensures
        block@ == text_block(text@),
{
    Json::object(JsonObject::new().with_text("text", text))
}

fn make_image_block(format: &str, data: &str) -> (block: Json)
    ensures
        block@ == image_block(format@, data@),
{
    let source = JsonObject::new().with_text("bytes", data);
    let image = JsonObject::new().with_text("format", format).with("source", Json::object(source));
    Json::object(JsonObject::new().with("image", Json::object(image)))
}

fn make_message(role: &str, content: Vec<Json>) -> (message: Json)
    ensures
        message@ == converse_message(role@, content.deep_view()),
{
    Json::object(JsonObject::new().with_text("role", role).with("content", Json::list(content)))
}

fn one(block: Json) -> (list: Vec<Json>)
    ensures
        list.deep_view() == seq![block@],
{
    let mut list: Vec<Json> = Vec::new();
    list.push(block);
    assert(list.deep_view() =~= seq![block@]);
    list
}

fn block_of_part(part: &Json) -> (block: Option<Json>)
    ensures
        block.deep_view() == part_block(part@),
{
    match part.get_text("text") {
        Some(text) => Some(make_text_block(text)),
        None => match part.get("image_url") {
            None => None,
            Some(image) => {
                let url = text_or_empty(image.get_text("url"));
                match strip_prefix(url.as_str(), "data:image/") {
                    None => None,
                    Some(data) => match split_once_text(data.as_str(), ";base64,") {
                        Some((format, bytes)) => Some(
                            make_image_block(format.as_str(), bytes.as_str()),
                        ),
                        None => Some(make_image_block("png", "")),
                    },
                }
            },
        },
    }
}

fn blocks_of_parts(parts: &Vec<Json>) -> (blocks: Vec<Json>)
    ensures
        blocks.deep_view() == part_blocks(parts.deep_view()),
{
    let ghost all = parts.deep_view();
    let mut blocks: Vec<Json> = Vec::new();
    assert(blocks.deep_view() =~= Seq::empty());
    assert(all.take(0) =~= Seq::empty());
    for i in 0..parts.len()
        invariant
            all == parts.deep_view(),
            blocks.deep_view() == part_blocks(all.take(i as int)),
    {
        let ghost so_far = all.take(i as int + 1);
        assert(so_far.drop_last() =~= all.take(i as int));
        assert(so_far.last() == parts@[i as int]@);
        match block_of_part(&parts[i]) {
            Some(block) => {
                let ghost before = blocks.deep_view();
                blocks.push(block);
                assert(blocks.deep_view() =~= before.push(block@));
            },
            None => {},
        }
    }
    assert(all.take(all.len() as int) =~= all);
    blocks
}

/// Puts a block into the last message where it has the role, else into a message
/// of its own.
pub fn append_to_last_or_push(messages: &mut Vec<Json>, role: &str, block: Json)
    ensures
        final(messages).deep_view() == appended(old(messages).deep_view(), role@, block@),
{
    broadcast use lemma_list_view;

    let ghost before = messages.deep_view();
    let ghost new_block = block@;
    if messages.len() > 0 {
        let at: usize = messages.len() - 1;
        assert(before.last() == messages@[at as int]@);
        let fits = messages[at].has_text("role", role);
        if fits {
            match (messages[at].as_object(), messages[at].get("content")) {
                (Some(object), Some(Json::List(content))) => {
                    let mut content = clone_list(content);
                    let ghost earlier = content.deep_view();
                    content.push(block);
                    assert(content.deep_view() =~= earlier.push(new_block));
                    let mut object = object.clone();
                    object.insert("content", Json::list(content));
                    let changed = Json::object(object);
                    messages[at] = changed;
                    assert(messages.deep_view() =~= before.drop_last().push(changed@));
                    return;
                },
                _ => {},
            }
        }
    }
    let message = make_message(role, one(block));
    messages.push(message);
    assert(messages.deep_view() =~= before.push(message@));
}

/// Takes a value as it was read out of a text.
pub fn value_or_no_members(decoded: Result<Json, String>) -> (value: Json)
    ensures
        value@ == or_no_members(reading_of(decoded)),
{
    match decoded {
        Ok(value) => value,
        Err(_) => Json::object(JsonObject::new()),
    }
}

fn parse_arguments(value: Option<&Json>) -> (arguments: Json)
    ensures
        arguments@ == arguments_value(value.deep_view()),
{
    match value {
        None => Json::object(JsonObject::new()),
        Some(Json::Null) => Json::object(JsonObject::new()),
        Some(Json::Text(raw)) => if raw.as_str().is_empty() {
            Json::object(JsonObject::new())
        } else {
            value_or_no_members(parse_json(raw.as_str()))
        },
        Some(value) => value.clone(),
    }
}

fn make_tool_use(item: &ResponseItem) -> (block: Json)
    ensures
        block@ == tool_use_block(item@),
{
    let call_id = text_or_empty(item.get_text("call_id"));
    let name = text_or_empty(item.get_text("name"));
    let call = JsonObject::new().with_text("toolUseId", call_id.as_str()).with_text(
        "name",
        name.as_str(),
    ).with("input", parse_arguments(item.get("arguments")));
    Json::object(JsonObject::new().with("toolUse", Json::object(call)))
}

fn make_tool_result(item: &ResponseItem) -> (block: Json)
    ensures
        block@ == tool_result_block(item@),
{
    let text = match item.get("output") {
        Some(Json::Text(text)) => text.clone(),
        Some(value) => json_text_of(value),
        None => owned("null"),
    };
    let call_id = text_or_empty(item.get_text("call_id"));
    let result = JsonObject::new().with_text("toolUseId", call_id.as_str()).with(
        "content",
        Json::list_of(make_text_block(text.as_str())),
    );
    Json::object(JsonObject::new().with("toolResult", Json::object(result)))
}

fn add_message(system: &mut Vec<Json>, messages: &mut Vec<Json>, item: &ResponseItem)
    ensures
        (final(system).deep_view(), final(messages).deep_view()) == with_message(
            (old(system).deep_view(), old(messages).deep_view()),
            item@,
        ),
{
    broadcast use lemma_list_view;

    let ghost system_before = system.deep_view();
    let ghost before = messages.deep_view();
    let role = match item.get_text("role") {
        Some(role) => role,
        None => "user",
    };
    if same(role, "system") || same(role, "developer") {
        let text = match item.get("content") {
            Some(Json::Text(text)) => text.clone(),
            Some(Json::List(parts)) => join(&texts_of_parts(parts), "\n"),
            _ => return,
        };
        let block = make_text_block(text.as_str());
        system.push(block);
        assert(system.deep_view() =~= system_before.push(block@));
    } else {
        let speaker = if same(role, "assistant") {
            "assistant"
        } else {
            "user"
        };
        let content = match item.get("content") {
            Some(Json::Text(text)) => one(make_text_block(text.as_str())),
            Some(Json::List(parts)) => blocks_of_parts(parts),
            _ => return,
        };
        let message = make_message(speaker, content);
        messages.push(message);
        assert(messages.deep_view() =~= before.push(message@));
    }
}

/// Brings a conversation into the form of Bedrock: what the system is told, and
/// the messages.
pub fn build_converse_messages(input: &Vec<ResponseItem>, instructions: &str) -> (out: (
    Vec<Json>,
    Vec<Json>,
))
    ensures
        (out.0.deep_view(), out.1.deep_view()) == converse(input.deep_view(), instructions@),
{
    let ghost all = input.deep_view();
    let mut system: Vec<Json> = Vec::new();
    let mut messages: Vec<Json> = Vec::new();
    if !instructions.is_empty() {
        system.push(make_text_block(instructions));
        assert(system.deep_view() =~= seq![text_block(instructions@)]);
    } else {
        assert(system.deep_view() =~= Seq::empty());
    }
    assert(messages.deep_view() =~= Seq::empty());
    assert(all.take(0) =~= Seq::empty());
    for i in 0..input.len()
        invariant
            all == input.deep_view(),
            (system.deep_view(), messages.deep_view()) == converse(
                all.take(i as int),
                instructions@,
            ),
    {
        let ghost so_far = all.take(i as int + 1);
        assert(so_far.drop_last() =~= all.take(i as int));
        assert(so_far.last() == input@[i as int]@);
        let item = &input[i];
        let kind = text_or_empty(item.get_text("type"));
        if same(kind.as_str(), "message") {
            add_message(&mut system, &mut messages, item);
        } else if same(kind.as_str(), "function_call") {
            append_to_last_or_push(&mut messages, "assistant", make_tool_use(item));
        } else if same(kind.as_str(), "function_call_output") {
            append_to_last_or_push(&mut messages, "user", make_tool_result(item));
        }
    }
    assert(all.take(all.len() as int) =~= all);
    (system, messages)
}

/// What a tool takes that does not say.
pub open spec fn no_parameters() -> JsonView {
    JsonView::Object(
        with(
            with(no_members(), "type"@, text_json("object"@)),
            "properties"@,
            JsonView::Object(no_members()),
        ),
    )
}

/// A tool in the form of Bedrock, where it is a function with a name.
pub open spec fn tool_spec(tool: JsonView) -> Option<JsonView> {
    match field(tool, "function"@) {
        None => None,
        Some(function) => match text_field(function, "name"@) {
            None => None,
            Some(name) => {
                let parameters = match field(function, "parameters"@) {
                    Some(parameters) => parameters,
                    None => no_parameters(),
                };
                let spec = with(
                    with(
                        with(no_members(), "name"@, text_json(name)),
                        "description"@,
                        text_json(or_empty(text_field(function, "description"@))),
                    ),
                    "inputSchema"@,
                    JsonView::Object(with(no_members(), "json"@, parameters)),
                );
                Some(JsonView::Object(with(no_members(), "toolSpec"@, JsonView::Object(spec))))
            },
        },
    }
}

/// The tools in the form of Bedrock.
pub open spec fn tool_specs(tools: Seq<JsonView>) -> Seq<JsonView>
    decreases tools.len(),
{
    if tools.len() == 0 {
        Seq::empty()
    } else {
        match tool_spec(tools.last()) {
            Some(spec) => tool_specs(tools.drop_last()).push(spec),
            None => tool_specs(tools.drop_last()),
        }
    }
}

fn convert_tool(tool: &Json) -> (spec: Option<Json>)
    ensures
        spec.deep_view() == tool_spec(tool@),
{
    let function = match tool.get("function") {
        Some(function) => function,
        None => return None,
    };
    let name = match function.get_text("name") {
        Some(name) => name,
        None => return None,
    };
    let description = text_or_empty(function.get_text("description"));
    let parameters = match function.get("parameters") {
        Some(parameters) => parameters.clone(),
        None => Json::object(
            JsonObject::new().with_text("type", "object").with(
                "properties",
                Json::object(JsonObject::new()),
            ),
        ),
    };
    let spec = JsonObject::new().with_text("name", name).with_text(
        "description",
        description.as_str(),
    ).with("inputSchema", Json::object(JsonObject::new().with("json", parameters)));
    Some(Json::object(JsonObject::new().with("toolSpec", Json::object(spec))))
}

/// Brings tools into the form of Bedrock.
pub fn convert_tools(tools: &Vec<Json>) -> (specs: Vec<Json>)
    ensures
        specs.deep_view() == tool_specs(tools.deep_view()),
{
    let ghost all = tools.deep_view();
    let mut specs: Vec<Json> = Vec::new();
    assert(specs.deep_view() =~= Seq::empty());
    assert(all.take(0) =~= Seq::empty());
    for i in 0..tools.len()
        invariant
            all == tools.deep_view(),
            specs.deep_view() == tool_specs(all.take(i as int)),
    {
        let ghost so_far = all.take(i as int + 1);
        assert(so_far.drop_last() =~= all.take(i as int));
        assert(so_far.last() == tools@[i as int]@);
        match convert_tool(&tools[i]) {
            Some(spec) => {
                let ghost before = specs.deep_view();
                specs.push(spec);
                assert(specs.deep_view() =~= before.push(spec@));
            },
            None => {},
        }
    }
    assert(all.take(all.len() as int) =~= all);
    specs
}

/// How a tool is chosen, in the form of Bedrock.
pub open spec fn bedrock_choice(choice: Option<JsonView>) -> Option<JsonView> {
    match choice {
        None => None,
        Some(choice) => {
            let nothing = JsonView::Object(no_members());
            let word = as_text(choice);
            if word is None || word == Some("auto"@) {
                Some(JsonView::Object(with(no_members(), "auto"@, nothing)))
            } else if word == Some("required"@) {
                Some(JsonView::Object(with(no_members(), "any"@, nothing)))
            } else if word == Some("none"@) {
                None
            } else {
                Some(choice)
            }
        },
    }
}

/// The tokens that an effort may take to think.
pub open spec fn effort_budget(effort: Seq<char>) -> u64 {
    if effort == "low"@ {
        1024
    } else if effort == "medium"@ {
        4096
    } else if effort == "high"@ {
        16384
    } else {
        8192
    }
}

/// How a model is asked to think.
pub open spec fn bedrock_reasoning(effort: Option<Seq<char>>) -> Option<JsonView> {
    match effort {
        None => None,
        Some(effort) => Some(
            JsonView::Object(
                with(
                    with(no_members(), "type"@, text_json("enabled"@)),
                    "budget_tokens"@,
                    number_json(effort_budget(effort)),
                ),
            ),
        ),
    }
}

/// The request to Bedrock for a round of a response.
pub open spec fn bedrock_request(machine: MachineView) -> BedrockRequestView {
    let (system, messages) = converse(machine.running_input, machine.request.instructions);
    BedrockRequestView {
        model: machine.model,
        system,
        messages,
        tools: tool_specs(machine.request.tools),
        tool_choice: bedrock_choice(machine.request.tool_choice),
        reasoning: bedrock_reasoning(machine.request.reasoning_effort),
    }
}

fn choice_for_bedrock(choice: &Option<Json>) -> (out: Option<Json>)
    ensures
        out.deep_view() == bedrock_choice(choice.deep_view()),
{
    let choice = match choice {
        Some(choice) => choice,
        None => return None,
    };
    let nothing = Json::object(JsonObject::new());
    match choice.as_str() {
        None => Some(Json::object(JsonObject::new().with("auto", nothing))),
        Some(word) => if same(word, "auto") {
            Some(Json::object(JsonObject::new().with("auto", nothing)))
        } else if same(word, "required") {
            Some(Json::object(JsonObject::new().with("any", nothing)))
        } else if same(word, "none") {
            None
        } else {
            Some(choice.clone())
        },
    }
}

/// The tokens that an effort may take to think.
pub fn effort_to_budget(effort: &str) -> (budget: u64)
    ensures
        budget == effort_budget(effort@),
{
    if same(effort, "low") {
        1024
    } else if same(effort, "medium") {
        4096
    } else if same(effort, "high") {
        16384
    } else {
        8192
    }
}

/// The request to Bedrock for a round of a response.
pub fn request_for(machine: &ResponseMachine) -> (request: BedrockRequest)
    ensures
        request.deep_view() == bedrock_request(machine.deep_view()),
{
    let (system, messages) = build_converse_messages(
        machine.running_input(),
        machine.request().instructions.as_str(),
    );
    let reasoning = match &machine.request().reasoning_effort {
        Some(effort) => Some(
            Json::object(
                JsonObject::new().with_text("type", "enabled").with(
                    "budget_tokens",
                    Json::number(effort_to_budget(effort.as_str())),
                ),
            ),
        ),
        None => None,
    };
    BedrockRequest {
        model: owned(machine.model()),
        system,
        messages,
        tools: convert_tools(&machine.request().tools),
        tool_choice: choice_for_bedrock(&machine.request().tool_choice),
        reasoning,
    }
}

/// Where a model answers: the host, the path and the whole address.
pub open spec fn converse_address(region: Seq<char>, model: Seq<char>) -> (
    Seq<char>,
    Seq<char>,
    Seq<char>,
) {
    let host = "bedrock-runtime."@ + region + ".amazonaws.com"@;
    let path = "/model/"@ + model + "/converse-stream"@;
    (host, path, "https://"@ + host + path)
}

/// Where a model answers: the host, the path and the whole address.
pub fn converse_url(region: &str, model: &str) -> (address: (String, String, String))
    ensures
        (address.0@, address.1@, address.2@) == converse_address(region@, model@),
{
    let host = cat3("bedrock-runtime.", region, ".amazonaws.com");
    let path = cat3("/model/", model, "/converse-stream");
    let url = cat3("https://", host.as_str(), path.as_str());
    (host, path, url)
}

/// What an event of Bedrock's stream says.
#[derive(Debug)]
pub enum BedrockStreamEvent {
    TextDelta(String),
    ToolStart { name: String, call_id: String },
    ToolInputDelta(String),
    Stop,
}

/// What an event of Bedrock's stream says.
pub enum StreamEventView {
    TextDelta(Seq<char>),
    ToolStart { name: Seq<char>, call_id: Seq<char> },
    ToolInputDelta(Seq<char>),
    Stop,
}

impl DeepView for BedrockStreamEvent {
    type V = StreamEventView;

    open spec fn deep_view(&self) -> StreamEventView {
        match self {
            BedrockStreamEvent::TextDelta(text) => StreamEventView::TextDelta(text@),
            BedrockStreamEvent::ToolStart { name, call_id } => StreamEventView::ToolStart {
                name: name@,
                call_id: call_id@,
            },
            BedrockStreamEvent::ToolInputDelta(text) => StreamEventView::ToolInputDelta(text@),
            BedrockStreamEvent::Stop => StreamEventView::Stop,
        }
    }
}

/// The member `key`, or the value itself where it has none.
pub open spec fn member_or_self(value: JsonView, key: Seq<char>) -> JsonView {
    match field(value, key) {
        Some(inner) => inner,
        None => value,
    }
}

/// The text that a delta brings.
pub open spec fn delta_text(delta: JsonView) -> Seq<StreamEventView> {
    match text_field(delta, "text"@) {
        Some(text) if text.len() > 0 => seq![StreamEventView::TextDelta(text)],
        _ => Seq::empty(),
    }
}

/// The arguments that a delta brings.
pub open spec fn delta_input(delta: JsonView) -> Seq<StreamEventView> {
    match field(delta, "toolUse"@) {
        Some(call) => match text_field(call, "input"@) {
            Some(input) => seq![StreamEventView::ToolInputDelta(input)],
            None => Seq::empty(),
        },
        None => Seq::empty(),
    }
}

/// What a frame of Bedrock's stream says.
pub open spec fn stream_events(frame: FrameView) -> Seq<StreamEventView> {
    if frame.event_type == "contentBlockDelta"@ {
        let delta = member_or_self(frame.payload, "delta"@);
        delta_text(delta) + delta_input(delta)
    } else if frame.event_type == "contentBlockStart"@ {
        match field(member_or_self(frame.payload, "start"@), "toolUse"@) {
            Some(call) => seq![
                StreamEventView::ToolStart {
                    name: or_empty(text_field(call, "name"@)),
                    call_id: or_empty(text_field(call, "toolUseId"@)),
                },
            ],
            None => Seq::empty(),
        }
    } else if frame.event_type == "messageStop"@ {
        seq![StreamEventView::Stop]
    } else {
        Seq::empty()
    }
}

/// Reads what a frame of Bedrock's stream says.
pub fn parse_bedrock_event(event: &BedrockEvent) -> (events: Vec<BedrockStreamEvent>)
    ensures
        events.deep_view() == stream_events(event.deep_view()),
{
    let mut events: Vec<BedrockStreamEvent> = Vec::new();
    let kind = event.event_type.as_str();
    if same(kind, "contentBlockDelta") {
        let delta = match event.payload.get("delta") {
            Some(delta) => delta,
            None => &event.payload,
        };
        match delta.get_text("text") {
            Some(text) => {
                if !text.is_empty() {
                    events.push(BedrockStreamEvent::TextDelta(owned(text)));
                }
            },
            None => {},
        }
        assert(events.deep_view() =~= delta_text(delta@));
        match delta.get("toolUse") {
            Some(call) => match call.get_text("input") {
                Some(input) => events.push(BedrockStreamEvent::ToolInputDelta(owned(input))),
                None => {},
            },
            None => {},
        }
        assert(events.deep_view() =~= delta_text(delta@) + delta_input(delta@));
    } else if same(kind, "contentBlockStart") {
        let start = match event.payload.get("start") {
            Some(start) => start,
            None => &event.payload,
        };
        match start.get("toolUse") {
            Some(call) => {
                events.push(
                    BedrockStreamEvent::ToolStart {
                        name: text_or_empty(call.get_text("name")),
                        call_id: text_or_empty(call.get_text("toolUseId")),
                    },
                );
            },
            None => {},
        }
        assert(events.deep_view() =~= stream_events(event.deep_view()));
    } else if same(kind, "messageStop") {
        events.push(BedrockStreamEvent::Stop);
        assert(events.deep_view() =~= seq![StreamEventView::Stop]);
    } else {
        assert(events.deep_view() =~= Seq::empty());
    }
    events
}

/// What has come in of a round with Bedrock: its text and its calls.
#[derive(Debug)]
pub struct BedrockRound {
    pub text: String,
    pub tool_calls: Vec<CompletedToolCall>,
}

/// What has come in of a round with Bedrock.
pub struct BedrockRoundView {
    pub text: Seq<char>,
    pub tool_calls: Seq<CompletedCallView>,
}

impl DeepView for BedrockRound {
    type V = BedrockRoundView;

    open spec fn deep_view(&self) -> BedrockRoundView {
        BedrockRoundView { text: self.text@, tool_calls: self.tool_calls.deep_view() }
    }
}

/// The round after an event: a text comes behind the text, a call is begun, and
/// arguments come behind those of the last call.
pub open spec fn round_after(round: BedrockRoundView, event: StreamEventView) -> BedrockRoundView {
    match event {
        StreamEventView::TextDelta(delta) => BedrockRoundView { text: round.text + delta, ..round },
        StreamEventView::ToolStart { name, call_id } => BedrockRoundView {
            tool_calls: round.tool_calls.push(
                CompletedCallView { name, call_id, arguments_json: Seq::empty() },
            ),
            ..round
        },
        StreamEventView::ToolInputDelta(chunk) => if round.tool_calls.len() == 0 {
            round
        } else {
            let last = round.tool_calls.last();
            BedrockRoundView {
                tool_calls: round.tool_calls.drop_last().push(
                    CompletedCallView { arguments_json: last.arguments_json + chunk, ..last },
                ),
                ..round
            }
        },
        StreamEventView::Stop => round,
    }
}

/// The round after some events.
pub open spec fn round_after_all(round: BedrockRoundView, events: Seq<StreamEventView>) ->
    BedrockRoundView
    decreases events.len(),
{
    if events.len() == 0 {
        round
    } else {
        round_after(round_after_all(round, events.drop_last()), events.last())
    }
}

/// What is told of an event, where something is.
pub open spec fn told(event: StreamEventView) -> Seq<EventView> {
    match event {
        StreamEventView::TextDelta(delta) => seq![EventView::TextDelta { delta }],
        StreamEventView::ToolStart { name, call_id } => seq![
            EventView::ToolCallStarted { name, call_id, arguments: JsonView::Object(no_members()) },
        ],
        _ => Seq::empty(),
    }
}

/// What is told of some events.
pub open spec fn all_told(events: Seq<StreamEventView>) -> Seq<EventView>
    decreases events.len(),
{
    if events.len() == 0 {
        Seq::empty()
    } else {
        all_told(events.drop_last()) + told(events.last())
    }
}

impl BedrockRound {
    /// Nothing has come in.
    pub fn new() -> (round: Self)
        ensures
            round.deep_view() == (BedrockRoundView {
                text: Seq::empty(),
                tool_calls: Seq::empty(),
            }),
    {
        let round = BedrockRound { text: String::new(), tool_calls: Vec::new() };
        assert(round.text@ =~= Seq::empty());
        assert(round.tool_calls.deep_view() =~= Seq::empty());
        round
    }

    fn take_one(&mut self, event: &BedrockStreamEvent) -> (events: Vec<CoreEvent>)
        ensures
            final(self).deep_view() == round_after(old(self).deep_view(), event.deep_view()),
            events.deep_view() == told(event.deep_view()),
    {
        let ghost before = self.tool_calls.deep_view();
        let mut events: Vec<CoreEvent> = Vec::new();
        match event {
            BedrockStreamEvent::TextDelta(delta) => {
                self.text.append(delta.as_str());
                events.push(CoreEvent::TextDelta { delta: delta.clone() });
            },
            BedrockStreamEvent::ToolStart { name, call_id } => {
                let none = String::new();
                assert(none@ =~= Seq::empty());
                let call = CompletedToolCall {
                    name: name.clone(),
                    call_id: call_id.clone(),
                    arguments_json: none,
                };
                self.tool_calls.push(call);
                assert(self.tool_calls.deep_view() =~= before.push(call.deep_view()));
                events.push(
                    CoreEvent::ToolCallStarted {
                        name: name.clone(),
                        call_id: call_id.clone(),
                        arguments: Json::object(JsonObject::new()),
                    },
                );
            },
            BedrockStreamEvent::ToolInputDelta(chunk) => {
                if self.tool_calls.len() > 0 {
                    let at: usize = self.tool_calls.len() - 1;
                    assert(before.last() == self.tool_calls@[at as int].deep_view());
                    let call = CompletedToolCall {
                        name: self.tool_calls[at].name.clone(),
                        call_id: self.tool_calls[at].call_id.clone(),
                        arguments_json: cat(
                            self.tool_calls[at].arguments_json.as_str(),
                            chunk.as_str(),
                        ),
                    };
                    self.tool_calls[at] = call;
                    assert(self.tool_calls.deep_view() =~= before.drop_last().push(
                        call.deep_view(),
                    ));
                }
            },
            BedrockStreamEvent::Stop => {},
        }
        assert(events.deep_view() =~= told(event.deep_view()));
        events
    }

    /// Takes in a frame of the stream.
    pub fn take(&mut self, event: &BedrockEvent) -> (events: Vec<CoreEvent>)
        ensures
            final(self).deep_view() == round_after_all(
                old(self).deep_view(),
                stream_events(event.deep_view()),
            ),
            events.deep_view() == all_told(stream_events(event.deep_view())),
    {
        let parsed = parse_bedrock_event(event);
        let ghost all = parsed.deep_view();
        let ghost first = self.deep_view();
        let mut events: Vec<CoreEvent> = Vec::new();
        assert(events.deep_view() =~= Seq::empty());
        assert(all.take(0) =~= Seq::empty());
        for i in 0..parsed.len()
            invariant
                all == parsed.deep_view(),
                first == old(self).deep_view(),
                self.deep_view() == round_after_all(first, all.take(i as int)),
                events.deep_view() == all_told(all.take(i as int)),
        {
            let ghost so_far = all.take(i as int + 1);
            assert(so_far.drop_last() =~= all.take(i as int));
            assert(so_far.last() == parsed@[i as int].deep_view());
            let ghost before = events.deep_view();
            let mut more = self.take_one(&parsed[i]);
            let ghost new = more.deep_view();
            events.append(&mut more);
            assert(events.deep_view() =~= before + new);
        }
        assert(all.take(all.len() as int) =~= all);
        events
    }
}

/// The arguments of a call as text: an object without members where none came.
pub open spec fn arguments_text(arguments: Seq<char>) -> Seq<char> {
    if arguments.len() == 0 {
        "{}"@
    } else {
        arguments
    }
}

/// The item for a call.
pub open spec fn call_item(call: CompletedCallView) -> ObjectView {
    with(
        with(
            with(
                with(no_members(), "type"@, text_json("function_call"@)),
                "name"@,
                text_json(call.name),
            ),
            "call_id"@,
            text_json(call.call_id),
        ),
        "arguments"@,
        text_json(arguments_text(call.arguments_json)),
    )
}

/// The items of a round: its text as a message where it has one, then its calls.
pub open spec fn round_output(round: BedrockRoundView) -> Seq<ObjectView> {
    let text = if round.text.len() == 0 {
        Seq::<ObjectView>::empty()
    } else {
        seq![message_item("assistant"@, round.text)]
    };
    text + Seq::new(round.tool_calls.len(), |i: int| call_item(round.tool_calls[i]))
}

/// The items of a round.
pub fn output_of(round: &BedrockRound) -> (items: Vec<ResponseItem>)
    ensures
        items.deep_view() == round_output(round.deep_view()),
{
    let mut items: Vec<ResponseItem> = Vec::new();
    if !round.text.as_str().is_empty() {
        items.push(message("assistant", round.text.as_str()));
    }
    let ghost first = items.deep_view();
    for i in 0..round.tool_calls.len()
        invariant
            items.deep_view() =~= first + Seq::new(
                i as nat,
                |k: int| call_item(round.tool_calls@[k].deep_view()),
            ),
    {
        let call = &round.tool_calls[i];
        let arguments = if call.arguments_json.as_str().is_empty() {
            "{}"
        } else {
            call.arguments_json.as_str()
        };
        let item = JsonObject::new().with_text("type", "function_call").with_text(
            "name",
            call.name.as_str(),
        ).with_text("call_id", call.call_id.as_str()).with_text("arguments", arguments);
        let ghost before = items.deep_view();
        items.push(item);
        assert(items.deep_view() =~= before.push(item@));
    }
    assert(items.deep_view() =~= round_output(round.deep_view()));
    items
}

} // verus!
