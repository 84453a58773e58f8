//! The messages exchanged with the remote model and the single round trip
//! that carries them.

use vstd::prelude::*;
use vstd::string::*;
use crate::codec::{compact, parsed};
use crate::config::{ApiConfig, ApiConfigView, API_VERSION};
use crate::json::{member, member_values, values, Json, JsonValue};
use crate::text::{decimal, decimal_of, same, strip_trailing, without_trailing};

verus! {

/// One block of a message's content.
#[derive(Debug, PartialEq, Eq)]
pub enum ContentBlock {
    Text { text: String },
    ToolUse { id: String, name: String, input: Json },
    ToolResult { tool_use_id: String, content: String, is_error: Option<bool> },
}

/// The mathematical value of a [`ContentBlock`].
pub ghost enum BlockView {
    Text { text: Seq<char> },
    ToolUse { id: Seq<char>, name: Seq<char>, input: JsonValue },
    ToolResult { tool_use_id: Seq<char>, content: Seq<char>, is_error: Option<bool> },
}

impl View for ContentBlock {
    type V = BlockView;

    open spec fn view(&self) -> BlockView {
        match self {
            ContentBlock::Text { text } => BlockView::Text { text: text@ },
            ContentBlock::ToolUse { id, name, input } => BlockView::ToolUse {
                id: id@,
                name: name@,
                input: input@,
            },
            ContentBlock::ToolResult { tool_use_id, content, is_error } => BlockView::ToolResult {
                tool_use_id: tool_use_id@,
                content: content@,
                is_error: *is_error,
            },
        }
    }
}

impl DeepView for ContentBlock {
    type V = BlockView;

    open spec fn deep_view(&self) -> BlockView {
        self@
    }
}

impl Clone for ContentBlock {
    fn clone(&self) -> (out: ContentBlock)
        ensures
            out@ == self@,
    {
        match self {
            ContentBlock::Text { text } => ContentBlock::Text { text: text.clone() },
            ContentBlock::ToolUse { id, name, input } => ContentBlock::ToolUse {
                id: id.clone(),
                name: name.clone(),
                input: input.clone(),
            },
            ContentBlock::ToolResult { tool_use_id, content, is_error } => ContentBlock::ToolResult {
                tool_use_id: tool_use_id.clone(),
                content: content.clone(),
                is_error: *is_error,
            },
        }
    }
}

/// A copy of `blocks`.
pub fn clone_blocks(blocks: &Vec<ContentBlock>) -> (out: Vec<ContentBlock>)
    ensures
        out.deep_view() == blocks.deep_view(),
{
    let mut out: Vec<ContentBlock> = Vec::new();
    let mut i: usize = 0;
    while i < blocks.len()
        invariant
            i <= blocks.len(),
            out.len() == i,
            forall|j: int| 0 <= j < i ==> out@[j]@ == blocks@[j]@,
        decreases blocks.len() - i,
    {
        out.push(blocks[i].clone());
        i += 1;
    }
    assert(out.deep_view() =~= blocks.deep_view());
    out
}

/// The content of a message: plain text, or a sequence of blocks.
#[derive(Debug, PartialEq, Eq)]
pub enum MessageContent {
    Text(String),
    Blocks(Vec<ContentBlock>),
}

/// The mathematical value of a [`MessageContent`].
pub ghost enum ContentView {
    Text(Seq<char>),
    Blocks(Seq<BlockView>),
}

impl View for MessageContent {
    type V = ContentView;

    open spec fn view(&self) -> ContentView {
        match self {
            MessageContent::Text(text) => ContentView::Text(text@),
            MessageContent::Blocks(blocks) => ContentView::Blocks(blocks.deep_view()),
        }
    }
}

impl Clone for MessageContent {
    fn clone(&self) -> (out: MessageContent)
        ensures
            out@ == self@,
    {
        match self {
            MessageContent::Text(text) => MessageContent::Text(text.clone()),
            MessageContent::Blocks(blocks) => MessageContent::Blocks(clone_blocks(blocks)),
        }
    }
}

/// One entry of a conversation.
#[derive(Debug, PartialEq, Eq)]
pub struct Message {
    pub role: String,
    pub content: MessageContent,
}

/// The mathematical value of a [`Message`].
pub ghost struct MessageView {
    pub role: Seq<char>,
    pub content: ContentView,
}

impl View for Message {
    type V = MessageView;

    open spec fn view(&self) -> MessageView {
        MessageView { role: self.role@, content: self.content@ }
    }
}

impl DeepView for Message {
    type V = MessageView;

    open spec fn deep_view(&self) -> MessageView {
        self@
    }
}

impl Clone for Message {
    fn clone(&self) -> (out: Message)
        ensures
            out@ == self@,
    {
        Message { role: self.role.clone(), content: self.content.clone() }
    }
}

/// A copy of `messages`.
pub fn clone_messages(messages: &Vec<Message>) -> (out: Vec<Message>)
    ensures
        out.deep_view() == messages.deep_view(),
{
    let mut out: Vec<Message> = Vec::new();
    let mut i: usize = 0;
    while i < messages.len()
        invariant
            i <= messages.len(),
            out.len() == i,
            forall|j: int| 0 <= j < i ==> out@[j]@ == messages@[j]@,
        decreases messages.len() - i,
    {
        out.push(messages[i].clone());
        i += 1;
    }
    assert(out.deep_view() =~= messages.deep_view());
    out
}

/// What the remote model answers to one request.
#[derive(Debug, PartialEq, Eq)]
pub struct Response {
    pub content: Vec<ContentBlock>,
    pub stop_reason: Option<String>,
}

/// The mathematical value of a [`Response`].
pub ghost struct ResponseView {
    pub content: Seq<BlockView>,
    pub stop_reason: Option<Seq<char>>,
}

impl View for Response {
    type V = ResponseView;

    open spec fn view(&self) -> ResponseView {
        ResponseView {
            content: self.content.deep_view(),
            stop_reason: self.stop_reason.deep_view(),
        }
    }
}

/// A block as the remote API reads it: an object tagged by `type`. The flag
/// of a tool result is written only where it is set.
pub open spec fn block_value(block: BlockView) -> JsonValue {
    match block {
        BlockView::Text { text } => JsonValue::Object(
            seq![("type"@, JsonValue::Text("text"@)), ("text"@, JsonValue::Text(text))],
        ),
        BlockView::ToolUse { id, name, input } => JsonValue::Object(
            seq![
                ("type"@, JsonValue::Text("tool_use"@)),
                ("id"@, JsonValue::Text(id)),
                ("name"@, JsonValue::Text(name)),
                ("input"@, input),
            ],
        ),
        BlockView::ToolResult { tool_use_id, content, is_error } => match is_error {
            Some(flag) => JsonValue::Object(
                seq![
                    ("type"@, JsonValue::Text("tool_result"@)),
                    ("tool_use_id"@, JsonValue::Text(tool_use_id)),
                    ("content"@, JsonValue::Text(content)),
                    ("is_error"@, JsonValue::Bool(flag)),
                ],
            ),
            None => JsonValue::Object(
                seq![
                    ("type"@, JsonValue::Text("tool_result"@)),
                    ("tool_use_id"@, JsonValue::Text(tool_use_id)),
                    ("content"@, JsonValue::Text(content)),
                ],
            ),
        },
    }
}

/// The blocks as the remote API reads them.
pub open spec fn block_values(blocks: Seq<BlockView>) -> Seq<JsonValue> {
    Seq::new(blocks.len(), |i: int| block_value(blocks[i]))
}

/// A content as the remote API reads it: a string, or an array of blocks.
pub open spec fn content_value(content: ContentView) -> JsonValue {
    match content {
        ContentView::Text(text) => JsonValue::Text(text),
        ContentView::Blocks(blocks) => JsonValue::Array(block_values(blocks)),
    }
}

/// A message as the remote API reads it.
pub open spec fn message_value(message: MessageView) -> JsonValue {
    JsonValue::Object(
        seq![("role"@, JsonValue::Text(message.role)), ("content"@, content_value(message.content))],
    )
}

/// The messages as the remote API reads them.
pub open spec fn message_values(messages: Seq<MessageView>) -> Seq<JsonValue> {
    Seq::new(messages.len(), |i: int| message_value(messages[i]))
}

/// The body of a request: model, system prompt, token budget, the whole
/// conversation and the tool catalog.
pub open spec fn request_value(
    config: ApiConfigView,
    system: Seq<char>,
    messages: Seq<MessageView>,
    tools: Seq<JsonValue>,
) -> JsonValue {
    JsonValue::Object(
        seq![
            ("model"@, JsonValue::Text(config.model)),
            ("system"@, JsonValue::Text(system)),
            ("max_tokens"@, JsonValue::Unsigned(config.max_tokens as u64)),
            ("messages"@, JsonValue::Array(message_values(messages))),
            ("tools"@, JsonValue::Array(tools)),
        ],
    )
}

/// A block as the remote API reads it.
pub fn block_to_json(block: &ContentBlock) -> (out: Json)
    ensures
        out@ == block_value(block@),
{
    match block {
        ContentBlock::Text { text } => {
            let members = vec![
                member("type", Json::text("text")),
                member("text", Json::Text(text.clone())),
            ];
            let out = Json::object(members);
            assert(member_values(members@) =~= block_value(block@)->Object_0);
            out
        },
        ContentBlock::ToolUse { id, name, input } => {
            let members = vec![
                member("type", Json::text("tool_use")),
                member("id", Json::Text(id.clone())),
                member("name", Json::Text(name.clone())),
                member("input", input.clone()),
            ];
            let out = Json::object(members);
            assert(member_values(members@) =~= block_value(block@)->Object_0);
            out
        },
        ContentBlock::ToolResult { tool_use_id, content, is_error } => {
            let mut members = vec![
                member("type", Json::text("tool_result")),
                member("tool_use_id", Json::Text(tool_use_id.clone())),
                member("content", Json::Text(content.clone())),
            ];
            match is_error {
                Some(flag) => {
                    members.push(member("is_error", Json::Bool(*flag)));
                },
                None => {},
            }
            let out = Json::object(members);
            assert(member_values(members@) =~= block_value(block@)->Object_0);
            out
        },
    }
}

/// A message as the remote API reads it.
pub fn message_to_json(message: &Message) -> (out: Json)
    ensures
        out@ == message_value(message@),
{
    let content = match &message.content {
        MessageContent::Text(text) => Json::Text(text.clone()),
        MessageContent::Blocks(blocks) => {
            let mut items: Vec<Json> = Vec::new();
            let mut i: usize = 0;
            while i < blocks.len()
                invariant
                    i <= blocks.len(),
                    items.len() == i,
                    forall|j: int| 0 <= j < i ==> items@[j]@ == block_value(blocks@[j]@),
                decreases blocks.len() - i,
            {
                items.push(block_to_json(&blocks[i]));
                i += 1;
            }
            assert(values(items@) =~= block_values(blocks.deep_view()));
            Json::array(items)
        },
    };
    let members = vec![member("role", Json::Text(message.role.clone())), member("content", content)];
    let out = Json::object(members);
    assert(member_values(members@) =~= message_value(message@)->Object_0);
    out
}

/// A member that may be missing or null, and is a string otherwise.
pub open spec fn optional_text(member: Option<JsonValue>) -> Option<Option<Seq<char>>> {
    match member {
        None => Some(None),
        Some(JsonValue::Null) => Some(None),
        Some(JsonValue::Text(text)) => Some(Some(text)),
        Some(_) => None,
    }
}

/// A member that may be missing or null, and is a boolean otherwise.
pub open spec fn optional_flag(member: Option<JsonValue>) -> Option<Option<bool>> {
    match member {
        None => Some(None),
        Some(JsonValue::Null) => Some(None),
        Some(JsonValue::Bool(flag)) => Some(Some(flag)),
        Some(_) => None,
    }
}

/// A member that must be a string.
pub open spec fn required_text(member: Option<JsonValue>) -> Option<Seq<char>> {
    match member {
        Some(JsonValue::Text(text)) => Some(text),
        _ => None,
    }
}

/// The block that a JSON value describes: an object tagged `text`,
/// `tool_use` or `tool_result` by its `type`, with the members of that kind.
pub open spec fn block_of(value: JsonValue) -> Option<BlockView> {
    match required_text(value.get("type"@)) {
        None => None,
        Some(kind) => if kind == "text"@ {
            match required_text(value.get("text"@)) {
                Some(text) => Some(BlockView::Text { text }),
                None => None,
            }
        } else if kind == "tool_use"@ {
            match (
                required_text(value.get("id"@)),
                required_text(value.get("name"@)),
                value.get("input"@),
            ) {
                (Some(id), Some(name), Some(input)) => Some(BlockView::ToolUse { id, name, input }),
                _ => None,
            }
        } else if kind == "tool_result"@ {
            match (
                required_text(value.get("tool_use_id"@)),
                required_text(value.get("content"@)),
                optional_flag(value.get("is_error"@)),
            ) {
                (Some(tool_use_id), Some(content), Some(is_error)) => Some(
                    BlockView::ToolResult { tool_use_id, content, is_error },
                ),
                _ => None,
            }
        } else {
            None
        },
    }
}

/// The blocks that the values describe, in order; `None` where one of them
/// describes none.
pub open spec fn blocks_in(items: Seq<JsonValue>) -> Option<Seq<BlockView>>
    decreases items.len(),
{
    if items.len() == 0 {
        Some(Seq::empty())
    } else {
        match (blocks_in(items.drop_last()), block_of(items.last())) {
            (Some(blocks), Some(block)) => Some(blocks.push(block)),
            _ => None,
        }
    }
}

/// The answer that a JSON value describes: an array `content` of blocks and
/// an optional `stop_reason`.
pub open spec fn response_of(value: JsonValue) -> Option<ResponseView> {
    match (value.get("content"@), optional_text(value.get("stop_reason"@))) {
        (Some(JsonValue::Array(items)), Some(stop_reason)) => match blocks_in(items) {
            Some(content) => Some(ResponseView { content, stop_reason }),
            None => None,
        },
        _ => None,
    }
}

/// One value that describes no block spoils the whole sequence.
pub proof fn lemma_blocks_in_fails(items: Seq<JsonValue>, at: int)
    requires
        0 <= at < items.len(),
        block_of(items[at]) is None,
    ensures
        blocks_in(items) is None,
    decreases items.len(),
{
    if at < items.len() - 1 {
        lemma_blocks_in_fails(items.drop_last(), at);
    }
}

/// Reads a member that must be a string.
fn read_text(member: Option<&Json>) -> (out: Option<String>)
    ensures
        out.deep_view() == required_text(
            match member {
                Some(value) => Some(value@),
                None => None,
            },
        ),
{
    match member {
        Some(Json::Text(text)) => Some(text.clone()),
        _ => None,
    }
}

/// Reads one block.
pub fn decode_block(value: &Json) -> (out: Option<ContentBlock>)
    ensures
        out.deep_view() == block_of(value@),
{
    let kind = match read_text(value.get("type")) {
        Some(kind) => kind,
        None => {
            return None;
        },
    };
    if same(kind.as_str(), "text") {
        match read_text(value.get("text")) {
            Some(text) => Some(ContentBlock::Text { text }),
            None => None,
        }
    } else if same(kind.as_str(), "tool_use") {
        let id = read_text(value.get("id"));
        let name = read_text(value.get("name"));
        match (id, name, value.get("input")) {
            (Some(id), Some(name), Some(input)) => Some(
                ContentBlock::ToolUse { id, name, input: input.clone() },
            ),
            _ => None,
        }
    } else if same(kind.as_str(), "tool_result") {
        let tool_use_id = read_text(value.get("tool_use_id"));
        let content = read_text(value.get("content"));
        let is_error = match value.get("is_error") {
            None => Some(None),
            Some(Json::Null) => Some(None),
            Some(Json::Bool(flag)) => Some(Some(*flag)),
            Some(_) => None,
        };
        match (tool_use_id, content, is_error) {
            (Some(tool_use_id), Some(content), Some(is_error)) => Some(
                ContentBlock::ToolResult { tool_use_id, content, is_error },
            ),
            _ => None,
        }
    } else {
        None
    }
}

/// Reads an answer of the model.
pub fn decode_response(value: &Json) -> (out: Option<Response>)
    ensures
        match out {
            Some(response) => response_of(value@) == Some(response@),
            None => response_of(value@) is None,
        },
{
    let items = match value.get("content") {
        Some(content) => match content.as_array() {
            Some(items) => items,
            None => {
                return None;
            },
        },
        None => {
            return None;
        },
    };
    let stop_reason = match value.get("stop_reason") {
        None => None,
        Some(Json::Null) => None,
        Some(Json::Text(text)) => Some(text.clone()),
        Some(_) => {
            return None;
        },
    };
    let ghost all = values(items@);
    let mut content: Vec<ContentBlock> = Vec::new();
    let mut i: usize = 0;
    assert(all.take(0) =~= Seq::<JsonValue>::empty());
    assert(content.deep_view() =~= Seq::<BlockView>::empty());
    while i < items.len()
        invariant
            i <= items.len(),
            all == values(items@),
            value@.get("content"@) == Some(JsonValue::Array(all)),
            optional_text(value@.get("stop_reason"@)) == Some(stop_reason.deep_view()),
            blocks_in(all.take(i as int)) == Some(content.deep_view()),
        decreases items.len() - i,
    {
        let ghost before = content.deep_view();
        assert(all.take(i + 1).drop_last() =~= all.take(i as int));
        assert(all.take(i + 1).last() == items@[i as int]@);
        match decode_block(&items[i]) {
            Some(block) => {
                content.push(block);
                assert(content.deep_view() =~= before.push(block@));
            },
            None => {
                proof {
                    lemma_blocks_in_fails(all, i as int);
                }
                return None;
            },
        }
        i += 1;
    }
    assert(all.take(items.len() as int) =~= all);
    Some(Response { content, stop_reason })
}

/// Why a round trip to the model failed.
#[derive(Debug, PartialEq, Eq)]
pub enum TransportError {
    /// The status is not one of success; holds it and the body as it came.
    Status { status: u16, body: String },
    /// The body is not JSON; holds the parser's message.
    Malformed(String),
    /// The body is JSON but no answer; holds what was expected.
    Unexpected(String),
    /// The request did not get through; holds the cause.
    Network(String),
}

/// The mathematical value of a [`TransportError`]. The two messages that
/// come from outside the library are left out.
pub ghost enum TransportErrorView {
    Status { status: u16, body: Seq<char> },
    Malformed,
    Unexpected(Seq<char>),
    Network,
}

impl View for TransportError {
    type V = TransportErrorView;

    open spec fn view(&self) -> TransportErrorView {
        match self {
            TransportError::Status { status, body } => TransportErrorView::Status {
                status: *status,
                body: body@,
            },
            TransportError::Malformed(_) => TransportErrorView::Malformed,
            TransportError::Unexpected(what) => TransportErrorView::Unexpected(what@),
            TransportError::Network(_) => TransportErrorView::Network,
        }
    }
}

impl TransportError {
    /// The message of the error. That of a refused request names the status
    /// and gives the body as it came.
    pub open spec fn message_of(self) -> Seq<char> {
        match self {
            TransportError::Status { status, body } => "API error ("@ + decimal(status as nat)
                + "): "@ + body@,
            TransportError::Malformed(message) => message@,
            TransportError::Unexpected(what) => what@,
            TransportError::Network(cause) => cause@,
        }
    }

    /// The message of the error.
    pub fn message(&self) -> (out: String)
        ensures
            out@ == self.message_of(),
    {
        match self {
            TransportError::Status { status, body } => {
                let mut out = String::new();
                out.append("API error (");
                out.append(decimal_of(*status as u64).as_str());
                out.append("): ");
                out.append(body.as_str());
                assert(out@ =~= self.message_of());
                out
            },
            TransportError::Malformed(message) => message.clone(),
            TransportError::Unexpected(what) => what.clone(),
            TransportError::Network(cause) => cause.clone(),
        }
    }
}

/// A request as it goes to the remote API.
#[derive(Debug, PartialEq, Eq)]
pub struct HttpRequest {
    pub url: String,
    /// Header names and values, in the order in which they are set.
    pub headers: Vec<(String, String)>,
    pub body: String,
}

/// The address that requests are posted to.
pub open spec fn endpoint(base_url: Seq<char>) -> Seq<char> {
    without_trailing(base_url, '/') + "/v1/messages"@
}

/// The headers of a request: the key, the protocol version, the content
/// type.
pub open spec fn request_headers(api_key: Seq<char>) -> Seq<(Seq<char>, Seq<char>)> {
    seq![
        ("x-api-key"@, api_key),
        ("anthropic-version"@, API_VERSION@),
        ("content-type"@, "application/json"@),
    ]
}

/// A status of success.
pub open spec fn is_success(status: u16) -> bool {
    200 <= status < 300
}

/// What is reported where the body is JSON but no answer.
pub open spec fn bad_answer() -> Seq<char> {
    "invalid response body"@
}

/// What a reply of the remote API means: any status but one of success is a
/// failure that carries the status and the body; a body that is not JSON, or
/// no answer, is a failure too; else the answer is the one the body
/// describes.
pub open spec fn reply_of(status: u16, body: Seq<char>) -> Result<ResponseView, TransportErrorView> {
    if !is_success(status) {
        Err(TransportErrorView::Status { status, body })
    } else {
        match parsed(body) {
            None => Err(TransportErrorView::Malformed),
            Some(value) => match response_of(value) {
                Some(response) => Ok(response),
                None => Err(TransportErrorView::Unexpected(bad_answer())),
            },
        }
    }
}

/// The value of a reply's outcome.
pub open spec fn outcome_view(outcome: Result<Response, TransportError>) -> Result<
    ResponseView,
    TransportErrorView,
> {
    match outcome {
        Ok(response) => Ok(response@),
        Err(error) => Err(error@),
    }
}

/// The transport to the remote model: one request, one reply.
#[derive(Debug)]
pub struct AnthropicClient {
    config: ApiConfig,
    system: String,
}

/// The mathematical value of an [`AnthropicClient`].
pub ghost struct TransportView {
    pub config: ApiConfigView,
    pub system: Seq<char>,
}

impl View for AnthropicClient {
    type V = TransportView;

    closed spec fn view(&self) -> TransportView {
        TransportView { config: self.config@, system: self.system@ }
    }
}

impl AnthropicClient {
    /// A transport with the given configuration and system prompt.
    pub fn new(config: ApiConfig, system: String) -> (out: AnthropicClient)
        ensures
            out@ == (TransportView { config: config@, system: system@ }),
    {
        AnthropicClient { config, system }
    }

    /// The request that carries the conversation and the tool catalog.
    pub fn send(&self, messages: &Vec<Message>, tools: &Vec<Json>) -> (out: HttpRequest)
        ensures
            out.url@ == endpoint(self@.config.base_url),
            out.headers.deep_view() == request_headers(self@.config.api_key),
            out.body@ == compact(
                request_value(self@.config, self@.system, messages.deep_view(), values(tools@)),
            ),
    {
        let mut url = strip_trailing(self.config.base_url.as_str(), '/');
        url.append("/v1/messages");
        let headers = vec![
            ("x-api-key".to_owned(), self.config.api_key.clone()),
            ("anthropic-version".to_owned(), API_VERSION.to_owned()),
            ("content-type".to_owned(), "application/json".to_owned()),
        ];
        assert(headers.deep_view() =~= request_headers(self@.config.api_key));
        let mut message_items: Vec<Json> = Vec::new();
        let mut i: usize = 0;
        while i < messages.len()
            invariant
                i <= messages.len(),
                message_items.len() == i,
                forall|j: int| 0 <= j < i ==> message_items@[j]@ == message_value(messages@[j]@),
            decreases messages.len() - i,
        {
            message_items.push(message_to_json(&messages[i]));
            i += 1;
        }
        assert(values(message_items@) =~= message_values(messages.deep_view()));
        let mut tool_items: Vec<Json> = Vec::new();
        let mut k: usize = 0;
        while k < tools.len()
            invariant
                k <= tools.len(),
                tool_items.len() == k,
                forall|j: int| 0 <= j < k ==> tool_items@[j]@ == tools@[j]@,
            decreases tools.len() - k,
        {
            tool_items.push(tools[k].clone());
            k += 1;
        }
        assert(values(tool_items@) =~= values(tools@));
        let members = vec![
            member("model", Json::Text(self.config.model.clone())),
            member("system", Json::Text(self.system.clone())),
            member("max_tokens", Json::Unsigned(self.config.max_tokens as u64)),
            member("messages", Json::array(message_items)),
            member("tools", Json::array(tool_items)),
        ];
        let request = Json::object(members);
        assert(member_values(members@) =~= request_value(
            self@.config,
            self@.system,
            messages.deep_view(),
            values(tools@),
        )->Object_0);
        HttpRequest { url, headers, body: request.to_text() }
    }

    /// Takes the reply to a request: its status and its body.
    pub fn receive(status: u16, body: &str) -> (out: Result<Response, TransportError>)
        ensures
            outcome_view(out) == reply_of(status, body@),
    {
        if status < 200 || status >= 300 {
            return Err(TransportError::Status { status, body: body.to_owned() });
        }
        match Json::parse(body) {
            Err(cause) => Err(TransportError::Malformed(cause)),
            Ok(value) => match decode_response(&value) {
                Some(response) => Ok(response),
                None => Err(TransportError::Unexpected("invalid response body".to_owned())),
            },
        }
    }
}

} // verus!
