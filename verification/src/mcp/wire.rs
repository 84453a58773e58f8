//! What goes over the pipes: requests and notifications on one line each,
//! and what a line of the server's output means for the request in flight.

use vstd::prelude::*;
use crate::codec::{compact, parsed, pretty};
use crate::json::{member, member_values, values, Json, JsonValue};
use crate::mcp::error::{McpError, McpErrorView};
use crate::text::{join, join_with};

verus! {

/// The request that carries `method` and `params` under `id`.
pub open spec fn request_value(id: u64, method: Seq<char>, params: JsonValue) -> JsonValue {
    JsonValue::Object(
        seq![
            ("jsonrpc"@, JsonValue::Text("2.0"@)),
            ("id"@, JsonValue::Unsigned(id)),
            ("method"@, JsonValue::Text(method)),
            ("params"@, params),
        ],
    )
}

/// The notification that carries `method` and `params`.
pub open spec fn notification_value(method: Seq<char>, params: JsonValue) -> JsonValue {
    JsonValue::Object(
        seq![
            ("jsonrpc"@, JsonValue::Text("2.0"@)),
            ("method"@, JsonValue::Text(method)),
            ("params"@, params),
        ],
    )
}

/// A message as it goes onto the server's input: its JSON text on one line,
/// ended by a line feed.
pub open spec fn wire_line(message: JsonValue) -> Seq<char> {
    compact(message).push('\n')
}

/// The empty object.
pub open spec fn no_params() -> JsonValue {
    JsonValue::Object(Seq::empty())
}

/// The parameters of `initialize`: protocol version and client identity.
pub open spec fn initialize_params() -> JsonValue {
    JsonValue::Object(
        seq![
            ("protocolVersion"@, JsonValue::Text("2024-11-05"@)),
            ("capabilities"@, no_params()),
            (
                "clientInfo"@,
                JsonValue::Object(
                    seq![
                        ("name"@, JsonValue::Text("mash"@)),
                        ("version"@, JsonValue::Text("0.1.0"@)),
                    ],
                ),
            ),
        ],
    )
}

/// The parameters of `tools/call`.
pub open spec fn call_params(tool: Seq<char>, arguments: JsonValue) -> JsonValue {
    JsonValue::Object(seq![("name"@, JsonValue::Text(tool)), ("arguments"@, arguments)])
}

/// The empty object.
pub(crate) fn empty_object() -> (out: Json)
    ensures
        out@ == no_params(),
{
    let members: Vec<(String, Json)> = Vec::new();
    let out = Json::object(members);
    assert(member_values(members@) =~= Seq::empty());
    out
}

/// The line that puts `message` onto the server's input.
pub(crate) fn to_wire(message: &Json) -> (out: String)
    ensures
        out@ == wire_line(message@),
{
    let mut out = message.to_text();
    out.push('\n');
    out
}

/// What one read from the server's output means for the request in flight.
#[derive(Debug, PartialEq, Eq)]
pub enum Reply {
    /// The line is not the response: read on.
    Skip,
    /// The response came; holds its `result`.
    Done(Json),
    /// The exchange failed.
    Failed(McpError),
}

/// The mathematical value of a [`Reply`].
pub ghost enum ReplyView {
    Skip,
    Done(JsonValue),
    Failed(McpErrorView),
}

impl View for Reply {
    type V = ReplyView;

    open spec fn view(&self) -> ReplyView {
        match self {
            Reply::Skip => ReplyView::Skip,
            Reply::Done(result) => ReplyView::Done(result@),
            Reply::Failed(error) => ReplyView::Failed(error@),
        }
    }
}

/// Whether `message` answers the request `id`.
pub open spec fn answers(message: JsonValue, id: u64) -> bool {
    match message.get("id"@) {
        Some(value) => value.as_u64() == Some(id),
        None => false,
    }
}

/// What a parsed line means for the request `id`: a message with another id
/// or none is skipped; the response fails where it has an `error` member and
/// else gives its `result`, null where there is none.
pub open spec fn reply_of_message(message: JsonValue, id: u64) -> ReplyView {
    if answers(message, id) {
        match message.get("error"@) {
            Some(error) => ReplyView::Failed(McpErrorView::Remote(compact(error))),
            None => ReplyView::Done(
                match message.get("result"@) {
                    Some(result) => result,
                    None => JsonValue::Null,
                },
            ),
        }
    } else {
        ReplyView::Skip
    }
}

/// What one read means for the request `id` on `server`: the end of the
/// stream is a failure; an empty line and a line that is not JSON, such as a
/// line of a log, are skipped; any other line counts by the message it
/// holds.
pub open spec fn reply_of(server: Seq<char>, id: u64, line: Option<Seq<char>>) -> ReplyView {
    match line {
        None => ReplyView::Failed(McpErrorView::Closed(server)),
        Some(text) => if text.len() == 0 {
            ReplyView::Skip
        } else {
            match parsed(text) {
                Some(message) => reply_of_message(message, id),
                None => ReplyView::Skip,
            }
        },
    }
}

/// What the reads `lines`, followed by the end of the stream, mean for the
/// request `id`: the first of them that is not skipped decides.
pub open spec fn settle(server: Seq<char>, id: u64, lines: Seq<Seq<char>>) -> ReplyView
    decreases lines.len(),
{
    if lines.len() == 0 {
        reply_of(server, id, None)
    } else {
        match reply_of(server, id, Some(lines[0])) {
            ReplyView::Skip => settle(server, id, lines.drop_first()),
            decided => decided,
        }
    }
}

/// A line that is skipped has no effect on what is read after it.
pub proof fn lemma_skipped_line(server: Seq<char>, id: u64, line: Seq<char>, rest: Seq<Seq<char>>)
    requires
        reply_of(server, id, Some(line)) is Skip,
    ensures
        settle(server, id, seq![line] + rest) == settle(server, id, rest),
{
    assert((seq![line] + rest).drop_first() =~= rest);
}

/// A line that is not the awaited response is skipped, whatever it holds: a
/// line that is not JSON, and a line whose message carries another id than
/// the one awaited, or none. The reads after it decide as if the line had
/// not come.
pub proof fn lemma_other_line_skipped(
    server: Seq<char>,
    id: u64,
    line: Seq<char>,
    rest: Seq<Seq<char>>,
)
    requires
        parsed(line) is Some ==> !answers(parsed(line)->0, id),
    ensures
        reply_of(server, id, Some(line)) is Skip,
        settle(server, id, seq![line] + rest) == settle(server, id, rest),
{
    lemma_skipped_line(server, id, line, rest);
}

/// What a parsed message means for the request `id`.
pub fn read_message(message: &Json, id: u64) -> (out: Reply)
    ensures
        out@ == reply_of_message(message@, id),
{
    let matched = match message.get("id") {
        Some(value) => match value.as_u64() {
            Some(n) => n == id,
            None => false,
        },
        None => false,
    };
    if !matched {
        return Reply::Skip;
    }
    match message.get("error") {
        Some(error) => Reply::Failed(McpError::Remote(error.to_text())),
        None => match message.get("result") {
            Some(result) => Reply::Done(result.clone()),
            None => Reply::Done(Json::Null),
        },
    }
}

/// The texts of the entries that carry a string under `text`, in order.
pub open spec fn texts_of(entries: Seq<JsonValue>) -> Seq<Seq<char>>
    decreases entries.len(),
{
    if entries.len() == 0 {
        Seq::empty()
    } else {
        let rest = texts_of(entries.drop_last());
        match entries.last().get("text"@) {
            Some(JsonValue::Text(text)) => rest.push(text),
            _ => rest,
        }
    }
}

/// The text of a tool call's result: the texts of its `content` entries, one
/// per line; or, where there is none, the whole result as indented JSON.
pub open spec fn result_text(result: JsonValue) -> Seq<char> {
    match result.get("content"@) {
        Some(JsonValue::Array(entries)) => if texts_of(entries).len() > 0 {
            join(texts_of(entries), "\n"@)
        } else {
            pretty(result)
        },
        _ => pretty(result),
    }
}

/// The text of a tool call's result.
pub fn tool_text(result: &Json) -> (out: String)
    ensures
        out@ == result_text(result@),
{
    let entries = match result.get("content") {
        Some(content) => match content.as_array() {
            Some(entries) => entries,
            None => {
                return result.to_pretty();
            },
        },
        None => {
            return result.to_pretty();
        },
    };
    let ghost all = values(entries@);
    let mut texts: Vec<String> = Vec::new();
    let mut i: usize = 0;
    assert(all.take(0) =~= Seq::<JsonValue>::empty());
    assert(texts.deep_view() =~= Seq::<Seq<char>>::empty());
    while i < entries.len()
        invariant
            i <= entries.len(),
            all == values(entries@),
            texts_of(all.take(i as int)) == texts.deep_view(),
        decreases entries.len() - i,
    {
        let ghost before = texts.deep_view();
        assert(all.take(i + 1).drop_last() =~= all.take(i as int));
        assert(all.take(i + 1).last() == entries@[i as int]@);
        match entries[i].get("text") {
            Some(Json::Text(text)) => {
                texts.push(text.clone());
                assert(texts.deep_view() =~= before.push(text@));
            },
            _ => {},
        }
        i += 1;
    }
    assert(all.take(entries.len() as int) =~= all);
    if texts.len() > 0 {
        join_with(&texts, "\n")
    } else {
        result.to_pretty()
    }
}

} // verus!
