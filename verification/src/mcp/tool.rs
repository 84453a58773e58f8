//! The tools that a server offers, as its `tools/list` result gives them.

use vstd::prelude::*;
use crate::json::{values, Json, JsonValue};
use crate::mcp::error::{McpError, McpErrorView};

verus! {

/// A tool that a server offers.
#[derive(Debug, PartialEq, Eq)]
pub struct McpTool {
    pub name: String,
    pub description: Option<String>,
    pub input_schema: Json,
}

/// The mathematical value of an [`McpTool`].
pub ghost struct McpToolView {
    pub name: Seq<char>,
    pub description: Option<Seq<char>>,
    pub input_schema: JsonValue,
}

impl View for McpTool {
    type V = McpToolView;

    open spec fn view(&self) -> McpToolView {
        McpToolView {
            name: self.name@,
            description: self.description.deep_view(),
            input_schema: self.input_schema@,
        }
    }
}

impl DeepView for McpTool {
    type V = McpToolView;

    open spec fn deep_view(&self) -> McpToolView {
        self@
    }
}

impl Clone for McpTool {
    fn clone(&self) -> (out: McpTool)
        ensures
            out@ == self@,
    {
        let description = match &self.description {
            Some(text) => Some(text.clone()),
            None => None,
        };
        McpTool { name: self.name.clone(), description, input_schema: self.input_schema.clone() }
    }
}

/// A copy of `tools`.
pub fn clone_tools(tools: &Vec<McpTool>) -> (out: Vec<McpTool>)
    ensures
        out.deep_view() == tools.deep_view(),
{
    let mut out: Vec<McpTool> = Vec::new();
    let mut i: usize = 0;
    while i < tools.len()
        invariant
            i <= tools.len(),
            out.len() == i,
            forall|j: int| 0 <= j < i ==> out@[j]@ == tools@[j]@,
        decreases tools.len() - i,
    {
        out.push(tools[i].clone());
        i += 1;
    }
    assert(out.deep_view() =~= tools.deep_view());
    out
}

/// The description that a tool entry carries: none where the member is
/// missing or null, the text where it is a string. `None` for anything else.
pub open spec fn description_of(entry: JsonValue) -> Option<Option<Seq<char>>> {
    match entry.get("description"@) {
        None => Some(None),
        Some(JsonValue::Null) => Some(None),
        Some(JsonValue::Text(text)) => Some(Some(text)),
        Some(_) => None,
    }
}

/// The tool that one entry of a tool list describes: its `name` is a string,
/// its `inputSchema` is present, its `description` is optional.
pub open spec fn tool_of(entry: JsonValue) -> Option<McpToolView> {
    match (entry.get("name"@), description_of(entry), entry.get("inputSchema"@)) {
        (Some(JsonValue::Text(name)), Some(description), Some(schema)) => Some(
            McpToolView { name, description, input_schema: schema },
        ),
        _ => None,
    }
}

/// The tools that the entries describe, in order; `None` where one of them
/// describes none.
pub open spec fn tools_in(entries: Seq<JsonValue>) -> Option<Seq<McpToolView>>
    decreases entries.len(),
{
    if entries.len() == 0 {
        Some(Seq::empty())
    } else {
        match (tools_in(entries.drop_last()), tool_of(entries.last())) {
            (Some(tools), Some(tool)) => Some(tools.push(tool)),
            _ => None,
        }
    }
}

/// The tool set that the result of `tools/list` describes. A result without
/// a `tools` member describes the empty set.
pub open spec fn tools_of(result: JsonValue) -> Option<Seq<McpToolView>> {
    match result.get("tools"@) {
        None => Some(Seq::empty()),
        Some(JsonValue::Array(entries)) => tools_in(entries),
        Some(_) => None,
    }
}

/// What is reported where a tool list does not have the expected shape.
pub open spec fn bad_tool_list() -> Seq<char> {
    "invalid tools/list result"@
}

/// Reads one entry of a tool list.
fn decode_tool(entry: &Json) -> (out: Option<McpTool>)
    ensures
        match out {
            Some(tool) => tool_of(entry@) == Some(tool@),
            None => tool_of(entry@) is None,
        },
{
    let name = match entry.get("name") {
        Some(value) => match value.as_str() {
            Some(text) => text.to_owned(),
            None => {
                return None;
            },
        },
        None => {
            return None;
        },
    };
    let description = match entry.get("description") {
        None => None,
        Some(Json::Null) => None,
        Some(Json::Text(text)) => Some(text.clone()),
        Some(_) => {
            return None;
        },
    };
    match entry.get("inputSchema") {
        Some(schema) => Some(McpTool { name, description, input_schema: schema.clone() }),
        None => None,
    }
}

/// Reads the tool set from the result of `tools/list`.
pub fn decode_tools(result: &Json) -> (out: Result<Vec<McpTool>, McpError>)
    ensures
        match out {
            Ok(tools) => tools_of(result@) == Some(tools.deep_view()),
            Err(error) => tools_of(result@) is None && error@ == McpErrorView::Invalid(
                bad_tool_list(),
            ),
        },
{
    let entries = match result.get("tools") {
        None => {
            let none: Vec<McpTool> = Vec::new();
            assert(none.deep_view() =~= Seq::<McpToolView>::empty());
            return Ok(none);
        },
        Some(value) => match value.as_array() {
            Some(entries) => entries,
            None => {
                return Err(McpError::Invalid("invalid tools/list result".to_owned()));
            },
        },
    };
    let ghost all = values(entries@);
    let mut tools: Vec<McpTool> = Vec::new();
    let mut i: usize = 0;
    assert(all.take(0) =~= Seq::<JsonValue>::empty());
    assert(tools.deep_view() =~= Seq::<McpToolView>::empty());
    while i < entries.len()
        invariant
            i <= entries.len(),
            all == values(entries@),
            result@.get("tools"@) == Some(JsonValue::Array(all)),
            tools_in(all.take(i as int)) == Some(tools.deep_view()),
        decreases entries.len() - i,
    {
        let ghost before = tools.deep_view();
        assert(all.take(i + 1).drop_last() =~= all.take(i as int));
        assert(all.take(i + 1).last() == entries@[i as int]@);
        match decode_tool(&entries[i]) {
            Some(tool) => {
                tools.push(tool);
                assert(tools.deep_view() =~= before.push(tool@));
            },
            None => {
                proof {
                    lemma_tools_in_fails(all, i as int);
                }
                return Err(McpError::Invalid("invalid tools/list result".to_owned()));
            },
        }
        i += 1;
    }
    assert(all.take(entries.len() as int) =~= all);
    Ok(tools)
}

/// A result without a `tools` member, and one whose `tools` is the empty
/// array, describes the empty tool set and no error.
pub proof fn lemma_no_tools(result: JsonValue)
    requires
        result.get("tools"@) is None || result.get("tools"@) == Some(
            JsonValue::Array(Seq::empty()),
        ),
    ensures
        tools_of(result) == Some(Seq::<McpToolView>::empty()),
{
}

/// One entry that describes no tool spoils the whole list.
pub proof fn lemma_tools_in_fails(entries: Seq<JsonValue>, at: int)
    requires
        0 <= at < entries.len(),
        tool_of(entries[at]) is None,
    ensures
        tools_in(entries) is None,
    decreases entries.len(),
{
    if at < entries.len() - 1 {
        lemma_tools_in_fails(entries.drop_last(), at);
    }
}

} // verus!
