//! The section of the system prompt that tells the model of the tools of
//! the connected servers.

use vstd::prelude::*;
use vstd::string::*;
use crate::json::{member_values, values, Json, JsonValue};
use crate::mcp::client::ClientView;
use crate::mcp::names::{namespace, namespaced};
use crate::mcp::registry::McpManager;
use crate::mcp::tool::{McpTool, McpToolView};
use crate::text::{join, join_with, lines, same, split_lines, strip_trailing, without_trailing};

verus! {

/// The strings among `items`, in order.
pub open spec fn strings_in(items: Seq<JsonValue>) -> Seq<Seq<char>>
    decreases items.len(),
{
    if items.len() == 0 {
        Seq::empty()
    } else {
        let rest = strings_in(items.drop_last());
        match items.last() {
            JsonValue::Text(text) => rest.push(text),
            _ => rest,
        }
    }
}

/// The names that a schema lists as required.
pub open spec fn required_names(schema: JsonValue) -> Seq<Seq<char>> {
    match schema.get("required"@) {
        Some(JsonValue::Array(items)) => strings_in(items),
        _ => Seq::empty(),
    }
}

/// The type that a property's schema names, or `any`.
pub open spec fn kind_name(schema: JsonValue) -> Seq<char> {
    match schema.get("type"@) {
        Some(JsonValue::Text(name)) => name,
        _ => "any"@,
    }
}

/// The line of one parameter: its name and type, and a star where it is
/// required.
pub open spec fn param_line(name: Seq<char>, schema: JsonValue, required: Seq<Seq<char>>) -> Seq<
    char,
> {
    "    "@ + name + ": "@ + kind_name(schema) + if required.contains(name) {
        " *"@
    } else {
        Seq::empty()
    }
}

/// The lines of the parameters, in the order of the properties.
pub open spec fn param_lines(
    properties: Seq<(Seq<char>, JsonValue)>,
    required: Seq<Seq<char>>,
) -> Seq<Seq<char>> {
    Seq::new(properties.len(), |i: int| param_line(properties[i].0, properties[i].1, required))
}

/// The parameters of a tool as its input schema gives them, one per line;
/// empty where the schema has no object `properties`.
pub open spec fn params_block(schema: JsonValue) -> Seq<char> {
    match schema.get("properties"@) {
        Some(JsonValue::Object(properties)) => join(
            param_lines(properties, required_names(schema)),
            "\n"@,
        ),
        _ => Seq::empty(),
    }
}

/// Whether `name` is among `names`.
fn has_name(names: &Vec<String>, name: &str) -> (out: bool)
    ensures
        out == names.deep_view().contains(name@),
{
    let mut i: usize = 0;
    while i < names.len()
        invariant
            i <= names.len(),
            forall|j: int| 0 <= j < i ==> names@[j]@ != name@,
        decreases names.len() - i,
    {
        if same(names[i].as_str(), name) {
            assert(names.deep_view()[i as int] == name@);
            return true;
        }
        i += 1;
    }
    assert forall|j: int| 0 <= j < names.deep_view().len() implies names.deep_view()[j]
        != name@ by {
        assert(names.deep_view()[j] == names@[j]@);
    }
    false
}

/// The names that a schema lists as required.
fn read_required(schema: &Json) -> (out: Vec<String>)
    ensures
        out.deep_view() == required_names(schema@),
{
    let mut names: Vec<String> = Vec::new();
    assert(names.deep_view() =~= Seq::<Seq<char>>::empty());
    let items = match schema.get("required") {
        Some(value) => match value.as_array() {
            Some(items) => items,
            None => {
                return names;
            },
        },
        None => {
            return names;
        },
    };
    let ghost all = values(items@);
    let mut i: usize = 0;
    assert(all.take(0) =~= Seq::<JsonValue>::empty());
    while i < items.len()
        invariant
            i <= items.len(),
            all == values(items@),
            names.deep_view() == strings_in(all.take(i as int)),
        decreases items.len() - i,
    {
        let ghost before = names.deep_view();
        assert(all.take(i + 1).drop_last() =~= all.take(i as int));
        assert(all.take(i + 1).last() == items@[i as int]@);
        match &items[i] {
            Json::Text(text) => {
                names.push(text.clone());
                assert(names.deep_view() =~= before.push(text@));
            },
            _ => {},
        }
        i += 1;
    }
    assert(all.take(items.len() as int) =~= all);
    names
}

/// The parameters of a tool as its input schema gives them.
pub fn format_params_block(input_schema: &Json) -> (out: String)
    ensures
        out@ == params_block(input_schema@),
{
    let properties = match input_schema.get("properties") {
        Some(value) => match value.as_object() {
            Some(properties) => properties,
            None => {
                return String::new();
            },
        },
        None => {
            return String::new();
        },
    };
    let required = read_required(input_schema);
    let ghost all = member_values(properties@);
    let mut rows: Vec<String> = Vec::new();
    let mut i: usize = 0;
    while i < properties.len()
        invariant
            i <= properties.len(),
            all == member_values(properties@),
            rows.len() == i,
            forall|j: int|
                0 <= j < i ==> rows@[j]@ == param_line(
                    all[j].0,
                    all[j].1,
                    required.deep_view(),
                ),
        decreases properties.len() - i,
    {
        let name = properties[i].0.as_str();
        let kind = match properties[i].1.get("type") {
            Some(Json::Text(kind)) => kind.clone(),
            _ => "any".to_owned(),
        };
        let mut row = String::new();
        row.append("    ");
        row.append(name);
        row.append(": ");
        row.append(kind.as_str());
        if has_name(&required, name) {
            row.append(" *");
        }
        assert(row@ =~= param_line(all[i as int].0, all[i as int].1, required.deep_view()));
        rows.push(row);
        i += 1;
    }
    assert(rows.deep_view() =~= param_lines(all, required.deep_view()));
    join_with(&rows, "\n")
}

/// What stands for a description where a tool has none.
pub const NO_DESCRIPTION: &'static str = "(无描述)";

/// What introduces the section on the tools of the servers.
pub const TOOLS_HEADING: &'static str =
    "\n\n## MCP 工具（通过 bash 使用 curl 调用）\n需要调用以下工具时，请使用 bash 执行 curl 命令，POST 到 /mcp/call 接口。\n\n";

/// At most the first three of `entries`.
pub open spec fn first_three(entries: Seq<Seq<char>>) -> Seq<Seq<char>> {
    if entries.len() > 3 {
        entries.take(3)
    } else {
        entries
    }
}

/// A description in short: its first three lines on one line.
pub open spec fn short_description(description: Option<Seq<char>>) -> Seq<char> {
    join(
        first_three(
            lines(
                match description {
                    Some(text) => text,
                    None => NO_DESCRIPTION@,
                },
            ),
        ),
        " "@,
    )
}

/// The command that calls `tool` on `server` through the local HTTP
/// endpoint at `base`.
pub open spec fn curl_example(base: Seq<char>, server: Seq<char>, tool: Seq<char>) -> Seq<char> {
    "curl -s -X POST '"@ + base
        + "/mcp/call' -H 'Content-Type: application/json' -d '{\"server\":\""@ + server
        + "\",\"tool\":\""@ + tool + "\",\"arguments\":{...}}'"@
}

/// The entry of one tool in the system prompt: its namespaced name, its
/// short description, its parameters if it has any, and the command that
/// calls it.
pub open spec fn tool_entry(base: Seq<char>, server: Seq<char>, tool: McpToolView) -> Seq<char> {
    let params = params_block(tool.input_schema);
    "- **"@ + namespaced(server, tool.name) + "**\n  描述: "@ + short_description(
        tool.description,
    ) + if params.len() == 0 {
        Seq::empty()
    } else {
        "\n  params:\n"@ + params
    } + "\n  请求: "@ + curl_example(base, server, tool.name)
}

/// The entries of the tools of one server.
pub open spec fn server_entries(base: Seq<char>, server: Seq<char>, tools: Seq<McpToolView>) -> Seq<
    Seq<char>,
> {
    Seq::new(tools.len(), |i: int| tool_entry(base, server, tools[i]))
}

/// The entries of the tools of all connections, server by server.
pub open spec fn all_entries(base: Seq<char>, clients: Seq<ClientView>) -> Seq<Seq<char>>
    decreases clients.len(),
{
    if clients.len() == 0 {
        Seq::empty()
    } else {
        all_entries(base, clients.drop_last()) + server_entries(
            base,
            clients.last().name,
            clients.last().tools,
        )
    }
}

/// The section of the system prompt on the tools of the servers: nothing
/// where there is no tool, else the heading and the entries, a blank line
/// between them. The endpoint's address counts without trailing slashes.
pub open spec fn tools_prompt(clients: Seq<ClientView>, base_url: Seq<char>) -> Seq<char> {
    let entries = all_entries(without_trailing(base_url, '/'), clients);
    if entries.len() == 0 {
        Seq::empty()
    } else {
        TOOLS_HEADING@ + join(entries, "\n\n"@)
    }
}

/// A description in short.
fn shorten(description: &Option<String>) -> (out: String)
    ensures
        out@ == short_description(description.deep_view()),
{
    let all = match description {
        Some(text) => split_lines(text.as_str()),
        None => split_lines(NO_DESCRIPTION),
    };
    let mut kept: Vec<String> = Vec::new();
    let mut i: usize = 0;
    while i < all.len() && i < 3
        invariant
            i <= all.len(),
            i <= 3,
            kept.len() == i,
            forall|j: int| 0 <= j < i ==> kept@[j]@ == all@[j]@,
        decreases all.len() - i,
    {
        kept.push(all[i].clone());
        i += 1;
    }
    assert(kept.deep_view() =~= first_three(all.deep_view()));
    join_with(&kept, " ")
}

/// The entry of one tool in the system prompt.
fn format_tool(base: &str, server: &str, tool: &McpTool) -> (out: String)
    ensures
        out@ == tool_entry(base@, server@, tool@),
{
    let params = format_params_block(&tool.input_schema);
    let mut out = String::new();
    out.append("- **");
    out.append(namespace(server, tool.name.as_str()).as_str());
    out.append("**\n  描述: ");
    out.append(shorten(&tool.description).as_str());
    if !params.as_str().is_empty() {
        out.append("\n  params:\n");
        out.append(params.as_str());
    }
    out.append("\n  请求: ");
    out.append("curl -s -X POST '");
    out.append(base);
    out.append("/mcp/call' -H 'Content-Type: application/json' -d '{\"server\":\"");
    out.append(server);
    out.append("\",\"tool\":\"");
    out.append(tool.name.as_str());
    out.append("\",\"arguments\":{...}}'");
    assert(out@ =~= tool_entry(base@, server@, tool@));
    out
}

/// The entries of the tools of one server.
fn format_server(base: &str, server: &str, tools: &Vec<McpTool>, entries: &mut Vec<String>)
    ensures
        final(entries).deep_view() == old(entries).deep_view() + server_entries(
            base@,
            server@,
            tools.deep_view(),
        ),
{
    let ghost before = entries.deep_view();
    let ghost all = tools.deep_view();
    let mut i: usize = 0;
    assert(before + server_entries(base@, server@, all.take(0)) =~= before);
    while i < tools.len()
        invariant
            i <= tools.len(),
            all == tools.deep_view(),
            entries.deep_view() == before + server_entries(base@, server@, all.take(i as int)),
        decreases tools.len() - i,
    {
        let ghost sofar = entries.deep_view();
        let entry = format_tool(base, server, &tools[i]);
        entries.push(entry);
        i += 1;
        assert(entries.deep_view() =~= before + server_entries(base@, server@, all.take(i as int)))
            by {
            assert(entries.deep_view() =~= sofar.push(entry@));
            assert(server_entries(base@, server@, all.take(i as int)) =~= server_entries(
                base@,
                server@,
                all.take(i - 1),
            ).push(tool_entry(base@, server@, all[i - 1])));
        }
    }
    assert(all.take(tools.len() as int) =~= all);
}

/// The section of the system prompt on the tools of the servers, for the
/// local HTTP endpoint at `base_url`.
pub fn format_mcp_tools_for_prompt(mcp: &McpManager, base_url: &str) -> (out: String)
    ensures
        out@ == tools_prompt(mcp@.clients, base_url@),
{
    let base = strip_trailing(base_url, '/');
    let clients = mcp.clients();
    let ghost all = clients.deep_view();
    let mut entries: Vec<String> = Vec::new();
    let mut i: usize = 0;
    assert(all.take(0) =~= Seq::empty());
    assert(entries.deep_view() =~= Seq::<Seq<char>>::empty());
    while i < clients.len()
        invariant
            i <= clients.len(),
            all == clients.deep_view(),
            entries.deep_view() == all_entries(base@, all.take(i as int)),
        decreases clients.len() - i,
    {
        assert(all.take(i + 1).drop_last() =~= all.take(i as int));
        assert(all.take(i + 1).last() == all[i as int]);
        let client = &clients[i];
        format_server(base.as_str(), client.name(), client.tools(), &mut entries);
        i += 1;
    }
    assert(all.take(clients.len() as int) =~= all);
    if entries.len() == 0 {
        return String::new();
    }
    let mut out = String::new();
    out.append(TOOLS_HEADING);
    out.append(join_with(&entries, "\n\n").as_str());
    out
}

} // verus!
