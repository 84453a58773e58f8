//! The local shell tool: its catalog entry, how a tool call is resolved by
//! name, and the text that reports a finished command.

use vstd::prelude::*;
use vstd::string::*;
use crate::json::{member, member_values, values, Json, JsonValue};
use crate::mcp::{catalog_of, namespaced, prefix, McpManager};
use crate::text::{chars_of, chain, decimal_signed, decimal_of_signed, occurs_at, same};

verus! {

/// A string value.
pub open spec fn text_value(s: Seq<char>) -> JsonValue {
    JsonValue::Text(s)
}

/// The schema of a property: its type and what it is for.
pub open spec fn property_schema(kind: Seq<char>, purpose: Seq<char>) -> JsonValue {
    JsonValue::Object(seq![("type"@, text_value(kind)), ("description"@, text_value(purpose))])
}

/// What the shell tool is for.
pub const SHELL_DESCRIPTION: &'static str =
    "Run a command through the shell and return what it wrote and how it ended.";

/// The catalog entry of the shell tool: its name, its description, and an
/// input schema with a required string `command` and an optional integer
/// `timeout`.
pub open spec fn shell_definition() -> JsonValue {
    JsonValue::Object(
        seq![
            ("name"@, text_value("shell"@)),
            ("description"@, text_value(SHELL_DESCRIPTION@)),
            (
                "input_schema"@,
                JsonValue::Object(
                    seq![
                        ("type"@, text_value("object"@)),
                        (
                            "properties"@,
                            JsonValue::Object(
                                seq![
                                    (
                                        "command"@,
                                        property_schema("string"@, "The shell command to execute"@),
                                    ),
                                    (
                                        "timeout"@,
                                        property_schema(
                                            "integer"@,
                                            "Timeout in seconds. Default 120."@,
                                        ),
                                    ),
                                ],
                            ),
                        ),
                        ("required"@, JsonValue::Array(seq![text_value("command"@)])),
                    ],
                ),
            ),
        ],
    )
}

/// The schema of a property.
fn property(kind: &str, purpose: &str) -> (out: Json)
    ensures
        out@ == property_schema(kind@, purpose@),
{
    let members = vec![member("type", Json::text(kind)), member("description", Json::text(purpose))];
    let out = Json::object(members);
    assert(member_values(members@) =~= property_schema(kind@, purpose@)->Object_0);
    out
}

/// The catalog entries of the local tools: the shell tool alone.
pub fn definitions() -> (out: Vec<Json>)
    ensures
        values(out@) == seq![shell_definition()],
{
    let properties = vec![
        member("command", property("string", "The shell command to execute")),
        member("timeout", property("integer", "Timeout in seconds. Default 120.")),
    ];
    let properties_object = Json::object(properties);
    assert(member_values(properties@) =~= seq![
        ("command"@, property_schema("string"@, "The shell command to execute"@)),
        ("timeout"@, property_schema("integer"@, "Timeout in seconds. Default 120."@)),
    ]);
    let required = vec![Json::text("command")];
    let required_array = Json::array(required);
    assert(values(required@) =~= seq![text_value("command"@)]);
    let schema = vec![
        member("type", Json::text("object")),
        member("properties", properties_object),
        member("required", required_array),
    ];
    let schema_object = Json::object(schema);
    assert(member_values(schema@) =~= shell_definition()->Object_0[2].1->Object_0);
    let entry = vec![
        member("name", Json::text("shell")),
        member("description", Json::text(SHELL_DESCRIPTION)),
        member("input_schema", schema_object),
    ];
    let definition = Json::object(entry);
    assert(member_values(entry@) =~= shell_definition()->Object_0);
    let out = vec![definition];
    assert(values(out@) =~= seq![shell_definition()]);
    out
}

/// The whole catalog that the model is shown: the shell tool, then every
/// tool of every connected server under its namespaced name.
pub open spec fn whole_catalog(external: Seq<JsonValue>) -> Seq<JsonValue> {
    seq![shell_definition()] + external
}

/// The whole catalog for the connections of `registry`.
pub fn catalog(registry: &McpManager) -> (out: Vec<Json>)
    ensures
        values(out@) == whole_catalog(catalog_of(registry@.clients)),
{
    let mut out = definitions();
    let mut external = registry.tool_definitions();
    let ghost local = values(out@);
    let ghost rest = values(external@);
    out.append(&mut external);
    assert(values(out@) =~= local + rest);
    out
}

/// The name of the shell tool is no namespaced name: a local and an external
/// tool never stand under one name in the catalog.
pub proof fn lemma_shell_is_local(server: Seq<char>, tool: Seq<char>)
    ensures
        namespaced(server, tool) != "shell"@,
{
    reveal_strlit("shell");
    reveal_strlit("external__");
    assert(namespaced(server, tool)[0] == 'e');
}

/// What is to be done for a tool call.
#[derive(Debug, PartialEq, Eq)]
pub enum Invocation {
    /// Run `command` through the shell.
    Shell { command: String },
    /// Hand the call to the registry of tool servers under its name.
    External { name: String, arguments: Json },
    /// Nothing is to be run; the text is the result.
    Answer(String),
}

/// The mathematical value of an [`Invocation`].
pub ghost enum InvocationView {
    Shell { command: Seq<char> },
    External { name: Seq<char>, arguments: JsonValue },
    Answer(Seq<char>),
}

impl View for Invocation {
    type V = InvocationView;

    open spec fn view(&self) -> InvocationView {
        match self {
            Invocation::Shell { command } => InvocationView::Shell { command: command@ },
            Invocation::External { name, arguments } => InvocationView::External {
                name: name@,
                arguments: arguments@,
            },
            Invocation::Answer(text) => InvocationView::Answer(text@),
        }
    }
}

/// The command of a shell call: the `command` of its input where that is a
/// string, else the empty command.
pub open spec fn command_of(input: JsonValue) -> Seq<char> {
    match input.get("command"@) {
        Some(JsonValue::Text(command)) => command,
        _ => Seq::empty(),
    }
}

/// How a tool call is resolved by its name: `shell` runs locally, a name
/// with the namespace prefix goes to the registry, and any other name is
/// answered at once.
pub open spec fn resolved(name: Seq<char>, input: JsonValue) -> InvocationView {
    if name == "shell"@ {
        InvocationView::Shell { command: command_of(input) }
    } else if prefix().is_prefix_of(name) {
        InvocationView::External { name, arguments: input }
    } else {
        InvocationView::Answer("Unknown tool: "@ + name)
    }
}

/// Resolves a tool call by its name.
pub fn execute(name: &str, input: &Json) -> (out: Invocation)
    ensures
        out@ == resolved(name@, input@),
{
    if same(name, "shell") {
        let command = match input.get("command") {
            Some(Json::Text(command)) => command.clone(),
            _ => String::new(),
        };
        return Invocation::Shell { command };
    }
    let chars = chars_of(name);
    let lead = chars_of("external__");
    if occurs_at(&chars, 0, &lead) {
        Invocation::External { name: name.to_owned(), arguments: input.clone() }
    } else {
        Invocation::Answer(chain("Unknown tool: ", name))
    }
}

/// The exit code that is reported: the code of the process, or -1 where it
/// has none.
pub open spec fn reported_code(code: Option<i32>) -> int {
    match code {
        Some(n) => n as int,
        None => -1,
    }
}

/// The output part of a report: standard output if there is any, then, if
/// there is any error output, a line `[stderr]` and the error output.
pub open spec fn output_part(stdout: Seq<char>, stderr: Seq<char>) -> Seq<char> {
    if stderr.len() == 0 {
        stdout
    } else if stdout.len() == 0 {
        "[stderr]\n"@ + stderr
    } else {
        stdout + "\n"@ + "[stderr]\n"@ + stderr
    }
}

/// The report of a finished command: its output part, and a trailer with
/// the exit code unless the command succeeded, which is to end with code 0.
pub open spec fn report(stdout: Seq<char>, stderr: Seq<char>, code: Option<i32>) -> Seq<char> {
    if code == Some(0i32) {
        output_part(stdout, stderr)
    } else {
        output_part(stdout, stderr) + "\n[exit code: "@ + decimal_signed(reported_code(code))
            + "]"@
    }
}

/// The report of a finished command, from what it wrote and how it ended.
pub fn exec_bash(stdout: &str, stderr: &str, code: Option<i32>) -> (out: String)
    ensures
        out@ == report(stdout@, stderr@, code),
{
    let mut result = String::new();
    if !stdout.is_empty() {
        result.append(stdout);
    }
    if !stderr.is_empty() {
        if !stdout.is_empty() {
            result.append("\n");
        }
        result.append("[stderr]\n");
        result.append(stderr);
    }
    assert(result@ =~= output_part(stdout@, stderr@));
    let succeeded = match code {
        Some(n) => n == 0,
        None => false,
    };
    if !succeeded {
        let shown: i64 = match code {
            Some(n) => n as i64,
            None => -1,
        };
        result.append("\n[exit code: ");
        result.append(decimal_of_signed(shown).as_str());
        result.append("]");
    }
    result
}

} // verus!
