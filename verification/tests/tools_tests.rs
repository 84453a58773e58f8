use mash::json::Json;
use mash::mcp::McpManager;
use mash::tools::{catalog, definitions, exec_bash, execute, Invocation};

fn object(members: Vec<(&str, Json)>) -> Json {
    Json::Object(members.into_iter().map(|(k, v)| (k.to_string(), v)).collect())
}

#[test]
fn command_that_prints_ok() {
    // `printf ok`: output "ok", nothing on the error stream, exit code 0.
    let result = exec_bash("ok", "", Some(0));
    assert_eq!(result, "ok");
    assert!(!result.contains("[stderr]"));
    assert!(!result.contains("[exit code"));
}

#[test]
fn command_that_exits_with_three() {
    // `exit 3`: no output, exit code 3.
    let result = exec_bash("", "", Some(3));
    assert!(result.ends_with("\n[exit code: 3]"));
    assert_eq!(result, "\n[exit code: 3]");
}

#[test]
fn report_with_both_streams() {
    assert_eq!(exec_bash("out\n", "err\n", Some(0)), "out\n\n[stderr]\nerr\n");
    assert_eq!(exec_bash("", "err", Some(0)), "[stderr]\nerr");
    assert_eq!(exec_bash("out", "err", Some(1)), "out\n[stderr]\nerr\n[exit code: 1]");
    assert_eq!(exec_bash("", "", Some(0)), "");
}

#[test]
fn report_of_a_command_without_exit_code() {
    assert_eq!(exec_bash("x", "", None), "x\n[exit code: -1]");
    assert_eq!(exec_bash("", "", Some(-7)), "\n[exit code: -7]");
    assert_eq!(exec_bash("", "", Some(i32::MIN)), "\n[exit code: -2147483648]");
}

#[test]
fn execute_resolves_the_shell() {
    let input = object(vec![("command", Json::text("ls -l")), ("timeout", Json::Unsigned(5))]);
    assert_eq!(execute("shell", &input), Invocation::Shell { command: "ls -l".to_string() });
    assert_eq!(execute("shell", &Json::Null), Invocation::Shell { command: String::new() });
    let odd = object(vec![("command", Json::Unsigned(1))]);
    assert_eq!(execute("shell", &odd), Invocation::Shell { command: String::new() });
}

#[test]
fn execute_hands_namespaced_names_to_the_registry() {
    let input = object(vec![("path", Json::text("."))]);
    assert_eq!(
        execute("external__git__status", &input),
        Invocation::External { name: "external__git__status".to_string(), arguments: input.clone() }
    );
    assert_eq!(
        execute("external__git", &Json::Null),
        Invocation::External { name: "external__git".to_string(), arguments: Json::Null }
    );
}

#[test]
fn execute_answers_unknown_names() {
    assert_eq!(
        execute("frobnicate", &Json::Null),
        Invocation::Answer("Unknown tool: frobnicate".to_string())
    );
    assert_eq!(execute("", &Json::Null), Invocation::Answer("Unknown tool: ".to_string()));
    assert_eq!(
        execute("external_", &Json::Null),
        Invocation::Answer("Unknown tool: external_".to_string())
    );
}

#[test]
fn definitions_hold_the_shell_schema() {
    let defs = definitions();
    assert_eq!(defs.len(), 1);
    let shell = &defs[0];
    assert_eq!(shell.get("name"), Some(&Json::text("shell")));
    assert_eq!(
        shell.get("description"),
        Some(&Json::text("Run a command through the shell and return what it wrote and how it ended."))
    );
    assert_eq!(shell.as_object().map(|members| members.len()), Some(3));
    let schema = shell.get("input_schema").expect("schema");
    assert_eq!(schema.get("type"), Some(&Json::text("object")));
    assert_eq!(schema.get("required"), Some(&Json::Array(vec![Json::text("command")])));
    let properties = schema.get("properties").expect("properties");
    assert_eq!(
        properties.get("command").and_then(|p| p.get("type")),
        Some(&Json::text("string"))
    );
    assert_eq!(
        properties.get("timeout").and_then(|p| p.get("type")),
        Some(&Json::text("integer"))
    );
    assert_eq!(
        properties.get("timeout").and_then(|p| p.get("description")),
        Some(&Json::text("Timeout in seconds. Default 120."))
    );
}

#[test]
fn whole_catalog_begins_with_the_shell() {
    let registry = McpManager::load(None);
    assert_eq!(catalog(&registry), definitions());
}
