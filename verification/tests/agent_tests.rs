use mash::agent::{AgentEvent, AgentLoop, LoopState, ToolCall};
use mash::api::{AnthropicClient, ContentBlock, Message, MessageContent, Response, TransportError};
use mash::conversation::Conversation;
use mash::json::Json;

fn object(members: Vec<(&str, Json)>) -> Json {
    Json::Object(members.into_iter().map(|(k, v)| (k.to_string(), v)).collect())
}

fn text(t: &str) -> ContentBlock {
    ContentBlock::Text { text: t.to_string() }
}

fn tool_use(id: &str, name: &str, input: Json) -> ContentBlock {
    ContentBlock::ToolUse { id: id.to_string(), name: name.to_string(), input }
}

fn user(t: &str) -> Message {
    Message { role: "user".to_string(), content: MessageContent::Text(t.to_string()) }
}

/// The ids of the tool-use blocks of a message.
fn use_ids(message: &Message) -> Vec<String> {
    match &message.content {
        MessageContent::Text(_) => vec![],
        MessageContent::Blocks(blocks) => blocks
            .iter()
            .filter_map(|b| match b {
                ContentBlock::ToolUse { id, .. } => Some(id.clone()),
                _ => None,
            })
            .collect(),
    }
}

/// The ids that a message of tool results alone refers to.
fn result_ids(message: &Message) -> Option<Vec<String>> {
    match &message.content {
        MessageContent::Blocks(blocks) if !blocks.is_empty() => blocks
            .iter()
            .map(|b| match b {
                ContentBlock::ToolResult { tool_use_id, .. } => Some(tool_use_id.clone()),
                _ => None,
            })
            .collect(),
        _ => None,
    }
}

fn adjacency_holds(messages: &[Message]) -> bool {
    messages.iter().enumerate().all(|(i, message)| match result_ids(message) {
        Some(ids) => i > 0 && use_ids(&messages[i - 1]) == ids,
        None => true,
    })
}

#[test]
fn text_only_turn_ends_without_tools() {
    let mut history = Conversation::new();
    history.push_user_text("hello".to_string());
    let mut agent = AgentLoop::new();
    assert_eq!(agent.state(), LoopState::Requesting);
    let response = Response { content: vec![text("Hi there.\nHow are you?")], stop_reason: Some("end_turn".to_string()) };
    let events = agent.on_response(&mut history, response);
    assert_eq!(
        events,
        vec![AgentEvent::Text("Hi there.".to_string()), AgentEvent::Text("How are you?".to_string())]
    );
    assert_eq!(history.len(), 2);
    assert_eq!(
        history.messages()[1],
        Message {
            role: "assistant".to_string(),
            content: MessageContent::Blocks(vec![text("Hi there.\nHow are you?")]),
        }
    );
    assert_eq!(agent.state(), LoopState::Terminal);
    assert_eq!(agent.next_call(), None);
}

#[test]
fn failed_round_trip_appends_nothing() {
    let failure = AnthropicClient::receive(500, "boom").expect_err("status 500");
    assert_eq!(failure, TransportError::Status { status: 500, body: "boom".to_string() });
    let message = failure.message();
    assert!(message.contains("500"));
    assert!(message.contains("boom"));
    assert_eq!(message, "API error (500): boom");
    let mut history = Conversation::new();
    history.push_user_text("hello".to_string());
    let mut agent = AgentLoop::new();
    agent.on_failure();
    assert_eq!(agent.state(), LoopState::Terminal);
    assert_eq!(history.len(), 1);
    assert_eq!(history.messages(), &vec![user("hello")]);
}

#[test]
fn a_turn_with_tools_keeps_results_next_to_their_calls() {
    let mut history = Conversation::new();
    history.push_user_text("list files".to_string());
    let mut agent = AgentLoop::new();
    let blocks = vec![
        text("Let me look."),
        tool_use("id-1", "shell", object(vec![("command", Json::text("ls"))])),
        tool_use("id-2", "external__git__status", Json::Null),
    ];
    let events = agent.on_response(&mut history, Response { content: blocks.clone(), stop_reason: None });
    assert_eq!(
        events,
        vec![
            AgentEvent::Text("Let me look.".to_string()),
            AgentEvent::ToolCall { name: "shell".to_string(), description: "ls".to_string() },
            AgentEvent::ToolCall { name: "external__git__status".to_string(), description: String::new() },
        ]
    );
    assert_eq!(agent.state(), LoopState::Executing);
    assert_eq!(history.len(), 2);
    assert_eq!(
        agent.next_call(),
        Some(&ToolCall {
            id: "id-1".to_string(),
            name: "shell".to_string(),
            input: object(vec![("command", Json::text("ls"))]),
        })
    );
    let first = agent.on_tool_done(Ok("a.txt\nb.txt\n".to_string()));
    assert_eq!(first, AgentEvent::ToolResult { preview: "a.txt".to_string() });
    assert_eq!(agent.next_call().map(|c| c.id.as_str()), Some("id-2"));
    let second = agent.on_tool_done(Err("MCP server 'git' not connected".to_string()));
    assert_eq!(second, AgentEvent::ToolResult { preview: "MCP server 'git' not connected".to_string() });
    assert_eq!(agent.next_call(), None);
    agent.finish_tools(&mut history, vec![]);
    assert_eq!(agent.state(), LoopState::Requesting);
    assert_eq!(history.len(), 3);
    assert_eq!(
        history.messages()[2],
        Message {
            role: "user".to_string(),
            content: MessageContent::Blocks(vec![
                ContentBlock::ToolResult {
                    tool_use_id: "id-1".to_string(),
                    content: "a.txt\nb.txt\n".to_string(),
                    is_error: None,
                },
                ContentBlock::ToolResult {
                    tool_use_id: "id-2".to_string(),
                    content: "MCP server 'git' not connected".to_string(),
                    is_error: Some(true),
                },
            ]),
        }
    );
    assert_eq!(history.messages()[1].content, MessageContent::Blocks(blocks));
    assert!(adjacency_holds(history.messages()));
}

#[test]
fn pending_input_follows_the_results() {
    let mut history = Conversation::new();
    history.push_user_text("go".to_string());
    let mut agent = AgentLoop::new();
    let _ = agent.on_response(
        &mut history,
        Response { content: vec![tool_use("t", "shell", Json::Null)], stop_reason: None },
    );
    let event = agent.on_tool_done(Ok(String::new()));
    assert_eq!(event, AgentEvent::ToolResult { preview: "(empty)".to_string() });
    agent.finish_tools(&mut history, vec!["one".to_string(), "two".to_string()]);
    assert_eq!(history.len(), 4);
    assert_eq!(history.messages()[3], user("one\n\ntwo"));
    assert!(adjacency_holds(history.messages()));
    // The loop asks again, and the next answer ends the turn.
    let _ = agent.on_response(&mut history, Response { content: vec![text("done")], stop_reason: None });
    assert_eq!(agent.state(), LoopState::Terminal);
    assert_eq!(history.len(), 5);
    assert!(adjacency_holds(history.messages()));
}

#[test]
fn empty_text_and_tool_results_give_no_event() {
    let mut history = Conversation::new();
    let mut agent = AgentLoop::new();
    let events = agent.on_response(
        &mut history,
        Response {
            content: vec![
                text(""),
                ContentBlock::ToolResult { tool_use_id: "x".to_string(), content: "y".to_string(), is_error: None },
                text("a\r\nb"),
            ],
            stop_reason: None,
        },
    );
    assert_eq!(events, vec![AgentEvent::Text("a".to_string()), AgentEvent::Text("b".to_string())]);
    assert_eq!(agent.state(), LoopState::Terminal);
}

#[test]
fn an_answer_without_blocks_ends_the_turn() {
    let mut history = Conversation::new();
    let mut agent = AgentLoop::new();
    let events = agent.on_response(&mut history, Response { content: vec![], stop_reason: None });
    assert!(events.is_empty());
    assert_eq!(agent.state(), LoopState::Terminal);
    assert_eq!(history.len(), 1);
    assert_eq!(
        history.messages()[0],
        Message { role: "assistant".to_string(), content: MessageContent::Blocks(vec![]) }
    );
}

#[test]
fn conversation_operations() {
    let mut history = Conversation::new();
    assert_eq!(history.len(), 0);
    history.push_user_text("a".to_string());
    history.push_user_text("b".to_string());
    let copy = history.snapshot();
    assert_eq!(&copy, history.messages());
    assert_eq!(copy.len(), 2);
    history.clear();
    assert_eq!(history.len(), 0);
    assert_eq!(copy.len(), 2);
}
