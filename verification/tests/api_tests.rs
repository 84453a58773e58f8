use mash::api::{
    block_to_json, decode_block, decode_response, message_to_json, AnthropicClient, ContentBlock,
    HttpRequest, Message, MessageContent, Response, TransportError,
};
use mash::config::ApiConfig;
use mash::json::Json;
use mash::tools::definitions;

fn parse(text: &str) -> Json {
    Json::parse(text).expect("valid JSON")
}

fn client(base_url: &str) -> AnthropicClient {
    AnthropicClient::new(
        ApiConfig {
            base_url: base_url.to_string(),
            api_key: "test-key".to_string(),
            model: "m-1".to_string(),
            max_tokens: 1024,
        },
        "be brief".to_string(),
    )
}

#[test]
fn send_builds_the_request() {
    let messages = vec![
        Message { role: "user".to_string(), content: MessageContent::Text("hi".to_string()) },
        Message {
            role: "assistant".to_string(),
            content: MessageContent::Blocks(vec![
                ContentBlock::Text { text: "ok".to_string() },
                ContentBlock::ToolUse { id: "t1".to_string(), name: "shell".to_string(), input: parse(r#"{"command":"ls"}"#) },
            ]),
        },
        Message {
            role: "user".to_string(),
            content: MessageContent::Blocks(vec![
                ContentBlock::ToolResult { tool_use_id: "t1".to_string(), content: "a".to_string(), is_error: None },
                ContentBlock::ToolResult { tool_use_id: "t2".to_string(), content: "b".to_string(), is_error: Some(true) },
            ]),
        },
    ];
    let request: HttpRequest = client("https://api.example.com/").send(&messages, &vec![parse(r#"{"name":"shell"}"#)]);
    assert_eq!(request.url, "https://api.example.com/v1/messages");
    assert_eq!(
        request.headers,
        vec![
            ("x-api-key".to_string(), "test-key".to_string()),
            ("anthropic-version".to_string(), "2023-06-01".to_string()),
            ("content-type".to_string(), "application/json".to_string()),
        ]
    );
    assert_eq!(
        request.body,
        concat_all(&[
            r#"{"max_tokens":1024,"messages":["#,
            r#"{"content":"hi","role":"user"},"#,
            r#"{"content":[{"text":"ok","type":"text"},{"id":"t1","input":{"command":"ls"},"name":"shell","type":"tool_use"}],"role":"assistant"},"#,
            r#"{"content":[{"content":"a","tool_use_id":"t1","type":"tool_result"},{"content":"b","is_error":true,"tool_use_id":"t2","type":"tool_result"}],"role":"user"}"#,
            r#"],"model":"m-1","system":"be brief","tools":[{"name":"shell"}]}"#,
        ])
    );
}

fn concat_all(parts: &[&str]) -> String {
    parts.iter().map(|p| p.to_string()).collect::<Vec<String>>().join("")
}

#[test]
fn send_with_nothing_to_say() {
    let request = client("http://localhost:8080").send(&vec![], &definitions());
    assert_eq!(request.url, "http://localhost:8080/v1/messages");
    let body = parse(&request.body);
    assert_eq!(body.get("messages"), Some(&Json::Array(vec![])));
    assert_eq!(body.get("max_tokens"), Some(&Json::Unsigned(1024)));
    assert_eq!(body.get("tools").and_then(|t| t.as_array()).map(|t| t.len()), Some(1));
}

#[test]
fn receive_reads_an_answer() {
    let body = r#"{"id":"msg","content":[{"type":"text","text":"hello"},{"type":"tool_use","id":"t1","name":"shell","input":{"command":"ls"}}],"stop_reason":"tool_use","usage":{}}"#;
    assert_eq!(
        AnthropicClient::receive(200, body),
        Ok(Response {
            content: vec![
                ContentBlock::Text { text: "hello".to_string() },
                ContentBlock::ToolUse { id: "t1".to_string(), name: "shell".to_string(), input: parse(r#"{"command":"ls"}"#) },
            ],
            stop_reason: Some("tool_use".to_string()),
        })
    );
    assert_eq!(
        AnthropicClient::receive(299, r#"{"content":[]}"#),
        Ok(Response { content: vec![], stop_reason: None })
    );
    assert_eq!(
        AnthropicClient::receive(200, r#"{"content":[],"stop_reason":null}"#),
        Ok(Response { content: vec![], stop_reason: None })
    );
}

#[test]
fn receive_refuses_every_other_status() {
    for status in [0u16, 100, 199, 300, 301, 404, 429, 500, 503, u16::MAX] {
        assert_eq!(
            AnthropicClient::receive(status, r#"{"content":[]}"#),
            Err(TransportError::Status { status, body: r#"{"content":[]}"#.to_string() })
        );
    }
    assert_eq!(
        TransportError::Status { status: 429, body: "slow down".to_string() }.message(),
        "API error (429): slow down"
    );
}

#[test]
fn receive_refuses_a_body_that_is_no_answer() {
    match AnthropicClient::receive(200, "<html>") {
        Err(TransportError::Malformed(message)) => assert!(!message.is_empty()),
        other => panic!("unexpected {:?}", other),
    }
    let unexpected = Err(TransportError::Unexpected("invalid response body".to_string()));
    for body in [
        "{}",
        "[]",
        "null",
        r#"{"content":"text"}"#,
        r#"{"content":[{"type":"image"}]}"#,
        r#"{"content":[{"text":"no type"}]}"#,
        r#"{"content":[{"type":"text"}]}"#,
        r#"{"content":[{"type":"tool_use","id":"a","name":"b"}]}"#,
        r#"{"content":[{"type":"tool_use","id":1,"name":"b","input":{}}]}"#,
        r#"{"content":[{"type":"tool_result","tool_use_id":"a","content":"b","is_error":"yes"}]}"#,
        r#"{"content":[],"stop_reason":5}"#,
    ] {
        assert_eq!(AnthropicClient::receive(200, body), unexpected, "{}", body);
    }
    assert_eq!(TransportError::Unexpected("x".to_string()).message(), "x");
    assert_eq!(TransportError::Malformed("y".to_string()).message(), "y");
    assert_eq!(TransportError::Network("z".to_string()).message(), "z");
}

#[test]
fn blocks_in_both_directions() {
    let blocks = vec![
        ContentBlock::Text { text: "t".to_string() },
        ContentBlock::ToolUse { id: "i".to_string(), name: "n".to_string(), input: Json::Null },
        ContentBlock::ToolResult { tool_use_id: "i".to_string(), content: "c".to_string(), is_error: None },
        ContentBlock::ToolResult { tool_use_id: "i".to_string(), content: "c".to_string(), is_error: Some(false) },
    ];
    for block in &blocks {
        assert_eq!(decode_block(&block_to_json(block)).as_ref(), Some(block));
        assert_eq!(block.clone(), *block);
    }
    assert_eq!(
        block_to_json(&blocks[2]).to_text(),
        r#"{"content":"c","tool_use_id":"i","type":"tool_result"}"#
    );
    assert_eq!(
        block_to_json(&blocks[3]).to_text(),
        r#"{"content":"c","is_error":false,"tool_use_id":"i","type":"tool_result"}"#
    );
    assert_eq!(
        decode_block(&parse(r#"{"type":"tool_result","tool_use_id":"i","content":"c","is_error":null}"#)),
        Some(blocks[2].clone())
    );
    assert_eq!(decode_block(&Json::Null), None);
    let message = Message { role: "user".to_string(), content: MessageContent::Blocks(blocks) };
    assert_eq!(message.clone(), message);
    assert_eq!(
        message_to_json(&Message { role: "user".to_string(), content: MessageContent::Text("x".to_string()) }).to_text(),
        r#"{"content":"x","role":"user"}"#
    );
    assert_eq!(decode_response(&parse(r#"{"content":[{"type":"text","text":"a"}]}"#)).map(|r| r.content.len()), Some(1));
}
