use bookokrat::mcp::mcp_socket_path;
use bookokrat::mcp::protocol::{result_line, McpResponse, McpTool, SnapshotFormat, ToolResult};
use bookokrat::mcp::server::{
    dispatch, error_result, finish_call, initialize_result, reply_line, request_step, rpc_step,
    tool_call_ok, tools_list_result, RpcStep,
};
use serde_json::Value;

fn written(step: RpcStep) -> String {
    match step {
        RpcStep::Reply(message) | RpcStep::Refuse(message) => reply_line(&message),
        RpcStep::Skip => "skipped".to_string(),
        RpcStep::Call { .. } => "called".to_string(),
    }
}

fn sample_result() -> ToolResult {
    ToolResult {
        format: SnapshotFormat::Epub,
        book_path: "/abs/book.epub".into(),
        book_title: "Book".into(),
        chapter_title: "Ch 1".into(),
        chapter_index: 0,
        total_chapters: 5,
        page_number: None,
        screen_index: Some(2),
        total_pages: None,
        text: "hello\nworld".into(),
    }
}

#[test]
fn tools_list_advertises_both_tools() {
    let resp = tools_list_result(Value::from(1));
    let json = serde_json::to_string(&resp).unwrap();
    assert!(json.contains("get_current_page"));
    assert!(json.contains("get_current_chapter"));
}

#[test]
fn tool_call_success_wraps_text_content() {
    let resp = tool_call_ok(Value::from(1), "hello world");
    let json = serde_json::to_string(&resp).unwrap();
    assert!(json.contains("\"type\":\"text\""));
    assert!(json.contains("hello world"));
}

#[test]
fn tools_list_in_full() {
    assert_eq!(
        reply_line(&tools_list_result(Value::from("x"))),
        "{\"jsonrpc\":\"2.0\",\"id\":\"x\",\"result\":{\"tools\":[\
         {\"name\":\"get_current_page\",\"description\":\"Get the text of the page/slide \
         currently displayed in the running bookokrat reader.\",\
         \"inputSchema\":{\"type\":\"object\",\"properties\":{}}},\
         {\"name\":\"get_current_chapter\",\"description\":\"Get the text of the current \
         chapter (broader context) from the running bookokrat reader.\",\
         \"inputSchema\":{\"type\":\"object\",\"properties\":{}}}]}}"
    );
}

#[test]
fn tool_call_and_error_in_full() {
    assert_eq!(
        reply_line(&tool_call_ok(Value::from(3), "a\"b")),
        "{\"jsonrpc\":\"2.0\",\"id\":3,\"result\":{\"content\":[{\"type\":\"text\",\
         \"text\":\"a\\\"b\"}]}}"
    );
    assert_eq!(
        reply_line(&error_result(Value::Null, -32601, "method not found")),
        "{\"jsonrpc\":\"2.0\",\"id\":null,\"error\":{\"code\":-32601,\
         \"message\":\"method not found\"}}"
    );
}

#[test]
fn initialize_in_full() {
    let expected = "{\"jsonrpc\":\"2.0\",\"id\":1,\"result\":{\
                    \"protocolVersion\":\"2024-11-05\",\"capabilities\":{\"tools\":{}},\
                    \"serverInfo\":{\"name\":\"bookokrat\",\"version\":\"9.8.7\"}}}";
    assert_eq!(
        reply_line(&initialize_result(Value::from(1), "9.8.7")),
        expected
    );
    let line = "{\"jsonrpc\":\"2.0\",\"id\":1,\"method\":\"initialize\"}";
    assert_eq!(written(rpc_step(line, "9.8.7")), expected);
}

#[test]
fn blank_lines_other_text_and_the_notification_are_skipped() {
    for line in [
        "",
        " \t",
        "\u{a0}",
        "hello",
        "{\"id\":1",
        "{\"jsonrpc\":\"2.0\",\"method\":\"notifications/initialized\"}",
    ] {
        assert!(matches!(rpc_step(line, "1"), RpcStep::Skip), "{line}");
    }
}

#[test]
fn calls_go_to_the_tool_that_they_name() {
    let line = "{\"id\":{\"a\":[1.5]},\"method\":\"tools/call\",\
                \"params\":{\"name\":\"get_current_chapter\"}}";
    match rpc_step(line, "1") {
        RpcStep::Call { id, tool } => {
            assert_eq!(id.to_string(), "{\"a\":[1.5]}");
            assert_eq!(tool, McpTool::GetCurrentChapter);
        }
        other => panic!("expected a call, got {}", written(other)),
    }
    match dispatch(Value::Null, "tools/call", "get_current_page", "1") {
        RpcStep::Call { id, tool } => {
            assert_eq!(id, Value::Null);
            assert_eq!(tool, McpTool::GetCurrentPage);
        }
        other => panic!("expected a call, got {}", written(other)),
    }
}

#[test]
fn unknown_tools_are_refused() {
    let refused = "{\"jsonrpc\":\"2.0\",\"id\":4,\"error\":{\"code\":-32602,\
                   \"message\":\"unknown tool\"}}";
    for line in [
        "{\"id\":4,\"method\":\"tools/call\",\"params\":{\"name\":\"get_next_page\"}}",
        "{\"id\":4,\"method\":\"tools/call\",\"params\":{\"name\":7}}",
        "{\"id\":4,\"method\":\"tools/call\",\"params\":[\"get_current_page\"]}",
        "{\"id\":4,\"method\":\"tools/call\"}",
    ] {
        let step = rpc_step(line, "1");
        assert!(matches!(step, RpcStep::Refuse(_)), "{line}");
        assert_eq!(written(step), refused);
    }
}

#[test]
fn unknown_methods_are_answered_with_an_error() {
    let message = "\"error\":{\"code\":-32601,\"message\":\"method not found\"}}";
    for (line, id) in [
        ("{\"id\":\"a\",\"method\":\"tools/drop\"}", "\"a\""),
        ("{\"id\":2,\"method\":7}", "2"),
        ("{\"method\":\"ping\"}", "null"),
        ("{}", "null"),
        ("[1,2]", "null"),
        ("7", "null"),
    ] {
        let step = rpc_step(line, "1");
        assert!(matches!(step, RpcStep::Reply(_)), "{line}");
        assert_eq!(
            written(step),
            format!("{{\"jsonrpc\":\"2.0\",\"id\":{id},{message}")
        );
    }
}

#[test]
fn requests_for_the_tools_are_answered() {
    let request: Value = serde_json::from_str("{\"id\":5,\"method\":\"tools/list\"}").unwrap();
    assert_eq!(
        written(request_step(&request, "1")),
        reply_line(&tools_list_result(Value::from(5)))
    );
}

#[test]
fn advertised_tools_are_the_ones_that_can_be_called() {
    let listed = tools_list_result(Value::Null);
    let tools = listed["result"]["tools"].as_array().unwrap();
    assert_eq!(tools.len(), 2);
    for tool in tools {
        let name = tool["name"].as_str().unwrap();
        let step = dispatch(Value::Null, "tools/call", name, "1");
        assert!(matches!(step, RpcStep::Call { .. }), "{name}");
    }
}

#[test]
fn finished_calls_carry_the_result_as_text() {
    let result = sample_result();
    let message = finish_call(
        Value::from(6),
        Some(McpResponse::Success {
            result: result.clone(),
        }),
    );
    assert_eq!(message["id"], 6);
    let text = message["result"]["content"][0]["text"].as_str().unwrap();
    assert_eq!(text, result_line(&result));
    let payload: Value = serde_json::from_str(text).unwrap();
    assert_eq!(payload["text"], "hello\nworld");
    assert!(!reply_line(&message).contains('\n'));
}

#[test]
fn failed_calls_say_why() {
    let message = finish_call(
        Value::from(6),
        Some(McpResponse::Error {
            error: "No book currently open in bookokrat.".into(),
        }),
    );
    assert_eq!(
        reply_line(&message),
        "{\"jsonrpc\":\"2.0\",\"id\":6,\"error\":{\"code\":-32000,\
         \"message\":\"No book currently open in bookokrat.\"}}"
    );
    let message = finish_call(Value::from(6), None);
    assert_eq!(message["error"]["code"], -32000);
    assert_eq!(
        message["error"]["message"],
        "bookokrat is not running. Open a book first."
    );
}

#[test]
fn the_socket_is_in_the_config_dir_or_else_in_temp() {
    assert_eq!(mcp_socket_path(Some("/cfg"), "/tmp"), ("/cfg", "reader.sock"));
    assert_eq!(mcp_socket_path(None, "/tmp"), ("/tmp", "bookokrat-reader.sock"));
}

#[test]
fn messages_are_read_back_as_they_were() {
    let id: Value = serde_json::from_str("{\"a\":[null,true,-7,\"\\n\"]}").unwrap();
    for message in [
        tools_list_result(id.clone()),
        initialize_result(id.clone(), "1"),
        tool_call_ok(id.clone(), "two\nlines"),
        error_result(id.clone(), i64::MIN, "\u{1f600}"),
    ] {
        let line = reply_line(&message);
        assert!(!line.contains('\n'));
        let back: Value = serde_json::from_str(&line).unwrap();
        assert_eq!(back, message);
        assert_eq!(back["id"], id);
    }
}
