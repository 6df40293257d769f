use bookokrat::mcp::protocol::{
    build_tool_result, decode_request_line, encode_request_line, encode_response_line,
    name_of_tool, result_line, tool_named, McpRequest, McpResponse, McpTool, ReaderSnapshot,
    SnapshotFormat, ToolResult,
};
use serde_json::Value;

fn sample_snapshot() -> ReaderSnapshot {
    ReaderSnapshot {
        format: SnapshotFormat::Epub,
        book_path: "/abs/book.epub".into(),
        book_title: "Book".into(),
        chapter_title: "Ch 1".into(),
        chapter_index: 0,
        page_number: None,
        screen_index: Some(2),
        total_chapters: 5,
        total_pages: None,
        page_text: "screen text".into(),
        chapter_text: "whole chapter".into(),
    }
}

fn decoded(line: &str) -> Option<McpTool> {
    decode_request_line(line).map(|req| req.tool)
}

#[test]
fn request_round_trip() {
    let req = McpRequest {
        tool: McpTool::GetCurrentPage,
    };
    let line = encode_request_line(&req);
    let back = decode_request_line(&line).unwrap();
    assert_eq!(back, req);
}

#[test]
fn response_ok_round_trip() {
    let snap = sample_snapshot();
    let result = build_tool_result(&snap, McpTool::GetCurrentChapter);
    let resp = McpResponse::Success { result };
    let line = encode_response_line(&resp);
    let back: Value = serde_json::from_str(&line).unwrap();
    assert_eq!(back["status"], "Ok");
    assert_eq!(back["result"]["text"], "whole chapter");
}

#[test]
fn tool_result_carries_chosen_text_and_metadata() {
    let snap = sample_snapshot();
    let page = build_tool_result(&snap, McpTool::GetCurrentPage);
    assert_eq!(page.text, "screen text");
    assert_eq!(page.book_title, "Book");
    assert_eq!(page.screen_index, Some(2));
    // page_number is None for epub -> omitted from JSON
    let json = result_line(&page);
    assert!(!json.contains("page_number"));
}

#[test]
fn tool_result_keeps_every_part_of_the_snapshot() {
    let snap = ReaderSnapshot {
        format: SnapshotFormat::Pdf,
        page_number: Some(7),
        screen_index: None,
        total_pages: Some(240),
        ..sample_snapshot()
    };
    let expected = ToolResult {
        format: SnapshotFormat::Pdf,
        book_path: "/abs/book.epub".into(),
        book_title: "Book".into(),
        chapter_title: "Ch 1".into(),
        chapter_index: 0,
        total_chapters: 5,
        page_number: Some(7),
        screen_index: None,
        total_pages: Some(240),
        text: "whole chapter".into(),
    };
    assert_eq!(build_tool_result(&snap, McpTool::GetCurrentChapter), expected);
}

#[test]
fn requests_are_written_as_one_member() {
    let line = encode_request_line(&McpRequest {
        tool: McpTool::GetCurrentPage,
    });
    assert_eq!(line, "{\"tool\":\"get_current_page\"}");
    let line = encode_request_line(&McpRequest {
        tool: McpTool::GetCurrentChapter,
    });
    assert_eq!(line, "{\"tool\":\"get_current_chapter\"}");
}

#[test]
fn requests_survive_the_line_feed_and_white_space() {
    for tool in [McpTool::GetCurrentPage, McpTool::GetCurrentChapter] {
        let line = encode_request_line(&McpRequest { tool });
        assert_eq!(decoded(&format!("{line}\n")), Some(tool));
        assert_eq!(decoded(&format!(" \t{line}\r\n")), Some(tool));
        assert_eq!(decoded(&format!("\u{a0}{line}\u{3000}")), Some(tool));
    }
    assert_eq!(
        decoded("{ \"tool\" : \"get_current_page\" }"),
        Some(McpTool::GetCurrentPage)
    );
}

#[test]
fn lines_that_are_no_request_are_refused() {
    for line in [
        "",
        "\n",
        "get_current_page",
        "\"get_current_page\"",
        "{}",
        "{\"tool\":\"get_next_page\"}",
        "{\"tool\":null}",
        "{\"tool\":7}",
        "{\"tools\":\"get_current_page\"}",
        "{\"tool\":\"get_current_page\"",
        "{\"tool\":\"get_current_page\",}",
        "{\"tool\":\"get_current_page\"} x",
        "{\"tool\":\"GetCurrentPage\"}",
        "null",
    ] {
        assert_eq!(decoded(line), None, "{line}");
    }
}

#[test]
fn other_members_of_a_request_do_not_matter() {
    for line in [
        "{\"id\":1,\"tool\":\"get_current_chapter\"}",
        "{\"tool\":\"get_current_chapter\",\"x\":[1,2,{\"tool\":3}],\"y\":{\"tool\":4}}",
        "{\"x\":1,\"x\":2,\"tool\":\"get_current_chapter\"}",
        "{\"x\":\"},{\\\"tool\\\":1,\",\"tool\":\"get_current_chapter\"}",
        "{\"x\":\"\\\\\",\"tool\":\"get_current_chapter\"}",
        "{\"x\":1e999,\"tool\":\"get_current_chapter\"}",
        "{\"x\":\"\\ud800\",\"tool\":\"get_current_chapter\"}",
        "{\"t\\u006fol\":\"get_current_chapter\"}",
    ] {
        assert_eq!(decoded(line), Some(McpTool::GetCurrentChapter), "{line}");
    }
}

#[test]
fn a_request_names_its_tool_once() {
    for line in [
        "{\"tool\":\"get_current_page\",\"tool\":\"get_current_page\"}",
        "{\"tool\":\"get_current_page\",\"x\":1,\"t\\u006fol\":\"get_current_page\"}",
        "{\"tool\":7,\"tool\":\"get_current_page\"}",
        "{\"tool\":\"get_current_page\",\"tool\":1e999}",
        "{\"tool\":{\"get_current_page\":null,\"get_current_page\":null}}",
    ] {
        assert_eq!(decoded(line), None, "{line}");
    }
}

#[test]
fn requests_may_be_lists_and_tools_objects() {
    for line in [
        "[\"get_current_page\"]",
        "[ {\"get_current_page\":null} ]",
        "{\"tool\":{\"get_current_page\":null}}",
    ] {
        assert_eq!(decoded(line), Some(McpTool::GetCurrentPage), "{line}");
    }
    assert_eq!(
        decoded("{\"tool\":{\"get_current_chapter\":null}}"),
        Some(McpTool::GetCurrentChapter)
    );
    for line in [
        "[]",
        "[\"get_current_page\",\"get_current_page\"]",
        "[7]",
        "{\"tool\":{}}",
        "{\"tool\":{\"get_current_page\":{}}}",
        "{\"tool\":{\"get_current_page\":null,\"x\":null}}",
        "{\"tool\":{\"get_next_page\":null}}",
        "{\"tool\":[\"get_current_page\"]}",
        "[{\"get_current_page\":null,\"get_current_page\":null}]",
    ] {
        assert_eq!(decoded(line), None, "{line}");
    }
}

#[test]
fn tools_have_their_own_names() {
    assert_eq!(name_of_tool(McpTool::GetCurrentPage), "get_current_page");
    assert_eq!(tool_named("get_current_chapter"), Some(McpTool::GetCurrentChapter));
    assert_eq!(tool_named(""), None);
    for tool in [McpTool::GetCurrentPage, McpTool::GetCurrentChapter] {
        assert_eq!(tool_named(name_of_tool(tool)), Some(tool));
    }
}

#[test]
fn answers_are_written_in_the_order_of_their_parts() {
    let result = build_tool_result(&sample_snapshot(), McpTool::GetCurrentPage);
    assert_eq!(
        encode_response_line(&McpResponse::Success { result }),
        "{\"status\":\"Ok\",\"result\":{\"format\":\"epub\",\"book_path\":\"/abs/book.epub\",\
         \"book_title\":\"Book\",\"chapter_title\":\"Ch 1\",\"chapter_index\":0,\
         \"total_chapters\":5,\"screen_index\":2,\"text\":\"screen text\"}}"
    );
    assert_eq!(
        encode_response_line(&McpResponse::Error {
            error: "invalid request".into()
        }),
        "{\"status\":\"Error\",\"error\":\"invalid request\"}"
    );
}

#[test]
fn results_of_a_pdf_have_its_numbers() {
    let result = ToolResult {
        format: SnapshotFormat::Pdf,
        book_path: "/b.pdf".into(),
        book_title: "B".into(),
        chapter_title: "Page 7".into(),
        chapter_index: 3,
        total_chapters: 12,
        page_number: Some(7),
        screen_index: None,
        total_pages: Some(usize::MAX),
        text: "t".into(),
    };
    assert_eq!(
        result_line(&result),
        format!(
            "{{\"format\":\"pdf\",\"book_path\":\"/b.pdf\",\"book_title\":\"B\",\
             \"chapter_title\":\"Page 7\",\"chapter_index\":3,\"total_chapters\":12,\
             \"page_number\":7,\"total_pages\":{},\"text\":\"t\"}}",
            usize::MAX
        )
    );
}

#[test]
fn answers_stay_on_one_line_and_read_back() {
    let text = "first\nsecond\r\n\ttab \"quoted\" back\\slash \u{1} \u{7f} \u{2028} \u{1f600}";
    let snap = ReaderSnapshot {
        page_text: text.into(),
        ..sample_snapshot()
    };
    let result = build_tool_result(&snap, McpTool::GetCurrentPage);
    let line = encode_response_line(&McpResponse::Success { result });
    assert!(!line.contains('\n') && !line.contains('\r'));
    let back: Value = serde_json::from_str(&line).unwrap();
    assert_eq!(back["result"]["text"], text);
    assert_eq!(back["result"]["screen_index"], 2);
    assert_eq!(back["result"].get("total_pages"), None);
}

#[test]
fn both_tools_tell_the_same_place() {
    let snap = sample_snapshot();
    let page = build_tool_result(&snap, McpTool::GetCurrentPage);
    let chapter = build_tool_result(&snap, McpTool::GetCurrentChapter);
    assert_ne!(page, chapter);
    let moved = ToolResult {
        text: page.text.clone(),
        ..chapter
    };
    assert_eq!(page, moved);
}

#[test]
fn different_answers_are_written_differently() {
    let result = build_tool_result(&sample_snapshot(), McpTool::GetCurrentPage);
    let without_screen = ToolResult {
        screen_index: None,
        ..result.clone()
    };
    let as_page = ToolResult {
        screen_index: None,
        page_number: Some(2),
        ..result.clone()
    };
    let lines: Vec<String> = [result, without_screen, as_page]
        .into_iter()
        .map(|result| encode_response_line(&McpResponse::Success { result }))
        .collect();
    assert_ne!(lines[0], lines[1]);
    assert_ne!(lines[0], lines[2]);
    assert_ne!(lines[1], lines[2]);
}
