use bookokrat::mcp::protocol::{
    encode_request_line, McpRequest, McpResponse, McpTool, ReaderSnapshot, SnapshotFormat,
};
use bookokrat::mcp::reader_listener::{
    after_accept, answer_line, handle, serve, Accepted, Slot, Step,
};
use serde_json::Value;

fn snapshot_with_chapter(page: &str, chapter: &str) -> ReaderSnapshot {
    ReaderSnapshot {
        format: SnapshotFormat::Epub,
        book_path: "/abs/book.epub".into(),
        book_title: "Book".into(),
        chapter_title: "Ch 1".into(),
        chapter_index: 0,
        page_number: None,
        screen_index: Some(2),
        total_chapters: 5,
        total_pages: None,
        page_text: page.into(),
        chapter_text: chapter.into(),
    }
}

fn error_in(resp: McpResponse) -> String {
    match resp {
        McpResponse::Success { .. } => panic!("expected an error"),
        McpResponse::Error { error } => error,
    }
}

fn sent_for(tool: McpTool, slot: Slot<'_>) -> Value {
    let line = format!("{}\n", encode_request_line(&McpRequest { tool }));
    let sent = serve(Some(line.as_str()), slot).unwrap();
    assert!(!sent.contains('\n'));
    serde_json::from_str(&sent).unwrap()
}

#[test]
fn an_open_book_is_answered_with_its_page() {
    let snap = snapshot_with_chapter("hello page", "the whole chapter");
    let back = sent_for(McpTool::GetCurrentPage, Slot::Open(&snap));
    assert_eq!(back["status"], "Ok");
    assert_eq!(back["result"]["text"], "hello page");
}

#[test]
fn an_open_book_is_answered_with_its_chapter() {
    let snap = snapshot_with_chapter("hello page", "the whole chapter");
    let back = sent_for(McpTool::GetCurrentChapter, Slot::Open(&snap));
    assert_eq!(back["result"]["text"], "the whole chapter");
    assert_eq!(back["result"]["chapter_title"], "Ch 1");
}

#[test]
fn a_large_chapter_is_answered_whole() {
    let big = "line of chapter text.\n".repeat(50_000);
    let snap = snapshot_with_chapter("hello page", &big);
    let back = sent_for(McpTool::GetCurrentChapter, Slot::Open(&snap));
    assert_eq!(back["result"]["text"], big.as_str());
}

#[test]
fn without_a_book_the_answer_is_an_error() {
    let back = sent_for(McpTool::GetCurrentChapter, Slot::Empty);
    assert_eq!(back["status"], "Error");
    assert_eq!(back["error"], "No book currently open in bookokrat.");
    let req = McpRequest {
        tool: McpTool::GetCurrentPage,
    };
    let error = error_in(handle(req, Slot::Empty));
    assert!(error.to_lowercase().contains("no book"), "got: {error}");
}

#[test]
fn a_broken_reader_is_an_error() {
    let req = McpRequest {
        tool: McpTool::GetCurrentPage,
    };
    assert_eq!(
        error_in(handle(req, Slot::Unavailable)),
        "reader state unavailable"
    );
}

#[test]
fn a_line_that_is_no_request_is_answered_with_an_error() {
    let snap = snapshot_with_chapter("p", "c");
    assert_eq!(error_in(answer_line("hello", Slot::Open(&snap))), "invalid request");
    assert_eq!(error_in(answer_line("", Slot::Empty)), "invalid request");
    assert_eq!(
        serve(Some("{\"tool\":1}\n"), Slot::Unavailable),
        Some("{\"status\":\"Error\",\"error\":\"invalid request\"}".to_string())
    );
}

#[test]
fn nothing_received_means_nothing_sent() {
    assert_eq!(serve(None, Slot::Empty), None);
}

#[test]
fn the_listener_pauses_where_nobody_is_waiting() {
    assert!(matches!(after_accept(Accepted::Client), Step::Serve));
    assert!(matches!(
        after_accept(Accepted::Nobody),
        Step::Pause { millis: 100 }
    ));
    assert!(matches!(
        after_accept(Accepted::Failure),
        Step::Pause { millis: 500 }
    ));
}
