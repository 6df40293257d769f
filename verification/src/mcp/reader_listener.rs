//! What the running reader does for a client: one request in, one answer out.

use crate::mcp::json::{json_parse, json_text};
use crate::mcp::protocol::{build_tool_result, decode_request_line, encode_response_line};
use crate::mcp::protocol::{is_one_line, request_text, response_json, result_of, tool_in_text};
use crate::mcp::protocol::{McpRequest, McpResponse, McpTool, ReaderSnapshot};
use crate::mcp::protocol::{ResponseContent, ResultContent, SnapshotContent};
use crate::mcp::text::trimmed;
use vstd::prelude::*;

verus! {

/// What a look at the snapshot that the reader shares finds.
pub enum Slot<'a> {
    /// The reader broke off while it was changing the snapshot.
    Unavailable,
    /// No book is open.
    Empty,
    /// A book is open.
    Open(&'a ReaderSnapshot),
}

/// What a look at the snapshot finds, in terms of what the snapshot holds.
pub enum SlotContent {
    Unavailable,
    Empty,
    Open(SnapshotContent),
}

impl<'a> View for Slot<'a> {
    type V = SlotContent;

    open spec fn view(&self) -> SlotContent {
        match self {
            Slot::Unavailable => SlotContent::Unavailable,
            Slot::Empty => SlotContent::Empty,
            Slot::Open(snap) => SlotContent::Open(snap@),
        }
    }
}

/// The answer to a request for a tool.
pub open spec fn answer_to(tool: McpTool, slot: SlotContent) -> ResponseContent {
    match slot {
        SlotContent::Unavailable => ResponseContent::Error("reader state unavailable"@),
        SlotContent::Empty => ResponseContent::Error("No book currently open in bookokrat."@),
        SlotContent::Open(snap) => ResponseContent::Success(result_of(snap, tool)),
    }
}

/// The answer to a line that a client has sent.
pub open spec fn answer_to_line(line: Seq<char>, slot: SlotContent) -> ResponseContent {
    match tool_in_text(trimmed(line)) {
        Some(tool) => answer_to(tool, slot),
        None => ResponseContent::Error("invalid request"@),
    }
}

/// Answers a request.
pub fn handle(req: McpRequest, slot: Slot<'_>) -> (resp: McpResponse)
    ensures
        resp@ == answer_to(req.tool, slot@),
{
    match slot {
        Slot::Unavailable => McpResponse::Error {
            error: String::from_str("reader state unavailable"),
        },
        Slot::Empty => McpResponse::Error {
            error: String::from_str("No book currently open in bookokrat."),
        },
        Slot::Open(snap) => McpResponse::Success { result: build_tool_result(snap, req.tool) },
    }
}

/// Answers a line that a client has sent. A line that `encode_request_line` wrote
/// gets the answer to the request that was written.
pub fn answer_line(line: &str, slot: Slot<'_>) -> (resp: McpResponse)
    ensures
        resp@ == answer_to_line(line@, slot@),
        forall|tool: McpTool|
            #![trigger request_text(tool)]
            line@ == request_text(tool) || line@ == request_text(tool).push('\n')
                ==> resp@ == answer_to(tool, slot@),
{
    match decode_request_line(line) {
        Some(req) => handle(req, slot),
        None => McpResponse::Error { error: String::from_str("invalid request") },
    }
}

/// The line to send to a client, without the line feed at its end: the answer to
/// the line that was received, or nothing where none could be received.
pub fn serve(received: Option<&str>, slot: Slot<'_>) -> (sent: Option<String>)
    ensures
        sent is Some <==> received is Some,
        received matches Some(line) ==> {
            let answer = response_json(answer_to_line(line@, slot@));
            &&& sent->0@ == json_text(answer)
            &&& json_parse(sent->0@) == Some(answer)
            &&& is_one_line(sent->0@)
        },
        received matches Some(line) ==> forall|tool: McpTool|
            line@ == #[trigger] request_text(tool) || line@ == request_text(tool).push('\n')
                ==> json_parse(sent->0@) == Some(response_json(answer_to(tool, slot@))),
{
    match received {
        Some(line) => {
            let resp = answer_line(line, slot);
            Some(encode_response_line(&resp))
        },
        None => None,
    }
}

/// What came of waiting for a client.
pub enum Accepted {
    /// A client has connected.
    Client,
    /// No client is waiting.
    Nobody,
    /// Waiting itself failed.
    Failure,
}

/// What to do about it.
pub enum Step {
    /// Serve the client.
    Serve,
    /// Wait that long before looking again.
    Pause { millis: u64 },
}

/// What to do after a look for a client: serve one that is there, look again soon
/// where there is none, and later after a failure.
pub fn after_accept(accepted: Accepted) -> (step: Step)
    ensures
        step == match accepted {
            Accepted::Client => Step::Serve,
            Accepted::Nobody => Step::Pause { millis: 100 },
            Accepted::Failure => Step::Pause { millis: 500 },
        },
{
    match accepted {
        Accepted::Client => Step::Serve,
        Accepted::Nobody => Step::Pause { millis: 100 },
        Accepted::Failure => Step::Pause { millis: 500 },
    }
}

/// Both tools tell the same about where the reader is; they differ in the
/// text alone.
pub proof fn tools_agree_on_the_place(snap: SnapshotContent)
    ensures
        ({
            let page = result_of(snap, McpTool::GetCurrentPage);
            let chapter = result_of(snap, McpTool::GetCurrentChapter);
            &&& page.text == snap.page_text
            &&& chapter.text == snap.chapter_text
            &&& page == (ResultContent { text: page.text, ..chapter })
        }),
{
}

/// A request is answered with a result exactly where a book is open; without
/// one, both tools get the same error.
pub proof fn results_come_from_open_books(tool: McpTool, other: McpTool, slot: SlotContent)
    ensures
        answer_to(tool, slot) is Success <==> slot is Open,
        !(slot is Open) ==> answer_to(tool, slot) == answer_to(other, slot),
{
}

} // verus!
