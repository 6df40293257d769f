//! What is promised of requests and answers between the reader and its clients.

use crate::mcp::json::{json_names, json_of, json_parse, json_text, member, named, Json};
use crate::mcp::mcp_socket_path;
use crate::mcp::members::{is_named, member_texts, members_named};
use crate::mcp::protocol::{build_tool_result, decode_request_line, encode_request_line};
use crate::mcp::protocol::{encode_response_line, name_of_tool, result_json, result_line};
use crate::mcp::protocol::{result_members, result_members_hold_its_parts, tool_in};
use crate::mcp::protocol::{tool_in_member, tool_in_text, tool_named, tool_of_value};
use crate::mcp::protocol::tools_are_found_by_their_names;
use crate::mcp::protocol::{McpRequest, McpResponse, McpTool, ReaderSnapshot, ResponseContent};
use crate::mcp::protocol::ToolResult;
use crate::mcp::reader_listener::{after_accept, answer_line, handle, serve};
use crate::mcp::reader_listener::{Accepted, Slot, Step};
use crate::mcp::text::{is_white, trimmed, without_trailing_white};
use serde_json::Value;
use vstd::prelude::*;

verus! {

/// A result tells where the reader is just as the snapshot does, part by part, and
/// its text is the one of the snapshot's two that was asked for.
pub proof fn results_tell_what_the_snapshot_tells(
    snap: &ReaderSnapshot,
    tool: McpTool,
    result: ToolResult,
)
    requires
        call_ensures(build_tool_result, (snap, tool), result),
    ensures
        is_result_of(result, *snap, tool),
{
}

/// Whether a result has each part of the place from a snapshot, and the text that a
/// tool asks for.
pub open spec fn is_result_of(
    result: ToolResult,
    snap: ReaderSnapshot,
    tool: McpTool,
) -> bool {
    &&& result.format == snap.format
    &&& result.book_path@ == snap.book_path@
    &&& result.book_title@ == snap.book_title@
    &&& result.chapter_title@ == snap.chapter_title@
    &&& result.chapter_index == snap.chapter_index
    &&& result.total_chapters == snap.total_chapters
    &&& result.page_number == snap.page_number
    &&& result.screen_index == snap.screen_index
    &&& result.total_pages == snap.total_pages
    &&& tool is GetCurrentPage ==> result.text@ == snap.page_text@
    &&& tool is GetCurrentChapter ==> result.text@ == snap.chapter_text@
}

/// Where a book is open, whatever its format, a request is answered with a result
/// that tells what the snapshot tells, with the text that was asked for.
pub proof fn open_books_answer_with_the_text_asked_for(
    req: McpRequest,
    snap: &ReaderSnapshot,
    resp: McpResponse,
)
    requires
        call_ensures(handle, (req, Slot::Open(snap)), resp),
    ensures
        resp is Success,
        is_result_of(resp->result, *snap, req.tool),
{
}

/// Without a book, and where the reader broke off, every request gets the error
/// that says so.
pub proof fn closed_books_answer_with_an_error(
    req: McpRequest,
    empty: McpResponse,
    unavailable: McpResponse,
)
    requires
        call_ensures(handle, (req, Slot::Empty), empty),
        call_ensures(handle, (req, Slot::Unavailable), unavailable),
    ensures
        empty is Error,
        empty->error@ == "No book currently open in bookokrat."@,
        unavailable is Error,
        unavailable->error@ == "reader state unavailable"@,
{
}

/// A client that sends a request is sent the answer to it, and nothing else.
pub proof fn clients_are_sent_the_answer_to_their_request(
    line: &str,
    slot: Slot<'_>,
    req: McpRequest,
    answer: McpResponse,
    resp: McpResponse,
    written: String,
    sent: Option<String>,
)
    requires
        call_ensures(decode_request_line, (line,), Some(req)),
        call_ensures(handle, (req, slot), answer),
        call_ensures(answer_line, (line, slot), resp),
        call_ensures(encode_response_line, (&answer,), written),
        call_ensures(serve, (Some(line), slot), sent),
    ensures
        resp is Success <==> answer is Success,
        resp@ == answer@,
        sent is Some,
        sent->0@ == written@,
{
}

/// A client that sends anything else is told that it was no request, whatever the
/// reader is doing.
pub proof fn clients_are_told_what_is_no_request(
    line: &str,
    slot: Slot<'_>,
    refusal: McpResponse,
    resp: McpResponse,
    written: String,
    sent: Option<String>,
)
    requires
        call_ensures(decode_request_line, (line,), None),
        call_ensures(answer_line, (line, slot), resp),
        refusal is Error,
        refusal->error@ == "invalid request"@,
        call_ensures(encode_response_line, (&refusal,), written),
        call_ensures(serve, (Some(line), slot), sent),
    ensures
        resp is Error,
        resp->error@ == "invalid request"@,
        sent is Some,
        sent->0@ == written@,
{
    assert(refusal@ == ResponseContent::Error("invalid request"@));
}

/// A client from which nothing could be received is sent nothing.
pub proof fn silence_is_answered_with_silence(slot: Slot<'_>, sent: Option<String>)
    requires
        call_ensures(serve, (None, slot), sent),
    ensures
        sent is None,
{
}

/// A client that is there is served; otherwise the reader waits a tenth of a second,
/// and half a second after a failure.
pub proof fn waiting_depends_on_what_was_found(client: Step, nobody: Step, failure: Step)
    requires
        call_ensures(after_accept, (Accepted::Client,), client),
        call_ensures(after_accept, (Accepted::Nobody,), nobody),
        call_ensures(after_accept, (Accepted::Failure,), failure),
    ensures
        client is Serve,
        nobody is Pause,
        nobody->millis == 100,
        failure is Pause,
        failure->millis == 5 * nobody->millis,
{
}

/// The socket is in the config dir where there is one, and under another name in
/// the temp dir where there is none.
pub proof fn the_socket_is_where_it_was_put<D>(
    dir: D,
    temp_dir: D,
    configured: (D, &'static str),
    otherwise: (D, &'static str),
)
    requires
        call_ensures(mcp_socket_path::<D>, (Some(dir), temp_dir), configured),
        call_ensures(mcp_socket_path::<D>, (None, temp_dir), otherwise),
    ensures
        configured.0 == dir,
        configured.1@ == "reader.sock"@,
        otherwise.0 == temp_dir,
        otherwise.1@ == "bookokrat-reader.sock"@,
{
}

/// The text between white space is what trimming leaves of it.
pub proof fn trimming_leaves_what_stands_between_white_space(
    before: Seq<char>,
    text: Seq<char>,
    after: Seq<char>,
)
    requires
        forall|i: int| 0 <= i < before.len() ==> is_white(#[trigger] before[i]),
        forall|i: int| 0 <= i < after.len() ==> is_white(#[trigger] after[i]),
        text.len() > 0 ==> !is_white(text[0]) && !is_white(text.last()),
    ensures
        trimmed(before + text + after) == text,
    decreases before.len() + after.len(),
{
    let all = before + text + after;
    if before.len() > 0 {
        let rest = before.drop_first();
        assert(all[0] == before[0]);
        assert(all.drop_first() =~= rest + text + after);
        assert forall|i: int| 0 <= i < rest.len() implies is_white(#[trigger] rest[i]) by {
            assert(rest[i] == before[i + 1]);
        }
        trimming_leaves_what_stands_between_white_space(rest, text, after);
    } else if text.len() > 0 {
        assert(all =~= text + after);
        assert(all[0] == text[0]);
        lemma_trailing_white(text, after);
    } else if after.len() > 0 {
        let rest = after.drop_first();
        assert(all =~= after);
        assert(all.drop_first() =~= before + text + rest);
        assert forall|i: int| 0 <= i < rest.len() implies is_white(#[trigger] rest[i]) by {
            assert(rest[i] == after[i + 1]);
        }
        trimming_leaves_what_stands_between_white_space(before, text, rest);
    } else {
        assert(all =~= text);
    }
}

proof fn lemma_trailing_white(text: Seq<char>, after: Seq<char>)
    requires
        forall|i: int| 0 <= i < after.len() ==> is_white(#[trigger] after[i]),
        text.len() > 0,
        !is_white(text.last()),
    ensures
        without_trailing_white(text + after) == text,
    decreases after.len(),
{
    let all = text + after;
    if after.len() > 0 {
        assert(all.last() == after.last());
        assert(is_white(after[after.len() - 1]));
        assert(all.drop_last() =~= text + after.drop_last());
        lemma_trailing_white(text, after.drop_last());
    } else {
        assert(all =~= text);
    }
}

/// What a tool is called on the wire.
pub open spec fn wire_name(tool: McpTool) -> Seq<char> {
    if tool is GetCurrentPage {
        "get_current_page"@
    } else {
        "get_current_chapter"@
    }
}

/// Each tool has its own name, and is found by that name and by no other.
pub proof fn tools_go_by_their_names(
    tool: McpTool,
    name: &'static str,
    asked: &str,
    found: Option<McpTool>,
)
    requires
        call_ensures(name_of_tool, (tool,), name),
        call_ensures(tool_named, (asked,), found),
    ensures
        name@ == wire_name(tool),
        found == Some(tool) <==> asked@ == wire_name(tool),
{
    tools_are_found_by_their_names(tool, asked@);
}

/// A request is written as one text, which depends on the tool alone.
pub proof fn requests_are_written_as_one_member(req: McpRequest, line: String)
    requires
        call_ensures(encode_request_line, (&req,), line),
    ensures
        req.tool is GetCurrentPage ==> line@ == "{\"tool\":\"get_current_page\"}"@,
        req.tool is GetCurrentChapter ==> line@ == "{\"tool\":\"get_current_chapter\"}"@,
{
    reveal_strlit("tool");
    reveal_strlit("get_current_page");
    reveal_strlit("get_current_chapter");
    reveal_strlit("{\"tool\":\"get_current_page\"}");
    reveal_strlit("{\"tool\":\"get_current_chapter\"}");
    if req.tool is GetCurrentPage {
        assert(line@ =~= "{\"tool\":\"get_current_page\"}"@);
    } else {
        assert(line@ =~= "{\"tool\":\"get_current_chapter\"}"@);
    }
}

/// A request is read back as it was written, whatever white space stands around it.
pub proof fn requests_are_read_as_they_were_written(
    req: McpRequest,
    written: String,
    before: Seq<char>,
    after: Seq<char>,
    line: &str,
    back: Option<McpRequest>,
)
    requires
        call_ensures(encode_request_line, (&req,), written),
        call_ensures(decode_request_line, (line,), back),
        line@ == before + written@ + after,
        forall|i: int| 0 <= i < before.len() ==> is_white(#[trigger] before[i]),
        forall|i: int| 0 <= i < after.len() ==> is_white(#[trigger] after[i]),
    ensures
        back == Some(req),
{
    assert(written@[0] == '{');
    assert(written@.last() == '}');
    trimming_leaves_what_stands_between_white_space(before, written@, after);
}

/// Two lines that differ in the white space around them are read alike.
pub proof fn white_space_around_a_request_does_not_matter(
    line: &str,
    other: &str,
    req: Option<McpRequest>,
    other_req: Option<McpRequest>,
)
    requires
        call_ensures(decode_request_line, (line,), req),
        call_ensures(decode_request_line, (other,), other_req),
        trimmed(line@) == trimmed(other@),
    ensures
        req == other_req,
{
}

/// Whether a value asks for a tool: it is the tool's name, or an object with
/// nothing but that name, for which it has a null.
pub open spec fn asks_for(json: Json, tool: McpTool) -> bool {
    ||| json == Json::Text(wire_name(tool))
    ||| json == Json::Object(seq![(wire_name(tool), Json::Null)])
}

proof fn lemma_asks_for(json: Json, tool: McpTool)
    ensures
        tool_in(json) == Some(tool) <==> asks_for(json, tool),
{
    if let Json::Object(members) = json {
        if members.len() == 1 {
            assert(members =~= seq![(members[0].0, members[0].1)]);
            tools_are_found_by_their_names(tool, members[0].0);
        }
    }
    if let Json::Text(name) = json {
        tools_are_found_by_their_names(tool, name);
    }
}

/// A value is taken for a tool exactly where it asks for that tool.
pub proof fn values_stand_for_the_tools_they_ask_for(
    value: &Value,
    tool: McpTool,
    found: Option<McpTool>,
)
    requires
        call_ensures(tool_of_value, (value,), found),
    ensures
        found == Some(tool) <==> asks_for(json_of(*value), tool),
{
    lemma_asks_for(json_of(*value), tool);
}

/// Whether a member's text gives it a name.
pub open spec fn gives_name(text: Seq<char>, name: Seq<char>) -> bool {
    json_names(seq!['{'] + text + seq!['}']) matches Some(names) && names.contains(name)
}

/// Whether the member of that index, and no other, is given a name.
pub open spec fn only_named(texts: Seq<Seq<char>>, index: int, name: Seq<char>) -> bool {
    &&& 0 <= index < texts.len()
    &&& forall|i: int|
        0 <= i < texts.len() ==> (gives_name(#[trigger] texts[i], name) <==> i == index)
}

proof fn lemma_gives_name(text: Seq<char>, name: Seq<char>)
    ensures
        gives_name(text, name) <==> is_named(text, name),
{
}

proof fn lemma_none_named(texts: Seq<Seq<char>>, name: Seq<char>)
    ensures
        members_named(texts, name).len() == 0 <==> forall|i: int|
            0 <= i < texts.len() ==> !gives_name(#[trigger] texts[i], name),
    decreases texts.len(),
{
    if texts.len() > 0 {
        let before = texts.drop_last();
        lemma_none_named(before, name);
        lemma_gives_name(texts.last(), name);
        assert(texts.last() == texts[texts.len() - 1]);
        if members_named(texts, name).len() == 0 {
            assert forall|i: int| 0 <= i < texts.len() implies !gives_name(
                #[trigger] texts[i],
                name,
            ) by {
                if i < before.len() {
                    assert(before[i] == texts[i]);
                }
            }
        }
        if forall|i: int| 0 <= i < texts.len() ==> !gives_name(#[trigger] texts[i], name) {
            assert forall|i: int| 0 <= i < before.len() implies !gives_name(
                #[trigger] before[i],
                name,
            ) by {
                assert(before[i] == texts[i]);
            }
        }
    }
}

proof fn lemma_one_named(texts: Seq<Seq<char>>, name: Seq<char>) -> (index: int)
    requires
        members_named(texts, name).len() == 1,
    ensures
        only_named(texts, index, name),
        members_named(texts, name) == seq![texts[index]],
    decreases texts.len(),
{
    let before = texts.drop_last();
    lemma_gives_name(texts.last(), name);
    lemma_none_named(before, name);
    if gives_name(texts.last(), name) {
        assert forall|i: int| 0 <= i < texts.len() implies (gives_name(#[trigger] texts[i], name)
            <==> i == texts.len() - 1) by {
            if i < before.len() {
                assert(before[i] == texts[i]);
            }
        }
        assert(members_named(texts, name) =~= seq![texts.last()]);
        texts.len() - 1
    } else {
        let index = lemma_one_named(before, name);
        assert forall|i: int| 0 <= i < texts.len() implies (gives_name(#[trigger] texts[i], name)
            <==> i == index) by {
            if i < before.len() {
                assert(before[i] == texts[i]);
            }
        }
        index
    }
}

proof fn lemma_only_named(texts: Seq<Seq<char>>, index: int, name: Seq<char>)
    requires
        only_named(texts, index, name),
    ensures
        members_named(texts, name) == seq![texts[index]],
    decreases texts.len(),
{
    let before = texts.drop_last();
    lemma_gives_name(texts.last(), name);
    assert(texts.last() == texts[texts.len() - 1]);
    if index < before.len() {
        assert forall|i: int| 0 <= i < before.len() implies (gives_name(#[trigger] before[i], name)
            <==> i == index) by {
            assert(before[i] == texts[i]);
        }
        lemma_only_named(before, index, name);
        assert(before[index] == texts[index]);
    } else {
        lemma_none_named(before, name);
        assert forall|i: int| 0 <= i < before.len() implies !gives_name(
            #[trigger] before[i],
            name,
        ) by {
            assert(before[i] == texts[i]);
        }
        assert(members_named(texts, name) =~= seq![texts[index]]);
    }
}

/// Whether a member's text is that of a `tool` that asks for one. No text that does
/// has a comma in it.
pub open spec fn member_asks_for(text: Seq<char>, tool: McpTool) -> bool {
    &&& !text.contains(',')
    &&& json_parse(seq!['{'] + text + seq!['}']) matches Some(object) && member(object, "tool"@)
        matches Some(value) && asks_for(value, tool)
}

/// An object is a request for a tool exactly where one of its members, and no other,
/// is called `tool`, and that one asks for it. The other members do not matter.
pub proof fn objects_ask_for_the_tool_of_their_one_member(
    line: &str,
    tool: McpTool,
    req: Option<McpRequest>,
)
    requires
        call_ensures(decode_request_line, (line,), req),
        json_names(trimmed(line@)) is Some,
    ensures
        req == Some(McpRequest { tool }) <==> exists|index: int|
            #[trigger] only_named(member_texts(trimmed(line@)), index, "tool"@)
                && member_asks_for(member_texts(trimmed(line@))[index], tool),
{
    let texts = member_texts(trimmed(line@));
    assert(req == Some(McpRequest { tool }) <==> tool_in_text(trimmed(line@)) == Some(tool));
    if members_named(texts, "tool"@).len() == 1 {
        let index = lemma_one_named(texts, "tool"@);
        lemma_member_asks_for(texts[index], tool);
        assert forall|other: int| #[trigger] only_named(texts, other, "tool"@) implies other
            == index by {
            assert(gives_name(texts[index], "tool"@));
        }
    } else {
        assert forall|index: int| !(#[trigger] only_named(texts, index, "tool"@)) by {
            if only_named(texts, index, "tool"@) {
                lemma_only_named(texts, index, "tool"@);
            }
        }
    }
}

proof fn lemma_member_asks_for(text: Seq<char>, tool: McpTool)
    ensures
        tool_in_member(text) == Some(tool) <==> member_asks_for(text, tool),
{
    let source = seq!['{'] + text + seq!['}'];
    if let Some(object) = json_parse(source) {
        if let Some(value) = member(object, "tool"@) {
            lemma_asks_for(value, tool);
        }
    }
}

/// Any other text is a request for a tool exactly where it is a list of one value,
/// which asks for it.
pub proof fn lists_ask_for_the_tool_of_their_one_item(
    line: &str,
    tool: McpTool,
    req: Option<McpRequest>,
)
    requires
        call_ensures(decode_request_line, (line,), req),
        json_names(trimmed(line@)) is None,
    ensures
        req == Some(McpRequest { tool }) <==> !trimmed(line@).contains(',') && exists|item: Json|
            json_parse(trimmed(line@)) == Some(Json::List(seq![item])) && #[trigger] asks_for(
                item,
                tool,
            ),
{
    if let Some(Json::List(items)) = json_parse(trimmed(line@)) {
        if items.len() == 1 {
            assert(items =~= seq![items[0]]);
            lemma_asks_for(items[0], tool);
        }
        assert forall|item: Json| json_parse(trimmed(line@)) == Some(
            Json::List(seq![item]),
        ) implies items.len() == 1 && items[0] == item by {
            assert(seq![item][0] == item);
        }
    }
}

/// How many of the numbers that may be missing a result has.
pub open spec fn given(result: ToolResult) -> nat {
    (if result.page_number is Some {
        1nat
    } else {
        0
    }) + (if result.screen_index is Some {
        1nat
    } else {
        0
    }) + (if result.total_pages is Some {
        1nat
    } else {
        0
    })
}

/// Whether a value has a number under a name, or no such name where there is none.
pub open spec fn has_number(json: Json, name: Seq<char>, number: Option<usize>) -> bool {
    match number {
        Some(number) => member(json, name) == Some(Json::Int(number as int)),
        None => member(json, name) is None,
    }
}

/// Whether an object tells all that a result does, and nothing more.
pub open spec fn tells_result(json: Json, result: ToolResult) -> bool {
    &&& json is Object
    &&& json->Object_0.len() == 7 + given(result)
    &&& member(json, "format"@) == Some(
        Json::Text(
            if result.format is Epub {
                "epub"@
            } else {
                "pdf"@
            },
        ),
    )
    &&& member(json, "book_path"@) == Some(Json::Text(result.book_path@))
    &&& member(json, "book_title"@) == Some(Json::Text(result.book_title@))
    &&& member(json, "chapter_title"@) == Some(Json::Text(result.chapter_title@))
    &&& member(json, "chapter_index"@) == Some(Json::Int(result.chapter_index as int))
    &&& member(json, "total_chapters"@) == Some(Json::Int(result.total_chapters as int))
    &&& has_number(json, "page_number"@, result.page_number)
    &&& has_number(json, "screen_index"@, result.screen_index)
    &&& has_number(json, "total_pages"@, result.total_pages)
    &&& member(json, "text"@) == Some(Json::Text(result.text@))
}

/// The names of the parts of a result in the order in which they are written.
pub open spec fn part_names() -> Seq<Seq<char>> {
    seq![
        "format"@,
        "book_path"@,
        "book_title"@,
        "chapter_title"@,
        "chapter_index"@,
        "total_chapters"@,
        "page_number"@,
        "screen_index"@,
        "total_pages"@,
        "text"@,
    ]
}

/// Whether the members of an object stand in that order.
pub open spec fn in_order(json: Json) -> bool {
    let members = json->Object_0;
    forall|i: int, j: int|
        0 <= i < j < members.len() ==> exists|a: int, b: int|
            0 <= a < b < 10 && #[trigger] part_names()[a] == (#[trigger] members[i]).0
                && #[trigger] part_names()[b] == (#[trigger] members[j]).0
}

proof fn lemma_tells_result(result: ToolResult)
    ensures
        tells_result(result_json(result@), result),
        in_order(result_json(result@)),
{
    result_members_hold_its_parts(result@);
    let members = result_members(result@);
    let page: int = if result.page_number is Some {
        1
    } else {
        0
    };
    let screen: int = if result.screen_index is Some {
        1
    } else {
        0
    };
    let pages: int = if result.total_pages is Some {
        1
    } else {
        0
    };
    assert(members.len() == 7 + page + screen + pages);
    assert forall|i: int, j: int| 0 <= i < j < members.len() implies exists|a: int, b: int|
        0 <= a < b < 10 && #[trigger] part_names()[a] == (#[trigger] members[i]).0
            && #[trigger] part_names()[b] == (#[trigger] members[j]).0 by {
        let a = part_at(i, page, screen, pages);
        let b = part_at(j, page, screen, pages);
        assert(part_names()[a] == members[i].0);
        assert(part_names()[b] == members[j].0);
    }
}

/// Which part the member of that index is, where the numbers that may be missing
/// are there or not.
spec fn part_at(index: int, page: int, screen: int, pages: int) -> int {
    if index < 6 {
        index
    } else if index < 6 + page {
        6
    } else if index < 6 + page + screen {
        7
    } else if index < 6 + page + screen + pages {
        8
    } else {
        9
    }
}

/// A line breaks nowhere, and holds a value and no more than its text.
pub open spec fn is_line_of(line: Seq<char>, json: Json) -> bool {
    &&& line == json_text(json)
    &&& json_parse(line) == Some(json)
    &&& forall|i: int| 0 <= i < line.len() ==> #[trigger] line[i] != '\n' && line[i] != '\r'
}

/// A result is written as a line that tells all of it, part by part in their order,
/// and nothing more.
pub proof fn results_are_written_in_full(result: ToolResult, line: String)
    requires
        call_ensures(result_line, (&result,), line),
    ensures
        exists|json: Json| #[trigger]
            is_line_of(line@, json) && tells_result(json, result) && in_order(json),
{
    lemma_tells_result(result);
    assert(is_line_of(line@, result_json(result@)));
}

/// An answer with a result is written as a line that says `Ok` and tells all of the
/// result.
pub proof fn successes_are_written_in_full(result: ToolResult, resp: McpResponse, line: String)
    requires
        resp == (McpResponse::Success { result }),
        call_ensures(encode_response_line, (&resp,), line),
    ensures
        exists|told: Json| #[trigger]
            tells_result(told, result) && in_order(told) && is_line_of(
                line@,
                Json::Object(seq![("status"@, Json::Text("Ok"@)), ("result"@, told)]),
            ),
{
    lemma_tells_result(result);
    assert(tells_result(result_json(result@), result));
}

/// An answer with an error is written as a line that says `Error` and tells the
/// error.
pub proof fn errors_are_written_in_full(error: String, resp: McpResponse, line: String)
    requires
        resp == (McpResponse::Error { error }),
        call_ensures(encode_response_line, (&resp,), line),
    ensures
        is_line_of(
            line@,
            Json::Object(
                seq![("status"@, Json::Text("Error"@)), ("error"@, Json::Text(error@))],
            ),
        ),
{
}

/// A member is found by its name among members of different names: each is found
/// by its own, and no other name finds one.
pub proof fn members_are_found_by_their_names(
    members: Seq<(Seq<char>, Json)>,
    name: Seq<char>,
    value: Json,
)
    requires
        forall|i: int, j: int|
            0 <= i < j < members.len() ==> (#[trigger] members[i]).0 != (#[trigger] members[j]).0,
    ensures
        named(members, name) == Some(value) <==> members.contains((name, value)),
    decreases members.len(),
{
    if members.len() > 0 {
        let before = members.drop_last();
        assert forall|i: int, j: int| 0 <= i < j < before.len() implies (#[trigger] before[i]).0
            != (#[trigger] before[j]).0 by {
            assert(before[i] == members[i] && before[j] == members[j]);
        }
        members_are_found_by_their_names(before, name, value);
        assert(members =~= before.push(members.last()));
        if members.contains((name, value)) {
            let i = choose|i: int| 0 <= i < members.len() && members[i] == (name, value);
            if i < before.len() {
                assert(before[i] == (name, value));
                assert(members[members.len() - 1].0 != members[i].0);
            }
        }
        if before.contains((name, value)) {
            let i = choose|i: int| 0 <= i < before.len() && before[i] == (name, value);
            assert(members[i] == (name, value));
        }
        if members.last() == (name, value) {
            assert(members[members.len() - 1] == (name, value));
        }
    }
}

} // verus!
