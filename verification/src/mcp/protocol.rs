//! What the reader and its clients say to each other: one line of JSON asks for a
//! text, and one line of JSON answers.

use crate::mcp::json;
use crate::mcp::json::{is_plain, json_names, json_of, json_parse, json_text, member};
use crate::mcp::json::{members_of, named, one_member_text, reads_back, Json};
use crate::mcp::members::{braced, find_members, has_comma, is_named, lemma_no_comma_one_member};
use crate::mcp::members::{member_texts, members_named, views};
use crate::mcp::text::{lemma_trimmed_line, same, trimmed};
use serde_json::Value;
use vstd::prelude::*;

verus! {

/// The kind of book that is open.
#[derive(Debug, Clone, Copy, PartialEq, Eq, Structural)]
pub enum SnapshotFormat {
    Epub,
    Pdf,
}

/// What the reader shows at one moment, with both texts that can be asked for.
#[derive(Debug, Clone, PartialEq)]
pub struct ReaderSnapshot {
    pub format: SnapshotFormat,
    pub book_path: String,
    pub book_title: String,
    pub chapter_title: String,
    pub chapter_index: usize,
    /// Of a PDF only.
    pub page_number: Option<usize>,
    /// Of an EPUB only.
    pub screen_index: Option<usize>,
    pub total_chapters: usize,
    /// Of a PDF only.
    pub total_pages: Option<usize>,
    pub page_text: String,
    pub chapter_text: String,
}

/// What can be asked for.
#[derive(Debug, Clone, Copy, PartialEq, Eq, Structural)]
pub enum McpTool {
    GetCurrentPage,
    GetCurrentChapter,
}

/// One question to the reader.
#[derive(Debug, Clone, PartialEq, Eq, Structural)]
pub struct McpRequest {
    pub tool: McpTool,
}

/// Per-tool response: metadata + exactly one `text` (the chosen page/chapter).
#[derive(Debug, Clone, PartialEq)]
pub struct ToolResult {
    pub format: SnapshotFormat,
    pub book_path: String,
    pub book_title: String,
    pub chapter_title: String,
    pub chapter_index: usize,
    pub total_chapters: usize,
    pub page_number: Option<usize>,
    pub screen_index: Option<usize>,
    pub total_pages: Option<usize>,
    pub text: String,
}

/// The reader's answer.
#[derive(Debug, Clone)]
pub enum McpResponse {
    /// Its status reads `Ok` on the wire.
    Success { result: ToolResult },
    /// Its status reads `Error` on the wire.
    Error { error: String },
}

/// What a snapshot holds.
pub struct SnapshotContent {
    pub format: SnapshotFormat,
    pub book_path: Seq<char>,
    pub book_title: Seq<char>,
    pub chapter_title: Seq<char>,
    pub chapter_index: usize,
    pub page_number: Option<usize>,
    pub screen_index: Option<usize>,
    pub total_chapters: usize,
    pub total_pages: Option<usize>,
    pub page_text: Seq<char>,
    pub chapter_text: Seq<char>,
}

/// What a result holds.
pub struct ResultContent {
    pub format: SnapshotFormat,
    pub book_path: Seq<char>,
    pub book_title: Seq<char>,
    pub chapter_title: Seq<char>,
    pub chapter_index: usize,
    pub total_chapters: usize,
    pub page_number: Option<usize>,
    pub screen_index: Option<usize>,
    pub total_pages: Option<usize>,
    pub text: Seq<char>,
}

/// What an answer holds.
pub enum ResponseContent {
    Success(ResultContent),
    Error(Seq<char>),
}

impl View for ReaderSnapshot {
    type V = SnapshotContent;

    open spec fn view(&self) -> SnapshotContent {
        SnapshotContent {
            format: self.format,
            book_path: self.book_path@,
            book_title: self.book_title@,
            chapter_title: self.chapter_title@,
            chapter_index: self.chapter_index,
            page_number: self.page_number,
            screen_index: self.screen_index,
            total_chapters: self.total_chapters,
            total_pages: self.total_pages,
            page_text: self.page_text@,
            chapter_text: self.chapter_text@,
        }
    }
}

impl View for ToolResult {
    type V = ResultContent;

    open spec fn view(&self) -> ResultContent {
        ResultContent {
            format: self.format,
            book_path: self.book_path@,
            book_title: self.book_title@,
            chapter_title: self.chapter_title@,
            chapter_index: self.chapter_index,
            total_chapters: self.total_chapters,
            page_number: self.page_number,
            screen_index: self.screen_index,
            total_pages: self.total_pages,
            text: self.text@,
        }
    }
}

impl View for McpResponse {
    type V = ResponseContent;

    open spec fn view(&self) -> ResponseContent {
        match self {
            McpResponse::Success { result } => ResponseContent::Success(result@),
            McpResponse::Error { error } => ResponseContent::Error(error@),
        }
    }
}

/// The text of a snapshot that a tool asks for.
pub open spec fn chosen_text(snap: SnapshotContent, tool: McpTool) -> Seq<char> {
    match tool {
        McpTool::GetCurrentPage => snap.page_text,
        McpTool::GetCurrentChapter => snap.chapter_text,
    }
}

/// What a tool gets of a snapshot: where the reader is, and the text asked for.
pub open spec fn result_of(snap: SnapshotContent, tool: McpTool) -> ResultContent {
    ResultContent {
        format: snap.format,
        book_path: snap.book_path,
        book_title: snap.book_title,
        chapter_title: snap.chapter_title,
        chapter_index: snap.chapter_index,
        total_chapters: snap.total_chapters,
        page_number: snap.page_number,
        screen_index: snap.screen_index,
        total_pages: snap.total_pages,
        text: chosen_text(snap, tool),
    }
}

/// The result of a tool on a snapshot.
pub fn build_tool_result(snap: &ReaderSnapshot, tool: McpTool) -> (result: ToolResult)
    ensures
        result@ == result_of(snap@, tool),
{
    let text = match tool {
        McpTool::GetCurrentPage => snap.page_text.clone(),
        McpTool::GetCurrentChapter => snap.chapter_text.clone(),
    };
    ToolResult {
        format: snap.format,
        book_path: snap.book_path.clone(),
        book_title: snap.book_title.clone(),
        chapter_title: snap.chapter_title.clone(),
        chapter_index: snap.chapter_index,
        total_chapters: snap.total_chapters,
        page_number: snap.page_number,
        screen_index: snap.screen_index,
        total_pages: snap.total_pages,
        text,
    }
}

/// The name by which a tool is asked for.
pub open spec fn tool_name(tool: McpTool) -> Seq<char> {
    match tool {
        McpTool::GetCurrentPage => "get_current_page"@,
        McpTool::GetCurrentChapter => "get_current_chapter"@,
    }
}

/// The tool of a name, where there is one.
pub open spec fn tool_of_name(name: Seq<char>) -> Option<McpTool> {
    if name == "get_current_page"@ {
        Some(McpTool::GetCurrentPage)
    } else if name == "get_current_chapter"@ {
        Some(McpTool::GetCurrentChapter)
    } else {
        None
    }
}

/// The name by which a tool is asked for.
pub fn name_of_tool(tool: McpTool) -> (name: &'static str)
    ensures
        name@ == tool_name(tool),
{
    match tool {
        McpTool::GetCurrentPage => "get_current_page",
        McpTool::GetCurrentChapter => "get_current_chapter",
    }
}

/// The tool of a name, where there is one.
pub fn tool_named(name: &str) -> (tool: Option<McpTool>)
    ensures
        tool == tool_of_name(name@),
{
    if same(name, "get_current_page") {
        Some(McpTool::GetCurrentPage)
    } else if same(name, "get_current_chapter") {
        Some(McpTool::GetCurrentChapter)
    } else {
        None
    }
}

/// Each tool is found by its own name, and by no other.
pub proof fn tools_are_found_by_their_names(tool: McpTool, name: Seq<char>)
    ensures
        tool_of_name(name) == Some(tool) <==> name == tool_name(tool),
{
    reveal_strlit("get_current_page");
    reveal_strlit("get_current_chapter");
    assert("get_current_page"@.len() != "get_current_chapter"@.len());
}

/// The object that a request is written as.
pub open spec fn request_json(tool: McpTool) -> Json {
    Json::Object(seq![("tool"@, Json::Text(tool_name(tool)))])
}

/// The text of a request: `{"tool":"get_current_page"}`, or the other tool's name.
pub open spec fn request_text(tool: McpTool) -> Seq<char> {
    one_member_text("tool"@, tool_name(tool))
}

proof fn lemma_request_text(tool: McpTool)
    ensures
        request_text(tool).len() > 2,
        request_text(tool)[0] == '{',
        request_text(tool).last() == '}',
        !request_text(tool).contains(','),
{
    lemma_request_names_are_plain(tool);
    let text = request_text(tool);
    assert forall|i: int| 0 <= i < text.len() implies text[i] != ',' by {
        let name = "tool"@;
        let asked = tool_name(tool);
        if 2 <= i < 2 + name.len() {
            assert(text[i] == name[i - 2]);
        } else if 5 + name.len() <= i < 5 + name.len() + asked.len() {
            assert(text[i] == asked[i - 5 - name.len()]);
        }
    }
}

/// Whether a text can stand on a line of its own: it has no line break in it.
pub open spec fn is_one_line(text: Seq<char>) -> bool {
    !text.contains('\n') && !text.contains('\r')
}

/// Writes a request as a line, without the line feed at its end.
pub fn encode_request_line(req: &McpRequest) -> (line: String)
    ensures
        line@ == request_text(req.tool),
        json_parse(line@) == Some(request_json(req.tool)),
        is_one_line(line@),
{
    let name = name_of_tool(req.tool);
    let members: Vec<(&str, Value)> = vec![("tool", json::text(name))];
    let ghost held = members_of(members@);
    let value = json::object(members);
    proof {
        lemma_request_names_are_plain(req.tool);
        assert(held =~= seq![("tool"@, Json::Text(tool_name(req.tool)))]);
        reveal_with_fuel(reads_back, 2);
    }
    json::print(&value)
}

proof fn lemma_request_names_are_plain(tool: McpTool)
    ensures
        is_plain("tool"@),
        is_plain(tool_name(tool)),
{
    reveal_strlit("tool");
    reveal_strlit("get_current_page");
    reveal_strlit("get_current_chapter");
}

/// The tool that a value asks for: by its name, or by an object that gives the
/// name, and nothing for it.
pub open spec fn tool_in(json: Json) -> Option<McpTool> {
    match json {
        Json::Text(name) => tool_of_name(name),
        Json::Object(members) => if members.len() == 1 && members[0].1 is Null {
            tool_of_name(members[0].0)
        } else {
            None
        },
        _ => None,
    }
}

/// The tool that a member called `tool` asks for, by its text.
pub open spec fn tool_in_member(text: Seq<char>) -> Option<McpTool> {
    if text.contains(',') {
        None
    } else {
        match json_parse(braced(text)) {
            Some(json) => match member(json, "tool"@) {
                Some(value) => tool_in(value),
                None => None,
            },
            None => None,
        }
    }
}

/// The tool that the text of a request asks for. The text is an object with one
/// member called `tool`, whatever its other members are, or a list that holds the
/// tool alone.
pub open spec fn tool_in_text(text: Seq<char>) -> Option<McpTool> {
    match json_names(text) {
        Some(_) => {
            let asking = members_named(member_texts(text), "tool"@);
            if asking.len() == 1 {
                tool_in_member(asking[0])
            } else {
                None
            }
        },
        None => if text.contains(',') {
            None
        } else {
            match json_parse(text) {
                Some(Json::List(items)) => if items.len() == 1 {
                    tool_in(items[0])
                } else {
                    None
                },
                _ => None,
            }
        },
    }
}

/// The tool that a value asks for.
pub fn tool_of_value(value: &Value) -> (tool: Option<McpTool>)
    ensures
        tool == tool_in(json_of(*value)),
{
    if let Some(name) = json::as_text(value) {
        return tool_named(name);
    }
    match json::member_count(value) {
        Some(members) => {
            if members != 1 {
                return None;
            }
        },
        None => {
            return None;
        },
    }
    proof {
        reveal_with_fuel(named, 2);
    }
    if let Some(content) = json::get(value, "get_current_page") {
        return if json::is_null(content) {
            Some(McpTool::GetCurrentPage)
        } else {
            None
        };
    }
    if let Some(content) = json::get(value, "get_current_chapter") {
        return if json::is_null(content) {
            Some(McpTool::GetCurrentChapter)
        } else {
            None
        };
    }
    None
}

/// The tool that a member called `tool` asks for, by its text.
fn tool_of_member(text: &str) -> (tool: Option<McpTool>)
    ensures
        tool == tool_in_member(text@),
        forall|asked: McpTool|
            braced(text@) == #[trigger] request_text(asked) ==> tool == Some(asked),
{
    proof {
        assert forall|asked: McpTool| braced(text@) == #[trigger] request_text(asked) implies {
            &&& is_plain("tool"@)
            &&& is_plain(tool_name(asked))
            &&& !text@.contains(',')
            &&& tool_of_name(tool_name(asked)) == Some(asked)
        } by {
            lemma_request_names_are_plain(asked);
            lemma_request_text(asked);
            tools_are_found_by_their_names(asked, tool_name(asked));
            if text@.contains(',') {
                let i = choose|i: int| 0 <= i < text@.len() && text@[i] == ',';
                assert(braced(text@)[i + 1] == ',');
                assert(request_text(asked).contains(','));
            }
        }
        reveal_with_fuel(named, 2);
    }
    if has_comma(text) {
        return None;
    }
    let mut source = String::from_str("{");
    source.append(text);
    source.append("}");
    proof {
        reveal_strlit("{");
        reveal_strlit("}");
        assert(source@ =~= braced(text@));
    }
    let object = json::parse(source.as_str())?;
    let value = json::get(&object, "tool")?;
    tool_of_value(value)
}

/// The tool that the text of a request asks for.
fn tool_of_text(text: &str) -> (tool: Option<McpTool>)
    ensures
        tool == tool_in_text(text@),
        forall|asked: McpTool| text@ == #[trigger] request_text(asked) ==> tool == Some(asked),
{
    proof {
        assert forall|asked: McpTool| text@ == #[trigger] request_text(asked) implies {
            &&& is_plain("tool"@)
            &&& is_plain(tool_name(asked))
            &&& member_texts(text@).len() == 1
            &&& braced(member_texts(text@)[0]) == text@
        } by {
            lemma_request_names_are_plain(asked);
            lemma_request_text(asked);
            lemma_no_comma_one_member(text@);
            assert(braced(text@.subrange(1, text@.len() - 1)) =~= text@);
        }
    }
    match json::member_names(text) {
        Some(_) => {
            let asking = find_members(text, "tool");
            proof {
                let all = member_texts(text@);
                reveal_with_fuel(members_named, 2);
                assert forall|asked: McpTool| text@ == #[trigger] request_text(asked) implies {
                    &&& asking@.len() == 1
                    &&& braced(asking@[0]@) == text@
                } by {
                    assert(seq!["tool"@][0] == "tool"@);
                    assert(is_named(all.last(), "tool"@));
                    assert(views(asking@)[0] == asking@[0]@);
                }
            }
            if asking.len() == 1 {
                tool_of_member(asking[0].as_str())
            } else {
                None
            }
        },
        None => {
            if has_comma(text) {
                return None;
            }
            let value = json::parse(text)?;
            let items = json::as_list(&value)?;
            if items.len() == 1 {
                tool_of_value(&items[0])
            } else {
                None
            }
        },
    }
}

/// Reads a line as a request, where it is one; white space around it does not
/// matter. What `encode_request_line` writes is read as what was written, with the
/// line feed at its end or without.
pub fn decode_request_line(line: &str) -> (req: Option<McpRequest>)
    ensures
        match tool_in_text(trimmed(line@)) {
            Some(tool) => req == Some(McpRequest { tool }),
            None => req is None,
        },
        forall|tool: McpTool|
            #![trigger request_text(tool)]
            line@ == request_text(tool) || line@ == request_text(tool).push('\n')
                ==> req == Some(McpRequest { tool }),
        forall|tool: McpTool|
            #![trigger request_text(tool)]
            trimmed(line@) == request_text(tool) ==> req == Some(McpRequest { tool }),
{
    proof {
        assert forall|tool: McpTool|
            line@ == #[trigger] request_text(tool) || line@ == request_text(tool).push(
                '\n',
            ) implies trimmed(line@) == request_text(tool) by {
            lemma_request_text(tool);
            lemma_trimmed_line(request_text(tool));
        }
    }
    let text = line.trim();
    let tool = tool_of_text(text)?;
    Some(McpRequest { tool })
}

/// The name of a format on the wire.
pub open spec fn format_name(format: SnapshotFormat) -> Seq<char> {
    match format {
        SnapshotFormat::Epub => "epub"@,
        SnapshotFormat::Pdf => "pdf"@,
    }
}

/// A number under its name, or nothing.
pub open spec fn if_given(name: Seq<char>, number: Option<usize>) -> Seq<(Seq<char>, Json)> {
    match number {
        Some(number) => seq![(name, Json::Int(number as int))],
        None => Seq::empty(),
    }
}

/// The members that a result is written with. A number that the format has no use
/// for is left out.
pub open spec fn result_members(result: ResultContent) -> Seq<(Seq<char>, Json)> {
    seq![
        ("format"@, Json::Text(format_name(result.format))),
        ("book_path"@, Json::Text(result.book_path)),
        ("book_title"@, Json::Text(result.book_title)),
        ("chapter_title"@, Json::Text(result.chapter_title)),
        ("chapter_index"@, Json::Int(result.chapter_index as int)),
        ("total_chapters"@, Json::Int(result.total_chapters as int)),
    ] + if_given("page_number"@, result.page_number) + if_given(
        "screen_index"@,
        result.screen_index,
    ) + if_given("total_pages"@, result.total_pages) + seq![("text"@, Json::Text(result.text))]
}

/// The object that a result is written as.
pub open spec fn result_json(result: ResultContent) -> Json {
    Json::Object(result_members(result))
}

/// The object that an answer is written as.
pub open spec fn response_json(response: ResponseContent) -> Json {
    match response {
        ResponseContent::Success(result) => Json::Object(
            seq![("status"@, Json::Text("Ok"@)), ("result"@, result_json(result))],
        ),
        ResponseContent::Error(error) => Json::Object(
            seq![("status"@, Json::Text("Error"@)), ("error"@, Json::Text(error))],
        ),
    }
}

/// The place of a member among those of a result.
spec fn place(name: Seq<char>) -> int {
    if name == "format"@ {
        0
    } else if name == "book_path"@ {
        1
    } else if name == "book_title"@ {
        2
    } else if name == "chapter_title"@ {
        3
    } else if name == "chapter_index"@ {
        4
    } else if name == "total_chapters"@ {
        5
    } else if name == "page_number"@ {
        6
    } else if name == "screen_index"@ {
        7
    } else if name == "total_pages"@ {
        8
    } else if name == "text"@ {
        9
    } else {
        10
    }
}

proof fn lemma_places()
    ensures
        place("format"@) == 0,
        place("book_path"@) == 1,
        place("book_title"@) == 2,
        place("chapter_title"@) == 3,
        place("chapter_index"@) == 4,
        place("total_chapters"@) == 5,
        place("page_number"@) == 6,
        place("screen_index"@) == 7,
        place("total_pages"@) == 8,
        place("text"@) == 9,
{
    reveal_strlit("format");
    reveal_strlit("book_path");
    reveal_strlit("book_title");
    reveal_strlit("chapter_title");
    reveal_strlit("chapter_index");
    reveal_strlit("total_chapters");
    reveal_strlit("page_number");
    reveal_strlit("screen_index");
    reveal_strlit("total_pages");
    reveal_strlit("text");
    assert("format"@.len() == 6);
    assert("book_path"@.len() == 9);
    assert("book_title"@.len() == 10);
    assert("chapter_title"@.len() == 13 && "chapter_title"@[8] == 't');
    assert("chapter_index"@.len() == 13 && "chapter_index"@[8] == 'i');
    assert("total_chapters"@.len() == 14);
    assert("page_number"@.len() == 11 && "page_number"@[0] == 'p');
    assert("screen_index"@.len() == 12);
    assert("total_pages"@.len() == 11 && "total_pages"@[0] == 't');
    assert("text"@.len() == 4);
}

/// Whether members stand in their places, before the given one.
spec fn in_place(members: Seq<(&str, Value)>, end: int) -> bool {
    &&& forall|i: int| 0 <= i < members.len() ==> place((#[trigger] members[i]).0@) < end
    &&& forall|i: int, j: int|
        0 <= i < j < members.len() ==> place((#[trigger] members[i]).0@) < place(
            (#[trigger] members[j]).0@,
        )
}

/// Adds a member after those that come before it.
fn add_member<'a>(members: &mut Vec<(&'a str, Value)>, name: &'a str, value: Value)
    requires
        in_place(old(members)@, place(name@)),
    ensures
        in_place(final(members)@, place(name@) + 1),
        members_of(final(members)@) == members_of(old(members)@).push((name@, json_of(value))),
{
    members.push((name, value));
    assert(members_of(members@) =~= members_of(old(members)@).push((name@, json_of(value))));
}

/// Adds a number, where it is given, after the members that come before it.
fn add_number<'a>(members: &mut Vec<(&'a str, Value)>, name: &'a str, number: Option<usize>)
    requires
        in_place(old(members)@, place(name@)),
    ensures
        in_place(final(members)@, place(name@) + 1),
        members_of(final(members)@) == members_of(old(members)@) + if_given(name@, number),
{
    match number {
        Some(number) => {
            add_member(members, name, json::count(number));
            assert(members_of(members@) =~= members_of(old(members)@) + if_given(
                name@,
                Some(number),
            ));
        },
        None => {
            assert(members_of(members@) =~= members_of(old(members)@) + if_given(name@, number));
        },
    }
}

/// A result as a JSON object.
pub fn result_value(result: &ToolResult) -> (value: Value)
    ensures
        json_of(value) == result_json(result@),
{
    let format = match result.format {
        SnapshotFormat::Epub => "epub",
        SnapshotFormat::Pdf => "pdf",
    };
    let mut members: Vec<(&str, Value)> = Vec::new();
    proof {
        lemma_places();
    }
    add_member(&mut members, "format", json::text(format));
    add_member(&mut members, "book_path", json::text(result.book_path.as_str()));
    add_member(&mut members, "book_title", json::text(result.book_title.as_str()));
    add_member(&mut members, "chapter_title", json::text(result.chapter_title.as_str()));
    add_member(&mut members, "chapter_index", json::count(result.chapter_index));
    add_member(&mut members, "total_chapters", json::count(result.total_chapters));
    add_number(&mut members, "page_number", result.page_number);
    add_number(&mut members, "screen_index", result.screen_index);
    add_number(&mut members, "total_pages", result.total_pages);
    add_member(&mut members, "text", json::text(result.text.as_str()));
    assert(members_of(members@) =~= result_members(result@));
    json::object(members)
}

/// An answer as a JSON object.
pub fn response_value(resp: &McpResponse) -> (value: Value)
    ensures
        json_of(value) == response_json(resp@),
{
    proof {
        reveal_strlit("status");
        reveal_strlit("result");
        reveal_strlit("error");
        assert("status"@[0] == 's' && "result"@[0] == 'r' && "error"@[0] == 'e');
    }
    match resp {
        McpResponse::Success { result } => {
            let members: Vec<(&str, Value)> = vec![
                ("status", json::text("Ok")),
                ("result", result_value(result)),
            ];
            assert(members_of(members@) =~= seq![
                ("status"@, Json::Text("Ok"@)),
                ("result"@, result_json(result@)),
            ]);
            json::object(members)
        },
        McpResponse::Error { error } => {
            let members: Vec<(&str, Value)> = vec![
                ("status", json::text("Error")),
                ("error", json::text(error.as_str())),
            ];
            assert(members_of(members@) =~= seq![
                ("status"@, Json::Text("Error"@)),
                ("error"@, Json::Text(error@)),
            ]);
            json::object(members)
        },
    }
}

proof fn lemma_result_reads_back(result: ResultContent, depth: nat)
    requires
        depth > 0,
    ensures
        reads_back(result_json(result), depth),
{
    let members = result_members(result);
    assert forall|i: int| 0 <= i < members.len() implies reads_back(
        (#[trigger] members[i]).1,
        (depth - 1) as nat,
    ) by {
        assert(members[i].1 is Text || members[i].1 is Int);
    }
}

proof fn lemma_response_reads_back(response: ResponseContent, depth: nat)
    requires
        depth > 1,
    ensures
        reads_back(response_json(response), depth),
{
    reveal_with_fuel(reads_back, 2);
    if let ResponseContent::Success(result) = response {
        lemma_result_reads_back(result, (depth - 1) as nat);
    }
}

/// Writes a result as one line of text, for a client to hand on.
pub fn result_line(result: &ToolResult) -> (line: String)
    ensures
        line@ == json_text(result_json(result@)),
        json_parse(line@) == Some(result_json(result@)),
        is_one_line(line@),
{
    let value = result_value(result);
    proof {
        lemma_result_reads_back(result@, json::MAX_DEPTH as nat);
    }
    json::print(&value)
}

/// Writes an answer as a line, without the line feed at its end.
pub fn encode_response_line(resp: &McpResponse) -> (line: String)
    ensures
        line@ == json_text(response_json(resp@)),
        json_parse(line@) == Some(response_json(resp@)),
        is_one_line(line@),
{
    let value = response_value(resp);
    proof {
        lemma_response_reads_back(resp@, json::MAX_DEPTH as nat);
    }
    json::print(&value)
}

proof fn lemma_named_in_sum(
    first: Seq<(Seq<char>, Json)>,
    second: Seq<(Seq<char>, Json)>,
    name: Seq<char>,
)
    ensures
        named(first + second, name) == match named(second, name) {
            Some(value) => Some(value),
            None => named(first, name),
        },
    decreases second.len(),
{
    let all = first + second;
    if second.len() == 0 {
        assert(all =~= first);
    } else {
        assert(all.last() == second.last());
        assert(all.drop_last() =~= first + second.drop_last());
        lemma_named_in_sum(first, second.drop_last(), name);
    }
}

/// A number, where it is given, as JSON.
pub open spec fn number_json(number: Option<usize>) -> Option<Json> {
    match number {
        Some(number) => Some(Json::Int(number as int)),
        None => None,
    }
}

/// A written result has each of its parts under the name of that part, and a
/// number that is not given is left out.
pub proof fn result_members_hold_its_parts(result: ResultContent)
    ensures
        ({
            let json = result_json(result);
            &&& member(json, "format"@) == Some(Json::Text(format_name(result.format)))
            &&& member(json, "book_path"@) == Some(Json::Text(result.book_path))
            &&& member(json, "book_title"@) == Some(Json::Text(result.book_title))
            &&& member(json, "chapter_title"@) == Some(Json::Text(result.chapter_title))
            &&& member(json, "chapter_index"@) == Some(Json::Int(result.chapter_index as int))
            &&& member(json, "total_chapters"@) == Some(Json::Int(result.total_chapters as int))
            &&& member(json, "page_number"@) == number_json(result.page_number)
            &&& member(json, "screen_index"@) == number_json(result.screen_index)
            &&& member(json, "total_pages"@) == number_json(result.total_pages)
            &&& member(json, "text"@) == Some(Json::Text(result.text))
        }),
{
    lemma_places();
    assert forall|name: Seq<char>| place(name) < 10 implies member(result_json(result), name)
        == part(result, place(name)) by {
        lemma_named_part(result, name);
    }
}

/// The part of a result whose member stands in that place.
spec fn part(result: ResultContent, at: int) -> Option<Json> {
    if at == 0 {
        Some(Json::Text(format_name(result.format)))
    } else if at == 1 {
        Some(Json::Text(result.book_path))
    } else if at == 2 {
        Some(Json::Text(result.book_title))
    } else if at == 3 {
        Some(Json::Text(result.chapter_title))
    } else if at == 4 {
        Some(Json::Int(result.chapter_index as int))
    } else if at == 5 {
        Some(Json::Int(result.total_chapters as int))
    } else if at == 6 {
        number_json(result.page_number)
    } else if at == 7 {
        number_json(result.screen_index)
    } else if at == 8 {
        number_json(result.total_pages)
    } else {
        Some(Json::Text(result.text))
    }
}

proof fn lemma_named_part(result: ResultContent, name: Seq<char>)
    requires
        place(name) < 10,
    ensures
        member(result_json(result), name) == part(result, place(name)),
{
    lemma_places();
    let always = seq![
        ("format"@, Json::Text(format_name(result.format))),
        ("book_path"@, Json::Text(result.book_path)),
        ("book_title"@, Json::Text(result.book_title)),
        ("chapter_title"@, Json::Text(result.chapter_title)),
        ("chapter_index"@, Json::Int(result.chapter_index as int)),
        ("total_chapters"@, Json::Int(result.total_chapters as int)),
    ];
    let page = if_given("page_number"@, result.page_number);
    let screen = if_given("screen_index"@, result.screen_index);
    let pages = if_given("total_pages"@, result.total_pages);
    let text = seq![("text"@, Json::Text(result.text))];
    lemma_named_in_sum(always + page + screen + pages, text, name);
    lemma_named_in_sum(always + page + screen, pages, name);
    lemma_named_in_sum(always + page, screen, name);
    lemma_named_in_sum(always, page, name);
    reveal_with_fuel(named, 7);
    assert(named(text, name) == if name == "text"@ {
        Some(text[0].1)
    } else {
        None
    });
    assert(named(page, name) == if name == "page_number"@ {
        number_json(result.page_number)
    } else {
        None
    });
    assert(named(screen, name) == if name == "screen_index"@ {
        number_json(result.screen_index)
    } else {
        None
    });
    assert(named(pages, name) == if name == "total_pages"@ {
        number_json(result.total_pages)
    } else {
        None
    });
    assert(named(always, name) == if place(name) < 6 {
        part(result, place(name))
    } else {
        None
    });
}

/// What was written can be told apart: two answers that are written as the
/// same object are the same answer.
pub proof fn answers_are_told_apart(first: ResponseContent, second: ResponseContent)
    requires
        response_json(first) == response_json(second),
    ensures
        first == second,
{
    reveal_strlit("Ok");
    reveal_strlit("Error");
    reveal_strlit("epub");
    reveal_strlit("pdf");
    assert("Ok"@.len() != "Error"@.len());
    assert("epub"@.len() != "pdf"@.len());
    assert(response_json(first)->Object_0[0] == response_json(second)->Object_0[0]);
    assert(response_json(first)->Object_0[1] == response_json(second)->Object_0[1]);
    if let ResponseContent::Success(a) = first {
        if let ResponseContent::Success(b) = second {
            result_members_hold_its_parts(a);
            result_members_hold_its_parts(b);
            assert(result_json(a) == result_json(b));
            assert(number_json(a.page_number) == number_json(b.page_number));
            assert(number_json(a.screen_index) == number_json(b.screen_index));
            assert(number_json(a.total_pages) == number_json(b.total_pages));
            assert(a == b);
        }
    }
}

} // verus!
