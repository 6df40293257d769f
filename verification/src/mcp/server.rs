//! What the stdio server says to an agent: JSON-RPC 2.0, one message a line. On
//! each `tools/call` the running reader is asked for the live text.

use crate::mcp::json;
use crate::mcp::json::{inner_member, json_of, json_parse, json_text, member, members_of, named};
use crate::mcp::json::{path_of, reads_back, Json};
use crate::mcp::protocol::{is_one_line, name_of_tool, result_json, result_line, tool_name};
use crate::mcp::protocol::{tool_named, tool_of_name, McpResponse, McpTool, ResponseContent};
use crate::mcp::text::{same, trimmed};
use serde_json::Value;
use vstd::prelude::*;

verus! {

/// The code of an error that comes from the reader, or from not reaching it.
pub const READER_ERROR: i64 = -32000;

/// The code of a call to a method that does not exist.
pub const METHOD_NOT_FOUND: i64 = -32601;

/// The code of a call to a tool that does not exist.
pub const UNKNOWN_TOOL: i64 = -32602;

/// A message to the agent: the answer to the request of that id.
pub open spec fn reply(id: Json, name: Seq<char>, content: Json) -> Json {
    Json::Object(seq![("jsonrpc"@, Json::Text("2.0"@)), ("id"@, id), (name, content)])
}

/// A tool as it is advertised. None takes arguments.
pub open spec fn advertised(name: Seq<char>, description: Seq<char>) -> Json {
    Json::Object(
        seq![
            ("name"@, Json::Text(name)),
            ("description"@, Json::Text(description)),
            (
                "inputSchema"@,
                Json::Object(
                    seq![
                        ("type"@, Json::Text("object"@)),
                        ("properties"@, Json::Object(Seq::empty())),
                    ],
                ),
            ),
        ],
    )
}

/// What a tool is for.
pub open spec fn description_of(tool: McpTool) -> Seq<char> {
    match tool {
        McpTool::GetCurrentPage =>
            "Get the text of the page/slide currently displayed in the running bookokrat reader."@,
        McpTool::GetCurrentChapter =>
            "Get the text of the current chapter (broader context) from the running bookokrat reader."@,
    }
}

/// The tools as they are advertised.
pub open spec fn all_advertised() -> Seq<Json> {
    seq![
        advertised(
            tool_name(McpTool::GetCurrentPage),
            description_of(McpTool::GetCurrentPage),
        ),
        advertised(
            tool_name(McpTool::GetCurrentChapter),
            description_of(McpTool::GetCurrentChapter),
        ),
    ]
}

/// The answer to a request for the tools.
pub open spec fn tools_list_json(id: Json) -> Json {
    reply(id, "result"@, Json::Object(seq![("tools"@, Json::List(all_advertised()))]))
}

/// The answer to a call that succeeded: its text.
pub open spec fn tool_call_json(id: Json, text: Seq<char>) -> Json {
    let content = Json::Object(seq![("type"@, Json::Text("text"@)), ("text"@, Json::Text(text))]);
    reply(id, "result"@, Json::Object(seq![("content"@, Json::List(seq![content]))]))
}

/// The answer to a request that failed.
pub open spec fn error_json(id: Json, code: int, message: Seq<char>) -> Json {
    reply(
        id,
        "error"@,
        Json::Object(seq![("code"@, Json::Int(code)), ("message"@, Json::Text(message))]),
    )
}

/// The answer to the first request of a session.
pub open spec fn initialize_json(id: Json, version: Seq<char>) -> Json {
    reply(
        id,
        "result"@,
        Json::Object(
            seq![
                ("protocolVersion"@, Json::Text("2024-11-05"@)),
                (
                    "capabilities"@,
                    Json::Object(seq![("tools"@, Json::Object(Seq::empty()))]),
                ),
                (
                    "serverInfo"@,
                    Json::Object(
                        seq![
                            ("name"@, Json::Text("bookokrat"@)),
                            ("version"@, Json::Text(version)),
                        ],
                    ),
                ),
            ],
        ),
    )
}

/// An object of one member.
fn object_of_one(name: &str, content: Value) -> (value: Value)
    ensures
        json_of(value) == Json::Object(seq![(name@, json_of(content))]),
{
    let members: Vec<(&str, Value)> = vec![(name, content)];
    assert(members_of(members@) =~= seq![(name@, json_of(content))]);
    json::object(members)
}

/// An object of two members.
fn object_of_two(first: &str, one: Value, second: &str, other: Value) -> (value: Value)
    requires
        first@ != second@,
    ensures
        json_of(value) == Json::Object(
            seq![(first@, json_of(one)), (second@, json_of(other))],
        ),
{
    let members: Vec<(&str, Value)> = vec![(first, one), (second, other)];
    assert(members_of(members@) =~= seq![(first@, json_of(one)), (second@, json_of(other))]);
    json::object(members)
}

/// An object of three members.
fn object_of_three(
    first: &str,
    one: Value,
    second: &str,
    other: Value,
    third: &str,
    last: Value,
) -> (value: Value)
    requires
        first@ != second@,
        first@ != third@,
        second@ != third@,
    ensures
        json_of(value) == Json::Object(
            seq![(first@, json_of(one)), (second@, json_of(other)), (third@, json_of(last))],
        ),
{
    let members: Vec<(&str, Value)> = vec![(first, one), (second, other), (third, last)];
    assert(members_of(members@) =~= seq![
        (first@, json_of(one)),
        (second@, json_of(other)),
        (third@, json_of(last)),
    ]);
    json::object(members)
}

/// An object without members.
fn empty_object() -> (value: Value)
    ensures
        json_of(value) == Json::Object(Seq::empty()),
{
    let members: Vec<(&str, Value)> = Vec::new();
    assert(members_of(members@) =~= Seq::empty());
    json::object(members)
}

/// A message to the agent that brings a result.
fn result_reply(id: Value, content: Value) -> (value: Value)
    ensures
        json_of(value) == reply(json_of(id), "result"@, json_of(content)),
{
    proof {
        lemma_reply_names();
    }
    object_of_three("jsonrpc", json::text("2.0"), "id", id, "result", content)
}

proof fn lemma_reply_names()
    ensures
        "jsonrpc"@ != "id"@,
        "jsonrpc"@ != "result"@,
        "jsonrpc"@ != "error"@,
        "id"@ != "result"@,
        "id"@ != "error"@,
        "result"@ != "error"@,
{
    reveal_strlit("jsonrpc");
    reveal_strlit("id");
    reveal_strlit("result");
    reveal_strlit("error");
    assert("jsonrpc"@.len() == 7);
    assert("id"@.len() == 2);
    assert("result"@.len() == 6);
    assert("error"@.len() == 5);
}

/// A tool as it is advertised.
fn advertise(tool: McpTool) -> (value: Value)
    ensures
        json_of(value) == advertised(tool_name(tool), description_of(tool)),
{
    let description = match tool {
        McpTool::GetCurrentPage =>
            "Get the text of the page/slide currently displayed in the running bookokrat reader.",
        McpTool::GetCurrentChapter =>
            "Get the text of the current chapter (broader context) from the running bookokrat reader.",
    };
    proof {
        reveal_strlit("name");
        reveal_strlit("description");
        reveal_strlit("inputSchema");
        reveal_strlit("type");
        reveal_strlit("properties");
        assert("name"@.len() == 4);
        assert("description"@.len() == 11 && "description"@[0] == 'd');
        assert("inputSchema"@.len() == 11 && "inputSchema"@[0] == 'i');
        assert("type"@.len() == 4);
        assert("properties"@.len() == 10);
    }
    let schema = object_of_two("type", json::text("object"), "properties", empty_object());
    object_of_three(
        "name",
        json::text(name_of_tool(tool)),
        "description",
        json::text(description),
        "inputSchema",
        schema,
    )
}

/// The answer to a request for the tools.
pub fn tools_list_result(id: Value) -> (value: Value)
    ensures
        json_of(value) == tools_list_json(json_of(id)),
{
    let tools: Vec<Value> = vec![
        advertise(McpTool::GetCurrentPage),
        advertise(McpTool::GetCurrentChapter),
    ];
    assert(tools@.map_values(|item: Value| json_of(item)) =~= all_advertised());
    result_reply(id, object_of_one("tools", json::list(tools)))
}

/// The answer to a call that succeeded.
pub fn tool_call_ok(id: Value, text: &str) -> (value: Value)
    ensures
        json_of(value) == tool_call_json(json_of(id), text@),
{
    proof {
        reveal_strlit("type");
        reveal_strlit("text");
        assert("type"@[1] == 'y' && "text"@[1] == 'e');
    }
    let part = object_of_two("type", json::text("text"), "text", json::text(text));
    let ghost held = json_of(part);
    let content: Vec<Value> = vec![part];
    assert(content@.map_values(|item: Value| json_of(item)) =~= seq![held]);
    result_reply(id, object_of_one("content", json::list(content)))
}

/// The answer to a request that failed.
pub fn error_result(id: Value, code: i64, message: &str) -> (value: Value)
    ensures
        json_of(value) == error_json(json_of(id), code as int, message@),
{
    proof {
        lemma_reply_names();
        reveal_strlit("code");
        reveal_strlit("message");
        assert("code"@.len() != "message"@.len());
    }
    let error = object_of_two("code", json::integer(code), "message", json::text(message));
    object_of_three("jsonrpc", json::text("2.0"), "id", id, "error", error)
}

/// The answer to the first request of a session, from a server of that version.
pub fn initialize_result(id: Value, version: &str) -> (value: Value)
    ensures
        json_of(value) == initialize_json(json_of(id), version@),
{
    proof {
        reveal_strlit("name");
        reveal_strlit("version");
        reveal_strlit("protocolVersion");
        reveal_strlit("capabilities");
        reveal_strlit("serverInfo");
        assert("name"@.len() == 4);
        assert("version"@.len() == 7);
        assert("protocolVersion"@.len() == 15);
        assert("capabilities"@.len() == 12);
        assert("serverInfo"@.len() == 10);
    }
    let info = object_of_two("name", json::text("bookokrat"), "version", json::text(version));
    let capabilities = object_of_one("tools", empty_object());
    let result = object_of_three(
        "protocolVersion",
        json::text("2024-11-05"),
        "capabilities",
        capabilities,
        "serverInfo",
        info,
    );
    result_reply(id, result)
}

/// What to do about a message from the agent.
pub enum RpcStep {
    /// Nothing.
    Skip,
    /// Write this.
    Reply(Value),
    /// Write this if possible, and go on if it is not.
    Refuse(Value),
    /// Ask the reader, and write what `finish_call` makes of its answer.
    Call { id: Value, tool: McpTool },
}

/// What to do about a message, in terms of what the values hold.
pub enum RpcOutcome {
    Skip,
    Reply(Json),
    Refuse(Json),
    Call { id: Json, tool: McpTool },
}

impl View for RpcStep {
    type V = RpcOutcome;

    open spec fn view(&self) -> RpcOutcome {
        match self {
            RpcStep::Skip => RpcOutcome::Skip,
            RpcStep::Reply(value) => RpcOutcome::Reply(json_of(*value)),
            RpcStep::Refuse(value) => RpcOutcome::Refuse(json_of(*value)),
            RpcStep::Call { id, tool } => RpcOutcome::Call { id: json_of(*id), tool: *tool },
        }
    }
}

/// What to do about a request for a method, which names a tool where the method
/// needs one.
pub open spec fn outcome(
    id: Json,
    method: Seq<char>,
    tool: Seq<char>,
    version: Seq<char>,
) -> RpcOutcome {
    if method == "initialize"@ {
        RpcOutcome::Reply(initialize_json(id, version))
    } else if method == "notifications/initialized"@ {
        RpcOutcome::Skip
    } else if method == "tools/list"@ {
        RpcOutcome::Reply(tools_list_json(id))
    } else if method == "tools/call"@ {
        match tool_of_name(tool) {
            Some(tool) => RpcOutcome::Call { id, tool },
            None => RpcOutcome::Refuse(error_json(id, UNKNOWN_TOOL as int, "unknown tool"@)),
        }
    } else {
        RpcOutcome::Reply(error_json(id, METHOD_NOT_FOUND as int, "method not found"@))
    }
}

/// The id of a request; null where it has none.
pub open spec fn id_in(request: Json) -> Json {
    match member(request, "id"@) {
        Some(id) => id,
        None => Json::Null,
    }
}

/// The content of a text; empty where there is none.
pub open spec fn text_or_empty(json: Option<Json>) -> Seq<char> {
    match json {
        Some(Json::Text(content)) => content,
        _ => Seq::empty(),
    }
}

/// What to do about a request.
pub open spec fn request_outcome(request: Json, version: Seq<char>) -> RpcOutcome {
    outcome(
        id_in(request),
        text_or_empty(member(request, "method"@)),
        text_or_empty(inner_member(request, "params"@, "name"@)),
        version,
    )
}

/// What to do about a line: nothing where it is blank or no JSON.
pub open spec fn line_outcome(line: Seq<char>, version: Seq<char>) -> RpcOutcome {
    if trimmed(line).len() == 0 {
        RpcOutcome::Skip
    } else {
        match json_parse(line) {
            Some(request) => request_outcome(request, version),
            None => RpcOutcome::Skip,
        }
    }
}

/// Decides what to do about a request for a method, which names a tool where the
/// method needs one.
pub fn dispatch(id: Value, method: &str, tool: &str, version: &str) -> (step: RpcStep)
    ensures
        step@ == outcome(json_of(id), method@, tool@, version@),
{
    if same(method, "initialize") {
        RpcStep::Reply(initialize_result(id, version))
    } else if same(method, "notifications/initialized") {
        RpcStep::Skip
    } else if same(method, "tools/list") {
        RpcStep::Reply(tools_list_result(id))
    } else if same(method, "tools/call") {
        match tool_named(tool) {
            Some(tool) => RpcStep::Call { id, tool },
            None => RpcStep::Refuse(error_result(id, UNKNOWN_TOOL, "unknown tool")),
        }
    } else {
        RpcStep::Reply(error_result(id, METHOD_NOT_FOUND, "method not found"))
    }
}

/// The content of a text; empty where there is none.
fn text_of(value: Option<&Value>) -> (content: &str)
    ensures
        content@ == text_or_empty(json::found(value)),
{
    proof {
        reveal_strlit("");
        assert(""@ =~= Seq::<char>::empty());
    }
    match value {
        Some(value) => match json::as_text(value) {
            Some(content) => content,
            None => "",
        },
        None => "",
    }
}

/// Decides what to do about a request.
pub fn request_step(request: &Value, version: &str) -> (step: RpcStep)
    ensures
        step@ == request_outcome(json_of(*request), version@),
{
    let id = match json::get(request, "id") {
        Some(id) => id.clone(),
        None => json::null(),
    };
    let method = text_of(json::get(request, "method"));
    proof {
        reveal_strlit("/params/name");
        reveal_strlit("params");
        reveal_strlit("name");
        assert("/params/name"@ =~= path_of("params"@, "name"@));
    }
    let tool = text_of(json::get_at(request, "/params/name"));
    dispatch(id, method, tool, version)
}

/// Decides what to do about a line.
pub fn rpc_step(line: &str, version: &str) -> (step: RpcStep)
    ensures
        step@ == line_outcome(line@, version@),
{
    if line.trim().is_empty() {
        return RpcStep::Skip;
    }
    match json::parse(line) {
        Some(request) => request_step(&request, version),
        None => RpcStep::Skip,
    }
}

/// The answer to a call, once the reader has answered, or could not be reached.
pub open spec fn call_reply(id: Json, answer: Option<ResponseContent>) -> Json {
    match answer {
        Some(ResponseContent::Success(result)) => tool_call_json(
            id,
            json_text(result_json(result)),
        ),
        Some(ResponseContent::Error(error)) => error_json(id, READER_ERROR as int, error),
        None => error_json(
            id,
            READER_ERROR as int,
            "bookokrat is not running. Open a book first."@,
        ),
    }
}

/// What an answer of the reader holds, where there is one.
pub open spec fn answered(answer: Option<McpResponse>) -> Option<ResponseContent> {
    match answer {
        Some(answer) => Some(answer@),
        None => None,
    }
}

/// The answer to a call, once the reader has answered, or could not be reached.
pub fn finish_call(id: Value, answer: Option<McpResponse>) -> (value: Value)
    ensures
        json_of(value) == call_reply(json_of(id), answered(answer)),
{
    match answer {
        Some(McpResponse::Success { result }) => {
            let payload = result_line(&result);
            tool_call_ok(id, payload.as_str())
        },
        Some(McpResponse::Error { error }) => error_result(id, READER_ERROR, error.as_str()),
        None => error_result(id, READER_ERROR, "bookokrat is not running. Open a book first."),
    }
}

/// Writes a message as a line, without the line feed at its end.
pub fn reply_line(message: &Value) -> (line: String)
    ensures
        line@ == json_text(json_of(*message)),
        is_one_line(line@),
        reads_back(json_of(*message), json::MAX_DEPTH as nat) ==> json_parse(line@) == Some(
            json_of(*message),
        ),
{
    json::print(message)
}

/// Whether a message is an answer to the request of that id: it has that id, and
/// either a result or an error.
pub open spec fn answers(message: Json, id: Json) -> bool {
    &&& member(message, "jsonrpc"@) == Some(Json::Text("2.0"@))
    &&& member(message, "id"@) == Some(id)
    &&& (member(message, "result"@) is Some) != (member(message, "error"@) is Some)
}

proof fn lemma_reply_members(id: Json, name: Seq<char>, content: Json)
    requires
        name == "result"@ || name == "error"@,
    ensures
        answers(reply(id, name, content), id),
        member(reply(id, name, content), name) == Some(content),
{
    lemma_reply_names();
    let first = seq![("jsonrpc"@, Json::Text("2.0"@)), ("id"@, id), (name, content)];
    let second = seq![("jsonrpc"@, Json::Text("2.0"@)), ("id"@, id)];
    let third = seq![("jsonrpc"@, Json::Text("2.0"@))];
    assert(first.drop_last() =~= second);
    assert(second.drop_last() =~= third);
    assert(third.drop_last() =~= Seq::empty());
    reveal_with_fuel(named, 4);
}

/// Whatever is written about a request is an answer to it, with the id that
/// it came with, and a call keeps that id until it is answered.
pub proof fn messages_answer_their_requests(
    id: Json,
    method: Seq<char>,
    tool: Seq<char>,
    version: Seq<char>,
    answer: Option<ResponseContent>,
)
    ensures
        match outcome(id, method, tool, version) {
            RpcOutcome::Skip => true,
            RpcOutcome::Reply(message) => answers(message, id),
            RpcOutcome::Refuse(message) => answers(message, id),
            RpcOutcome::Call { id: kept, .. } => kept == id,
        },
        answers(call_reply(id, answer), id),
{
    assert forall|content: Json| answers(#[trigger] reply(id, "result"@, content), id) by {
        lemma_reply_members(id, "result"@, content);
    }
    assert forall|content: Json| answers(#[trigger] reply(id, "error"@, content), id) by {
        lemma_reply_members(id, "error"@, content);
    }
}

/// Of the requests that are read, the notification that a session has started
/// alone goes without an answer.
pub proof fn only_the_notification_goes_unanswered(
    id: Json,
    method: Seq<char>,
    tool: Seq<char>,
    version: Seq<char>,
)
    ensures
        outcome(id, method, tool, version) is Skip <==> method == "notifications/initialized"@,
{
    reveal_strlit("initialize");
    reveal_strlit("notifications/initialized");
    assert("initialize"@.len() != "notifications/initialized"@.len());
}

/// The tools that can be called are those that are advertised.
pub proof fn advertised_tools_can_be_called(id: Json, name: Seq<char>, version: Seq<char>)
    ensures
        outcome(id, "tools/call"@, name, version) is Call <==> exists|i: int|
            0 <= i < all_advertised().len() && member(#[trigger] all_advertised()[i], "name"@)
                == Some(Json::Text(name)),
{
    reveal_strlit("initialize");
    reveal_strlit("notifications/initialized");
    reveal_strlit("tools/list");
    reveal_strlit("tools/call");
    assert("tools/call"@[0] == 't' && "tools/call"@[6] == 'c');
    assert("initialize"@[0] == 'i');
    assert("notifications/initialized"@[0] == 'n');
    assert("tools/list"@[6] == 'l');
    lemma_advertised_name(McpTool::GetCurrentPage);
    lemma_advertised_name(McpTool::GetCurrentChapter);
    if name == tool_name(McpTool::GetCurrentPage) {
        assert(member(all_advertised()[0], "name"@) == Some(Json::Text(name)));
    }
    if name == tool_name(McpTool::GetCurrentChapter) {
        assert(member(all_advertised()[1], "name"@) == Some(Json::Text(name)));
    }
}

proof fn lemma_advertised_name(tool: McpTool)
    ensures
        member(advertised(tool_name(tool), description_of(tool)), "name"@) == Some(
            Json::Text(tool_name(tool)),
        ),
{
    let members = advertised(tool_name(tool), description_of(tool))->Object_0;
    reveal_strlit("name");
    reveal_strlit("description");
    reveal_strlit("inputSchema");
    assert("name"@.len() == 4 && "description"@.len() == 11 && "inputSchema"@.len() == 11);
    assert(members.drop_last().last() == members[1]);
    assert(members.drop_last().drop_last().last() == members[0]);
    reveal_with_fuel(named, 3);
}

/// A call brings a result exactly where the reader answered with one.
pub proof fn calls_succeed_where_the_reader_does(id: Json, answer: Option<ResponseContent>)
    ensures
        member(call_reply(id, answer), "result"@) is Some <==> answer matches Some(
            ResponseContent::Success(_),
        ),
{
    assert forall|content: Json|
        member(#[trigger] reply(id, "result"@, content), "result"@) is Some by {
        lemma_reply_members(id, "result"@, content);
    }
    assert forall|content: Json|
        member(#[trigger] reply(id, "error"@, content), "result"@) is None by {
        lemma_reply_members(id, "error"@, content);
    }
}

/// Whatever is written about a request whose id has no fractions in it, and
/// is not nested too deep, reads back as it was.
pub proof fn messages_read_back(
    id: Json,
    method: Seq<char>,
    tool: Seq<char>,
    version: Seq<char>,
    answer: Option<ResponseContent>,
)
    requires
        reads_back(id, (json::MAX_DEPTH - 1) as nat),
    ensures
        match outcome(id, method, tool, version) {
            RpcOutcome::Reply(message) => reads_back(message, json::MAX_DEPTH as nat),
            RpcOutcome::Refuse(message) => reads_back(message, json::MAX_DEPTH as nat),
            _ => true,
        },
        reads_back(call_reply(id, answer), json::MAX_DEPTH as nat),
{
    reveal_with_fuel(reads_back, 6);
}

} // verus!
