//! What is promised of the stdio server's messages, and of what it does about a
//! line.

use crate::mcp::json::{json_of, json_parse, json_text, member, Json};
use crate::mcp::laws::answering::wire_name;
use crate::mcp::protocol::{result_line, tools_are_found_by_their_names};
use crate::mcp::protocol::{McpResponse, McpTool, ToolResult};
use crate::mcp::server::{all_advertised, dispatch, error_result, finish_call};
use crate::mcp::server::{initialize_result, outcome};
use crate::mcp::server::{reply_line, request_step, rpc_step, tool_call_ok, tools_list_result};
use crate::mcp::server::{RpcOutcome, RpcStep};
use crate::mcp::text::trimmed;
use serde_json::Value;
use vstd::prelude::*;

verus! {

/// Whether a message answers the request of that id, in the manner that is named,
/// and has nothing else in it.
pub open spec fn is_answer(message: Json, id: Json, manner: Seq<char>, content: Json) -> bool {
    &&& message is Object
    &&& message->Object_0.len() == 3
    &&& message->Object_0[0] == ("jsonrpc"@, Json::Text("2.0"@))
    &&& message->Object_0[1] == ("id"@, id)
    &&& message->Object_0[2] == (manner, content)
}

/// Whether a value describes a tool that takes no arguments.
pub open spec fn describes(json: Json, name: Seq<char>, description: Seq<char>) -> bool {
    let nothing = Json::Object(Seq::empty());
    let schema = seq![("type"@, Json::Text("object"@)), ("properties"@, nothing)];
    &&& json is Object
    &&& json->Object_0.len() == 3
    &&& json->Object_0[0] == ("name"@, Json::Text(name))
    &&& json->Object_0[1] == ("description"@, Json::Text(description))
    &&& json->Object_0[2] == ("inputSchema"@, Json::Object(schema))
}

/// Whether a message lists these tools, to the request of that id.
pub open spec fn lists(message: Json, id: Json, tools: Seq<Json>) -> bool {
    is_answer(message, id, "result"@, Json::Object(seq![("tools"@, Json::List(tools))]))
}

/// The tools are listed each with its name and what it is for, the page before the
/// chapter, whatever the request's id.
pub proof fn both_tools_are_listed(id: Value, message: Value)
    requires
        call_ensures(tools_list_result, (id,), message),
    ensures
        exists|tools: Seq<Json>| #[trigger]
            lists(json_of(message), json_of(id), tools) && tools.len() == 2 && describes(
                tools[0],
                "get_current_page"@,
                "Get the text of the page/slide currently displayed in the running bookokrat reader."@,
            ) && describes(
                tools[1],
                "get_current_chapter"@,
                "Get the text of the current chapter (broader context) from the running bookokrat reader."@,
            ),
{
    assert(lists(json_of(message), json_of(id), all_advertised()));
}

/// The answer to a call that succeeded holds its text, once and alone.
pub proof fn calls_are_answered_with_their_text(id: Value, text: &str, message: Value)
    requires
        call_ensures(tool_call_ok, (id, text), message),
    ensures
        ({
            let part = Json::Object(
                seq![("type"@, Json::Text("text"@)), ("text"@, Json::Text(text@))],
            );
            is_answer(
                json_of(message),
                json_of(id),
                "result"@,
                Json::Object(seq![("content"@, Json::List(seq![part]))]),
            )
        }),
{
}

/// The answer to a request that failed holds the code and the message.
pub proof fn failures_are_answered_with_code_and_message(
    id: Value,
    code: i64,
    text: &str,
    message: Value,
)
    requires
        call_ensures(error_result, (id, code, text), message),
    ensures
        is_answer(
            json_of(message),
            json_of(id),
            "error"@,
            Json::Object(
                seq![("code"@, Json::Int(code as int)), ("message"@, Json::Text(text@))],
            ),
        ),
{
}

/// The answer to the first request of a session tells the protocol's version, that
/// there are tools, and the server's own name and version.
pub proof fn sessions_start_with_name_and_version(id: Value, version: &str, message: Value)
    requires
        call_ensures(initialize_result, (id, version), message),
    ensures
        ({
            let tools = Json::Object(seq![("tools"@, Json::Object(Seq::empty()))]);
            let server = Json::Object(
                seq![("name"@, Json::Text("bookokrat"@)), ("version"@, Json::Text(version@))],
            );
            is_answer(
                json_of(message),
                json_of(id),
                "result"@,
                Json::Object(
                    seq![
                        ("protocolVersion"@, Json::Text("2024-11-05"@)),
                        ("capabilities"@, tools),
                        ("serverInfo"@, server),
                    ],
                ),
            )
        }),
{
}

/// Whether a line is read as a request.
pub open spec fn is_request(line: Seq<char>, request: Json) -> bool {
    trimmed(line).len() > 0 && json_parse(line) == Some(request)
}

/// Whether an id is the one that a request came with, or null where it came with
/// none.
pub open spec fn has_id(request: Json, id: Json) -> bool {
    match member(request, "id"@) {
        Some(given) => id == given,
        None => id is Null,
    }
}

/// Whether a request is for a method.
pub open spec fn is_for(request: Json, method: Seq<char>) -> bool {
    member(request, "method"@) == Some(Json::Text(method))
}

/// Whether a request names something in its parameters.
pub open spec fn names(request: Json, name: Seq<char>) -> bool {
    member(request, "params"@) matches Some(params) && member(params, "name"@) == Some(
        Json::Text(name),
    )
}

proof fn lemma_methods_differ()
    ensures
        "initialize"@ != "notifications/initialized"@,
        "initialize"@ != "tools/list"@,
        "initialize"@ != "tools/call"@,
        "notifications/initialized"@ != "tools/list"@,
        "notifications/initialized"@ != "tools/call"@,
        "tools/list"@ != "tools/call"@,
        "initialize"@.len() > 0,
        "notifications/initialized"@.len() > 0,
        "tools/list"@.len() > 0,
        "tools/call"@.len() > 0,
{
    reveal_strlit("initialize");
    reveal_strlit("notifications/initialized");
    reveal_strlit("tools/list");
    reveal_strlit("tools/call");
    assert("initialize"@[0] == 'i');
    assert("notifications/initialized"@[0] == 'n');
    assert("tools/list"@[0] == 't' && "tools/list"@[6] == 'l');
    assert("tools/call"@[0] == 't' && "tools/call"@[6] == 'c');
}

proof fn lemma_tool_names_are_not_empty(tool: McpTool)
    ensures
        wire_name(tool).len() > 0,
{
    reveal_strlit("get_current_page");
    reveal_strlit("get_current_chapter");
}

/// A `tools/call` that names a tool leads to a call of exactly that tool, under the
/// id that it came with, whatever the id.
pub proof fn named_tools_are_called(id: Json, tool: McpTool, version: Seq<char>)
    ensures
        outcome(id, "tools/call"@, wire_name(tool), version) == (RpcOutcome::Call { id, tool }),
{
    lemma_methods_differ();
    tools_are_found_by_their_names(tool, wire_name(tool));
}

/// A line that calls a tool by its name leads to a call of exactly that tool, under
/// the id that it came with.
pub proof fn lines_call_the_tool_they_name(
    line: &str,
    version: &str,
    request: Json,
    tool: McpTool,
    step: RpcStep,
)
    requires
        call_ensures(rpc_step, (line, version), step),
        is_request(line@, request),
        is_for(request, "tools/call"@),
        names(request, wire_name(tool)),
    ensures
        step is Call,
        step->tool == tool,
        has_id(request, json_of(step->id)),
{
    lemma_methods_differ();
    tools_are_found_by_their_names(tool, wire_name(tool));
}

/// A line that calls anything else, or names nothing, is refused: there is no such
/// tool.
pub proof fn lines_that_call_no_tool_are_refused(
    line: &str,
    version: &str,
    request: Json,
    id: Value,
    text: &str,
    refusal: Value,
    step: RpcStep,
)
    requires
        call_ensures(rpc_step, (line, version), step),
        is_request(line@, request),
        is_for(request, "tools/call"@),
        forall|tool: McpTool| !names(request, #[trigger] wire_name(tool)),
        has_id(request, json_of(id)),
        text@ == "unknown tool"@,
        call_ensures(error_result, (id, -32602i64, text), refusal),
    ensures
        step is Refuse,
        json_of(step->Refuse_0) == json_of(refusal),
{
    lemma_methods_differ();
    lemma_tool_names_are_not_empty(McpTool::GetCurrentPage);
    lemma_tool_names_are_not_empty(McpTool::GetCurrentChapter);
    assert(!names(request, wire_name(McpTool::GetCurrentPage)));
    assert(!names(request, wire_name(McpTool::GetCurrentChapter)));
}

/// A line that starts a session is answered with the server's name and version.
pub proof fn lines_start_a_session(
    line: &str,
    version: &str,
    request: Json,
    id: Value,
    answer: Value,
    step: RpcStep,
)
    requires
        call_ensures(rpc_step, (line, version), step),
        is_request(line@, request),
        is_for(request, "initialize"@),
        has_id(request, json_of(id)),
        call_ensures(initialize_result, (id, version), answer),
    ensures
        step is Reply,
        json_of(step->Reply_0) == json_of(answer),
{
    lemma_methods_differ();
}

/// A line that asks for the tools is answered with them.
pub proof fn lines_list_the_tools(
    line: &str,
    version: &str,
    request: Json,
    id: Value,
    answer: Value,
    step: RpcStep,
)
    requires
        call_ensures(rpc_step, (line, version), step),
        is_request(line@, request),
        is_for(request, "tools/list"@),
        has_id(request, json_of(id)),
        call_ensures(tools_list_result, (id,), answer),
    ensures
        step is Reply,
        json_of(step->Reply_0) == json_of(answer),
{
    lemma_methods_differ();
}

/// The notification that a session has started is not answered, with an id or
/// without.
pub proof fn the_notification_is_skipped(
    line: &str,
    version: &str,
    request: Json,
    step: RpcStep,
)
    requires
        call_ensures(rpc_step, (line, version), step),
        is_request(line@, request),
        is_for(request, "notifications/initialized"@),
    ensures
        step is Skip,
{
    lemma_methods_differ();
}

/// A request for any other method, or for none, is answered: there is no such
/// method.
pub proof fn lines_for_no_method_are_answered(
    line: &str,
    version: &str,
    request: Json,
    id: Value,
    text: &str,
    answer: Value,
    step: RpcStep,
)
    requires
        call_ensures(rpc_step, (line, version), step),
        is_request(line@, request),
        !is_for(request, "initialize"@),
        !is_for(request, "notifications/initialized"@),
        !is_for(request, "tools/list"@),
        !is_for(request, "tools/call"@),
        has_id(request, json_of(id)),
        text@ == "method not found"@,
        call_ensures(error_result, (id, -32601i64, text), answer),
    ensures
        step is Reply,
        json_of(step->Reply_0) == json_of(answer),
{
    lemma_methods_differ();
}

/// A line that is blank, or no JSON, is skipped.
pub proof fn lines_that_are_no_request_are_skipped(line: &str, version: &str, step: RpcStep)
    requires
        call_ensures(rpc_step, (line, version), step),
        trimmed(line@).len() == 0 || json_parse(line@) is None,
    ensures
        step is Skip,
{
}

/// What is done about a line is what is done about the request that it is read as,
/// and that is what is done about its id, its method and the tool that it names.
pub proof fn lines_are_handled_as_their_requests(
    line: &str,
    request: &Value,
    id: Value,
    method: &str,
    tool: &str,
    version: &str,
    by_line: RpcStep,
    by_request: RpcStep,
    by_parts: RpcStep,
)
    requires
        call_ensures(rpc_step, (line, version), by_line),
        call_ensures(request_step, (request, version), by_request),
        call_ensures(dispatch, (id, method, tool, version), by_parts),
        is_request(line@, json_of(*request)),
        has_id(json_of(*request), json_of(id)),
        is_for(json_of(*request), method@),
        names(json_of(*request), tool@),
    ensures
        by_line@ == by_request@,
        by_request@ == by_parts@,
{
}

/// A call that the reader answered with a result is answered with that result's
/// line as its text.
pub proof fn finished_calls_carry_the_result(
    id: Value,
    result: ToolResult,
    line: String,
    text: &str,
    answer: Value,
    message: Value,
)
    requires
        call_ensures(finish_call, (id, Some(McpResponse::Success { result })), message),
        call_ensures(result_line, (&result,), line),
        text@ == line@,
        call_ensures(tool_call_ok, (id, text), answer),
    ensures
        json_of(message) == json_of(answer),
{
}

/// A call that the reader answered with an error is answered with that error.
pub proof fn failed_calls_carry_the_error(
    id: Value,
    error: String,
    text: &str,
    answer: Value,
    message: Value,
)
    requires
        call_ensures(finish_call, (id, Some(McpResponse::Error { error })), message),
        text@ == error@,
        call_ensures(error_result, (id, -32000i64, text), answer),
    ensures
        json_of(message) == json_of(answer),
{
}

/// A call for which the reader could not be reached is answered with how to reach
/// it.
pub proof fn calls_without_a_reader_say_so(
    id: Value,
    text: &str,
    answer: Value,
    message: Value,
)
    requires
        call_ensures(finish_call, (id, None), message),
        text@ == "bookokrat is not running. Open a book first."@,
        call_ensures(error_result, (id, -32000i64, text), answer),
    ensures
        json_of(message) == json_of(answer),
{
}

/// A message is written as its text, on one line.
pub proof fn messages_are_written_as_their_text(message: Value, line: String)
    requires
        call_ensures(reply_line, (&message,), line),
    ensures
        line@ == json_text(json_of(message)),
        forall|i: int| 0 <= i < line@.len() ==> #[trigger] line@[i] != '\n' && line@[i] != '\r',
{
}

} // verus!
