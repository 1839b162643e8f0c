//! The MCP protocol over the standard streams of a server process.
use vstd::prelude::*;
use vstd::string::*;
use crate::agent::protocol::{
    notification_view, request_view, JsonRpcNotification, JsonRpcRequest,
};
use crate::error::{Error, ErrorKind, Result};
use crate::json::{json_parsed, json_text, parse, to_text, Json, JsonView};
use crate::text::{cat2, split_whitespace, trim, trimmed, views, words};

verus! {

/// The program and the arguments that start a server: where no arguments are
/// given, the command holds them.
pub fn server_program(command: &str, args: Vec<String>) -> (r: Result<(String, Vec<String>)>)
    ensures
        if args@.len() > 0 {
            r is Ok && r->Ok_0.0@ == command@ && r->Ok_0.1 == args
        } else {
            match r {
                Ok((program, rest)) => words(command@).len() > 0 && words(command@) == seq![program@]
                    + views(rest@),
                Err(e) => words(command@).len() == 0 && e is Mcp && e.detail() == "empty command"@,
            }
        },
{
    if args.len() > 0 {
        return Ok((command.to_owned(), args));
    }
    let mut parts = split_whitespace(command);
    let ghost all = views(parts@);
    if parts.len() == 0 {
        return Err(Error::Mcp("empty command".to_owned()));
    }
    let program = parts.remove(0);
    assert(all =~= seq![program@] + views(parts@));
    Ok((program, parts))
}

/// What a client says of itself when a connection begins.
pub open spec fn hello(protocol: Seq<char>, version: Seq<char>) -> JsonView {
    JsonView::Object(
        seq![
            ("protocolVersion"@, JsonView::Str(protocol)),
            ("capabilities"@, JsonView::Object(seq![])),
            (
                "clientInfo"@,
                JsonView::Object(
                    seq![
                        ("name"@, JsonView::Str("symposium"@)),
                        ("version"@, JsonView::Str(version)),
                    ],
                ),
            ),
        ],
    )
}

/// An object without entries.
pub fn empty_object() -> (r: Json)
    ensures
        r.deep_view() == JsonView::Object(seq![]),
{
    let entries: Vec<(String, Json)> = Vec::new();
    let r = Json::Object(entries);
    assert(r.deep_view()->Object_0 =~= Seq::<(Seq<char>, JsonView)>::empty());
    r
}

/// What a client says of itself when a connection begins.
pub fn initialize_params(protocol: &str, version: &str) -> (r: Json)
    ensures
        r.deep_view() == hello(protocol@, version@),
{
    let mut info: Vec<(String, Json)> = Vec::new();
    info.push(("name".to_owned(), Json::string("symposium")));
    info.push(("version".to_owned(), Json::string(version)));
    let info = Json::Object(info);
    assert(info.deep_view()->Object_0 =~= seq![
        ("name"@, JsonView::Str("symposium"@)),
        ("version"@, JsonView::Str(version@)),
    ]);
    let mut entries: Vec<(String, Json)> = Vec::new();
    entries.push(("protocolVersion".to_owned(), Json::string(protocol)));
    entries.push(("capabilities".to_owned(), empty_object()));
    entries.push(("clientInfo".to_owned(), info));
    let r = Json::Object(entries);
    assert(r.deep_view()->Object_0 =~= hello(protocol@, version@)->Object_0);
    r
}

/// What a tool is called with.
pub open spec fn tool_call_params(name: Seq<char>, arguments: JsonView) -> JsonView {
    JsonView::Object(seq![("name"@, JsonView::Str(name)), ("arguments"@, arguments)])
}

/// What a tool is called with.
pub fn tool_params(name: &str, arguments: Json) -> (r: Json)
    ensures
        r.deep_view() == tool_call_params(name@, arguments.deep_view()),
{
    let ghost args = arguments.deep_view();
    let mut entries: Vec<(String, Json)> = Vec::new();
    entries.push(("name".to_owned(), Json::string(name)));
    entries.push(("arguments".to_owned(), arguments));
    let r = Json::Object(entries);
    assert(r.deep_view()->Object_0 =~= tool_call_params(name@, args)->Object_0);
    r
}

/// A request, as JSON text.
pub fn request_text(id: u64, method: &str, params: Json) -> (r: String)
    ensures
        r@ == json_text(request_view(id, method@, Some(params.deep_view()))),
{
    let request = JsonRpcRequest::new(id, method, Some(params)).into_json();
    to_text(&request)
}

/// A notification, as JSON text.
pub fn notification_text(method: &str, params: Json) -> (r: String)
    ensures
        r@ == json_text(notification_view(method@, Some(params.deep_view()))),
{
    let n = JsonRpcNotification::new(method, Some(params)).into_json();
    to_text(&n)
}

/// A request, as the line that is sent.
pub fn request_line(id: u64, method: &str, params: Json) -> (r: String)
    ensures
        r@ == json_text(request_view(id, method@, Some(params.deep_view()))).push('\n'),
{
    let mut line = request_text(id, method, params);
    line.push('\n');
    line
}

/// A notification, as the line that is sent.
pub fn notification_line(method: &str, params: Json) -> (r: String)
    ensures
        r@ == json_text(notification_view(method@, Some(params.deep_view()))).push('\n'),
{
    let mut line = notification_text(method, params);
    line.push('\n');
    line
}

/// The reply to request `id` that a message is, if it is one: the error it
/// carries, or else the result.
pub open spec fn reply_in(msg: JsonView, id: u64) -> Option<
    std::result::Result<JsonView, (ErrorKind, Seq<char>)>,
> {
    if msg.u64_at("id"@) == Some(id) {
        match msg.get("error"@) {
            Some(e) => Some(Err((ErrorKind::Mcp, "MCP error: "@ + json_text(e)))),
            None => match msg.get("result"@) {
                Some(v) => Some(Ok(v)),
                None => Some(Ok(JsonView::Null)),
            },
        }
    } else {
        None
    }
}

/// What a result holds, the value by its view, the error by kind and message.
pub open spec fn json_result(r: Result<Json>) -> std::result::Result<
    JsonView,
    (ErrorKind, Seq<char>),
> {
    match r {
        Ok(j) => Ok(j.deep_view()),
        Err(e) => Err(e.deep_view()),
    }
}

/// What an optional result holds.
pub open spec fn reply_view(r: Option<Result<Json>>) -> Option<
    std::result::Result<JsonView, (ErrorKind, Seq<char>)>,
> {
    match r {
        Some(x) => Some(json_result(x)),
        None => None,
    }
}

/// The reply to request `id` that a message is, if it is one.
pub fn read_reply(msg: &Json, id: u64) -> (r: Option<Result<Json>>)
    ensures
        reply_view(r) == reply_in(msg.deep_view(), id),
{
    match msg.u64_at("id") {
        Some(n) => {
            if n != id {
                return None;
            }
        },
        None => {
            return None;
        },
    }
    match msg.get("error") {
        Some(e) => {
            let text = to_text(e);
            Some(Err(Error::Mcp(cat2("MCP error: ", text.as_str()))))
        },
        None => match msg.get("result") {
            Some(v) => Some(Ok(v.copy())),
            None => Some(Ok(Json::Null)),
        },
    }
}

/// What a line that the server sent means for request `id`: nothing where it is
/// blank or another message, the reply where it is one, and an error where it
/// is not JSON.
pub open spec fn line_reply(line: Seq<char>, id: u64) -> Option<
    std::result::Result<JsonView, (ErrorKind, Seq<char>)>,
> {
    if trimmed(line).len() == 0 {
        None
    } else {
        match json_parsed(trimmed(line)) {
            Ok(msg) => reply_in(msg, id),
            Err(m) => Some(Err((ErrorKind::Mcp, "parse error: "@ + m))),
        }
    }
}

/// Take a line that the server sent, while the reply to request `id` is being
/// waited for.
pub fn on_line(line: &str, id: u64) -> (r: Option<Result<Json>>)
    ensures
        reply_view(r) == line_reply(line@, id),
{
    let text = trim(line);
    if text.as_str().is_empty() {
        return None;
    }
    match parse(text.as_str()) {
        Ok(msg) => read_reply(&msg, id),
        Err(m) => Some(Err(Error::Mcp(cat2("parse error: ", m.as_str())))),
    }
}

/// What it means that the server sends no more.
pub fn on_closed() -> (r: Error)
    ensures
        r is Mcp,
        r.detail() == "MCP server closed stdout"@,
{
    Error::Mcp("MCP server closed stdout".to_owned())
}

/// Only a message with the id of a request is taken for the reply to it.
pub proof fn law_reply_has_id(msg: JsonView, id: u64, other: u64)
    requires
        reply_in(msg, id) is Some,
        reply_in(msg, other) is Some,
    ensures
        id == other,
{
}

/// A reply to a request is what the server sent as its result, or its error where it
/// sent one, whatever result comes with it; a reply with neither has no value.
pub proof fn law_reply_is_error_or_result(msg: JsonView, id: u64, value: JsonView)
    requires
        msg.get("id"@) is Some,
        msg.get("id"@)->0 is Number,
        msg.get("id"@)->0->Number_0.unsigned == Some(id),
    ensures
        ({
            let r = reply_in(msg, id);
            &&& r is Some
            &&& msg.get("error"@) == Some(value) ==> r->0 is Err && r->0->Err_0 == (
                ErrorKind::Mcp,
                "MCP error: "@ + json_text(value),
            )
            &&& msg.get("error"@) is None && msg.get("result"@) == Some(value) ==> r->0 is Ok
                && r->0->Ok_0 == value
            &&& msg.get("error"@) is None && msg.get("result"@) is None ==> r->0 is Ok && r->0->Ok_0
                == JsonView::Null
        }),
{
}

/// A message without an id, or with that of another request, is no reply.
pub proof fn law_other_messages_are_no_reply(msg: JsonView, id: u64, other: u64)
    ensures
        msg.get("id"@) is None ==> reply_in(msg, id) is None,
        msg.get("id"@) is Some && msg.get("id"@)->0 is Number
            && msg.get("id"@)->0->Number_0.unsigned == Some(other) && other != id ==> reply_in(
            msg,
            id,
        ) is None,
{
}

/// Blank lines are passed over, a line that is no JSON is an error, and any other line
/// is taken for the message that it is, white space around it left out.
pub proof fn law_lines_taken(line: Seq<char>, id: u64)
    ensures
        ({
            let t = trimmed(line);
            &&& t.len() == 0 ==> line_reply(line, id) is None
            &&& t.len() > 0 && json_parsed(t) is Err ==> line_reply(line, id) is Some && line_reply(
                line,
                id,
            )->0 is Err && line_reply(line, id)->0->Err_0 == (
                ErrorKind::Mcp,
                "parse error: "@ + json_parsed(t)->Err_0,
            )
            &&& t.len() > 0 && json_parsed(t) is Ok ==> line_reply(line, id) == reply_in(
                json_parsed(t)->Ok_0,
                id,
            )
        }),
{
}

/// A client says the version of the protocol, its name and its own version.
pub proof fn law_hello_tells(protocol: Seq<char>, version: Seq<char>)
    ensures
        ({
            let h = hello(protocol, version);
            &&& h.get("protocolVersion"@) == Some(JsonView::Str(protocol))
            &&& h.get("clientInfo"@) is Some
            &&& h.get("clientInfo"@)->0.get("name"@) == Some(JsonView::Str("symposium"@))
            &&& h.get("clientInfo"@)->0.get("version"@) == Some(JsonView::Str(version))
            &&& h.get("capabilities"@) == Some(JsonView::Object(seq![]))
        }),
{
    reveal_strlit("protocolVersion");
    reveal_strlit("capabilities");
    reveal_strlit("clientInfo");
    reveal_strlit("name");
    reveal_strlit("version");
    assert("protocolVersion"@.len() == 15 && "capabilities"@.len() == 12 && "clientInfo"@.len() == 10
        && "name"@.len() == 4 && "version"@.len() == 7);
    reveal_with_fuel(crate::json::entry_from, 4);
}

/// A call of a tool carries the tool's name and the arguments.
pub proof fn law_tool_call_carries(name: Seq<char>, arguments: JsonView)
    ensures
        tool_call_params(name, arguments).get("name"@) == Some(JsonView::Str(name)),
        tool_call_params(name, arguments).get("arguments"@) == Some(arguments),
{
    reveal_strlit("name");
    reveal_strlit("arguments");
    assert("name"@.len() == 4 && "arguments"@.len() == 9);
    reveal_with_fuel(crate::json::entry_from, 3);
}

} // verus!
