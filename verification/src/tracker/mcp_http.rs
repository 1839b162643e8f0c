//! The MCP protocol over HTTP.
use vstd::prelude::*;
use vstd::string::*;
use crate::error::{Error, ErrorKind, Result};
use crate::json::{json_parsed, parse, Json, JsonView};
use crate::text::{
    contains, has, has_prefix, lines, starts_with, strip_prefix, text_lines, trim, trimmed, views,
};
use crate::tracker::mcp::{json_result, read_reply, reply_in, reply_view};

verus! {

/// The reply to request `id` that a JSON text is, if it is one.
pub open spec fn text_reply(text: Seq<char>, id: u64) -> Option<
    std::result::Result<JsonView, (ErrorKind, Seq<char>)>,
> {
    match json_parsed(text) {
        Ok(msg) => reply_in(msg, id),
        Err(_) => None,
    }
}

fn read_text(text: &str, id: u64) -> (r: Option<Result<Json>>)
    ensures
        reply_view(r) == text_reply(text@, id),
{
    match parse(text) {
        Ok(msg) => read_reply(&msg, id),
        Err(_) => None,
    }
}

/// The JSON text of a line of a plain answer, if it has one.
pub open spec fn plain_payload(line: Seq<char>) -> Option<Seq<char>> {
    if trimmed(line).len() == 0 {
        None
    } else {
        Some(trimmed(line))
    }
}

/// The JSON text of a line of an event stream, if it has one: what follows
/// "data:", or a whole line that starts with a brace.
pub open spec fn event_payload(line: Seq<char>) -> Option<Seq<char>> {
    let t = trimmed(line);
    if has_prefix(t, "data:"@) {
        let data = trimmed(t.skip("data:"@.len() as int));
        if data.len() == 0 {
            None
        } else {
            Some(data)
        }
    } else if has_prefix(t, "{"@) {
        Some(t)
    } else {
        None
    }
}

/// The reply to request `id` in the first line from `i` on that holds one.
pub open spec fn first_reply(ls: Seq<Seq<char>>, events: bool, id: u64, i: int) -> Option<
    std::result::Result<JsonView, (ErrorKind, Seq<char>)>,
>
    decreases ls.len() - i,
{
    if 0 <= i < ls.len() {
        let payload = if events {
            event_payload(ls[i])
        } else {
            plain_payload(ls[i])
        };
        match payload {
            Some(text) => match text_reply(text, id) {
                Some(r) => Some(r),
                None => first_reply(ls, events, id, i + 1),
            },
            None => first_reply(ls, events, id, i + 1),
        }
    } else {
        None
    }
}

fn payload_of(line: &str, events: bool) -> (r: Option<String>)
    ensures
        r.deep_view() == if events {
            event_payload(line@)
        } else {
            plain_payload(line@)
        },
{
    let t = trim(line);
    if events {
        match strip_prefix(t.as_str(), "data:") {
            Some(data) => {
                let data = trim(data.as_str());
                if data.as_str().is_empty() {
                    None
                } else {
                    Some(data)
                }
            },
            None => if starts_with(t.as_str(), "{") {
                Some(t)
            } else {
                None
            },
        }
    } else if t.as_str().is_empty() {
        None
    } else {
        Some(t)
    }
}

fn find_reply(text: &str, events: bool, id: u64) -> (r: Option<Result<Json>>)
    ensures
        reply_view(r) == first_reply(text_lines(text@), events, id, 0),
{
    let all = lines(text);
    let ghost ls = text_lines(text@);
    let mut i: usize = 0;
    while i < all.len()
        invariant
            i <= all@.len(),
            ls == text_lines(text@),
            views(all@) == ls,
            first_reply(ls, events, id, 0) == first_reply(ls, events, id, i as int),
        decreases all@.len() - i,
    {
        assert(ls[i as int] == all@[i as int]@);
        if let Some(payload) = payload_of(all[i].as_str(), events) {
            if let Some(reply) = read_text(payload.as_str(), id) {
                return Some(reply);
            }
        }
        i += 1;
    }
    None
}

/// The reply to request `id` in an answer: a plain one may be one JSON text, on
/// however many lines.
pub open spec fn answer_reply(text: Seq<char>, events: bool, id: u64) -> Option<
    std::result::Result<JsonView, (ErrorKind, Seq<char>)>,
> {
    if !events && text_reply(trimmed(text), id) is Some {
        text_reply(trimmed(text), id)
    } else {
        first_reply(text_lines(text), events, id, 0)
    }
}

/// What an answer to request `id` comes to.
pub open spec fn answer_of(
    text: Seq<char>,
    events: bool,
    id: u64,
    missing: Seq<char>,
) -> std::result::Result<JsonView, (ErrorKind, Seq<char>)> {
    match answer_reply(text, events, id) {
        Some(r) => r,
        None => Err((ErrorKind::Mcp, missing)),
    }
}

/// Parse a plain JSON or newline-delimited JSON response.
pub fn parse_json_response(text: &str, id: u64) -> (r: Result<Json>)
    ensures
        json_result(r) == answer_of(
            text@,
            false,
            id,
            "no matching response from MCP server"@,
        ),
{
    let whole = trim(text);
    if let Some(reply) = read_text(whole.as_str(), id) {
        return reply;
    }
    match find_reply(text, false, id) {
        Some(r) => r,
        None => Err(Error::Mcp("no matching response from MCP server".to_owned())),
    }
}

/// Parse a Server-Sent Events (SSE) response.
/// SSE format: lines starting with "data:" contain JSON-RPC messages; some
/// servers send raw JSON between events.
pub fn parse_sse_response(text: &str, id: u64) -> (r: Result<Json>)
    ensures
        json_result(r) == answer_of(text@, true, id, "no matching response in SSE stream"@),
{
    match find_reply(text, true, id) {
        Some(r) => r,
        None => Err(Error::Mcp("no matching response in SSE stream".to_owned())),
    }
}

/// What follows a response, by its status.
#[derive(Debug, Clone, Copy, PartialEq, Eq, Structural)]
pub enum HttpStep {
    /// Refresh the token and send the request once more.
    Refresh,
    /// Read the response.
    Read,
}

/// What follows a response: the first one that says that the token is not good
/// is answered by a refresh, and every other one is read.
pub fn after_status(status: u16, refreshed: bool) -> (r: HttpStep)
    ensures
        r is Refresh <==> status == 401 && !refreshed,
{
    if status == 401 && !refreshed {
        HttpStep::Refresh
    } else {
        HttpStep::Read
    }
}

/// What a response to request `id` comes to: an error by its status, as
/// written, and its body where it is none of success, and otherwise what its
/// body says, as an event stream where its content type is one.
pub fn parse_response(
    success: bool,
    status: &str,
    content_type: &str,
    text: &str,
    id: u64,
) -> (r: Result<Json>)
    ensures
        json_result(r) == if !success {
            Err((ErrorKind::Mcp, "MCP HTTP error "@ + status@ + ": "@ + text@))
        } else if has(content_type@, "text/event-stream"@) {
            answer_of(text@, true, id, "no matching response in SSE stream"@)
        } else {
            answer_of(text@, false, id, "no matching response from MCP server"@)
        },
{
    if !success {
        let mut m = "MCP HTTP error ".to_owned();
        m.append(status);
        m.append(": ");
        m.append(text);
        return Err(Error::Mcp(m));
    }
    if contains(content_type, "text/event-stream") {
        parse_sse_response(text, id)
    } else {
        parse_json_response(text, id)
    }
}

/// A line of a plain answer holds what is on it, without the white space around it; a
/// blank line holds nothing.
pub proof fn law_plain_line_holds_its_text(line: Seq<char>)
    ensures
        trimmed(line).len() == 0 ==> plain_payload(line) is None,
        trimmed(line).len() > 0 ==> plain_payload(line) == Some(trimmed(line)),
{
}

/// A line of an event stream holds what follows "data:", and a line that starts with a
/// brace is taken whole; other lines hold nothing.
pub proof fn law_event_line_holds_its_data(line: Seq<char>, rest: Seq<char>)
    ensures
        trimmed(line) == "data:"@ + rest && trimmed(rest).len() > 0 ==> event_payload(line) == Some(
            trimmed(rest),
        ),
        trimmed(line) == "data:"@ + rest && trimmed(rest).len() == 0 ==> event_payload(line) is None,
        trimmed(line).len() > 0 && trimmed(line)[0] == '{' ==> event_payload(line) == Some(
            trimmed(line),
        ),
        trimmed(line).len() == 0 ==> event_payload(line) is None,
        trimmed(line).len() > 0 && trimmed(line)[0] != '{' && trimmed(line)[0] != 'd'
            ==> event_payload(line) is None,
{
    let t = trimmed(line);
    let d = "data:"@;
    reveal_strlit("data:");
    reveal_strlit("{");
    assert("{"@.len() == 1 && "{"@[0] == '{' && d.len() == 5 && d[0] == 'd');
    if t == d + rest {
        assert(t.subrange(0, 5) =~= d);
        assert(t.skip(5) =~= rest);
    }
    if has_prefix(t, d) {
        assert(t.subrange(0, 5)[0] == t[0]);
    }
    if t.len() > 0 && t[0] == '{' {
        assert(t.subrange(0, 1) =~= "{"@);
    }
    if has_prefix(t, "{"@) {
        assert(t.subrange(0, 1)[0] == t[0]);
    }
}

/// What a line holds, by the kind of its answer.
pub open spec fn line_payload(line: Seq<char>, events: bool) -> Option<Seq<char>> {
    if events {
        event_payload(line)
    } else {
        plain_payload(line)
    }
}

/// The line holds the reply.
pub open spec fn line_replies(
    line: Seq<char>,
    events: bool,
    id: u64,
    r: std::result::Result<JsonView, (ErrorKind, Seq<char>)>,
) -> bool {
    &&& line_payload(line, events) is Some
    &&& json_parsed(line_payload(line, events)->0) is Ok
    &&& reply_in(json_parsed(line_payload(line, events)->0)->Ok_0, id) == Some(r)
}

/// The reply in an answer is that of the first line which holds one; lines that hold
/// nothing, no JSON, or another message are passed over.
pub proof fn law_first_reply_counts(ls: Seq<Seq<char>>, events: bool, id: u64, i: int)
    requires
        0 <= i <= ls.len(),
    ensures
        match first_reply(ls, events, id, i) {
            Some(r) => exists|k: int|
                i <= k < ls.len() && line_replies(#[trigger] ls[k], events, id, r) && forall|
                    m: int,
                    q: std::result::Result<JsonView, (ErrorKind, Seq<char>)>,
                |
                    i <= m < k ==> !#[trigger] line_replies(ls[m], events, id, q),
            None => forall|m: int, q: std::result::Result<JsonView, (ErrorKind, Seq<char>)>|
                i <= m < ls.len() ==> !#[trigger] line_replies(ls[m], events, id, q),
        },
    decreases ls.len() - i,
{
    if i < ls.len() {
        let p = line_payload(ls[i], events);
        if p is Some && text_reply(p->0, id) is Some {
            assert(line_replies(ls[i], events, id, text_reply(p->0, id)->0));
        } else {
            law_first_reply_counts(ls, events, id, i + 1);
            assert(first_reply(ls, events, id, i) == first_reply(ls, events, id, i + 1));
            assert(forall|q: std::result::Result<JsonView, (ErrorKind, Seq<char>)>|
                !#[trigger] line_replies(ls[i], events, id, q));
            if let Some(r) = first_reply(ls, events, id, i + 1) {
                let k = choose|k: int|
                    i + 1 <= k < ls.len() && line_replies(#[trigger] ls[k], events, id, r) && forall|
                        m: int,
                        q: std::result::Result<JsonView, (ErrorKind, Seq<char>)>,
                    |
                        i + 1 <= m < k ==> !#[trigger] line_replies(ls[m], events, id, q);
                assert(line_replies(ls[k], events, id, r));
            }
        }
    }
}

/// A plain answer that is one JSON text is read as that; otherwise, and always in an
/// event stream, its lines are. An answer without a reply is the given error.
pub proof fn law_answer_read(text: Seq<char>, events: bool, id: u64, missing: Seq<char>)
    ensures
        ({
            let whole = json_parsed(trimmed(text));
            let r = answer_of(text, events, id, missing);
            &&& !events && whole is Ok && reply_in(whole->Ok_0, id) is Some ==> r == reply_in(
                whole->Ok_0,
                id,
            )->0
            &&& events || whole is Err || reply_in(whole->Ok_0, id) is None ==> match first_reply(
                text_lines(text),
                events,
                id,
                0,
            ) {
                Some(x) => r == x,
                None => r is Err && r->Err_0 == (ErrorKind::Mcp, missing),
            }
        }),
{
}

} // verus!
