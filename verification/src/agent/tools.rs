//! Tools that the orchestrator offers to agents.
use vstd::prelude::*;
use crate::error::{Error, Result};
use crate::json::{Json, JsonView};
use crate::text::{cat2, str_eq};

verus! {

/// Whether the orchestrator handles a tool, rather than the agent.
pub fn is_client_tool(name: &str) -> (r: bool)
    ensures
        r == (name@ == "notion_query"@),
{
    str_eq(name, "notion_query")
}

/// A reply that says what went wrong.
pub open spec fn error_reply(message: Seq<char>) -> JsonView {
    JsonView::Object(seq![("error"@, JsonView::Str(message))])
}

fn reply_error(message: &str) -> (r: Json)
    ensures
        r.deep_view() == error_reply(message@),
{
    let mut entries: Vec<(String, Json)> = Vec::new();
    entries.push(("error".to_owned(), Json::string(message)));
    let r = Json::Object(entries);
    assert(r.deep_view()->Object_0 =~= error_reply(message@)->Object_0);
    r
}

/// Handle a client-side tool call where there is no tracker, whatever its
/// arguments.
pub fn handle_tool_call(name: &str, _arguments: &Json) -> (r: Result<Json>)
    ensures
        match r {
            Ok(j) => name@ == "notion_query"@ && j.deep_view() == error_reply(
                "notion_query requires tracker context"@,
            ),
            Err(e) => name@ != "notion_query"@ && e is Agent && e.detail()
                == "unknown client tool: "@ + name@,
        },
{
    if str_eq(name, "notion_query") {
        Ok(reply_error("notion_query requires tracker context"))
    } else {
        Err(Error::Agent(cat2("unknown client tool: ", name)))
    }
}

/// The query that a tool call asks of the tracker.
pub fn tool_query(name: &str, arguments: &Json) -> (r: Result<String>)
    ensures
        match r {
            Ok(sql) => name@ == "notion_query"@ && arguments.deep_view().str_at("query"@) == Some(
                sql@,
            ),
            Err(e) => if name@ == "notion_query"@ {
                arguments.deep_view().str_at("query"@) is None && e is Agent && e.detail()
                    == "notion_query: missing 'query' argument"@
            } else {
                e is Agent && e.detail() == "unknown client tool: "@ + name@
            },
        },
{
    if str_eq(name, "notion_query") {
        match arguments.str_at("query") {
            Some(sql) => Ok(sql.to_owned()),
            None => Err(Error::Agent("notion_query: missing 'query' argument".to_owned())),
        }
    } else {
        Err(Error::Agent(cat2("unknown client tool: ", name)))
    }
}

/// The reply to a tool call while the tracker is not available.
pub fn tracker_unavailable() -> (r: Json)
    ensures
        r.deep_view() == error_reply("tracker not available"@),
{
    reply_error("tracker not available")
}

/// A reply that says what went wrong holds the message under "error".
pub proof fn law_error_reply_tells(message: Seq<char>)
    ensures
        error_reply(message).get("error"@) == Some(JsonView::Str(message)),
{
    reveal_with_fuel(crate::json::entry_from, 2);
}

} // verus!
