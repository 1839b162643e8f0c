//! What a running agent reports, message by message.
use vstd::prelude::*;
use vstd::string::*;
use crate::domain::session::{AgentEventKind, AgentEventKindView};
use crate::error::{Error, ErrorKind, Result};
use crate::json::{json_text, to_text, Json, JsonView};
use crate::text::{cat3, decimal, decimal_string, str_eq, truncate};
use crate::time::Duration;

verus! {

/// What a message of an agent comes to: reports, whether the agent now counts
/// as running, and how it ended, if it did.
#[derive(Debug)]
pub struct Turn {
    pub events: Vec<AgentEventKind>,
    pub running: bool,
    pub end: Option<Result<bool>>,
}

/// What a `Turn` holds.
#[verifier::ext_equal]
pub struct TurnView {
    pub events: Seq<AgentEventKindView>,
    pub running: bool,
    pub end: Option<std::result::Result<bool, (ErrorKind, Seq<char>)>>,
}

impl DeepView for Turn {
    type V = TurnView;

    open spec fn deep_view(&self) -> TurnView {
        TurnView {
            events: self.events.deep_view(),
            running: self.running,
            end: match self.end {
                Some(Ok(b)) => Some(Ok(b)),
                Some(Err(e)) => Some(Err(e.deep_view())),
                None => None,
            },
        }
    }
}

/// The first `n` characters of a text, or all where there are fewer.
pub open spec fn cut(s: Seq<char>, n: int) -> Seq<char> {
    if s.len() > n {
        s.take(n)
    } else {
        s
    }
}

/// The text under a key, or another where there is none.
pub open spec fn text_or(j: JsonView, key: Seq<char>, default: Seq<char>) -> Seq<char> {
    match j.str_at(key) {
        Some(s) => s,
        None => default,
    }
}

/// The report of a block of what an agent says: the start of a text, or a tool
/// call with the start of its input.
pub open spec fn block_event(block: JsonView) -> Option<AgentEventKindView> {
    let kind = text_or(block, "type"@, ""@);
    if kind == "text"@ {
        match block.str_at("text"@) {
            Some(t) => Some(AgentEventKindView::Text { text: cut(t, 300) }),
            None => None,
        }
    } else if kind == "tool_use"@ {
        let input = match block.get("input"@) {
            Some(v) => json_text(v),
            None => seq![],
        };
        Some(
            AgentEventKindView::ToolCall {
                name: text_or(block, "name"@, "unknown"@),
                arguments: cut(input, 200),
            },
        )
    } else {
        None
    }
}

/// The reports of the blocks of what an agent says, in order.
pub open spec fn block_events(blocks: Seq<JsonView>) -> Seq<AgentEventKindView>
    decreases blocks.len(),
{
    if blocks.len() == 0 {
        seq![]
    } else {
        let before = block_events(blocks.drop_last());
        match block_event(blocks.last()) {
            Some(e) => before.push(e),
            None => before,
        }
    }
}

/// How many turns a result message counts.
pub open spec fn turns_of(msg: JsonView) -> u64 {
    match msg.u64_at("num_turns"@) {
        Some(n) => n,
        None => 0,
    }
}

/// What a message of an agent comes to; `cost` is its cost in dollars, as
/// shown.
pub open spec fn turn_of(msg: JsonView, cost: Seq<char>) -> TurnView {
    let kind = text_or(msg, "type"@, ""@);
    let nothing = TurnView { events: seq![], running: false, end: None };
    if kind == "system"@ {
        if text_or(msg, "subtype"@, ""@) == "init"@ {
            TurnView {
                events: seq![AgentEventKindView::Status { status: "Agent initialized"@ }],
                running: true,
                end: None,
            }
        } else {
            nothing
        }
    } else if kind == "assistant"@ {
        match msg.get("message"@) {
            Some(message) => match message.array_at("content"@) {
                Some(blocks) => TurnView {
                    events: block_events(blocks),
                    running: false,
                    end: None,
                },
                None => nothing,
            },
            None => nothing,
        }
    } else if kind == "result"@ {
        let text = text_or(msg, "result"@, ""@);
        if msg.bool_at("is_error"@) == Some(true) {
            TurnView {
                events: seq![AgentEventKindView::Error { message: text }],
                running: false,
                end: Some(Err((ErrorKind::Agent, text))),
            }
        } else {
            TurnView {
                events: seq![
                    AgentEventKindView::TurnComplete { turn: turns_of(msg) as u32 },
                    AgentEventKindView::Status {
                        status: "Completed in "@ + decimal(turns_of(msg) as nat) + " turns ($"@
                            + cost + ")"@,
                    },
                ],
                running: false,
                end: Some(Ok(true)),
            }
        }
    } else {
        nothing
    }
}

/// The report of a tool call whose input has the given text.
pub fn tool_call(name: &str, input: &str) -> (r: AgentEventKind)
    ensures
        r.deep_view() == (AgentEventKindView::ToolCall { name: name@, arguments: cut(input@, 200) }),
{
    AgentEventKind::ToolCall { name: name.to_owned(), arguments: truncate(input, 200) }
}

fn read_block(block: &Json) -> (r: Option<AgentEventKind>)
    ensures
        r.deep_view() == block_event(block.deep_view()),
{
    let kind = block.str_or("type", "");
    if str_eq(kind, "text") {
        match block.str_at("text") {
            Some(t) => Some(AgentEventKind::Text { text: truncate(t, 300) }),
            None => None,
        }
    } else if str_eq(kind, "tool_use") {
        let name = block.str_or("name", "unknown");
        let input = match block.get("input") {
            Some(v) => to_text(v),
            None => String::new(),
        };
        Some(tool_call(name, input.as_str()))
    } else {
        None
    }
}

/// Take a message of an agent; `cost` is its cost in dollars, as shown.
pub fn on_message(msg: &Json, cost: &str) -> (r: Turn)
    ensures
        r.deep_view() == turn_of(msg.deep_view(), cost@),
{
    let kind = msg.str_or("type", "");
    let mut events: Vec<AgentEventKind> = Vec::new();
    assert(events.deep_view() =~= Seq::<AgentEventKindView>::empty());
    if str_eq(kind, "system") {
        if str_eq(msg.str_or("subtype", ""), "init") {
            events.push(AgentEventKind::Status { status: "Agent initialized".to_owned() });
            assert(events.deep_view() =~= turn_of(msg.deep_view(), cost@).events);
            return Turn { events, running: true, end: None };
        }
    } else if str_eq(kind, "assistant") {
        if let Some(message) = msg.get("message") {
            if let Some(blocks) = message.array_at("content") {
                let ghost bs = blocks.deep_view();
                let mut i: usize = 0;
                assert(events.deep_view() =~= block_events(bs.take(0)));
                while i < blocks.len()
                    invariant
                        i <= blocks@.len(),
                        bs == blocks.deep_view(),
                        events.deep_view() == block_events(bs.take(i as int)),
                    decreases blocks@.len() - i,
                {
                    assert(bs.take(i + 1).drop_last() =~= bs.take(i as int));
                    assert(bs[i as int] == blocks@[i as int].deep_view());
                    let ghost before = events.deep_view();
                    if let Some(e) = read_block(&blocks[i]) {
                        let ghost v = e.deep_view();
                        events.push(e);
                        assert(events.deep_view() =~= before.push(v));
                    }
                    i += 1;
                }
                assert(bs.take(i as int) =~= bs);
                return Turn { events, running: false, end: None };
            }
        }
    } else if str_eq(kind, "result") {
        let text = msg.str_or("result", "").to_owned();
        let failed = match msg.bool_at("is_error") {
            Some(b) => b,
            None => false,
        };
        if failed {
            events.push(AgentEventKind::Error { message: text.clone() });
            assert(events.deep_view() =~= turn_of(msg.deep_view(), cost@).events);
            return Turn { events, running: false, end: Some(Err(Error::Agent(text))) };
        }
        let turns: u64 = match msg.u64_at("num_turns") {
            Some(n) => n,
            None => 0,
        };
        let n = decimal_string(turns);
        let mut status = "Completed in ".to_owned();
        status.append(n.as_str());
        status.append(" turns ($");
        status.append(cost);
        status.append(")");
        events.push(AgentEventKind::TurnComplete { turn: turns as u32 });
        events.push(AgentEventKind::Status { status });
        assert(events.deep_view() =~= turn_of(msg.deep_view(), cost@).events);
        return Turn { events, running: false, end: Some(Ok(true)) };
    }
    Turn { events, running: false, end: None }
}

/// Take note that the agent's process has exited before it reported a result.
pub fn on_exit() -> (r: Turn)
    ensures
        r.deep_view() == (TurnView {
            events: seq![AgentEventKindView::Error { message: "agent process exited"@ }],
            running: false,
            end: Some(Err((ErrorKind::Agent, "agent process exited unexpectedly"@))),
        }),
{
    let mut events: Vec<AgentEventKind> = Vec::new();
    events.push(AgentEventKind::Error { message: "agent process exited".to_owned() });
    assert(events.deep_view() =~= seq![
        AgentEventKindView::Error { message: "agent process exited"@ },
    ]);
    Turn {
        events,
        running: false,
        end: Some(Err(Error::Agent("agent process exited unexpectedly".to_owned()))),
    }
}

/// How much longer an agent's session may take.
pub fn time_left(elapsed: Duration, limit: Duration) -> (r: Option<Duration>)
    ensures
        match r {
            Some(left) => elapsed.nanos + left.nanos == limit.nanos && left.nanos > 0,
            None => elapsed.nanos >= limit.nanos,
        },
{
    if elapsed.nanos < limit.nanos {
        Some(Duration { nanos: limit.nanos - elapsed.nanos })
    } else {
        None
    }
}

/// What is said of a session that took too long.
pub open spec fn timeout_message(limit: Duration) -> Seq<char> {
    "agent session timed out after "@ + decimal((limit.nanos as int / 1_000_000_000) as nat) + "s"@
}

/// Take note that an agent's session has taken as long as it may without a
/// result.
pub fn on_timeout(limit: Duration) -> (r: Turn)
    requires
        limit.nanos as int / 1_000_000_000 <= u64::MAX,
    ensures
        r.deep_view() == (TurnView {
            events: seq![AgentEventKindView::Error { message: timeout_message(limit) }],
            running: false,
            end: Some(Err((ErrorKind::Agent, timeout_message(limit)))),
        }),
{
    let secs = decimal_string(limit.as_secs() as u64);
    let message = cat3("agent session timed out after ", secs.as_str(), "s");
    let mut events: Vec<AgentEventKind> = Vec::new();
    events.push(AgentEventKind::Error { message: message.clone() });
    assert(events.deep_view() =~= seq![
        AgentEventKindView::Error { message: timeout_message(limit) },
    ]);
    Turn { events, running: false, end: Some(Err(Error::Agent(message))) }
}

/// Of what an agent says, only a result message ends its run.
pub proof fn law_only_results_end_runs(msg: JsonView, cost: Seq<char>)
    ensures
        turn_of(msg, cost).end is Some <==> text_or(msg, "type"@, ""@) == "result"@,
{
    reveal_strlit("result");
    reveal_strlit("system");
    reveal_strlit("assistant");
    assert("result"@[0] != "system"@[0]);
    assert("result"@[0] != "assistant"@[0]);
}

/// No report shows more than 300 characters of a text or 200 of a tool's input.
pub proof fn law_reports_are_short(blocks: Seq<JsonView>)
    ensures
        forall|i: int|
            0 <= i < block_events(blocks).len() ==> match #[trigger] block_events(blocks)[i] {
                AgentEventKindView::Text { text } => text.len() <= 300,
                AgentEventKindView::ToolCall { name, arguments } => arguments.len() <= 200,
                _ => false,
            },
    decreases blocks.len(),
{
    if blocks.len() > 0 {
        law_reports_are_short(blocks.drop_last());
    }
}

/// A text that is short enough is shown whole, and of a longer one the start.
pub proof fn law_cut_keeps_the_start(s: Seq<char>, n: int)
    requires
        n >= 0,
    ensures
        s.len() <= n ==> cut(s, n) == s,
        s.len() > n ==> cut(s, n).len() == n,
        s.len() > n ==> s == cut(s, n) + s.skip(n),
{
    if s.len() > n {
        assert(s =~= cut(s, n) + s.skip(n));
    }
}

/// A text under a key is taken as it is, and the other only where there is none.
pub proof fn law_text_or_default(j: JsonView, key: Seq<char>, text: Seq<char>, default: Seq<char>)
    ensures
        j.get(key) == Some(JsonView::Str(text)) ==> text_or(j, key, default) == text,
        j.get(key) is None ==> text_or(j, key, default) == default,
{
}

/// A text block is reported as its text, up to 300 characters of it; a tool call by the
/// tool's name and up to 200 characters of its input. Blocks of other kinds are not
/// reported.
pub proof fn law_blocks_reported(block: JsonView, kind: Seq<char>, text: Seq<char>, input: JsonView)
    requires
        block.get("type"@) == Some(JsonView::Str(kind)),
    ensures
        kind == "text"@ && block.get("text"@) == Some(JsonView::Str(text)) && text.len() <= 300
            ==> block_event(block) == Some(AgentEventKindView::Text { text }),
        kind == "text"@ && block.get("text"@) == Some(JsonView::Str(text)) && text.len() > 300
            ==> block_event(block) == Some(AgentEventKindView::Text { text: text.take(300) }),
        kind == "text"@ && block.get("text"@) is None ==> block_event(block) is None,
        kind == "tool_use"@ ==> block_event(block) is Some && block_event(block)->0 is ToolCall,
        kind == "tool_use"@ && block.get("name"@) == Some(JsonView::Str(text)) ==> block_event(
            block,
        )->0->ToolCall_name == text,
        kind == "tool_use"@ && block.get("name"@) is None ==> block_event(block)->0->ToolCall_name
            == "unknown"@,
        kind == "tool_use"@ && block.get("input"@) == Some(input) && json_text(input).len() <= 200
            ==> block_event(block)->0->ToolCall_arguments == json_text(input),
        kind == "tool_use"@ && block.get("input"@) == Some(input) && json_text(input).len() > 200
            ==> block_event(block)->0->ToolCall_arguments == json_text(input).take(200),
        kind != "text"@ && kind != "tool_use"@ ==> block_event(block) is None,
{
    reveal_strlit("text");
    reveal_strlit("tool_use");
    assert("text"@.len() == 4 && "tool_use"@.len() == 8);
}

/// Blocks are reported one by one and in order.
pub proof fn law_blocks_reported_in_order(
    a: Seq<JsonView>,
    b: Seq<JsonView>,
)
    ensures
        block_events(a + b) == block_events(a) + block_events(b),
        a.len() == 1 ==> block_events(a) == (match block_event(a[0]) {
            Some(e) => seq![e],
            None => seq![],
        }),
    decreases b.len(),
{
    if a.len() == 1 {
        assert(a.drop_last() =~= seq![]);
        reveal_with_fuel(block_events, 2);
        assert(a.last() == a[0]);
        assert(block_events(a) =~= (match block_event(a[0]) {
            Some(e) => seq![e],
            None => seq![],
        }));
    }
    if b.len() > 0 {
        law_blocks_reported_in_order(a, b.drop_last());
        assert((a + b).drop_last() =~= a + b.drop_last());
        assert(block_events(a + b) =~= block_events(a) + block_events(b));
    } else {
        assert(a + b =~= a);
        assert(block_events(a) + block_events(b) =~= block_events(a));
    }
}

/// A result that is marked as an error fails the run with its text, which is also
/// reported; any other result ends the run well.
pub proof fn law_result_ends_the_run(msg: JsonView, cost: Seq<char>, text: Seq<char>)
    requires
        msg.get("type"@) == Some(JsonView::Str("result"@)),
    ensures
        ({
            let t = turn_of(msg, cost);
            let failed = msg.get("is_error"@) == Some(JsonView::Bool(true));
            &&& !t.running
            &&& t.end is Some
            &&& t.end->0 is Err <==> failed
            &&& t.end->0 is Ok ==> t.end->0->Ok_0
            &&& failed && msg.get("result"@) == Some(JsonView::Str(text)) ==> t.end->0->Err_0 == (
                ErrorKind::Agent,
                text,
            ) && t.events == seq![AgentEventKindView::Error { message: text }]
            &&& !failed ==> t.events.len() == 2 && t.events[0] is TurnComplete && t.events[1] is Status
        }),
{
    reveal_strlit("result");
    reveal_strlit("system");
    reveal_strlit("assistant");
    assert("result"@[0] != "system"@[0]);
    assert("result"@[0] != "assistant"@[0]);
}

/// A good result reports how many turns the run took, none where it does not say, and
/// what they cost.
pub proof fn law_turns_reported(msg: JsonView, cost: Seq<char>, turns: u64)
    requires
        msg.get("type"@) == Some(JsonView::Str("result"@)),
        msg.get("is_error"@) != Some(JsonView::Bool(true)),
        msg.get("num_turns"@) is None && turns == 0 || (msg.get("num_turns"@) is Some && msg.get(
            "num_turns"@,
        )->0 is Number && msg.get("num_turns"@)->0->Number_0.unsigned == Some(turns)),
    ensures
        turn_of(msg, cost).events[0] == (AgentEventKindView::TurnComplete { turn: turns as u32 }),
        turn_of(msg, cost).events[1] == (AgentEventKindView::Status {
            status: "Completed in "@ + decimal(turns as nat) + " turns ($"@ + cost + ")"@,
        }),
{
    reveal_strlit("result");
    reveal_strlit("system");
    reveal_strlit("assistant");
    assert("result"@[0] != "system"@[0]);
    assert("result"@[0] != "assistant"@[0]);
}

/// What an agent says is reported block by block, and its first message of all says
/// that it runs; no other kind of message is reported or changes anything.
pub proof fn law_messages_by_kind(
    msg: JsonView,
    kind: Seq<char>,
    message: JsonView,
    blocks: Seq<JsonView>,
    cost: Seq<char>,
)
    requires
        msg.get("type"@) == Some(JsonView::Str(kind)),
    ensures
        ({
            let t = turn_of(msg, cost);
            let init = msg.get("subtype"@) == Some(JsonView::Str("init"@));
            &&& kind == "assistant"@ && msg.get("message"@) == Some(message) && message.get(
                "content"@,
            ) == Some(JsonView::Array(blocks)) ==> t.events == block_events(blocks) && !t.running
                && t.end is None
            &&& kind == "system"@ && init ==> t.running && t.end is None && t.events == seq![
                AgentEventKindView::Status { status: "Agent initialized"@ },
            ]
            &&& kind == "system"@ && !init ==> !t.running && t.end is None && t.events.len() == 0
            &&& kind != "system"@ && kind != "assistant"@ && kind != "result"@ ==> !t.running
                && t.end is None && t.events.len() == 0
            &&& t.running ==> kind == "system"@
        }),
{
    reveal_strlit("system");
    reveal_strlit("assistant");
    reveal_strlit("result");
    reveal_strlit("init");
    reveal_strlit("");
    assert("assistant"@[0] != "system"@[0] && "result"@[0] != "system"@[0] && "result"@[0]
        != "assistant"@[0]);
    assert(""@.len() == 0 && "init"@.len() == 4);
}

/// What is said of a session that took too long gives the limit in whole seconds.
pub proof fn law_timeout_told_in_seconds(limit: Duration)
    ensures
        timeout_message(limit) == "agent session timed out after "@ + decimal(
            (limit.nanos / 1_000_000_000) as nat,
        ) + "s"@,
{
}

} // verus!
