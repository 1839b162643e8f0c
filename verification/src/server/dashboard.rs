//! The dashboard: a page that shows what runs and what is done.
use vstd::prelude::*;
use vstd::string::*;
use crate::domain::session::RunStatus;
use crate::domain::state::{
    CompletedEntry, CompletedEntryView, RunningEntry, RunningEntryView, StateSnapshot,
    StateSnapshotView,
};
use crate::text::{
    cat3, decimal, decimal_string, holds, lemma_holds, lemma_holds_grows, lemma_holds_last,
};
use crate::time::{format_utc, utc_text};

verus! {

/// What stands before the number of running sessions.
pub const PAGE_START: &'static str = r#"<!DOCTYPE html>
<html>
<head>
    <title>Symposium Dashboard</title>
    <meta charset="utf-8">
    <meta name="viewport" content="width=device-width, initial-scale=1">
    <style>
        body { font-family: -apple-system, BlinkMacSystemFont, "Segoe UI", Roboto, sans-serif; margin: 2rem; background: #f5f5f5; }
        h1 { color: #333; }
        h2 { color: #555; margin-top: 2rem; }
        table { border-collapse: collapse; width: 100%; background: white; border-radius: 8px; overflow: hidden; box-shadow: 0 1px 3px rgba(0,0,0,0.1); }
        th, td { padding: 0.75rem 1rem; text-align: left; border-bottom: 1px solid #eee; }
        th { background: #f8f9fa; font-weight: 600; color: #555; }
        .stats { display: flex; gap: 1rem; margin: 1rem 0; }
        .stat { background: white; padding: 1rem 1.5rem; border-radius: 8px; box-shadow: 0 1px 3px rgba(0,0,0,0.1); }
        .stat-value { font-size: 2rem; font-weight: bold; color: #333; }
        .stat-label { color: #888; font-size: 0.875rem; }
        .empty { color: #999; padding: 2rem; text-align: center; }
    </style>
</head>
<body>
    <h1>Symposium</h1>

    <div class="stats">
        <div class="stat">
            <div class="stat-value">"#;

/// What stands before the number of retries.
pub const BEFORE_RETRIES: &'static str = r#"</div>
            <div class="stat-label">Running</div>
        </div>
        <div class="stat">
            <div class="stat-value">"#;

/// What stands before the number of completed sessions.
pub const BEFORE_COMPLETED: &'static str = r#"</div>
            <div class="stat-label">Pending Retries</div>
        </div>
        <div class="stat">
            <div class="stat-value">"#;

/// What stands before the number of input tokens.
pub const BEFORE_INPUT: &'static str = r#"</div>
            <div class="stat-label">Completed</div>
        </div>
        <div class="stat">
            <div class="stat-value">"#;

/// What stands before the number of output tokens.
pub const BEFORE_OUTPUT: &'static str = " / ";

/// What stands before the running sessions.
pub const BEFORE_SESSIONS: &'static str = r#"</div>
            <div class="stat-label">Tokens (In / Out)</div>
        </div>
    </div>

    <h2>Running Sessions</h2>
    "#;

/// What stands before the completed sessions.
pub const BEFORE_HISTORY: &'static str = r#"

    <h2>Recently Completed</h2>
    "#;

/// What stands at the end of the page.
pub const PAGE_END: &'static str = r#"

    <script>setTimeout(() => location.reload(), 10000);</script>
</body>
</html>"#;

/// The name of a status.
pub open spec fn status_name(status: RunStatus) -> Seq<char> {
    match status {
        RunStatus::Starting => "Starting"@,
        RunStatus::Running => "Running"@,
        RunStatus::WaitingForTool => "WaitingForTool"@,
        RunStatus::Completed => "Completed"@,
        RunStatus::Failed => "Failed"@,
        RunStatus::Stalled => "Stalled"@,
        RunStatus::Cancelled => "Cancelled"@,
    }
}

/// A row of four cells.
pub open spec fn row(a: Seq<char>, b: Seq<char>, c: Seq<char>, d: Seq<char>) -> Seq<char> {
    "<tr><td>"@ + a + "</td><td>"@ + b + "</td><td>"@ + c + "</td><td>"@ + d + "</td></tr>"@
}

/// The row of a running session.
pub open spec fn running_row(entry: RunningEntryView) -> Seq<char> {
    row(
        entry.issue.identifier,
        entry.issue.title,
        status_name(entry.session.status),
        decimal(entry.session.current_turn as nat),
    )
}

/// The row of a completed session.
pub open spec fn completed_row(entry: CompletedEntryView) -> Seq<char> {
    row(
        entry.issue_id,
        if entry.success {
            "Success"@
        } else {
            "Failed"@
        },
        decimal(entry.attempts as nat),
        utc_text(
            entry.completed_at.secs,
            entry.completed_at.nanos,
            "%Y-%m-%d %H:%M:%S"@,
        ),
    )
}

/// The rows of running sessions, one after the other.
pub open spec fn running_rows(entries: Seq<RunningEntryView>) -> Seq<char>
    decreases entries.len(),
{
    if entries.len() == 0 {
        seq![]
    } else {
        running_rows(entries.drop_last()) + running_row(entries.last())
    }
}

/// The rows of completed sessions, one after the other.
pub open spec fn completed_rows(entries: Seq<CompletedEntryView>) -> Seq<char>
    decreases entries.len(),
{
    if entries.len() == 0 {
        seq![]
    } else {
        completed_rows(entries.drop_last()) + completed_row(entries.last())
    }
}

/// What the page shows of running sessions.
pub open spec fn running_table(entries: Seq<RunningEntryView>) -> Seq<char> {
    if entries.len() == 0 {
        "<div class=\"empty\">No running sessions</div>"@
    } else {
        "<table><tr><th>Issue</th><th>Title</th><th>Status</th><th>Turns</th></tr>"@ + running_rows(
            entries,
        ) + "</table>"@
    }
}

/// What the page shows of completed sessions.
pub open spec fn completed_table(entries: Seq<CompletedEntryView>) -> Seq<char> {
    if entries.len() == 0 {
        "<div class=\"empty\">No completed sessions yet</div>"@
    } else {
        "<table><tr><th>Issue</th><th>Result</th><th>Attempts</th><th>Completed</th></tr>"@
            + completed_rows(entries) + "</table>"@
    }
}

/// The page that shows a state.
pub open spec fn page(s: StateSnapshotView) -> Seq<char> {
    PAGE_START@ + decimal(s.running.len()) + BEFORE_RETRIES@ + decimal(s.retries.len())
        + BEFORE_COMPLETED@ + decimal(s.completed.len()) + BEFORE_INPUT@ + decimal(
        s.tokens.input_tokens as nat,
    ) + BEFORE_OUTPUT@ + decimal(s.tokens.output_tokens as nat) + BEFORE_SESSIONS@ + running_table(
        s.running,
    ) + BEFORE_HISTORY@ + completed_table(s.completed) + PAGE_END@
}

fn name_of(status: RunStatus) -> (r: String)
    ensures
        r@ == status_name(status),
{
    match status {
        RunStatus::Starting => "Starting".to_owned(),
        RunStatus::Running => "Running".to_owned(),
        RunStatus::WaitingForTool => "WaitingForTool".to_owned(),
        RunStatus::Completed => "Completed".to_owned(),
        RunStatus::Failed => "Failed".to_owned(),
        RunStatus::Stalled => "Stalled".to_owned(),
        RunStatus::Cancelled => "Cancelled".to_owned(),
    }
}

fn make_row(a: &str, b: &str, c: &str, d: &str) -> (r: String)
    ensures
        r@ == row(a@, b@, c@, d@),
{
    let mut s = "<tr><td>".to_owned();
    s.append(a);
    s.append("</td><td>");
    s.append(b);
    s.append("</td><td>");
    s.append(c);
    s.append("</td><td>");
    s.append(d);
    s.append("</td></tr>");
    s
}

fn make_running_table(entries: &Vec<RunningEntry>) -> (r: String)
    ensures
        r@ == running_table(entries.deep_view()),
{
    if entries.len() == 0 {
        return "<div class=\"empty\">No running sessions</div>".to_owned();
    }
    let ghost all = entries.deep_view();
    let mut rows = String::new();
    let mut i: usize = 0;
    while i < entries.len()
        invariant
            i <= entries@.len(),
            all == entries.deep_view(),
            rows@ == running_rows(all.take(i as int)),
        decreases entries@.len() - i,
    {
        assert(all.take(i + 1).drop_last() =~= all.take(i as int));
        let entry = &entries[i];
        assert(all[i as int] == entry.deep_view());
        let status = name_of(entry.session.status);
        let turn = decimal_string(entry.session.current_turn as u64);
        let line = make_row(
            entry.issue.identifier.as_str(),
            entry.issue.title.as_str(),
            status.as_str(),
            turn.as_str(),
        );
        rows.append(line.as_str());
        i += 1;
    }
    assert(all.take(i as int) =~= all);
    cat3(
        "<table><tr><th>Issue</th><th>Title</th><th>Status</th><th>Turns</th></tr>",
        rows.as_str(),
        "</table>",
    )
}

fn make_completed_table(entries: &Vec<CompletedEntry>) -> (r: String)
    requires
        forall|i: int| 0 <= i < entries@.len() ==> (#[trigger] entries@[i]).completed_at.in_calendar(),
    ensures
        r@ == completed_table(entries.deep_view()),
{
    if entries.len() == 0 {
        return "<div class=\"empty\">No completed sessions yet</div>".to_owned();
    }
    let ghost all = entries.deep_view();
    let mut rows = String::new();
    let mut i: usize = 0;
    while i < entries.len()
        invariant
            i <= entries@.len(),
            all == entries.deep_view(),
            rows@ == completed_rows(all.take(i as int)),
            forall|i: int|
                0 <= i < entries@.len() ==> (#[trigger] entries@[i]).completed_at.in_calendar(),
        decreases entries@.len() - i,
    {
        assert(all.take(i + 1).drop_last() =~= all.take(i as int));
        let entry = &entries[i];
        assert(all[i as int] == entry.deep_view());
        let result = if entry.success {
            "Success"
        } else {
            "Failed"
        };
        let attempts = decimal_string(entry.attempts as u64);
        let at = format_utc(entry.completed_at, "%Y-%m-%d %H:%M:%S");
        let line = make_row(entry.issue_id.as_str(), result, attempts.as_str(), at.as_str());
        rows.append(line.as_str());
        i += 1;
    }
    assert(all.take(i as int) =~= all);
    cat3(
        "<table><tr><th>Issue</th><th>Result</th><th>Attempts</th><th>Completed</th></tr>",
        rows.as_str(),
        "</table>",
    )
}

/// Render a simple HTML dashboard from the state snapshot.
pub fn render(snapshot: &StateSnapshot) -> (r: String)
    requires
        forall|i: int|
            0 <= i < snapshot.completed@.len() ==> (
            #[trigger] snapshot.completed@[i]).completed_at.in_calendar(),
    ensures
        r@ == page(snapshot.deep_view()),
{
    let running = decimal_string(snapshot.running.len() as u64);
    let retries = decimal_string(snapshot.retries.len() as u64);
    let completed = decimal_string(snapshot.completed.len() as u64);
    let tokens_in = decimal_string(snapshot.tokens.input_tokens);
    let tokens_out = decimal_string(snapshot.tokens.output_tokens);
    let sessions = make_running_table(&snapshot.running);
    let history = make_completed_table(&snapshot.completed);
    let mut s = PAGE_START.to_owned();
    s.append(running.as_str());
    s.append(BEFORE_RETRIES);
    s.append(retries.as_str());
    s.append(BEFORE_COMPLETED);
    s.append(completed.as_str());
    s.append(BEFORE_INPUT);
    s.append(tokens_in.as_str());
    s.append(BEFORE_OUTPUT);
    s.append(tokens_out.as_str());
    s.append(BEFORE_SESSIONS);
    s.append(sessions.as_str());
    s.append(BEFORE_HISTORY);
    s.append(history.as_str());
    s.append(PAGE_END);
    s
}

/// The name of a status is its own.
pub proof fn law_status_names()
    ensures
        status_name(RunStatus::Starting) == "Starting"@,
        status_name(RunStatus::Running) == "Running"@,
        status_name(RunStatus::WaitingForTool) == "WaitingForTool"@,
        status_name(RunStatus::Completed) == "Completed"@,
        status_name(RunStatus::Failed) == "Failed"@,
        status_name(RunStatus::Stalled) == "Stalled"@,
        status_name(RunStatus::Cancelled) == "Cancelled"@,
{
}

/// The row of a running session shows its issue, title, status and turn, in this order.
pub proof fn law_running_row_shows(entry: RunningEntryView)
    ensures
        running_row(entry) == "<tr><td>"@ + entry.issue.identifier + "</td><td>"@ + entry.issue.title
            + "</td><td>"@ + status_name(entry.session.status) + "</td><td>"@ + decimal(
            entry.session.current_turn as nat,
        ) + "</td></tr>"@,
{
}

/// The row of a finished session shows its key, whether it succeeded, its attempts and
/// when it ended, in this order.
pub proof fn law_completed_row_shows(entry: CompletedEntryView)
    ensures
        ({
            let at = utc_text(
                entry.completed_at.secs,
                entry.completed_at.nanos,
                "%Y-%m-%d %H:%M:%S"@,
            );
            let rest = "</td><td>"@ + decimal(entry.attempts as nat) + "</td><td>"@ + at
                + "</td></tr>"@;
            &&& entry.success ==> completed_row(entry) == "<tr><td>"@ + entry.issue_id
                + "</td><td>"@ + "Success"@ + rest
            &&& !entry.success ==> completed_row(entry) == "<tr><td>"@ + entry.issue_id
                + "</td><td>"@ + "Failed"@ + rest
        }),
{
    let at = utc_text(entry.completed_at.secs, entry.completed_at.nanos, "%Y-%m-%d %H:%M:%S"@);
    let rest = "</td><td>"@ + decimal(entry.attempts as nat) + "</td><td>"@ + at + "</td></tr>"@;
    let word = if entry.success {
        "Success"@
    } else {
        "Failed"@
    };
    assert(completed_row(entry) =~= "<tr><td>"@ + entry.issue_id + "</td><td>"@ + word + rest);
}

/// Each running session has its row, in order.
pub proof fn law_running_rows_in_order(
    a: Seq<RunningEntryView>,
    b: Seq<RunningEntryView>,
)
    ensures
        running_rows(a + b) == running_rows(a) + running_rows(b),
        a.len() == 1 ==> running_rows(a) == (running_row(a[0])),
    decreases b.len(),
{
    if a.len() == 1 {
        assert(a.drop_last() =~= seq![]);
        reveal_with_fuel(running_rows, 2);
        assert(a.last() == a[0]);
        assert(running_rows(a) =~= (running_row(a[0])));
    }
    if b.len() > 0 {
        law_running_rows_in_order(a, b.drop_last());
        assert((a + b).drop_last() =~= a + b.drop_last());
        assert(running_rows(a + b) =~= running_rows(a) + running_rows(b));
    } else {
        assert(a + b =~= a);
        assert(running_rows(a) + running_rows(b) =~= running_rows(a));
    }
}

/// Each finished session has its row, in order.
pub proof fn law_completed_rows_in_order(
    a: Seq<CompletedEntryView>,
    b: Seq<CompletedEntryView>,
)
    ensures
        completed_rows(a + b) == completed_rows(a) + completed_rows(b),
        a.len() == 1 ==> completed_rows(a) == (completed_row(a[0])),
    decreases b.len(),
{
    if a.len() == 1 {
        assert(a.drop_last() =~= seq![]);
        reveal_with_fuel(completed_rows, 2);
        assert(a.last() == a[0]);
        assert(completed_rows(a) =~= (completed_row(a[0])));
    }
    if b.len() > 0 {
        law_completed_rows_in_order(a, b.drop_last());
        assert((a + b).drop_last() =~= a + b.drop_last());
        assert(completed_rows(a + b) =~= completed_rows(a) + completed_rows(b));
    } else {
        assert(a + b =~= a);
        assert(completed_rows(a) + completed_rows(b) =~= completed_rows(a));
    }
}

/// Where there are sessions, a table holds their rows; where there are none, the page
/// says so.
pub proof fn law_tables_show_sessions(
    running: Seq<RunningEntryView>,
    completed: Seq<CompletedEntryView>,
)
    ensures
        running.len() > 0 ==> holds(running_table(running), running_rows(running) + "</table>"@),
        running.len() == 0 ==> running_table(running)
            == "<div class=\"empty\">No running sessions</div>"@,
        completed.len() > 0 ==> holds(
            completed_table(completed),
            completed_rows(completed) + "</table>"@,
        ),
        completed.len() == 0 ==> completed_table(completed)
            == "<div class=\"empty\">No completed sessions yet</div>"@,
{
    let none = Seq::<char>::empty();
    if running.len() > 0 {
        let head = "<table><tr><th>Issue</th><th>Title</th><th>Status</th><th>Turns</th></tr>"@;
        lemma_holds(running_table(running), head, running_rows(running) + "</table>"@, none);
    }
    if completed.len() > 0 {
        let head = "<table><tr><th>Issue</th><th>Result</th><th>Attempts</th><th>Completed</th></tr>"@;
        lemma_holds(completed_table(completed), head, completed_rows(completed) + "</table>"@, none);
    }
}

/// The page shows how many sessions run, wait to be tried again and are done, how many
/// tokens went in and out, and the sessions themselves, each in its own place.
pub proof fn law_page_shows_the_state(s: StateSnapshotView)
    ensures
        holds(page(s), PAGE_START@ + decimal(s.running.len())),
        holds(page(s), BEFORE_RETRIES@ + decimal(s.retries.len())),
        holds(page(s), BEFORE_COMPLETED@ + decimal(s.completed.len())),
        holds(page(s), BEFORE_INPUT@ + decimal(s.tokens.input_tokens as nat)),
        holds(page(s), BEFORE_OUTPUT@ + decimal(s.tokens.output_tokens as nat)),
        holds(page(s), BEFORE_SESSIONS@ + running_table(s.running)),
        holds(page(s), BEFORE_HISTORY@ + completed_table(s.completed)),
{
    let none = Seq::<char>::empty();
    let n1 = decimal(s.running.len());
    let n2 = decimal(s.retries.len());
    let n3 = decimal(s.completed.len());
    let n4 = decimal(s.tokens.input_tokens as nat);
    let n5 = decimal(s.tokens.output_tokens as nat);
    let n6 = running_table(s.running);
    let n7 = completed_table(s.completed);
    let p1 = PAGE_START@ + n1;
    let q2 = p1 + BEFORE_RETRIES@;
    let p2 = q2 + n2;
    let q3 = p2 + BEFORE_COMPLETED@;
    let p3 = q3 + n3;
    let q4 = p3 + BEFORE_INPUT@;
    let p4 = q4 + n4;
    let q5 = p4 + BEFORE_OUTPUT@;
    let p5 = q5 + n5;
    let q6 = p5 + BEFORE_SESSIONS@;
    let p6 = q6 + n6;
    let q7 = p6 + BEFORE_HISTORY@;
    let p7 = q7 + n7;
    assert(none + BEFORE_RETRIES@ =~= BEFORE_RETRIES@);
    assert(none + BEFORE_COMPLETED@ =~= BEFORE_COMPLETED@);
    assert(none + BEFORE_INPUT@ =~= BEFORE_INPUT@);
    assert(none + BEFORE_OUTPUT@ =~= BEFORE_OUTPUT@);
    assert(none + BEFORE_SESSIONS@ =~= BEFORE_SESSIONS@);
    assert(none + BEFORE_HISTORY@ =~= BEFORE_HISTORY@);
    lemma_holds(p1, none, p1, none);
    lemma_holds_last(p1, none, BEFORE_RETRIES@, n2);
    lemma_holds_last(p2, none, BEFORE_COMPLETED@, n3);
    lemma_holds_last(p3, none, BEFORE_INPUT@, n4);
    lemma_holds_last(p4, none, BEFORE_OUTPUT@, n5);
    lemma_holds_last(p5, none, BEFORE_SESSIONS@, n6);
    lemma_holds_last(p6, none, BEFORE_HISTORY@, n7);
    lemma_holds_grows(p1, BEFORE_RETRIES@);
    lemma_holds_grows(q2, n2);
    lemma_holds_grows(p2, BEFORE_COMPLETED@);
    lemma_holds_grows(q3, n3);
    lemma_holds_grows(p3, BEFORE_INPUT@);
    lemma_holds_grows(q4, n4);
    lemma_holds_grows(p4, BEFORE_OUTPUT@);
    lemma_holds_grows(q5, n5);
    lemma_holds_grows(p5, BEFORE_SESSIONS@);
    lemma_holds_grows(q6, n6);
    lemma_holds_grows(p6, BEFORE_HISTORY@);
    lemma_holds_grows(q7, n7);
    lemma_holds_grows(p7, PAGE_END@);
    assert(page(s) == p7 + PAGE_END@);
}

} // verus!
