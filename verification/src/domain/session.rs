//! Sessions: an agent at work on an issue.
use vstd::prelude::*;
use crate::time::Timestamp;

verus! {

/// How far a session or an attempt has come.
#[derive(Debug, Clone, Copy, PartialEq, Eq, Structural)]
pub enum RunStatus {
    Starting,
    Running,
    WaitingForTool,
    Completed,
    Failed,
    Stalled,
    Cancelled,
}

/// What an agent reported.
#[derive(Debug)]
pub enum AgentEventKind {
    Status { status: String },
    Text { text: String },
    ToolCall { name: String, arguments: String },
    Error { message: String },
    TurnComplete { turn: u32 },
}

/// What an `AgentEventKind` holds.
#[verifier::ext_equal]
pub enum AgentEventKindView {
    Status { status: Seq<char> },
    Text { text: Seq<char> },
    ToolCall { name: Seq<char>, arguments: Seq<char> },
    Error { message: Seq<char> },
    TurnComplete { turn: u32 },
}

impl DeepView for AgentEventKind {
    type V = AgentEventKindView;

    open spec fn deep_view(&self) -> AgentEventKindView {
        match self {
            AgentEventKind::Status { status } => AgentEventKindView::Status { status: status@ },
            AgentEventKind::Text { text } => AgentEventKindView::Text { text: text@ },
            AgentEventKind::ToolCall { name, arguments } => AgentEventKindView::ToolCall {
                name: name@,
                arguments: arguments@,
            },
            AgentEventKind::Error { message } => AgentEventKindView::Error { message: message@ },
            AgentEventKind::TurnComplete { turn } => AgentEventKindView::TurnComplete {
                turn: *turn,
            },
        }
    }
}

impl Clone for AgentEventKind {
    fn clone(&self) -> (r: Self)
        ensures
            r.deep_view() == self.deep_view(),
    {
        match self {
            AgentEventKind::Status { status } => AgentEventKind::Status { status: status.clone() },
            AgentEventKind::Text { text } => AgentEventKind::Text { text: text.clone() },
            AgentEventKind::ToolCall { name, arguments } => AgentEventKind::ToolCall {
                name: name.clone(),
                arguments: arguments.clone(),
            },
            AgentEventKind::Error { message } => AgentEventKind::Error { message: message.clone() },
            AgentEventKind::TurnComplete { turn } => AgentEventKind::TurnComplete { turn: *turn },
        }
    }
}

/// Something an agent reported, and when.
#[derive(Debug)]
pub struct AgentEvent {
    pub at: Timestamp,
    pub kind: AgentEventKind,
}

/// What a `AgentEvent` holds.
#[verifier::ext_equal]
pub struct AgentEventView {
    pub at: Timestamp,
    pub kind: AgentEventKindView,
}

impl DeepView for AgentEvent {
    type V = AgentEventView;

    open spec fn deep_view(&self) -> AgentEventView {
        AgentEventView {
            at: self.at,
            kind: self.kind.deep_view(),
        }
    }
}

impl Clone for AgentEvent {
    fn clone(&self) -> (r: Self)
        ensures
            r.deep_view() == self.deep_view(),
    {
        AgentEvent {
            at: self.at,
            kind: self.kind.clone(),
        }
    }
}

/// One try of an agent at an issue.
#[derive(Debug)]
pub struct RunAttempt {
    pub attempt_number: u32,
    pub started_at: Timestamp,
    pub finished_at: Option<Timestamp>,
    pub status: RunStatus,
    pub error: Option<String>,
    pub turns_used: u32,
}

/// What a `RunAttempt` holds.
#[verifier::ext_equal]
pub struct RunAttemptView {
    pub attempt_number: u32,
    pub started_at: Timestamp,
    pub finished_at: Option<Timestamp>,
    pub status: RunStatus,
    pub error: Option<Seq<char>>,
    pub turns_used: u32,
}

impl DeepView for RunAttempt {
    type V = RunAttemptView;

    open spec fn deep_view(&self) -> RunAttemptView {
        RunAttemptView {
            attempt_number: self.attempt_number,
            started_at: self.started_at,
            finished_at: self.finished_at,
            status: self.status,
            error: self.error.deep_view(),
            turns_used: self.turns_used,
        }
    }
}

impl Clone for RunAttempt {
    fn clone(&self) -> (r: Self)
        ensures
            r.deep_view() == self.deep_view(),
    {
        RunAttempt {
            attempt_number: self.attempt_number,
            started_at: self.started_at,
            finished_at: self.finished_at,
            status: self.status.clone(),
            error: self.error.clone(),
            turns_used: self.turns_used,
        }
    }
}

/// An agent at work on an issue.
#[derive(Debug)]
pub struct LiveSession {
    pub issue_id: String,
    pub thread_id: Option<String>,
    pub current_turn: u32,
    pub status: RunStatus,
    pub started_at: Timestamp,
    pub last_activity: Timestamp,
    pub attempts: Vec<RunAttempt>,
    /// What the agent reported, oldest first.
    pub events: Vec<AgentEvent>,
}

/// What a `LiveSession` holds.
#[verifier::ext_equal]
pub struct LiveSessionView {
    pub issue_id: Seq<char>,
    pub thread_id: Option<Seq<char>>,
    pub current_turn: u32,
    pub status: RunStatus,
    pub started_at: Timestamp,
    pub last_activity: Timestamp,
    pub attempts: Seq<RunAttemptView>,
    pub events: Seq<AgentEventView>,
}

impl DeepView for LiveSession {
    type V = LiveSessionView;

    open spec fn deep_view(&self) -> LiveSessionView {
        LiveSessionView {
            issue_id: self.issue_id@,
            thread_id: self.thread_id.deep_view(),
            current_turn: self.current_turn,
            status: self.status,
            started_at: self.started_at,
            last_activity: self.last_activity,
            attempts: self.attempts.deep_view(),
            events: self.events.deep_view(),
        }
    }
}

impl Clone for LiveSession {
    fn clone(&self) -> (r: Self)
        ensures
            r.deep_view() == self.deep_view(),
    {
        let r = LiveSession {
            issue_id: self.issue_id.clone(),
            thread_id: self.thread_id.clone(),
            current_turn: self.current_turn,
            status: self.status.clone(),
            started_at: self.started_at,
            last_activity: self.last_activity,
            attempts: self.attempts.clone(),
            events: self.events.clone(),
        };
        assert(r.attempts.deep_view() =~= self.attempts.deep_view());
        assert(r.events.deep_view() =~= self.events.deep_view());
        r
    }
}

impl LiveSession {
    /// A session that has just started.
    pub open spec fn is_new(&self, issue_id: Seq<char>, now: Timestamp) -> bool {
        &&& self.issue_id@ == issue_id
        &&& self.thread_id is None
        &&& self.current_turn == 0
        &&& self.status is Starting
        &&& self.started_at == now
        &&& self.last_activity == now
        &&& self.attempts@.len() == 0
        &&& self.events@.len() == 0
    }

    /// A session that starts at `now`.
    pub fn new(issue_id: String, now: Timestamp) -> (r: Self)
        ensures
            r.is_new(issue_id@, now),
    {
        LiveSession {
            issue_id,
            thread_id: None,
            current_turn: 0,
            status: RunStatus::Starting,
            started_at: now,
            last_activity: now,
            attempts: Vec::new(),
            events: Vec::new(),
        }
    }

    /// Record what the agent reported; it counts as activity.
    pub fn push_event(&mut self, event: AgentEvent)
        ensures
            final(self).events@ == old(self).events@.push(event),
            final(self).last_activity == event.at,
            final(self).issue_id == old(self).issue_id,
            final(self).thread_id == old(self).thread_id,
            final(self).current_turn == old(self).current_turn,
            final(self).status == old(self).status,
            final(self).started_at == old(self).started_at,
            final(self).attempts == old(self).attempts,
    {
        self.last_activity = event.at;
        self.events.push(event);
    }
}

/// A session that has just started is called by its issue, has no thread, no turns, no
/// attempts and no events, and was last active when it started.
pub proof fn law_new_session(session: LiveSession, issue_id: Seq<char>, now: Timestamp)
    requires
        session.is_new(issue_id, now),
    ensures
        session.issue_id@ == issue_id,
        session.thread_id is None,
        session.current_turn == 0,
        session.status is Starting,
        session.started_at == now,
        session.last_activity == now,
        session.attempts@.len() == 0,
        session.events@.len() == 0,
{
}

} // verus!
