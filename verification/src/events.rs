//! The JSONL event vocabulary that a session emits.
use vstd::prelude::*;

verus! {

pub const SESSION_STARTED: &'static str = "session.started";
pub const HEARTBEAT: &'static str = "heartbeat";
pub const SESSION_RESULT: &'static str = "session.result";
pub const SESSION_ERROR: &'static str = "session.error";
pub const CREDENTIAL_ACCESSED: &'static str = "credential.accessed";

#[derive(Debug, Clone, PartialEq, Eq)]
pub enum JsonlEvent {
    SessionStarted(SessionStarted),
    Heartbeat(Heartbeat),
    SessionResult(SessionResult),
    SessionError(SessionError),
    CredentialAccessed(CredentialAccessed),
}

#[derive(Debug, Clone, PartialEq, Eq)]
pub struct SessionStarted {
    pub session_id: String,
    pub task: String,
    pub provider: String,
}

#[derive(Debug, Clone, PartialEq, Eq)]
pub struct Heartbeat {
    pub session_id: String,
    pub sequence: u64,
}

#[derive(Debug, Clone, PartialEq, Eq)]
pub struct SessionResult {
    pub session_id: String,
    pub status: SessionStatus,
    pub message: String,
}

#[derive(Debug, Clone, PartialEq, Eq)]
pub struct SessionError {
    pub session_id: String,
    pub message: String,
    pub recoverable: bool,
}

#[derive(Debug, Clone, PartialEq, Eq)]
pub struct CredentialAccessed {
    pub provider: String,
    pub env_var: String,
}

#[derive(Debug, Clone, Copy, PartialEq, Eq, Structural)]
pub enum SessionStatus {
    Success,
    Failed,
}

/// An event with its text fields seen as character sequences.
pub enum EventView {
    SessionStarted { session_id: Seq<char>, task: Seq<char>, provider: Seq<char> },
    Heartbeat { session_id: Seq<char>, sequence: u64 },
    SessionResult { session_id: Seq<char>, status: SessionStatus, message: Seq<char> },
    SessionError { session_id: Seq<char>, message: Seq<char>, recoverable: bool },
    CredentialAccessed { provider: Seq<char>, env_var: Seq<char> },
}

impl View for JsonlEvent {
    type V = EventView;

    open spec fn view(&self) -> EventView {
        match self {
            JsonlEvent::SessionStarted(e) => EventView::SessionStarted {
                session_id: e.session_id@,
                task: e.task@,
                provider: e.provider@,
            },
            JsonlEvent::Heartbeat(e) => EventView::Heartbeat {
                session_id: e.session_id@,
                sequence: e.sequence,
            },
            JsonlEvent::SessionResult(e) => EventView::SessionResult {
                session_id: e.session_id@,
                status: e.status,
                message: e.message@,
            },
            JsonlEvent::SessionError(e) => EventView::SessionError {
                session_id: e.session_id@,
                message: e.message@,
                recoverable: e.recoverable,
            },
            JsonlEvent::CredentialAccessed(e) => EventView::CredentialAccessed {
                provider: e.provider@,
                env_var: e.env_var@,
            },
        }
    }
}

/// The stable wire name of each kind of event.
pub open spec fn event_name(e: EventView) -> Seq<char> {
    match e {
        EventView::SessionStarted { .. } => SESSION_STARTED@,
        EventView::Heartbeat { .. } => HEARTBEAT@,
        EventView::SessionResult { .. } => SESSION_RESULT@,
        EventView::SessionError { .. } => SESSION_ERROR@,
        EventView::CredentialAccessed { .. } => CREDENTIAL_ACCESSED@,
    }
}

impl JsonlEvent {
    /// The event's wire name, which is the `event` tag of its JSON line.
    pub fn name(&self) -> (name: &'static str)
        ensures
            name@ == event_name(self@),
    {
        match self {
            JsonlEvent::SessionStarted(_) => SESSION_STARTED,
            JsonlEvent::Heartbeat(_) => HEARTBEAT,
            JsonlEvent::SessionResult(_) => SESSION_RESULT,
            JsonlEvent::SessionError(_) => SESSION_ERROR,
            JsonlEvent::CredentialAccessed(_) => CREDENTIAL_ACCESSED,
        }
    }
}

/// Distinct kinds of event carry distinct wire names, so a reader can tell
/// every kind apart by its `event` tag alone.
pub proof fn lemma_event_names_distinct(a: EventView, b: EventView)
    requires
        event_name(a) == event_name(b),
    ensures
        (a is SessionStarted) == (b is SessionStarted),
        (a is Heartbeat) == (b is Heartbeat),
        (a is SessionResult) == (b is SessionResult),
        (a is SessionError) == (b is SessionError),
        (a is CredentialAccessed) == (b is CredentialAccessed),
{
    reveal_strlit("session.started");
    reveal_strlit("heartbeat");
    reveal_strlit("session.result");
    reveal_strlit("session.error");
    reveal_strlit("credential.accessed");
    assert(SESSION_STARTED@.len() == 15);
    assert(HEARTBEAT@.len() == 9);
    assert(SESSION_RESULT@.len() == 14);
    assert(SESSION_ERROR@.len() == 13);
    assert(CREDENTIAL_ACCESSED@.len() == 19);
}

} // verus!
