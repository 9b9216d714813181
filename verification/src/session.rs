//! The session loop: each run gets the next session id, asks the provider
//! once, and reports the session as a fixed sequence of JSONL events.
use vstd::prelude::*;
use vstd::string::*;
use crate::events::{
    EventView, Heartbeat, JsonlEvent, SessionError, SessionResult, SessionStarted, SessionStatus,
};
use crate::provider::{
    MOCK_PROVIDER_NAME, MockProvider, ModelProvider, ModelRequest, ModelResponse, PresetProvider,
    ProviderError, error_kind_text,
};
use crate::text::{lemma_zero_padded_value, zero_padded, zero_padded_string};

verus! {

#[derive(Debug, Clone, PartialEq, Eq)]
pub struct SessionRun {
    pub task: String,
}

#[derive(Debug)]
pub struct SessionRunner<P> {
    provider: P,
    next_session_number: u64,
}

/// The id of the session with the given number: `session-` and the number
/// zero-padded to four digits.
pub open spec fn session_id(n: nat) -> Seq<char> {
    "session-"@ + zero_padded(n, 4)
}

/// The message of a provider error.
pub open spec fn provider_error_text(e: ProviderError) -> Seq<char> {
    "provider "@ + e.provider@ + " failed: "@ + error_kind_text(e.kind)
}

/// The events of one session: it starts, beats once, and ends with the
/// provider's final message or with its error.
pub open spec fn session_events(
    id: Seq<char>,
    task: Seq<char>,
    provider: Seq<char>,
    outcome: Result<ModelResponse, ProviderError>,
) -> Seq<EventView> {
    seq![
        EventView::SessionStarted { session_id: id, task, provider },
        EventView::Heartbeat { session_id: id, sequence: 1 },
        match outcome {
            Ok(r) => EventView::SessionResult {
                session_id: id,
                status: SessionStatus::Success,
                message: r.final_message@,
            },
            Err(e) => EventView::SessionError {
                session_id: id,
                message: provider_error_text(e),
                recoverable: false,
            },
        },
    ]
}

pub open spec fn events_view(events: Seq<JsonlEvent>) -> Seq<EventView> {
    events.map_values(|e: JsonlEvent| e@)
}

/// The events of a session whose provider gave `outcome`.
pub fn session_events_for(
    session_id: &str,
    task: &str,
    provider: &str,
    outcome: Result<ModelResponse, ProviderError>,
) -> (events: Vec<JsonlEvent>)
    ensures
        events_view(events@) == session_events(session_id@, task@, provider@, outcome),
{
    let ghost expected = session_events(session_id@, task@, provider@, outcome);
    let mut events: Vec<JsonlEvent> = Vec::new();
    events.push(
        JsonlEvent::SessionStarted(
            SessionStarted {
                session_id: session_id.to_owned(),
                task: task.to_owned(),
                provider: provider.to_owned(),
            },
        ),
    );
    events.push(JsonlEvent::Heartbeat(Heartbeat { session_id: session_id.to_owned(), sequence: 1 }));
    match outcome {
        Ok(response) => {
            events.push(
                JsonlEvent::SessionResult(
                    SessionResult {
                        session_id: session_id.to_owned(),
                        status: SessionStatus::Success,
                        message: response.final_message,
                    },
                ),
            );
        },
        Err(error) => {
            events.push(
                JsonlEvent::SessionError(
                    SessionError {
                        session_id: session_id.to_owned(),
                        message: error.message(),
                        recoverable: false,
                    },
                ),
            );
        },
    }
    proof {
        assert(events_view(events@) =~= expected);
    }
    events
}

impl<P: ModelProvider> SessionRunner<P> {
    pub closed spec fn spec_provider(&self) -> P {
        self.provider
    }

    pub closed spec fn spec_next_session_number(&self) -> u64 {
        self.next_session_number
    }

    /// A runner whose first session is number 1.
    pub fn new(provider: P) -> (r: SessionRunner<P>)
        ensures
            r.spec_provider() == provider,
            r.spec_next_session_number() == 1,
    {
        SessionRunner { provider, next_session_number: 1 }
    }

    /// Runs one session: the next session id, one completion request with
    /// the task, and the session's events (see `session_events`), which name
    /// the provider and report the outcome of its completion.
    pub fn run(&mut self, run: SessionRun) -> (events: Vec<JsonlEvent>)
        requires
            old(self).spec_next_session_number() < u64::MAX,
        ensures
            final(self).spec_provider() == old(self).spec_provider(),
            final(self).spec_next_session_number() == old(self).spec_next_session_number() + 1,
            exists|outcome: Result<ModelResponse, ProviderError>|
                old(self).spec_provider().completes(ModelRequest { task: run.task }, outcome)
                    && events_view(events@) == #[trigger] session_events(
                    session_id(old(self).spec_next_session_number() as nat),
                    run.task@,
                    old(self).spec_provider().spec_name(),
                    outcome,
                ),
    {
        let id = self.next_session_id();
        let provider = self.provider.name().to_owned();
        let task = run.task.clone();
        let outcome = self.provider.complete(ModelRequest { task: run.task });
        let ghost witness = outcome;
        let events = session_events_for(id.as_str(), task.as_str(), provider.as_str(), outcome);
        proof {
            assert(old(self).spec_provider().completes(ModelRequest { task: run.task }, witness));
            assert(events_view(events@) == session_events(
                session_id(old(self).spec_next_session_number() as nat),
                run.task@,
                old(self).spec_provider().spec_name(),
                witness,
            ));
        }
        events
    }

    fn next_session_id(&mut self) -> (id: String)
        requires
            old(self).next_session_number < u64::MAX,
        ensures
            id@ == session_id(old(self).next_session_number as nat),
            final(self).next_session_number == old(self).next_session_number + 1,
            final(self).provider == old(self).provider,
    {
        let mut id = "session-".to_owned();
        let digits = zero_padded_string(self.next_session_number, 4);
        id.append(digits.as_str());
        self.next_session_number = self.next_session_number + 1;
        id
    }
}

/// Sessions with different numbers have different ids, so each run of a
/// runner (whose number grows by one per run) gets a fresh id.
pub proof fn lemma_session_ids_distinct(n: nat, m: nat)
    requires
        n != m,
    ensures
        session_id(n) != session_id(m),
{
    lemma_zero_padded_value(n, 4);
    lemma_zero_padded_value(m, 4);
    if session_id(n) == session_id(m) {
        let k = "session-"@.len();
        assert(zero_padded(n, 4) =~= session_id(n).skip(k as int));
        assert(zero_padded(m, 4) =~= session_id(m).skip(k as int));
    }
}

/// Every event of a session carries the session's id, and the events come
/// in the order started, heartbeat, then result or error.
pub proof fn lemma_session_events_shape(
    id: Seq<char>,
    task: Seq<char>,
    provider: Seq<char>,
    outcome: Result<ModelResponse, ProviderError>,
)
    ensures
        session_events(id, task, provider, outcome).len() == 3,
        session_events(id, task, provider, outcome)[0] is SessionStarted,
        session_events(id, task, provider, outcome)[1] is Heartbeat,
        outcome is Ok ==> session_events(id, task, provider, outcome)[2] is SessionResult,
        outcome is Err ==> session_events(id, task, provider, outcome)[2] is SessionError,
        forall|i: int|
            0 <= i < 3 ==> match #[trigger] session_events(id, task, provider, outcome)[i] {
                EventView::SessionStarted { session_id, .. } => session_id == id,
                EventView::Heartbeat { session_id, .. } => session_id == id,
                EventView::SessionResult { session_id, .. } => session_id == id,
                EventView::SessionError { session_id, .. } => session_id == id,
                EventView::CredentialAccessed { .. } => false,
            },
{
}

/// A run with the mock provider is fixed: it starts naming `mock`, beats
/// once, and ends in success with the mock's final message.
pub proof fn lemma_mock_run_events(
    mock: MockProvider,
    id: Seq<char>,
    task: Seq<char>,
    request: ModelRequest,
    outcome: Result<ModelResponse, ProviderError>,
)
    requires
        mock.completes(request, outcome),
    ensures
        session_events(id, task, mock.spec_name(), outcome) == seq![
            EventView::SessionStarted { session_id: id, task, provider: MOCK_PROVIDER_NAME@ },
            EventView::Heartbeat { session_id: id, sequence: 1 },
            EventView::SessionResult {
                session_id: id,
                status: SessionStatus::Success,
                message: mock.spec_final_message(),
            },
        ],
{
}

/// A run with a preset provider starts naming it and ends reporting its
/// preset answer.
pub proof fn lemma_preset_run_events(
    preset: PresetProvider,
    id: Seq<char>,
    task: Seq<char>,
    request: ModelRequest,
    outcome: Result<ModelResponse, ProviderError>,
)
    requires
        preset.completes(request, outcome),
    ensures
        session_events(id, task, preset.spec_name(), outcome) == session_events(
            id,
            task,
            preset.name@,
            preset.answer,
        ),
{
}

} // verus!
