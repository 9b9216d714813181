use lean::events::{
    Heartbeat, JsonlEvent, SessionError, SessionResult, SessionStarted, SessionStatus, HEARTBEAT,
    SESSION_ERROR, SESSION_RESULT, SESSION_STARTED,
};
use lean::provider::{
    MockProvider, ModelProvider, ModelRequest, ModelResponse, PresetProvider, ProviderError,
    ProviderErrorKind,
};
use lean::session::{session_events_for, SessionRun, SessionRunner};

#[test]
fn mock_run_loop_emits_stable_event_ordering() {
    let mut runner = SessionRunner::new(MockProvider::new("done"));
    let events = runner.run(SessionRun {
        task: "noop".to_string(),
    });

    let event_names = events.iter().map(JsonlEvent::name).collect::<Vec<_>>();
    assert_eq!(event_names, [SESSION_STARTED, HEARTBEAT, SESSION_RESULT]);

    assert_eq!(
        events,
        vec![
            JsonlEvent::SessionStarted(SessionStarted {
                session_id: "session-0001".to_string(),
                task: "noop".to_string(),
                provider: "mock".to_string(),
            }),
            JsonlEvent::Heartbeat(Heartbeat {
                session_id: "session-0001".to_string(),
                sequence: 1,
            }),
            JsonlEvent::SessionResult(SessionResult {
                session_id: "session-0001".to_string(),
                status: SessionStatus::Success,
                message: "done".to_string(),
            }),
        ]
    );
}

fn failing_provider() -> PresetProvider {
    PresetProvider::new(
        "broken",
        Err(ProviderError {
            provider: "broken".to_string(),
            kind: ProviderErrorKind::HttpStatus { status_code: 503 },
        }),
    )
}

#[test]
fn each_run_gets_the_next_session_id_and_errors_end_the_session() {
    let mut runner = SessionRunner::new(failing_provider());
    let first = runner.run(SessionRun {
        task: "a".to_string(),
    });
    let second = runner.run(SessionRun {
        task: "b".to_string(),
    });

    assert_eq!(first[2].name(), SESSION_ERROR);
    assert_eq!(
        second[2],
        JsonlEvent::SessionError(SessionError {
            session_id: "session-0002".to_string(),
            message: "provider broken failed: HTTP request failed with status 503".to_string(),
            recoverable: false,
        })
    );
}

#[test]
fn session_ids_grow_past_four_digits() {
    let events = session_events_for(
        "session-12345",
        "t",
        "mock",
        Ok(ModelResponse {
            final_message: "m".to_string(),
        }),
    );
    assert_eq!(events.len(), 3);
    assert_eq!(
        events[1],
        JsonlEvent::Heartbeat(Heartbeat {
            session_id: "session-12345".to_string(),
            sequence: 1,
        })
    );
}

#[test]
fn a_preset_provider_is_named_as_given_and_answers_every_request_alike() {
    let provider = PresetProvider::new(
        "remote",
        Ok(ModelResponse {
            final_message: "answered".to_string(),
        }),
    );
    assert_eq!(provider.name(), "remote");
    let request = ModelRequest {
        task: "anything".to_string(),
    };
    assert_eq!(
        provider.complete(request),
        Ok(ModelResponse {
            final_message: "answered".to_string(),
        })
    );
    let mut runner = SessionRunner::new(provider);
    let events = runner.run(SessionRun {
        task: "t".to_string(),
    });
    assert_eq!(
        events[0],
        JsonlEvent::SessionStarted(SessionStarted {
            session_id: "session-0001".to_string(),
            task: "t".to_string(),
            provider: "remote".to_string(),
        })
    );
    assert_eq!(
        events[2],
        JsonlEvent::SessionResult(SessionResult {
            session_id: "session-0001".to_string(),
            status: SessionStatus::Success,
            message: "answered".to_string(),
        })
    );
}
