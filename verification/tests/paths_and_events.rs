use lean::audit::{AuditError, AuditWriter};
use lean::events::{
    CredentialAccessed, Heartbeat, JsonlEvent, SessionError, SessionResult, SessionStarted,
    SessionStatus, CREDENTIAL_ACCESSED, HEARTBEAT, SESSION_ERROR, SESSION_RESULT,
    SESSION_STARTED,
};
use lean::paths::{components, file_name_of, join_path, normalize_path, path_starts_with_exec, PathComponent};

#[test]
fn events_report_stable_names() {
    let cases = [
        (
            JsonlEvent::SessionStarted(SessionStarted {
                session_id: "s1".to_string(),
                task: "noop".to_string(),
                provider: "mock".to_string(),
            }),
            SESSION_STARTED,
        ),
        (
            JsonlEvent::Heartbeat(Heartbeat {
                session_id: "s1".to_string(),
                sequence: 1,
            }),
            HEARTBEAT,
        ),
        (
            JsonlEvent::SessionResult(SessionResult {
                session_id: "s1".to_string(),
                status: SessionStatus::Success,
                message: "done".to_string(),
            }),
            SESSION_RESULT,
        ),
        (
            JsonlEvent::SessionError(SessionError {
                session_id: "s1".to_string(),
                message: "failed".to_string(),
                recoverable: false,
            }),
            SESSION_ERROR,
        ),
        (
            JsonlEvent::CredentialAccessed(CredentialAccessed {
                provider: "minimax".to_string(),
                env_var: "MINIMAX_API_KEY".to_string(),
            }),
            CREDENTIAL_ACCESSED,
        ),
    ];

    for (event, expected_name) in cases {
        assert_eq!(event.name(), expected_name);
    }
}

#[test]
fn paths_follow_std_path_rules() {
    for p in ["", "/", "a/b", "/a//b/", "./a/./b", "../x", "a/..", ".", "./", "//x/.."] {
        let expected: Vec<String> = std::path::Path::new(p)
            .components()
            .map(|c| c.as_os_str().to_string_lossy().to_string())
            .collect();
        let got: Vec<String> = components(p)
            .iter()
            .map(|c| match c {
                PathComponent::RootDir => "/".to_string(),
                PathComponent::CurDir => ".".to_string(),
                PathComponent::ParentDir => "..".to_string(),
                PathComponent::Normal(s) => s.clone(),
            })
            .collect();
        assert_eq!(got, expected, "components of {p:?}");
        assert_eq!(
            file_name_of(p),
            std::path::Path::new(p)
                .file_name()
                .map(|n| n.to_string_lossy().to_string()),
            "file name of {p:?}"
        );
    }
    for (base, p) in [("a", "b"), ("a/", "b"), ("", "b"), ("a", "/b"), ("/", "x")] {
        let expected = std::path::Path::new(base).join(p);
        assert_eq!(join_path(base, p), expected.to_string_lossy(), "{base:?} join {p:?}");
    }
    assert_eq!(normalize_path("/a/./b/../c/"), "/a/c");
    assert_eq!(normalize_path("a/../../b"), "b");
    assert!(path_starts_with_exec("/a/b/c", "/a/b"));
    assert!(path_starts_with_exec("/a/b", "/a/b/"));
    assert!(!path_starts_with_exec("/a/bc", "/a/b"));
}

#[test]
fn audit_parent_directory_is_created_when_needed() {
    assert_eq!(
        AuditWriter::new("target/audit/session.jsonl").parent_directory(),
        Some("target/audit".to_string())
    );
    assert_eq!(AuditWriter::new("session.jsonl").parent_directory(), None);
    assert_eq!(AuditWriter::new("./session.jsonl").parent_directory(), None);
    assert_eq!(AuditWriter::new("/").parent_directory(), None);
    assert_eq!(
        AuditWriter::new("/var/log/lean.jsonl").parent_directory(),
        Some("/var/log".to_string())
    );
    assert_eq!(AuditWriter::new("/x.jsonl").parent_directory(), Some("/".to_string()));
    assert_eq!(AuditWriter::new("a.jsonl").display_path(), "a.jsonl");
    assert_eq!(
        AuditError::Open {
            path: "a.jsonl".to_string(),
            message: "denied".to_string(),
        }
        .message(),
        "failed to open audit log a.jsonl: denied"
    );
}

#[test]
fn normalizing_a_normalized_path_changes_nothing() {
    assert_eq!(normalize_path("/tmp/src/../.lean-worktrees/./x"), "/tmp/.lean-worktrees/x");
    assert_eq!(normalize_path("/.."), "/");
    for p in ["/a/./b/../c/", "a/../../b", "./x/./y", "/..", "", ".", "../a/b/..", "/x//y/"] {
        let once = normalize_path(p);
        assert_eq!(normalize_path(&once), once, "{p:?}");
        for c in components(&once) {
            assert!(!matches!(c, PathComponent::CurDir | PathComponent::ParentDir), "{p:?}");
        }
    }
}
