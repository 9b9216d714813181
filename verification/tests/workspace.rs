use lean::workspace::{git_run_outcome, GitWorktreeManager, SessionWorkspace, WorkspaceError};

fn source() -> Result<String, String> {
    Ok("/tmp/t/source".to_string())
}

#[test]
fn workspace_uses_deterministic_session_path() {
    let workspace = SessionWorkspace::new(
        "session-0001".to_string(),
        "/tmp/t/source",
        source(),
        Some("/tmp/t/worktrees"),
    )
    .expect("workspace should build");

    assert_eq!(workspace.session_id(), "session-0001");
    assert_eq!(workspace.source_root(), "/tmp/t/source");
    assert_eq!(workspace.worktree_root(), "/tmp/t/worktrees");
    assert_eq!(workspace.path(), "/tmp/t/worktrees/session-0001");
}

#[test]
fn default_worktree_root_is_outside_source_root() {
    let workspace = SessionWorkspace::new("session-0001".to_string(), "/tmp/t/source", source(), None)
        .expect("workspace should build");

    assert_eq!(workspace.worktree_root(), "/tmp/t/.lean-worktrees/source");
}

#[test]
fn rejects_worktree_root_inside_source_root() {
    let error = SessionWorkspace::new(
        "session-0001".to_string(),
        "/tmp/t/source",
        source(),
        Some("/tmp/t/source/target"),
    )
    .expect_err("nested worktree roots should be rejected");

    assert!(
        matches!(error, WorkspaceError::WorktreeRootInsideSource { .. }),
        "nested root should fail with containment error, got {error:?}"
    );

    let error = SessionWorkspace::new("session-0001".to_string(), "/tmp/t/source", source(), Some("."))
        .expect_err("the source root itself should be rejected");
    assert!(matches!(error, WorkspaceError::WorktreeRootInsideSource { .. }));
}

#[test]
fn rejects_invalid_session_id() {
    let error = SessionWorkspace::new(
        "../escape".to_string(),
        "/tmp/t/source",
        source(),
        Some("/tmp/t/worktrees"),
    )
    .expect_err("path-like session id should be rejected");

    assert!(
        matches!(error, WorkspaceError::InvalidSessionId(_)),
        "invalid session id should fail, got {error:?}"
    );
    assert_eq!(
        SessionWorkspace::new(String::new(), "/tmp/t/source", source(), None),
        Err(WorkspaceError::EmptySessionId)
    );
    assert_eq!(
        SessionWorkspace::new("..".to_string(), "/tmp/t/source", source(), None),
        Err(WorkspaceError::InvalidSessionId("..".to_string()))
    );
}

#[test]
fn relative_worktree_roots_are_taken_from_the_source_root() {
    let workspace = SessionWorkspace::new(
        "s1".to_string(),
        "/tmp/t/source",
        source(),
        Some("../.lean-worktrees/./x/.."),
    )
    .expect("relative root should build");
    assert_eq!(workspace.worktree_root(), "/tmp/t/.lean-worktrees");
    assert_eq!(workspace.path(), "/tmp/t/.lean-worktrees/s1");

    assert_eq!(
        SessionWorkspace::new("s1".to_string(), "/tmp/t/source", source(), Some("")),
        Err(WorkspaceError::EmptyWorktreeRoot)
    );
    assert_eq!(
        SessionWorkspace::new("s1".to_string(), "src", Err("No such file".to_string()), None),
        Err(WorkspaceError::ResolveSource {
            path: "src".to_string(),
            message: "No such file".to_string(),
        })
    );
    assert_eq!(
        SessionWorkspace::new("s1".to_string(), "/", Ok("/".to_string()), None),
        Err(WorkspaceError::WorktreeRootInsideSource {
            source_root: "/".to_string(),
            worktree_root: "/.lean-worktrees/project".to_string(),
        })
    );
}

#[test]
fn git_plan_uses_explicit_argv() {
    let workspace = SessionWorkspace::new(
        "session-0001".to_string(),
        "/tmp/t/source",
        source(),
        Some("/tmp/t/worktrees"),
    )
    .expect("workspace should build");

    let plan = workspace.git_plan();
    let add = plan.add_command();
    assert_eq!(add.program, "git");
    assert_eq!(
        add.args,
        vec![
            "worktree",
            "add",
            "--detach",
            workspace.path(),
            "HEAD",
        ]
    );
    assert_eq!(add.cwd, workspace.source_root());

    let remove = plan.remove_command();
    assert_eq!(remove.program, "git");
    assert_eq!(
        remove.args,
        vec!["worktree", "remove", "--force", workspace.path()]
    );

    let manager = GitWorktreeManager;
    let (dir, command) = manager.create(&workspace);
    assert_eq!(dir, "/tmp/t/worktrees");
    assert_eq!(command, add);
    assert_eq!(manager.remove(&workspace, false), None);
    assert_eq!(manager.remove(&workspace, true), Some(remove));
}

#[test]
fn git_failures_carry_status_and_trimmed_stderr() {
    assert_eq!(git_run_outcome("add", true, "exit status: 0".to_string(), ""), Ok(()));
    let error = git_run_outcome("add", false, "exit status: 128".to_string(), "fatal: bad\n")
        .expect_err("failed git should be an error");
    assert_eq!(
        error.message(),
        "git worktree add failed with status exit status: 128: fatal: bad"
    );
}
