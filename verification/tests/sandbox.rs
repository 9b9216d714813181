use lean::config::CommandConfig;
use lean::sandbox::{CommandPolicy, CommandPolicyError, SandboxError, SandboxRunner};

fn argv<const N: usize>(parts: [&str; N]) -> Vec<String> {
    parts.into_iter().map(ToString::to_string).collect()
}

fn prefixes(list: &[&[&str]]) -> Vec<Vec<String>> {
    list.iter()
        .map(|p| p.iter().map(|s| s.to_string()).collect())
        .collect()
}

#[test]
fn policy_permits_configured_argv_prefixes() {
    let policy = CommandPolicy::from_argv_prefixes(&prefixes(&[&["cargo", "test"], &["git", "status"]]))
        .expect("policy should build");

    assert!(
        policy
            .check(&argv(["cargo", "test", "--", "filter"]))
            .is_ok()
    );
    assert!(policy.check(&argv(["git", "status", "--short"])).is_ok());
}

#[test]
fn policy_rejects_empty_commands_and_empty_prefixes() {
    let policy = CommandPolicy::from_argv_prefixes(&prefixes(&[&["cargo"]])).expect("policy should build");
    assert!(matches!(
        policy.check(&Vec::new()),
        Err(CommandPolicyError::EmptyCommand)
    ));

    assert!(matches!(
        CommandPolicy::from_argv_prefixes(&vec![Vec::<String>::new()]),
        Err(CommandPolicyError::EmptyPrefix)
    ));
}

#[test]
fn policy_rejects_denied_prefixes() {
    let policy = CommandPolicy::from_argv_prefixes(&prefixes(&[&["cargo", "test"]]))
        .expect("policy should build");

    let error = policy
        .check(&argv(["cargo", "run"]))
        .expect_err("unconfigured prefix should fail");

    assert!(
        matches!(error, CommandPolicyError::NotAllowed { .. }),
        "denied prefix should fail with policy error, got {error:?}"
    );
}

#[test]
fn policy_rejects_shell_wrappers_and_interpreter_one_liners() {
    let policy = CommandPolicy::from_argv_prefixes(&prefixes(&[
        &["bash"],
        &["python", "-c"],
        &["perl", "-e"],
        &["ruby", "-e"],
        &["node", "-e"],
        &["env"],
    ]))
    .expect("policy should build");

    for denied in [
        argv(["bash", "-c", "echo no"]),
        argv(["/bin/sh", "-c", "echo no"]),
        argv(["zsh", "-c", "echo no"]),
        argv(["python", "-c", "print(1)"]),
        argv(["python3", "-c", "print(1)"]),
        argv(["perl", "-e", "print 1"]),
        argv(["ruby", "-e", "puts 1"]),
        argv(["node", "--eval", "console.log(1)"]),
        argv(["env", "cargo", "test"]),
    ] {
        assert!(
            matches!(
                policy.check(&denied),
                Err(CommandPolicyError::WrapperRejected { .. })
            ),
            "wrapper command should be rejected: {denied:?}"
        );
    }
}

#[test]
fn wrapper_refusals_name_the_program_and_reason() {
    let policy = CommandPolicy::from_argv_prefixes(&Vec::new()).expect("empty policy builds");
    assert_eq!(
        policy.check(&argv(["/usr/bin/python3", "-c", "1"])),
        Err(CommandPolicyError::WrapperRejected {
            program: "python3".to_string(),
            reason: "interpreter one-liners are not allowed".to_string(),
        })
    );
    assert_eq!(
        policy.check(&argv(["xargs", "rm"])),
        Err(CommandPolicyError::WrapperRejected {
            program: "xargs".to_string(),
            reason: "exec-smuggling helpers are not allowed".to_string(),
        })
    );
    assert_eq!(
        policy.check(&argv(["python3", "script.py"])),
        Err(CommandPolicyError::NotAllowed {
            argv: argv(["python3", "script.py"]),
        })
    );
    assert!(matches!(
        CommandPolicy::from_argv_prefixes(&prefixes(&[&["cargo", " "]])),
        Err(CommandPolicyError::EmptyPrefixPart)
    ));
}

#[test]
fn runner_fails_before_policy_when_workspace_is_missing() {
    let policy = CommandPolicy::from_argv_prefixes(&prefixes(&[&["rustc", "--version"]]))
        .expect("policy should build");
    let runner = SandboxRunner::new("/tmp/missing", policy);

    let error = runner
        .prepare(&argv(["rustc", "--version"]), false)
        .expect_err("missing workspace should fail before execution");

    assert!(
        matches!(error, SandboxError::WorkspaceUnavailable { .. }),
        "missing workspace should fail with startup error, got {error:?}"
    );
}

#[test]
fn runner_builds_from_configured_policy() {
    let config = CommandConfig {
        allowed: vec![vec!["rustc".to_string(), "--version".to_string()]],
        env_allowlist: vec!["PATH".to_string(), "HOME".to_string()],
    };
    let runner = SandboxRunner::from_config("/w", &config).expect("runner should build");
    assert_eq!(runner.workspace(), "/w");

    let command = runner
        .prepare(&argv(["rustc", "--version"]), true)
        .expect("configured command should be allowed");
    assert_eq!(command.program, "rustc");
    assert_eq!(command.args, argv(["--version"]));
    assert_eq!(command.cwd, "/w");
    assert_eq!(command.env_allowlist, argv(["PATH", "HOME"]));

    assert!(matches!(
        runner.prepare(&argv(["cargo", "build"]), true),
        Err(SandboxError::Policy(CommandPolicyError::NotAllowed { .. }))
    ));
}
