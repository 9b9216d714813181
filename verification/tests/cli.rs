use lean::cli::{
    CommandKind, can_skip_missing_default_config, credential_audit_path, load_config_for_run,
    resolve_provider_name, Cli, CliError, Commands, DoctorArgs, RunArgs,
};
use lean::config::{ConfigError, LeanConfig};

fn argv(parts: &[&str]) -> Vec<String> {
    parts.iter().map(|p| p.to_string()).collect()
}

#[test]
fn help_lists_expected_subcommands() {
    let help = Cli::long_help();

    for expected in ["run", "doctor", "list-skills", "list-agents"] {
        assert!(
            help.contains(expected),
            "top-level help should include {expected}"
        );
    }
}

#[test]
fn parser_accepts_global_options_and_run_args() {
    let cli = Cli::try_parse_from(argv(&[
        "lean",
        "--config",
        "fixtures/config/valid.yaml",
        "--json",
        "run",
        "--task",
        "noop",
        "--provider",
        "mock",
    ]))
    .expect("run command should parse");

    assert_eq!(cli.config, "fixtures/config/valid.yaml".to_string());
    assert!(cli.json);
    assert_eq!(
        cli.command,
        Commands::Run(RunArgs {
            task: "noop".to_string(),
            provider: Some("mock".to_string()),
        })
    );
}

#[test]
fn global_options_may_follow_the_command() {
    let cli = Cli::try_parse_from(argv(&[
        "lean", "run", "--provider", "mock", "--json", "--task", "noop",
    ]))
    .expect("global flag after the command should parse");

    assert!(cli.json);
    assert_eq!(cli.config, "lean.yaml");
    assert_eq!(
        cli.command,
        Commands::Run(RunArgs {
            task: "noop".to_string(),
            provider: Some("mock".to_string()),
        })
    );

    let cli = Cli::try_parse_from(argv(&["lean", "doctor", "--config=other.yaml"]))
        .expect("inline option value should parse");
    assert_eq!(cli.config, "other.yaml");
    assert!(!cli.json);
    assert_eq!(cli.command, Commands::Doctor(DoctorArgs {}));
}

#[test]
fn parser_reports_each_kind_of_refusal() {
    assert_eq!(
        Cli::try_parse_from(argv(&["lean"])),
        Err(CliError::MissingCommand)
    );
    assert_eq!(
        Cli::try_parse_from(argv(&["lean", "run"])),
        Err(CliError::MissingTask)
    );
    assert_eq!(
        Cli::try_parse_from(argv(&["lean", "deploy"])),
        Err(CliError::UnknownCommand("deploy".to_string()))
    );
    assert_eq!(
        Cli::try_parse_from(argv(&["lean", "doctor", "--task", "x"])),
        Err(CliError::UnexpectedArgument("--task".to_string()))
    );
    assert_eq!(
        Cli::try_parse_from(argv(&["lean", "run", "--task"])),
        Err(CliError::MissingValue("--task".to_string()))
    );
    assert_eq!(
        Cli::try_parse_from(argv(&["lean", "--help"])),
        Err(CliError::Help)
    );
    assert_eq!(
        Cli::try_parse_from(argv(&["lean", "list-agents", "-V"])),
        Err(CliError::Version)
    );
    assert_eq!(Cli::version_line(), "lean 0.1.0");
}

#[test]
fn missing_default_config_is_skipped_only_with_a_named_provider() {
    let missing = ConfigError::Read {
        path: "lean.yaml".to_string(),
        message: "No such file or directory (os error 2)".to_string(),
        not_found: true,
    };
    assert!(can_skip_missing_default_config(true, "lean.yaml", &missing));
    assert!(!can_skip_missing_default_config(false, "lean.yaml", &missing));
    assert!(!can_skip_missing_default_config(true, "other.yaml", &missing));
    assert!(!can_skip_missing_default_config(true, "./lean.yaml", &missing));

    let unreadable = ConfigError::Read {
        path: "lean.yaml".to_string(),
        message: "Permission denied (os error 13)".to_string(),
        not_found: false,
    };
    assert!(!can_skip_missing_default_config(true, "lean.yaml", &unreadable));

    assert_eq!(
        load_config_for_run(true, "lean.yaml", Err(missing)),
        Ok(None)
    );
    assert_eq!(
        load_config_for_run(false, "lean.yaml", Err(unreadable)),
        Err("failed to read config lean.yaml: Permission denied (os error 13)".to_string())
    );
}

#[test]
fn run_uses_named_provider_before_configured_default() {
    let config = LeanConfig::from_yaml_str(
        "project:\n  name: lean\n  root: .\nruntime:\n  default_provider: fake\nevents:\n  format: jsonl\n  audit_path: audit/run.jsonl\n",
    )
    .expect("config should load");
    assert_eq!(resolve_provider_name(Some("mock"), Some(&config)), "mock");
    assert_eq!(resolve_provider_name(None, Some(&config)), "fake");
    assert_eq!(credential_audit_path(Some(&config)), "audit/run.jsonl");
    assert_eq!(credential_audit_path(None), "target/lean-audit.jsonl");
}

#[test]
fn each_option_may_be_given_once() {
    assert_eq!(
        Cli::try_parse_from(argv(&["lean", "--config", "a.yaml", "doctor", "--config=b.yaml"])),
        Err(CliError::RepeatedArgument("--config".to_string()))
    );
    assert_eq!(
        Cli::try_parse_from(argv(&["lean", "--json", "run", "--task", "t", "--json"])),
        Err(CliError::RepeatedArgument("--json".to_string()))
    );
    let error = Cli::try_parse_from(argv(&["lean", "run", "--task", "a", "--task", "b"]))
        .expect_err("a repeated task should be refused");
    assert_eq!(error, CliError::RepeatedArgument("--task".to_string()));
    assert_eq!(
        error.message(),
        "the argument '--task' cannot be used multiple times"
    );
}

#[test]
fn help_names_the_command_it_is_asked_for() {
    let error = Cli::try_parse_from(argv(&["lean", "run", "--help"])).expect_err("help");
    assert_eq!(error, CliError::CommandHelp(CommandKind::Run));
    assert!(error.message().starts_with("Run a task through the configured agent harness"));
    assert!(error.message().contains("--task <TEXT>"));
    assert_eq!(
        Cli::try_parse_from(argv(&["lean", "help", "doctor"])),
        Err(CliError::CommandHelp(CommandKind::Doctor))
    );
    assert_eq!(
        Cli::try_parse_from(argv(&["lean", "help"])),
        Err(CliError::Help)
    );
    assert_eq!(
        Cli::try_parse_from(argv(&["lean", "help", "deploy"])),
        Err(CliError::UnknownCommand("deploy".to_string()))
    );
    assert_eq!(
        Cli::try_parse_from(argv(&["lean", "--help", "run"])),
        Err(CliError::Help)
    );
}
