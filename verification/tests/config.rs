use lean::config::{ConfigError, EventFormat, LeanConfig};

#[test]
fn parses_valid_config_fixture() {
    let config = LeanConfig::from_str_with_path(
        "project:\n  name: lean\n  root: .\nruntime:\n  default_provider: mock\n  max_turns: 12\nevents:\n  format: jsonl\n",
        "fixtures/config/valid.yaml".to_string(),
    )
    .expect("valid fixture should parse");

    assert_eq!(config.project.name, "lean");
    assert_eq!(config.runtime.default_provider, "mock");
    assert_eq!(config.runtime.max_turns, 12);
    assert_eq!(config.events.format, EventFormat::Jsonl);
    assert_eq!(config.events.audit_path, None);
    assert!(config.providers.is_empty());
    assert_eq!(config.commands.allowed, Vec::<Vec<String>>::new());
    assert_eq!(config.commands.env_allowlist, vec!["PATH".to_string()]);
    assert_eq!(config.workspace.worktree_root, None);
}

#[test]
fn parses_optional_audit_path() {
    let config = LeanConfig::from_yaml_str(
        r#"
project:
  name: lean
  root: .
runtime:
  default_provider: mock
events:
  format: jsonl
  audit_path: target/lean-audit.jsonl
"#,
    )
    .expect("config with audit path should parse");

    assert_eq!(
        config.events.audit_path,
        Some("target/lean-audit.jsonl".to_string())
    );
}

#[test]
fn rejects_invalid_config_fixture() {
    let error = LeanConfig::from_str_with_path(
        "project:\n  name: \"\"\n  root: .\nruntime:\n  default_provider: mock\nevents:\n  format: jsonl\n",
        "fixtures/config/invalid.yaml".to_string(),
    )
    .expect_err("invalid fixture should fail validation");

    assert!(
        matches!(error, ConfigError::Validation(_)),
        "invalid fixture should fail validation, got {error:?}"
    );
}

#[test]
fn rejects_unknown_fields() {
    let error = LeanConfig::from_yaml_str(
        r#"
project:
  name: lean
  root: .
runtime:
  default_provider: mock
events:
  format: jsonl
extra: value
"#,
    )
    .expect_err("unknown fields should fail parsing");

    assert!(
        matches!(error, ConfigError::Parse { .. }),
        "unknown field should be a parse error, got {error:?}"
    );
}

#[test]
fn parses_optional_worktree_root() {
    let config = LeanConfig::from_yaml_str(
        r#"
project:
  name: lean
  root: .
runtime:
  default_provider: mock
events:
  format: jsonl
workspace:
  worktree_root: ../.lean-worktrees
"#,
    )
    .expect("config with workspace root should parse");

    assert_eq!(
        config.workspace.worktree_root,
        Some("../.lean-worktrees".to_string())
    );
}

#[test]
fn rejects_empty_worktree_root() {
    let error = LeanConfig::from_yaml_str(
        r#"
project:
  name: lean
  root: .
runtime:
  default_provider: mock
events:
  format: jsonl
workspace:
  worktree_root: ""
"#,
    )
    .expect_err("empty workspace root should fail validation");

    assert!(
        matches!(error, ConfigError::Validation(_)),
        "empty workspace root should fail validation, got {error:?}"
    );
}

#[test]
fn parses_command_policy_config() {
    let config = LeanConfig::from_yaml_str(
        r#"
project:
  name: lean
  root: .
runtime:
  default_provider: mock
events:
  format: jsonl
commands:
  allowed:
    - ["cargo", "test"]
    - ["git", "status"]
  env_allowlist:
    - PATH
    - RUST_LOG
"#,
    )
    .expect("config with command policy should parse");

    assert_eq!(
        config.commands.allowed,
        vec![
            vec!["cargo".to_string(), "test".to_string()],
            vec!["git".to_string(), "status".to_string()],
        ]
    );
    assert_eq!(
        config.commands.env_allowlist,
        vec!["PATH".to_string(), "RUST_LOG".to_string()]
    );
}

#[test]
fn rejects_empty_command_prefixes() {
    let error = LeanConfig::from_yaml_str(
        r#"
project:
  name: lean
  root: .
runtime:
  default_provider: mock
events:
  format: jsonl
commands:
  allowed:
    - []
"#,
    )
    .expect_err("empty command prefixes should fail validation");

    assert!(
        matches!(error, ConfigError::Validation(_)),
        "empty command prefix should fail validation, got {error:?}"
    );
}

#[test]
fn rejects_empty_env_allowlist_entries() {
    let error = LeanConfig::from_yaml_str(
        r#"
project:
  name: lean
  root: .
runtime:
  default_provider: mock
events:
  format: jsonl
commands:
  env_allowlist:
    - ""
"#,
    )
    .expect_err("empty env allowlist entries should fail validation");

    assert!(
        matches!(error, ConfigError::Validation(_)),
        "empty env allowlist entry should fail validation, got {error:?}"
    );
}

#[test]
fn parses_real_provider_config() {
    let config = LeanConfig::from_yaml_str(
        r#"
project:
  name: lean
  root: .
runtime:
  default_provider: minimax
events:
  format: jsonl
providers:
  - name: minimax
    type: openai-compatible
    model: MiniMax-M2.7
    api_key_env: MINIMAX_API_KEY
    base_url: https://api.minimax.io/v1
"#,
    )
    .expect("config with real provider should parse");

    assert_eq!(config.providers.len(), 1);
    let provider = &config.providers[0];
    assert_eq!(provider.name, "minimax");
    assert_eq!(provider.model, "MiniMax-M2.7");
    assert_eq!(provider.api_key_env, "MINIMAX_API_KEY");
    assert_eq!(
        provider.base_url,
        Some("https://api.minimax.io/v1".to_string())
    );
}

#[test]
fn rejects_invalid_provider_config() {
    let error = LeanConfig::from_yaml_str(
        r#"
project:
  name: lean
  root: .
runtime:
  default_provider: bad
events:
  format: jsonl
providers:
  - name: bad
    type: openai-compatible
    model: ""
    api_key_env: "not-valid"
"#,
    )
    .expect_err("invalid provider config should fail validation");

    assert!(
        matches!(error, ConfigError::Validation(_)),
        "invalid provider config should fail validation, got {error:?}"
    );
}

#[test]
fn validation_reports_the_first_broken_rule() {
    let error = LeanConfig::from_yaml_str(
        "project:\n  name: lean\n  root: .\nruntime:\n  default_provider: mock\n  max_turns: 0\nevents:\n  format: jsonl\n",
    )
    .expect_err("zero turns should fail validation");
    assert_eq!(
        error,
        ConfigError::Validation("runtime.max_turns must be greater than zero".to_string())
    );
    assert_eq!(
        error.message(),
        "config validation failed: runtime.max_turns must be greater than zero"
    );

    let error = LeanConfig::from_yaml_str(
        "project:\n  name: lean\n  root: .\nruntime:\n  default_provider: mock\nevents:\n  format: jsonl\nproviders:\n  - name: mock\n    type: openai-compatible\n    model: m\n    api_key_env: KEY\n",
    )
    .expect_err("the reserved provider name should fail validation");
    assert_eq!(
        error,
        ConfigError::Validation(
            "providers.name must not use reserved provider name mock".to_string()
        )
    );
}

#[test]
fn defaults_fill_absent_optional_fields() {
    let config = LeanConfig::from_yaml_str(
        "project:\n  name: lean\n  root: .\nruntime:\n  default_provider: mock\nevents:\n  format: jsonl\n",
    )
    .expect("minimal config should parse");
    assert_eq!(config.runtime.max_turns, 20);
    assert_eq!(config.commands.env_allowlist, vec!["PATH".to_string()]);
}
