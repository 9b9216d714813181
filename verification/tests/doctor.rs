use lean::config::{ConfigError, LeanConfig};
use lean::doctor::{run_doctor, DoctorCheckStatus};

const VALID: &str =
    "project:\n  name: lean\n  root: .\nruntime:\n  default_provider: mock\n  max_turns: 12\nevents:\n  format: jsonl\n";
const INVALID: &str =
    "project:\n  name: \"\"\n  root: .\nruntime:\n  default_provider: mock\nevents:\n  format: jsonl\n";

fn load(path: &str, contents: &str) -> Result<LeanConfig, ConfigError> {
    LeanConfig::from_str_with_path(contents, path.to_string())
}

#[test]
fn valid_config_produces_success_report() {
    let path = "fixtures/config/valid.yaml";
    let report = run_doctor(path, load(path, VALID));

    assert!(report.ok);
    assert_eq!(report.diagnostics, []);
    assert_eq!(report.checks[0].status, DoctorCheckStatus::Pass);
    assert_eq!(report.checks[1].message, "default provider 'mock' is configured");
}

#[test]
fn invalid_config_produces_structured_diagnostic() {
    let path = "fixtures/config/invalid.yaml";
    let report = run_doctor(path, load(path, INVALID));

    assert!(!report.ok);
    assert_eq!(report.checks[0].status, DoctorCheckStatus::Fail);
    assert_eq!(report.diagnostics[0].code, "config_validation_failed");
}

#[test]
fn unreadable_and_unparsable_configs_have_their_own_codes() {
    let missing = ConfigError::Read {
        path: "missing.yaml".to_string(),
        message: "No such file or directory (os error 2)".to_string(),
        not_found: true,
    };
    let report = run_doctor("missing.yaml", Err(missing));
    assert!(!report.ok);
    assert_eq!(report.config_path, "missing.yaml");
    assert_eq!(report.diagnostics[0].code, "config_read_failed");
    assert_eq!(
        report.checks[0].message,
        "failed to read config missing.yaml: No such file or directory (os error 2)"
    );

    let report = run_doctor("bad.yaml", load("bad.yaml", "project: [unclosed"));
    assert!(!report.ok);
    assert_eq!(report.diagnostics[0].code, "config_parse_failed");
}
