//! `lean doctor`: a structured report on whether the configuration loads.
use vstd::prelude::*;
use vstd::string::*;
use crate::config::{ConfigError, LeanConfig, config_error_text};

verus! {

#[derive(Debug, Clone, PartialEq, Eq)]
pub struct DoctorReport {
    pub ok: bool,
    pub config_path: String,
    pub checks: Vec<DoctorCheck>,
    pub diagnostics: Vec<DoctorDiagnostic>,
}

#[derive(Debug, Clone, PartialEq, Eq)]
pub struct DoctorCheck {
    pub name: String,
    pub status: DoctorCheckStatus,
    pub message: String,
}

#[derive(Debug, Clone, Copy, PartialEq, Eq, Structural)]
pub enum DoctorCheckStatus {
    Pass,
    Fail,
}

#[derive(Debug, Clone, PartialEq, Eq)]
pub struct DoctorDiagnostic {
    pub code: String,
    pub message: String,
}

/// The stable code of each kind of configuration failure.
pub open spec fn diagnostic_code_text(e: ConfigError) -> Seq<char> {
    match e {
        ConfigError::Read { .. } => "config_read_failed"@,
        ConfigError::Parse { .. } => "config_parse_failed"@,
        ConfigError::Validation(_) => "config_validation_failed"@,
    }
}

fn diagnostic_code(error: &ConfigError) -> (code: &'static str)
    ensures
        code@ == diagnostic_code_text(*error),
{
    match error {
        ConfigError::Read { .. } => "config_read_failed",
        ConfigError::Parse { .. } => "config_parse_failed",
        ConfigError::Validation(_) => "config_validation_failed",
    }
}

fn check(name: &str, status: DoctorCheckStatus, message: String) -> (c: DoctorCheck)
    ensures
        c.name@ == name@,
        c.status == status,
        c.message == message,
{
    DoctorCheck { name: name.to_owned(), status, message }
}

/// Builds the report for the configuration at `config_path` from the outcome
/// of loading it: two passing checks when it loaded, otherwise one failing
/// check and one diagnostic that carry the error's message.
pub fn run_doctor(config_path: &str, loaded: Result<LeanConfig, ConfigError>) -> (report: DoctorReport)
    ensures
        report.config_path@ == config_path@,
        report.ok == (loaded is Ok),
        match loaded {
            Ok(config) => {
                &&& report.checks@.len() == 2
                &&& report.checks@[0].name@ == "config"@
                &&& report.checks@[0].status == DoctorCheckStatus::Pass
                &&& report.checks@[0].message@ == "configuration loaded"@
                &&& report.checks@[1].name@ == "provider"@
                &&& report.checks@[1].status == DoctorCheckStatus::Pass
                &&& report.checks@[1].message@ == "default provider '"@ + config.runtime.default_provider@
                    + "' is configured"@
                &&& report.diagnostics@.len() == 0
            },
            Err(error) => {
                &&& report.checks@.len() == 1
                &&& report.checks@[0].name@ == "config"@
                &&& report.checks@[0].status == DoctorCheckStatus::Fail
                &&& report.checks@[0].message@ == config_error_text(error)
                &&& report.diagnostics@.len() == 1
                &&& report.diagnostics@[0].code@ == diagnostic_code_text(error)
                &&& report.diagnostics@[0].message@ == config_error_text(error)
            },
        },
{
    match loaded {
        Ok(config) => {
            let mut provider_message = "default provider '".to_owned();
            provider_message.append(config.runtime.default_provider.as_str());
            provider_message.append("' is configured");
            let mut checks = Vec::new();
            checks.push(check("config", DoctorCheckStatus::Pass, "configuration loaded".to_owned()));
            checks.push(check("provider", DoctorCheckStatus::Pass, provider_message));
            DoctorReport { ok: true, config_path: config_path.to_owned(), checks, diagnostics: Vec::new() }
        },
        Err(error) => {
            let mut checks = Vec::new();
            checks.push(check("config", DoctorCheckStatus::Fail, error.message()));
            let mut diagnostics = Vec::new();
            diagnostics.push(DoctorDiagnostic { code: diagnostic_code(&error).to_owned(), message: error.message() });
            DoctorReport { ok: false, config_path: config_path.to_owned(), checks, diagnostics }
        },
    }
}

} // verus!
