//! The audit log: an append-only JSONL file of session events, whose parent
//! directory is created when needed.
use vstd::prelude::*;
use vstd::string::*;
use crate::paths::{
    PathComponent, PathPart, components, parent_parts_of, parts_view, render_components,
    render_parts,
};

verus! {

#[derive(Debug, Clone, PartialEq, Eq)]
pub struct AuditWriter {
    path: String,
}

#[derive(Debug, Clone, PartialEq, Eq)]
pub enum AuditError {
    CreateDirectory { path: String, message: String },
    Open { path: String, message: String },
    Serialize { path: String, message: String },
    Write { path: String, message: String },
}

/// The directory to create before the log is written: the log's parent,
/// unless it has none, or it is empty or `.`.
pub open spec fn directory_to_create(path: Seq<char>) -> Option<Seq<char>> {
    match parent_parts_of(path) {
        None => None,
        Some(parent) => if parent.len() == 0 || parent == seq![PathPart::Current] {
            None
        } else {
            Some(render_parts(parent))
        },
    }
}

impl AuditWriter {
    pub closed spec fn spec_path(&self) -> Seq<char> {
        self.path@
    }

    pub fn new(path: &str) -> (w: AuditWriter)
        ensures
            w.spec_path() == path@,
    {
        AuditWriter { path: path.to_owned() }
    }

    /// The log's path, as it is shown to the user.
    pub fn display_path(&self) -> (p: String)
        ensures
            p@ == self.spec_path(),
    {
        self.path.clone()
    }

    /// The directory that must exist before the log is opened (see
    /// `directory_to_create`).
    pub fn parent_directory(&self) -> (r: Option<String>)
        ensures
            r.deep_view() == directory_to_create(self.spec_path()),
    {
        let comps = components(self.path.as_str());
        let n = comps.len();
        if n == 0 {
            return None;
        }
        let last_is_root = match &comps[n - 1] {
            PathComponent::RootDir => true,
            _ => false,
        };
        if last_is_root {
            return None;
        }
        let ghost parent = parts_view(comps@).take(n - 1);
        proof {
            assert(parent =~= parts_view(comps@).drop_last());
        }
        if n - 1 == 0 {
            return None;
        }
        let first_is_current = match &comps[0] {
            PathComponent::CurDir => true,
            _ => false,
        };
        if n - 1 == 1 && first_is_current {
            assert(parent =~= seq![PathPart::Current]);
            return None;
        }
        proof {
            if parent == seq![PathPart::Current] {
                assert(parent[0] == comps@[0]@);
            }
        }
        Some(render_components(&comps, n - 1))
    }
}

/// The message of an audit error, as it is shown to the user.
pub open spec fn audit_error_text(e: AuditError) -> Seq<char> {
    match e {
        AuditError::CreateDirectory { path, message } => "failed to create audit directory "@ + path@
            + ": "@ + message@,
        AuditError::Open { path, message } => "failed to open audit log "@ + path@ + ": "@
            + message@,
        AuditError::Serialize { path, message } => "failed to serialize audit event for "@ + path@
            + ": "@ + message@,
        AuditError::Write { path, message } => "failed to write audit log "@ + path@ + ": "@
            + message@,
    }
}

impl AuditError {
    /// The error's message, as it is shown to the user.
    pub fn message(&self) -> (text: String)
        ensures
            text@ == audit_error_text(*self),
    {
        let (head, path, message) = match self {
            AuditError::CreateDirectory { path, message } => ("failed to create audit directory ", path, message),
            AuditError::Open { path, message } => ("failed to open audit log ", path, message),
            AuditError::Serialize { path, message } => ("failed to serialize audit event for ", path, message),
            AuditError::Write { path, message } => ("failed to write audit log ", path, message),
        };
        let mut t = head.to_owned();
        t.append(path.as_str());
        t.append(": ");
        t.append(message.as_str());
        t
    }
}

} // verus!
