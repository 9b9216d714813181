//! Per-session git worktrees: where a session's worktree lives, the checks
//! that keep it outside the source tree, and the `git worktree` argv that
//! creates and removes it.
use vstd::prelude::*;
use vstd::string::*;
use crate::paths::{
    PathComponent, PathPart, components, copy_component, file_name, file_name_of, join, join_path, normalize,
    normalize_parts, normalized_state, normalize_path, parts_view, path_components,
    path_starts_with, path_starts_with_exec, render, render_path, simple_name, lemma_join_within,
};
use crate::text::{char_is_ascii_alphanumeric, is_ascii_alphanumeric, str_eq, trim, trim_str};

verus! {

/// The directory, beside the source root, that holds the default worktree roots.
pub const WORKTREES_DIR: &'static str = ".lean-worktrees";

/// The project name used when the source root has no final name.
pub const FALLBACK_PROJECT_NAME: &'static str = "project";

#[derive(Debug, Clone, PartialEq, Eq)]
pub struct SessionWorkspace {
    session_id: String,
    source_root: String,
    worktree_root: String,
    path: String,
}

#[derive(Debug, Clone, PartialEq, Eq)]
pub struct GitWorktreePlan {
    source_root: String,
    workspace_path: String,
}

#[derive(Debug, Clone, PartialEq, Eq)]
pub struct GitCommand {
    pub program: String,
    pub args: Vec<String>,
    pub cwd: String,
}

#[derive(Debug, Clone, PartialEq, Eq)]
pub enum WorkspaceError {
    ResolveSource { path: String, message: String },
    EmptySessionId,
    InvalidSessionId(String),
    EmptyWorktreeRoot,
    WorktreeRootInsideSource { source_root: String, worktree_root: String },
    CreateWorktreeRoot { path: String, message: String },
    GitIo { action: String, message: String },
    GitFailed { action: String, status: String, stderr: String },
}

/// The characters a session id may hold.
pub open spec fn session_id_char(c: char) -> bool {
    is_ascii_alphanumeric(c) || c == '-' || c == '_' || c == '.'
}

/// A session id names one directory: it is non-empty, made of ASCII letters,
/// digits, `-`, `_` and `.`, and is neither `.` nor `..`.
pub open spec fn valid_session_id(id: Seq<char>) -> bool {
    &&& id.len() > 0
    &&& forall|i: int| 0 <= i < id.len() ==> session_id_char(#[trigger] id[i])
    &&& id != seq!['.']
    &&& id != seq!['.', '.']
}

/// The components of the parent directory: the last component dropped,
/// unless it is the root (the root is its own fallback).
pub open spec fn parent_parts(cs: Seq<PathPart>) -> Seq<PathPart> {
    if cs.len() > 0 && !(cs.last() is Root) {
        cs.drop_last()
    } else {
        cs
    }
}

/// The worktree root used when none is configured: `.lean-worktrees/<name>`
/// beside the source root, normalized.
pub open spec fn default_worktree_root(source_root: Seq<char>) -> Seq<char> {
    let name = match file_name(source_root) {
        Some(n) => n,
        None => FALLBACK_PROJECT_NAME@,
    };
    let parts = parent_parts(path_components(source_root)) + seq![
        PathPart::Normal(WORKTREES_DIR@),
        PathPart::Normal(name),
    ];
    let (rooted, stack) = normalized_state(parts);
    render(rooted, stack)
}

/// A configured worktree root, taken relative to the source root and normalized.
pub open spec fn configured_worktree_root(source_root: Seq<char>, configured: Seq<char>) -> Seq<char> {
    normalize(join(source_root, configured))
}

/// What `SessionWorkspace::new` gives for a session id, the source root as
/// given, the outcome of resolving it, and the configured worktree root.
pub open spec fn workspace_outcome(
    session_id: Seq<char>,
    source_root: Seq<char>,
    resolved: Result<Seq<char>, Seq<char>>,
    configured: Option<Seq<char>>,
) -> WorkspaceOutcome {
    if session_id.len() == 0 {
        WorkspaceOutcome::EmptySessionId
    } else if !valid_session_id(session_id) {
        WorkspaceOutcome::InvalidSessionId
    } else {
        match resolved {
            Err(message) => WorkspaceOutcome::ResolveSource { path: source_root, message },
            Ok(source) => {
                if configured is Some && configured->Some_0.len() == 0 {
                    WorkspaceOutcome::EmptyWorktreeRoot
                } else {
                    let root = match configured {
                        Some(c) => configured_worktree_root(source, c),
                        None => default_worktree_root(source),
                    };
                    if path_starts_with(root, source) {
                        WorkspaceOutcome::RootInsideSource { source_root: source, worktree_root: root }
                    } else {
                        WorkspaceOutcome::Built {
                            source_root: source,
                            worktree_root: root,
                            path: join(root, session_id),
                        }
                    }
                }
            },
        }
    }
}

/// The outcomes of building a session workspace.
pub enum WorkspaceOutcome {
    EmptySessionId,
    InvalidSessionId,
    ResolveSource { path: Seq<char>, message: Seq<char> },
    EmptyWorktreeRoot,
    RootInsideSource { source_root: Seq<char>, worktree_root: Seq<char> },
    Built { source_root: Seq<char>, worktree_root: Seq<char>, path: Seq<char> },
}

/// Whether a result of `SessionWorkspace::new` is the given outcome.
pub open spec fn outcome_matches(
    r: Result<SessionWorkspace, WorkspaceError>,
    session_id: Seq<char>,
    o: WorkspaceOutcome,
) -> bool {
    match o {
        WorkspaceOutcome::EmptySessionId => r matches Err(WorkspaceError::EmptySessionId),
        WorkspaceOutcome::InvalidSessionId => r matches Err(WorkspaceError::InvalidSessionId(id))
            && id@ == session_id,
        WorkspaceOutcome::ResolveSource { path, message } => r matches Err(
            WorkspaceError::ResolveSource { path: p, message: m },
        ) && p@ == path && m@ == message,
        WorkspaceOutcome::EmptyWorktreeRoot => r matches Err(WorkspaceError::EmptyWorktreeRoot),
        WorkspaceOutcome::RootInsideSource { source_root, worktree_root } => r matches Err(
            WorkspaceError::WorktreeRootInsideSource { source_root: s, worktree_root: w },
        ) && s@ == source_root && w@ == worktree_root,
        WorkspaceOutcome::Built { source_root, worktree_root, path } => r matches Ok(ws)
            && ws.spec_session_id() == session_id && ws.spec_source_root() == source_root
            && ws.spec_worktree_root() == worktree_root && ws.spec_path() == path,
    }
}

fn session_id_char_exec(c: char) -> (b: bool)
    ensures
        b == session_id_char(c),
{
    char_is_ascii_alphanumeric(c) || c == '-' || c == '_' || c == '.'
}

/// Checks a session id (see `valid_session_id`).
pub fn validate_session_id(session_id: &str) -> (r: Result<(), WorkspaceError>)
    ensures
        session_id@.len() == 0 ==> r matches Err(WorkspaceError::EmptySessionId),
        session_id@.len() > 0 && !valid_session_id(session_id@) ==> (r matches Err(
            WorkspaceError::InvalidSessionId(id),
        ) && id@ == session_id@),
        valid_session_id(session_id@) ==> r is Ok,
{
    let n = session_id.unicode_len();
    if n == 0 {
        return Err(WorkspaceError::EmptySessionId);
    }
    let mut i: usize = 0;
    while i < n
        invariant
            n == session_id@.len(),
            i <= n,
            forall|k: int| 0 <= k < i ==> session_id_char(#[trigger] session_id@[k]),
        decreases n - i,
    {
        if !session_id_char_exec(session_id.get_char(i)) {
            return Err(WorkspaceError::InvalidSessionId(session_id.to_owned()));
        }
        i = i + 1;
    }
    proof {
        reveal_strlit(".");
        reveal_strlit("..");
        assert("."@ =~= seq!['.']);
        assert(".."@ =~= seq!['.', '.']);
    }
    if str_eq(session_id, ".") || str_eq(session_id, "..") {
        return Err(WorkspaceError::InvalidSessionId(session_id.to_owned()));
    }
    Ok(())
}

fn default_worktree_root_exec(source_root: &str) -> (r: String)
    ensures
        r@ == default_worktree_root(source_root@),
{
    let comps = components(source_root);
    let name = match file_name_of(source_root) {
        Some(n) => n,
        None => FALLBACK_PROJECT_NAME.to_owned(),
    };
    let n = comps.len();
    let keep = if n > 0 && !(comps[n - 1] matches PathComponent::RootDir) {
        n - 1
    } else {
        n
    };
    let mut parts: Vec<PathComponent> = Vec::new();
    let mut i: usize = 0;
    while i < keep
        invariant
            keep <= n,
            n == comps@.len(),
            i <= keep,
            parts@.len() == i,
            forall|k: int| 0 <= k < i ==> (#[trigger] parts@[k])@ == comps@[k]@,
        decreases keep - i,
    {
        parts.push(copy_component(&comps[i]));
        i = i + 1;
    }
    let ghost parent = parts_view(parts@);
    proof {
        assert(parent =~= parts_view(comps@).take(keep as int));
        assert(parent =~= parent_parts(path_components(source_root@)));
    }
    parts.push(PathComponent::Normal(WORKTREES_DIR.to_owned()));
    parts.push(PathComponent::Normal(name));
    proof {
        assert(parts_view(parts@) =~= parent_parts(path_components(source_root@)) + seq![
            PathPart::Normal(WORKTREES_DIR@),
            PathPart::Normal(name@),
        ]);
    }
    let (rooted, stack) = normalize_parts(&parts);
    render_path(rooted, &stack)
}

impl SessionWorkspace {
    /// Plans the workspace of a session. `resolved_source` is the outcome of
    /// canonicalizing `source_root` (the canonical path, or the reason it
    /// failed); `configured_worktree_root` is the configured root, if any.
    pub fn new(
        session_id: String,
        source_root: &str,
        resolved_source: Result<String, String>,
        configured_worktree_root: Option<&str>,
    ) -> (r: Result<SessionWorkspace, WorkspaceError>)
        ensures
            outcome_matches(
                r,
                session_id@,
                workspace_outcome(
                    session_id@,
                    source_root@,
                    match resolved_source {
                        Ok(s) => Ok(s@),
                        Err(m) => Err(m@),
                    },
                    match configured_worktree_root {
                        Some(c) => Some(c@),
                        None => None,
                    },
                ),
            ),
    {
        match validate_session_id(session_id.as_str()) {
            Err(e) => {
                return Err(e);
            },
            Ok(()) => {},
        }
        let source = match resolved_source {
            Ok(s) => s,
            Err(message) => {
                return Err(WorkspaceError::ResolveSource { path: source_root.to_owned(), message });
            },
        };
        let worktree_root = match configured_worktree_root {
            Some(c) => {
                if c.unicode_len() == 0 {
                    return Err(WorkspaceError::EmptyWorktreeRoot);
                }
                let joined = join_path(source.as_str(), c);
                normalize_path(joined.as_str())
            },
            None => default_worktree_root_exec(source.as_str()),
        };
        if path_starts_with_exec(worktree_root.as_str(), source.as_str()) {
            return Err(
                WorkspaceError::WorktreeRootInsideSource { source_root: source, worktree_root },
            );
        }
        let path = join_path(worktree_root.as_str(), session_id.as_str());
        Ok(SessionWorkspace { session_id, source_root: source, worktree_root, path })
    }

    pub closed spec fn spec_session_id(&self) -> Seq<char> {
        self.session_id@
    }

    pub closed spec fn spec_source_root(&self) -> Seq<char> {
        self.source_root@
    }

    pub closed spec fn spec_worktree_root(&self) -> Seq<char> {
        self.worktree_root@
    }

    pub closed spec fn spec_path(&self) -> Seq<char> {
        self.path@
    }

    pub fn session_id(&self) -> (r: &str)
        ensures
            r@ == self.spec_session_id(),
    {
        self.session_id.as_str()
    }

    pub fn source_root(&self) -> (r: &str)
        ensures
            r@ == self.spec_source_root(),
    {
        self.source_root.as_str()
    }

    pub fn worktree_root(&self) -> (r: &str)
        ensures
            r@ == self.spec_worktree_root(),
    {
        self.worktree_root.as_str()
    }

    pub fn path(&self) -> (r: &str)
        ensures
            r@ == self.spec_path(),
    {
        self.path.as_str()
    }

    /// The git plan for this workspace: its source root and its path.
    pub fn git_plan(&self) -> (plan: GitWorktreePlan)
        ensures
            plan.spec_source_root() == self.spec_source_root(),
            plan.spec_workspace_path() == self.spec_path(),
    {
        GitWorktreePlan { source_root: self.source_root.clone(), workspace_path: self.path.clone() }
    }
}

impl GitWorktreePlan {
    pub closed spec fn spec_source_root(&self) -> Seq<char> {
        self.source_root@
    }

    pub closed spec fn spec_workspace_path(&self) -> Seq<char> {
        self.workspace_path@
    }

    /// `git worktree add --detach <path> HEAD`, run in the source root.
    pub fn add_command(&self) -> (c: GitCommand)
        ensures
            c.program@ == "git"@,
            c.args.len() == 5,
            c.args[0]@ == "worktree"@,
            c.args[1]@ == "add"@,
            c.args[2]@ == "--detach"@,
            c.args[3]@ == self.spec_workspace_path(),
            c.args[4]@ == "HEAD"@,
            c.cwd@ == self.spec_source_root(),
    {
        let args = vec![
            "worktree".to_owned(),
            "add".to_owned(),
            "--detach".to_owned(),
            self.workspace_path.clone(),
            "HEAD".to_owned(),
        ];
        GitCommand { program: "git".to_owned(), args, cwd: self.source_root.clone() }
    }

    /// `git worktree remove --force <path>`, run in the source root.
    pub fn remove_command(&self) -> (c: GitCommand)
        ensures
            c.program@ == "git"@,
            c.args.len() == 4,
            c.args[0]@ == "worktree"@,
            c.args[1]@ == "remove"@,
            c.args[2]@ == "--force"@,
            c.args[3]@ == self.spec_workspace_path(),
            c.cwd@ == self.spec_source_root(),
    {
        let args = vec![
            "worktree".to_owned(),
            "remove".to_owned(),
            "--force".to_owned(),
            self.workspace_path.clone(),
        ];
        GitCommand { program: "git".to_owned(), args, cwd: self.source_root.clone() }
    }
}

/// The message of a workspace error, as it is shown to the user.
pub open spec fn workspace_error_text(e: WorkspaceError) -> Seq<char> {
    match e {
        WorkspaceError::ResolveSource { path, message } => "failed to resolve source root "@
            + path@ + ": "@ + message@,
        WorkspaceError::EmptySessionId => "session id must not be empty"@,
        WorkspaceError::InvalidSessionId(id) => "session id contains an unsupported path character: "@
            + id@,
        WorkspaceError::EmptyWorktreeRoot => "worktree root must not be empty"@,
        WorkspaceError::WorktreeRootInsideSource { source_root, worktree_root } => "worktree root "@
            + worktree_root@ + " must not be equal to or nested under source root "@
            + source_root@,
        WorkspaceError::CreateWorktreeRoot { path, message } => "failed to create worktree parent "@
            + path@ + ": "@ + message@,
        WorkspaceError::GitIo { action, message } => "failed to run git worktree "@ + action@ + ": "@
            + message@,
        WorkspaceError::GitFailed { action, status, stderr } => "git worktree "@ + action@
            + " failed with status "@ + status@ + ": "@ + stderr@,
    }
}

impl WorkspaceError {
    /// The error's message, as it is shown to the user.
    pub fn message(&self) -> (text: String)
        ensures
            text@ == workspace_error_text(*self),
    {
        match self {
            WorkspaceError::ResolveSource { path, message } => {
                let mut t = "failed to resolve source root ".to_owned();
                t.append(path.as_str());
                t.append(": ");
                t.append(message.as_str());
                t
            },
            WorkspaceError::EmptySessionId => "session id must not be empty".to_owned(),
            WorkspaceError::InvalidSessionId(id) => {
                let mut t = "session id contains an unsupported path character: ".to_owned();
                t.append(id.as_str());
                t
            },
            WorkspaceError::EmptyWorktreeRoot => "worktree root must not be empty".to_owned(),
            WorkspaceError::WorktreeRootInsideSource { source_root, worktree_root } => {
                let mut t = "worktree root ".to_owned();
                t.append(worktree_root.as_str());
                t.append(" must not be equal to or nested under source root ");
                t.append(source_root.as_str());
                t
            },
            WorkspaceError::CreateWorktreeRoot { path, message } => {
                let mut t = "failed to create worktree parent ".to_owned();
                t.append(path.as_str());
                t.append(": ");
                t.append(message.as_str());
                t
            },
            WorkspaceError::GitIo { action, message } => {
                let mut t = "failed to run git worktree ".to_owned();
                t.append(action.as_str());
                t.append(": ");
                t.append(message.as_str());
                t
            },
            WorkspaceError::GitFailed { action, status, stderr } => {
                let mut t = "git worktree ".to_owned();
                t.append(action.as_str());
                t.append(" failed with status ");
                t.append(status.as_str());
                t.append(": ");
                t.append(stderr.as_str());
                t
            },
        }
    }
}

/// What a finished `git worktree <action>` run means: success, or a
/// `GitFailed` error carrying its status and its trimmed standard error.
pub fn git_run_outcome(action: &str, success: bool, status: String, stderr: &str) -> (r: Result<
    (),
    WorkspaceError,
>)
    ensures
        success ==> r is Ok,
        !success ==> (r matches Err(WorkspaceError::GitFailed { action: a, status: s, stderr: e })
            && a@ == action@ && s@ == status@ && e@ == trim(stderr@)),
{
    if success {
        Ok(())
    } else {
        Err(
            WorkspaceError::GitFailed {
                action: action.to_owned(),
                status,
                stderr: trim_str(stderr).to_owned(),
            },
        )
    }
}

/// Creates and removes session worktrees; the steps it plans are run by the
/// caller.
#[derive(Debug, Default)]
pub struct GitWorktreeManager;

impl GitWorktreeManager {
    /// Creating a worktree: the worktree root directory is created, then
    /// `git worktree add` runs.
    pub fn create(&self, workspace: &SessionWorkspace) -> (steps: (String, GitCommand))
        ensures
            steps.0@ == workspace.spec_worktree_root(),
            steps.1.program@ == "git"@,
            texts(steps.1.args@) == seq![
                "worktree"@,
                "add"@,
                "--detach"@,
                workspace.spec_path(),
                "HEAD"@,
            ],
            steps.1.cwd@ == workspace.spec_source_root(),
    {
        let c = workspace.git_plan().add_command();
        proof {
            assert(texts(c.args@) =~= seq!["worktree"@, "add"@, "--detach"@, workspace.spec_path(), "HEAD"@]);
        }
        (workspace.worktree_root.clone(), c)
    }

    /// Removing a worktree: nothing when its path does not exist, else
    /// `git worktree remove --force`.
    pub fn remove(&self, workspace: &SessionWorkspace, path_exists: bool) -> (step: Option<GitCommand>)
        ensures
            !path_exists ==> step is None,
            path_exists ==> (step matches Some(c) && c.program@ == "git"@ && texts(c.args@) == seq![
                "worktree"@,
                "remove"@,
                "--force"@,
                workspace.spec_path(),
            ] && c.cwd@ == workspace.spec_source_root()),
    {
        if !path_exists {
            return None;
        }
        let c = workspace.git_plan().remove_command();
        proof {
            assert(texts(c.args@) =~= seq!["worktree"@, "remove"@, "--force"@, workspace.spec_path()]);
        }
        Some(c)
    }
}

pub open spec fn texts(v: Seq<String>) -> Seq<Seq<char>> {
    v.map_values(|s: String| s@)
}

/// A valid session id is one normal path component.
pub proof fn lemma_session_id_is_simple(id: Seq<char>)
    requires
        valid_session_id(id),
    ensures
        simple_name(id),
{
    assert(!id.contains('/')) by {
        if id.contains('/') {
            let i = choose|i: int| 0 <= i < id.len() && id[i] == '/';
            assert(session_id_char(id[i]));
        }
    }
}

/// A planned workspace lies directly inside its worktree root, under the
/// session id, and the worktree root lies outside the source root.
pub proof fn lemma_workspace_layout(
    session_id: Seq<char>,
    source_root: Seq<char>,
    resolved: Result<Seq<char>, Seq<char>>,
    configured: Option<Seq<char>>,
)
    ensures
        workspace_outcome(session_id, source_root, resolved, configured) matches WorkspaceOutcome::Built {
            source_root: s,
            worktree_root: w,
            path: p,
        } ==> path_starts_with(p, w) && file_name(p) == Some(session_id) && !path_starts_with(
            w,
            s,
        ),
{
    if valid_session_id(session_id) {
        lemma_session_id_is_simple(session_id);
        if workspace_outcome(session_id, source_root, resolved, configured) is Built {
            let w = workspace_outcome(session_id, source_root, resolved, configured)->Built_worktree_root;
            lemma_join_within(w, session_id);
        }
    }
}

} // verus!
