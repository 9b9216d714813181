//! The command sandbox policy: commands are argv vectors, run only when they
//! begin with a configured argv prefix, and never through shells,
//! interpreter one-liners or exec-smuggling helpers.
use vstd::prelude::*;
use vstd::string::*;
use crate::config::CommandConfig;
use crate::paths::{file_name, file_name_of};
use crate::text::{is_blank, str_eq, str_is_blank};

verus! {

#[derive(Debug, Clone, PartialEq, Eq)]
pub struct CommandPolicy {
    allowed_prefixes: Vec<CommandPrefix>,
}

#[derive(Debug, Clone, PartialEq, Eq)]
pub struct CommandPrefix {
    parts: Vec<String>,
}

#[derive(Debug, Clone, PartialEq, Eq)]
pub struct SandboxRunner {
    workspace: String,
    policy: CommandPolicy,
    env_allowlist: Vec<String>,
}

#[derive(Debug, Clone, PartialEq, Eq)]
pub struct SandboxOutput {
    pub status_code: Option<i32>,
    pub stdout: Vec<u8>,
    pub stderr: Vec<u8>,
}

/// A command that passed the policy, ready to run: the program, its
/// arguments, the directory to run in and the environment variables to copy.
#[derive(Debug, Clone, PartialEq, Eq)]
pub struct SandboxCommand {
    pub program: String,
    pub args: Vec<String>,
    pub cwd: String,
    pub env_allowlist: Vec<String>,
}

#[derive(Debug, Clone, PartialEq, Eq)]
pub enum CommandPolicyError {
    EmptyCommand,
    EmptyPrefix,
    EmptyPrefixPart,
    WrapperRejected { program: String, reason: String },
    NotAllowed { argv: Vec<String> },
}

#[derive(Debug, Clone, PartialEq, Eq)]
pub enum SandboxError {
    WorkspaceUnavailable { path: String },
    Policy(CommandPolicyError),
    Execute { argv: Vec<String>, message: String },
}

pub open spec fn texts(v: Seq<String>) -> Seq<Seq<char>> {
    v.map_values(|s: String| s@)
}

/// The name a program is known by: its final path component, or the whole
/// text when it has none.
pub open spec fn program_basename(program: Seq<char>) -> Seq<char> {
    match file_name(program) {
        Some(n) => n,
        None => program,
    }
}

pub open spec fn is_shell(p: Seq<char>) -> bool {
    p == "sh"@ || p == "bash"@ || p == "zsh"@ || p == "dash"@ || p == "fish"@ || p == "cmd"@ || p
        == "powershell"@ || p == "pwsh"@
}

/// An interpreter asked to evaluate code given on the command line.
pub open spec fn is_interpreter_eval(p: Seq<char>, first_arg: Option<Seq<char>>) -> bool {
    ||| ((p == "python"@ || p == "python3"@) && first_arg == Some("-c"@))
    ||| ((p == "perl"@ || p == "ruby"@) && first_arg == Some("-e"@))
    ||| (p == "node"@ && (first_arg == Some("-e"@) || first_arg == Some("--eval"@)))
}

pub open spec fn is_exec_helper(p: Seq<char>) -> bool {
    p == "env"@ || p == "nohup"@ || p == "xargs"@ || p == "find"@ || p == "eval"@ || p == "script"@
        || p == "setsid"@
}

/// Why a non-empty argv is refused whatever the policy: the program's
/// base name and the reason.
pub open spec fn wrapper_failure(argv: Seq<Seq<char>>) -> Option<(Seq<char>, Seq<char>)> {
    let p = program_basename(argv[0]);
    let first = if argv.len() > 1 { Some(argv[1]) } else { None };
    if is_shell(p) {
        Some((p, "shell wrappers are not allowed"@))
    } else if is_interpreter_eval(p, first) {
        Some((p, "interpreter one-liners are not allowed"@))
    } else if is_exec_helper(p) {
        Some((p, "exec-smuggling helpers are not allowed"@))
    } else {
        None
    }
}

/// `argv` begins with the parts of a prefix.
pub open spec fn prefix_matches(parts: Seq<Seq<char>>, argv: Seq<Seq<char>>) -> bool {
    parts.len() <= argv.len() && forall|i: int| 0 <= i < parts.len() ==> #[trigger] parts[i] == argv[i]
}

/// The argv prefixes of a policy.
pub open spec fn prefix_parts(prefixes: Seq<CommandPrefix>) -> Seq<Seq<Seq<char>>> {
    prefixes.map_values(|p: CommandPrefix| p.spec_parts())
}

/// Some allowed prefix begins `argv`.
pub open spec fn allowed_by(prefixes: Seq<Seq<Seq<char>>>, argv: Seq<Seq<char>>) -> bool {
    exists|i: int| 0 <= i < prefixes.len() && prefix_matches(#[trigger] prefixes[i], argv)
}

/// Why the parts of a prefix are refused.
pub open spec fn prefix_failure(parts: Seq<Seq<char>>) -> Option<CommandPolicyError> {
    if parts.len() == 0 {
        Some(CommandPolicyError::EmptyPrefix)
    } else if exists|i: int| 0 <= i < parts.len() && is_blank(#[trigger] parts[i]) {
        Some(CommandPolicyError::EmptyPrefixPart)
    } else {
        None
    }
}

impl CommandPrefix {
    pub closed spec fn spec_parts(&self) -> Seq<Seq<char>> {
        texts(self.parts@)
    }

    /// A prefix from its argv parts: refused when there are none, or when
    /// one is blank.
    pub fn from_parts(parts: Vec<String>) -> (r: Result<CommandPrefix, CommandPolicyError>)
        ensures
            match prefix_failure(texts(parts@)) {
                Some(e) => r == Err::<CommandPrefix, CommandPolicyError>(e),
                None => r matches Ok(p) && p.spec_parts() == texts(parts@),
            },
    {
        if parts.len() == 0 {
            return Err(CommandPolicyError::EmptyPrefix);
        }
        let n = parts.len();
        let mut i: usize = 0;
        while i < n
            invariant
                n == parts@.len(),
                i <= n,
                forall|k: int| 0 <= k < i ==> !is_blank(#[trigger] texts(parts@)[k]),
            decreases n - i,
        {
            if str_is_blank(parts[i].as_str()) {
                assert(is_blank(texts(parts@)[i as int]));
                return Err(CommandPolicyError::EmptyPrefixPart);
            }
            i = i + 1;
        }
        CommandPrefix { parts }.into_ok()
    }

    fn into_ok(self) -> (r: Result<CommandPrefix, CommandPolicyError>)
        ensures
            r == Ok::<CommandPrefix, CommandPolicyError>(self),
    {
        Ok(self)
    }

    /// Whether `argv` begins with this prefix.
    pub fn matches(&self, argv: &Vec<String>) -> (b: bool)
        ensures
            b == prefix_matches(self.spec_parts(), texts(argv@)),
    {
        let n = self.parts.len();
        if argv.len() < n {
            return false;
        }
        let mut i: usize = 0;
        while i < n
            invariant
                n == self.parts@.len(),
                n <= argv@.len(),
                i <= n,
                forall|k: int| 0 <= k < i ==> #[trigger] texts(self.parts@)[k] == texts(argv@)[k],
            decreases n - i,
        {
            if !str_eq(self.parts[i].as_str(), argv[i].as_str()) {
                assert(texts(self.parts@)[i as int] != texts(argv@)[i as int]);
                return false;
            }
            i = i + 1;
        }
        true
    }
}

/// The base name of a program path (see `program_basename`).
pub fn program_basename_of(program: &str) -> (r: String)
    ensures
        r@ == program_basename(program@),
{
    match file_name_of(program) {
        Some(n) => n,
        None => program.to_owned(),
    }
}

fn is_one_of(p: &str, names: &Vec<&str>) -> (b: bool)
    ensures
        b == exists|i: int| 0 <= i < names@.len() && p@ == (#[trigger] names@[i])@,
{
    let n = names.len();
    let mut i: usize = 0;
    while i < n
        invariant
            n == names@.len(),
            i <= n,
            forall|k: int| 0 <= k < i ==> p@ != (#[trigger] names@[k])@,
        decreases n - i,
    {
        if str_eq(p, names[i]) {
            return true;
        }
        i = i + 1;
    }
    false
}

fn shell_check(p: &str) -> (b: bool)
    ensures
        b == is_shell(p@),
{
    let names = vec!["sh", "bash", "zsh", "dash", "fish", "cmd", "powershell", "pwsh"];
    let b = is_one_of(p, &names);
    proof {
        if is_shell(p@) {
            if p@ == "sh"@ { assert(p@ == names@[0]@); }
            if p@ == "bash"@ { assert(p@ == names@[1]@); }
            if p@ == "zsh"@ { assert(p@ == names@[2]@); }
            if p@ == "dash"@ { assert(p@ == names@[3]@); }
            if p@ == "fish"@ { assert(p@ == names@[4]@); }
            if p@ == "cmd"@ { assert(p@ == names@[5]@); }
            if p@ == "powershell"@ { assert(p@ == names@[6]@); }
            if p@ == "pwsh"@ { assert(p@ == names@[7]@); }
        }
    }
    b
}

fn exec_helper_check(p: &str) -> (b: bool)
    ensures
        b == is_exec_helper(p@),
{
    let names = vec!["env", "nohup", "xargs", "find", "eval", "script", "setsid"];
    let b = is_one_of(p, &names);
    proof {
        if is_exec_helper(p@) {
            if p@ == "env"@ { assert(p@ == names@[0]@); }
            if p@ == "nohup"@ { assert(p@ == names@[1]@); }
            if p@ == "xargs"@ { assert(p@ == names@[2]@); }
            if p@ == "find"@ { assert(p@ == names@[3]@); }
            if p@ == "eval"@ { assert(p@ == names@[4]@); }
            if p@ == "script"@ { assert(p@ == names@[5]@); }
            if p@ == "setsid"@ { assert(p@ == names@[6]@); }
        }
    }
    b
}

/// Whether a program with this first argument evaluates code given on the
/// command line (see `is_interpreter_eval`).
pub fn interpreter_eval_check(program: &str, first_arg: Option<&str>) -> (b: bool)
    ensures
        b == is_interpreter_eval(
            program@,
            match first_arg {
                Some(a) => Some(a@),
                None => None,
            },
        ),
{
    let python = str_eq(program, "python") || str_eq(program, "python3");
    let perl_or_ruby = str_eq(program, "perl") || str_eq(program, "ruby");
    let node = str_eq(program, "node");
    match first_arg {
        None => false,
        Some(a) => (python && str_eq(a, "-c")) || (perl_or_ruby && str_eq(a, "-e")) || (node && (str_eq(
            a,
            "-e",
        ) || str_eq(a, "--eval"))),
    }
}

/// Refuses shells, interpreter one-liners and exec-smuggling helpers, by the
/// program's base name (see `wrapper_failure`).
pub fn reject_wrappers(argv: &Vec<String>) -> (r: Result<(), CommandPolicyError>)
    requires
        argv@.len() > 0,
    ensures
        match wrapper_failure(texts(argv@)) {
            Some((program, reason)) => r matches Err(
                CommandPolicyError::WrapperRejected { program: p, reason: w },
            ) && p@ == program && w@ == reason,
            None => r is Ok,
        },
{
    let program = program_basename_of(argv[0].as_str());
    assert(texts(argv@)[0] == argv@[0]@);
    if shell_check(program.as_str()) {
        return Err(
            CommandPolicyError::WrapperRejected {
                program,
                reason: "shell wrappers are not allowed".to_owned(),
            },
        );
    }
    let first = if argv.len() > 1 {
        assert(texts(argv@)[1] == argv@[1]@);
        Some(argv[1].as_str())
    } else {
        None
    };
    if interpreter_eval_check(program.as_str(), first) {
        return Err(
            CommandPolicyError::WrapperRejected {
                program,
                reason: "interpreter one-liners are not allowed".to_owned(),
            },
        );
    }
    if exec_helper_check(program.as_str()) {
        return Err(
            CommandPolicyError::WrapperRejected {
                program,
                reason: "exec-smuggling helpers are not allowed".to_owned(),
            },
        );
    }
    Ok(())
}

/// What the policy with these prefixes says of `argv`: empty commands and
/// wrappers are refused first, then `argv` must begin with an allowed prefix.
pub open spec fn check_matches(
    r: Result<(), CommandPolicyError>,
    prefixes: Seq<Seq<Seq<char>>>,
    argv: Seq<Seq<char>>,
) -> bool {
    if argv.len() == 0 {
        r matches Err(CommandPolicyError::EmptyCommand)
    } else if wrapper_failure(argv) is Some {
        r matches Err(CommandPolicyError::WrapperRejected { program: p, reason: w })
            && p@ == wrapper_failure(argv)->Some_0.0 && w@ == wrapper_failure(argv)->Some_0.1
    } else if allowed_by(prefixes, argv) {
        r is Ok
    } else {
        r matches Err(CommandPolicyError::NotAllowed { argv: a }) && texts(a@) == argv
    }
}

impl CommandPolicy {
    pub closed spec fn spec_prefixes(&self) -> Seq<Seq<Seq<char>>> {
        prefix_parts(self.allowed_prefixes@)
    }

    /// A policy with the given prefixes.
    pub fn new(prefixes: Vec<CommandPrefix>) -> (p: CommandPolicy)
        ensures
            p.spec_prefixes() == prefix_parts(prefixes@),
    {
        CommandPolicy { allowed_prefixes: prefixes }
    }

    /// A policy from argv prefixes, refused at the first prefix that is empty
    /// or has a blank part.
    pub fn from_argv_prefixes(prefixes: &Vec<Vec<String>>) -> (r: Result<CommandPolicy, CommandPolicyError>)
        ensures
            match first_prefix_failure(prefixes@.map_values(|v: Vec<String>| texts(v@))) {
                Some(e) => r == Err::<CommandPolicy, CommandPolicyError>(e),
                None => r matches Ok(p) && p.spec_prefixes() == prefixes@.map_values(
                    |v: Vec<String>| texts(v@),
                ),
            },
    {
        let ghost want = prefixes@.map_values(|v: Vec<String>| texts(v@));
        let n = prefixes.len();
        let mut built: Vec<CommandPrefix> = Vec::new();
        let mut i: usize = 0;
        proof {
            assert(want.take(0) =~= Seq::<Seq<Seq<char>>>::empty());
        }
        while i < n
            invariant
                n == prefixes@.len(),
                want == prefixes@.map_values(|v: Vec<String>| texts(v@)),
                i <= n,
                first_prefix_failure(want.take(i as int)) is None,
                prefix_parts(built@) == want.take(i as int),
            decreases n - i,
        {
            let parts = prefixes[i].clone();
            proof {
                assert(texts(parts@) =~= texts(prefixes@[i as int]@));
                assert(want.take(i + 1).drop_last() =~= want.take(i as int));
                assert(want.take(i + 1).last() == texts(parts@));
            }
            match CommandPrefix::from_parts(parts) {
                Ok(p) => {
                    built.push(p);
                    proof {
                        assert(prefix_parts(built@) =~= want.take(i + 1));
                    }
                },
                Err(e) => {
                    proof {
                        assert(first_prefix_failure(want.take(i + 1)) == Some(e));
                        lemma_first_prefix_failure_prefix(want, i as int + 1);
                    }
                    return Err(e);
                },
            }
            i = i + 1;
        }
        proof {
            assert(want.take(n as int) =~= want);
        }
        Ok(CommandPolicy::new(built))
    }

    /// Checks an argv against the policy (see `check_matches`).
    pub fn check(&self, argv: &Vec<String>) -> (r: Result<(), CommandPolicyError>)
        ensures
            check_matches(r, self.spec_prefixes(), texts(argv@)),
    {
        if argv.len() == 0 {
            return Err(CommandPolicyError::EmptyCommand);
        }
        match reject_wrappers(argv) {
            Err(e) => {
                return Err(e);
            },
            Ok(()) => {},
        }
        let n = self.allowed_prefixes.len();
        let mut i: usize = 0;
        while i < n
            invariant
                n == self.allowed_prefixes@.len(),
                argv@.len() > 0,
                wrapper_failure(texts(argv@)) is None,
                i <= n,
                forall|k: int|
                    0 <= k < i ==> !prefix_matches(
                        #[trigger] prefix_parts(self.allowed_prefixes@)[k],
                        texts(argv@),
                    ),
            decreases n - i,
        {
            if self.allowed_prefixes[i].matches(argv) {
                assert(prefix_parts(self.allowed_prefixes@)[i as int]
                    == self.allowed_prefixes@[i as int].spec_parts());
                assert(prefix_matches(prefix_parts(self.allowed_prefixes@)[i as int], texts(argv@)));
                return Ok(());
            }
            assert(prefix_parts(self.allowed_prefixes@)[i as int]
                == self.allowed_prefixes@[i as int].spec_parts());
            i = i + 1;
        }
        Err(CommandPolicyError::NotAllowed { argv: argv.clone() })
    }

    /// The policy of a command configuration (its allowed argv prefixes).
    pub fn try_from_config(config: &CommandConfig) -> (r: Result<CommandPolicy, CommandPolicyError>)
        ensures
            match first_prefix_failure(config.allowed@.map_values(|v: Vec<String>| texts(v@))) {
                Some(e) => r == Err::<CommandPolicy, CommandPolicyError>(e),
                None => r matches Ok(p) && p.spec_prefixes() == config.allowed@.map_values(
                    |v: Vec<String>| texts(v@),
                ),
            },
    {
        CommandPolicy::from_argv_prefixes(&config.allowed)
    }
}

/// The first refused prefix's error, prefixes taken in order.
pub open spec fn first_prefix_failure(prefixes: Seq<Seq<Seq<char>>>) -> Option<CommandPolicyError>
    decreases prefixes.len(),
{
    if prefixes.len() == 0 {
        None
    } else {
        match first_prefix_failure(prefixes.drop_last()) {
            Some(e) => Some(e),
            None => prefix_failure(prefixes.last()),
        }
    }
}

proof fn lemma_first_prefix_failure_prefix(ps: Seq<Seq<Seq<char>>>, k: int)
    requires
        0 <= k <= ps.len(),
        first_prefix_failure(ps.take(k)) is Some,
    ensures
        first_prefix_failure(ps) == first_prefix_failure(ps.take(k)),
    decreases ps.len() - k,
{
    if k < ps.len() {
        assert(ps.take(k + 1).drop_last() =~= ps.take(k));
        lemma_first_prefix_failure_prefix(ps, k + 1);
    } else {
        assert(ps.take(k) =~= ps);
    }
}

impl SandboxRunner {
    pub closed spec fn spec_workspace(&self) -> Seq<char> {
        self.workspace@
    }

    pub closed spec fn spec_policy(&self) -> CommandPolicy {
        self.policy
    }

    pub closed spec fn spec_env_allowlist(&self) -> Seq<Seq<char>> {
        texts(self.env_allowlist@)
    }

    /// A runner for a workspace and a policy; only `PATH` is passed through.
    pub fn new(workspace: &str, policy: CommandPolicy) -> (r: SandboxRunner)
        ensures
            r.spec_workspace() == workspace@,
            r.spec_policy() == policy,
            r.spec_env_allowlist() == seq!["PATH"@],
    {
        let r = SandboxRunner { workspace: workspace.to_owned(), policy, env_allowlist: vec!["PATH".to_owned()] };
        proof {
            assert(texts(r.env_allowlist@) =~= seq!["PATH"@]);
        }
        r
    }

    /// The same runner, passing through the given environment variables.
    pub fn with_env_allowlist(self, env_allowlist: Vec<String>) -> (r: SandboxRunner)
        ensures
            r.spec_workspace() == self.spec_workspace(),
            r.spec_policy() == self.spec_policy(),
            r.spec_env_allowlist() == texts(env_allowlist@),
    {
        SandboxRunner { workspace: self.workspace, policy: self.policy, env_allowlist }
    }

    /// A runner from a command configuration: its policy and its environment
    /// allowlist.
    pub fn from_config(workspace: &str, config: &CommandConfig) -> (r: Result<SandboxRunner, CommandPolicyError>)
        ensures
            match first_prefix_failure(config.allowed@.map_values(|v: Vec<String>| texts(v@))) {
                Some(e) => r == Err::<SandboxRunner, CommandPolicyError>(e),
                None => r matches Ok(runner) && runner.spec_workspace() == workspace@
                    && runner.spec_policy().spec_prefixes() == config.allowed@.map_values(
                    |v: Vec<String>| texts(v@),
                ) && runner.spec_env_allowlist() == texts(config.env_allowlist@),
            },
    {
        match CommandPolicy::try_from_config(config) {
            Err(e) => Err(e),
            Ok(policy) => Ok(SandboxRunner::new(workspace, policy).with_env_allowlist(config.env_allowlist.clone())),
        }
    }

    pub fn workspace(&self) -> (r: &str)
        ensures
            r@ == self.spec_workspace(),
    {
        self.workspace.as_str()
    }

    /// Decides whether `argv` may run: the workspace must be a directory and
    /// the policy must allow `argv`; then the command runs as `argv[0]` with
    /// the rest as arguments, in the workspace, with only the allowlisted
    /// environment.
    pub fn prepare(&self, argv: &Vec<String>, workspace_is_dir: bool) -> (r: Result<SandboxCommand, SandboxError>)
        ensures
            !workspace_is_dir ==> (r matches Err(SandboxError::WorkspaceUnavailable { path })
                && path@ == self.spec_workspace()),
            workspace_is_dir ==> match r {
                Ok(c) => check_matches(Ok(()), self.spec_policy().spec_prefixes(), texts(argv@))
                    && argv@.len() > 0 && c.program@ == argv@[0]@ && texts(c.args@) == texts(
                    argv@,
                ).drop_first() && c.cwd@ == self.spec_workspace() && texts(c.env_allowlist@)
                    == self.spec_env_allowlist(),
                Err(SandboxError::Policy(e)) => check_matches(
                    Err(e),
                    self.spec_policy().spec_prefixes(),
                    texts(argv@),
                ),
                Err(_) => false,
            },
    {
        if !workspace_is_dir {
            return Err(SandboxError::WorkspaceUnavailable { path: self.workspace.clone() });
        }
        match self.policy.check(argv) {
            Err(e) => {
                return Err(SandboxError::Policy(e));
            },
            Ok(()) => {},
        }
        let mut args: Vec<String> = Vec::new();
        let n = argv.len();
        let mut i: usize = 1;
        while i < n
            invariant
                n == argv@.len(),
                1 <= i <= n,
                args@.len() == i - 1,
                forall|k: int| 0 <= k < i - 1 ==> (#[trigger] args@[k])@ == argv@[k + 1]@,
            decreases n - i,
        {
            args.push(argv[i].clone());
            i = i + 1;
        }
        proof {
            assert(texts(args@) =~= texts(argv@).drop_first());
        }
        Ok(
            SandboxCommand {
                program: argv[0].clone(),
                args,
                cwd: self.workspace.clone(),
                env_allowlist: self.env_allowlist.clone(),
            },
        )
    }
}

/// No policy can allow a shell, an interpreter one-liner or an
/// exec-smuggling helper: whatever the prefixes, such an argv is refused
/// as a wrapper.
pub proof fn lemma_wrappers_refused_by_every_policy(
    prefixes: Seq<Seq<Seq<char>>>,
    argv: Seq<Seq<char>>,
    r: Result<(), CommandPolicyError>,
)
    requires
        argv.len() > 0,
        wrapper_failure(argv) is Some,
        check_matches(r, prefixes, argv),
    ensures
        r matches Err(CommandPolicyError::WrapperRejected { .. }),
{
}

/// A command the policy allows is non-empty, no wrapper, and begins with
/// one of the allowed prefixes.
pub proof fn lemma_allowed_commands_match_a_prefix(prefixes: Seq<Seq<Seq<char>>>, argv: Seq<Seq<char>>)
    requires
        check_matches(Ok(()), prefixes, argv),
    ensures
        argv.len() > 0,
        wrapper_failure(argv) is None,
        exists|i: int| 0 <= i < prefixes.len() && prefix_matches(#[trigger] prefixes[i], argv),
{
}

/// Interpreter one-liners are refused by every policy: a `python` or
/// `python3` given `-c`, a `perl` or `ruby` given `-e`, and a `node` given
/// `-e` or `--eval` as its first argument, wherever the program lies, are
/// refused as interpreter one-liners naming the interpreter, whatever the
/// allowed prefixes.
pub proof fn lemma_interpreter_one_liners_refused(
    prefixes: Seq<Seq<Seq<char>>>,
    argv: Seq<Seq<char>>,
    r: Result<(), CommandPolicyError>,
)
    requires
        argv.len() >= 2,
        ({
            let p = program_basename(argv[0]);
            ||| ((p == "python"@ || p == "python3"@) && argv[1] == "-c"@)
            ||| ((p == "perl"@ || p == "ruby"@) && argv[1] == "-e"@)
            ||| (p == "node"@ && (argv[1] == "-e"@ || argv[1] == "--eval"@))
        }),
        check_matches(r, prefixes, argv),
    ensures
        r matches Err(CommandPolicyError::WrapperRejected { program, reason }) && program@
            == program_basename(argv[0]) && reason@ == "interpreter one-liners are not allowed"@,
{
    reveal_strlit("python");
    reveal_strlit("python3");
    reveal_strlit("perl");
    reveal_strlit("ruby");
    reveal_strlit("node");
    reveal_strlit("sh");
    reveal_strlit("bash");
    reveal_strlit("zsh");
    reveal_strlit("dash");
    reveal_strlit("fish");
    reveal_strlit("cmd");
    reveal_strlit("powershell");
    reveal_strlit("pwsh");
    let p = program_basename(argv[0]);
    assert(!is_shell(p)) by {
        if p == "python"@ || p == "python3"@ || p == "perl"@ || p == "ruby"@ || p == "node"@ {
            assert(p[0] != 's' || p.len() != 2);
        }
    }
}

} // verus!
