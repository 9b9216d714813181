//! The command line: `lean [--config PATH] [--json] <COMMAND>`, with the
//! commands `run --task TEXT [--provider NAME]`, `doctor`, `list-skills` and
//! `list-agents`. Global options may come before or after the command.
use vstd::prelude::*;
use vstd::string::*;
use crate::config::{ConfigError, LeanConfig, config_error_text};
use crate::paths::{PathComponent, components, parts_view, path_components};
use crate::text::{str_eq, str_starts_with};

verus! {

pub const DEFAULT_CONFIG_PATH: &'static str = "lean.yaml";

#[derive(Debug, Clone, PartialEq, Eq)]
pub struct Cli {
    pub config: String,
    pub json: bool,
    pub command: Commands,
}

#[derive(Debug, Clone, PartialEq, Eq)]
pub enum Commands {
    Run(RunArgs),
    Doctor(DoctorArgs),
    ListSkills(ListArgs),
    ListAgents(ListArgs),
}

#[derive(Debug, Clone, PartialEq, Eq)]
pub struct RunArgs {
    pub task: String,
    pub provider: Option<String>,
}

#[derive(Debug, Clone, PartialEq, Eq)]
pub struct DoctorArgs {}

#[derive(Debug, Clone, PartialEq, Eq)]
pub struct ListArgs {}

/// Why the command line was not a command to run. `Help` and `Version`
/// ask for the help text and the version instead.
#[derive(Debug, Clone, PartialEq, Eq)]
pub enum CliError {
    Help,
    CommandHelp(CommandKind),
    Version,
    MissingCommand,
    UnknownCommand(String),
    UnexpectedArgument(String),
    MissingValue(String),
    RepeatedArgument(String),
    MissingTask,
}

/// The commands, as plain values.
#[derive(Debug, Clone, Copy, PartialEq, Eq, Structural)]
pub enum CommandKind {
    Run,
    Doctor,
    ListSkills,
    ListAgents,
}

/// What has been read of the command line so far.
pub struct ParseState {
    pub command: Option<CommandKind>,
    pub config: Option<Seq<char>>,
    pub json: bool,
    pub task: Option<Seq<char>>,
    pub provider: Option<Seq<char>>,
    pub after_separator: bool,
}

/// Why the command line is refused, as plain values.
pub enum CliFailure {
    Help,
    CommandHelp(CommandKind),
    Version,
    MissingCommand,
    UnknownCommand(Seq<char>),
    UnexpectedArgument(Seq<char>),
    MissingValue(Seq<char>),
    RepeatedArgument(Seq<char>),
    MissingTask,
}

pub open spec fn initial_state() -> ParseState {
    ParseState {
        command: None,
        config: None,
        json: false,
        task: None,
        provider: None,
        after_separator: false,
    }
}

/// A token that can be an option's value: anything but a flag (`-` alone is
/// a value).
pub open spec fn is_value(t: Seq<char>) -> bool {
    !(t.len() > 1 && t[0] == '-')
}

/// The value written inline after `name=`, if `t` is of that form.
pub open spec fn inline_value(t: Seq<char>, name: Seq<char>) -> Option<Seq<char>> {
    let head = name + seq!['='];
    if head.is_prefix_of(t) {
        Some(t.skip(head.len() as int))
    } else {
        None
    }
}

/// The command a word names.
pub open spec fn command_named(t: Seq<char>) -> Option<CommandKind> {
    if t == "run"@ {
        Some(CommandKind::Run)
    } else if t == "doctor"@ {
        Some(CommandKind::Doctor)
    } else if t == "list-skills"@ {
        Some(CommandKind::ListSkills)
    } else if t == "list-agents"@ {
        Some(CommandKind::ListAgents)
    } else {
        None
    }
}

/// Which option a token sets.
pub enum OptionSlot {
    Config,
    Task,
    Provider,
}

/// The value-taking option a token names, in the current command.
pub open spec fn option_named(t: Seq<char>, command: Option<CommandKind>) -> Option<OptionSlot> {
    if t == "--config"@ {
        Some(OptionSlot::Config)
    } else if command == Some(CommandKind::Run) && t == "--task"@ {
        Some(OptionSlot::Task)
    } else if command == Some(CommandKind::Run) && t == "--provider"@ {
        Some(OptionSlot::Provider)
    } else {
        None
    }
}

/// The value-taking option written `name=value`, with its value.
pub open spec fn inline_option(t: Seq<char>, command: Option<CommandKind>) -> Option<(OptionSlot, Seq<char>)> {
    if inline_value(t, "--config"@) is Some {
        Some((OptionSlot::Config, inline_value(t, "--config"@)->Some_0))
    } else if command == Some(CommandKind::Run) && inline_value(t, "--task"@) is Some {
        Some((OptionSlot::Task, inline_value(t, "--task"@)->Some_0))
    } else if command == Some(CommandKind::Run) && inline_value(t, "--provider"@) is Some {
        Some((OptionSlot::Provider, inline_value(t, "--provider"@)->Some_0))
    } else {
        None
    }
}

/// The name of an option.
pub open spec fn slot_name(slot: OptionSlot) -> Seq<char> {
    match slot {
        OptionSlot::Config => "--config"@,
        OptionSlot::Task => "--task"@,
        OptionSlot::Provider => "--provider"@,
    }
}

/// Whether an option already has a value.
pub open spec fn is_set(st: ParseState, slot: OptionSlot) -> bool {
    match slot {
        OptionSlot::Config => st.config is Some,
        OptionSlot::Task => st.task is Some,
        OptionSlot::Provider => st.provider is Some,
    }
}

/// The help asked for in state `st`: the current command's, else the
/// top-level one.
pub open spec fn help_for(st: ParseState) -> CliFailure {
    match st.command {
        Some(c) => CliFailure::CommandHelp(c),
        None => CliFailure::Help,
    }
}

/// What `help` asks for, given the word after it, if any.
pub open spec fn help_word(next: Option<Seq<char>>) -> CliFailure {
    match next {
        None => CliFailure::Help,
        Some(w) => match command_named(w) {
            Some(c) => CliFailure::CommandHelp(c),
            None => CliFailure::UnknownCommand(w),
        },
    }
}

pub open spec fn set_option(st: ParseState, slot: OptionSlot, v: Seq<char>) -> ParseState {
    match slot {
        OptionSlot::Config => ParseState { config: Some(v), ..st },
        OptionSlot::Task => ParseState { task: Some(v), ..st },
        OptionSlot::Provider => ParseState { provider: Some(v), ..st },
    }
}

/// Reads the tokens from `i` on, from state `st`: flags and options of the
/// current command (each at most once), the command name as the first word,
/// and nothing after `--`; help and version requests end the reading at once,
/// help naming the command it is asked for.
pub open spec fn parse_from(tokens: Seq<Seq<char>>, i: int, st: ParseState) -> Result<ParseState, CliFailure>
    decreases tokens.len() - i,
{
    if i < 0 || i >= tokens.len() {
        Ok(st)
    } else {
        let t = tokens[i];
        if st.after_separator {
            Err(CliFailure::UnexpectedArgument(t))
        } else if t == "--"@ {
            parse_from(tokens, i + 1, ParseState { after_separator: true, ..st })
        } else if t == "--help"@ || t == "-h"@ {
            Err(help_for(st))
        } else if t == "--version"@ || t == "-V"@ {
            Err(CliFailure::Version)
        } else if t == "--json"@ {
            if st.json {
                Err(CliFailure::RepeatedArgument("--json"@))
            } else {
                parse_from(tokens, i + 1, ParseState { json: true, ..st })
            }
        } else if option_named(t, st.command) is Some {
            let slot = option_named(t, st.command)->Some_0;
            if !(i + 1 < tokens.len() && is_value(tokens[i + 1])) {
                Err(CliFailure::MissingValue(t))
            } else if is_set(st, slot) {
                Err(CliFailure::RepeatedArgument(t))
            } else {
                parse_from(tokens, i + 2, set_option(st, slot, tokens[i + 1]))
            }
        } else if inline_option(t, st.command) is Some {
            let (slot, v) = inline_option(t, st.command)->Some_0;
            if is_set(st, slot) {
                Err(CliFailure::RepeatedArgument(slot_name(slot)))
            } else {
                parse_from(tokens, i + 1, set_option(st, slot, v))
            }
        } else if st.command is None && !(t.len() > 0 && t[0] == '-') {
            if t == "help"@ {
                Err(help_word(if i + 1 < tokens.len() { Some(tokens[i + 1]) } else { None }))
            } else if command_named(t) is Some {
                parse_from(tokens, i + 1, ParseState { command: command_named(t), ..st })
            } else {
                Err(CliFailure::UnknownCommand(t))
            }
        } else {
            Err(CliFailure::UnexpectedArgument(t))
        }
    }
}

/// What a whole command line (without the program name) gives.
pub open spec fn parse_cli(tokens: Seq<Seq<char>>) -> Result<ParseState, CliFailure> {
    match parse_from(tokens, 0, initial_state()) {
        Err(e) => Err(e),
        Ok(st) => if st.command is None {
            Err(CliFailure::MissingCommand)
        } else if st.command == Some(CommandKind::Run) && st.task is None {
            Err(CliFailure::MissingTask)
        } else {
            Ok(st)
        },
    }
}

/// Whether a parsed command line is the final state `st`.
pub open spec fn cli_matches(c: Cli, st: ParseState) -> bool {
    &&& c.config@ == match st.config {
        Some(v) => v,
        None => DEFAULT_CONFIG_PATH@,
    }
    &&& c.json == st.json
    &&& match c.command {
        Commands::Run(a) => st.command == Some(CommandKind::Run) && st.task == Some(a.task@)
            && a.provider.deep_view() == st.provider,
        Commands::Doctor(_) => st.command == Some(CommandKind::Doctor),
        Commands::ListSkills(_) => st.command == Some(CommandKind::ListSkills),
        Commands::ListAgents(_) => st.command == Some(CommandKind::ListAgents),
    }
}

impl View for CliError {
    type V = CliFailure;

    open spec fn view(&self) -> CliFailure {
        match self {
            CliError::Help => CliFailure::Help,
            CliError::CommandHelp(c) => CliFailure::CommandHelp(*c),
            CliError::Version => CliFailure::Version,
            CliError::MissingCommand => CliFailure::MissingCommand,
            CliError::UnknownCommand(t) => CliFailure::UnknownCommand(t@),
            CliError::UnexpectedArgument(t) => CliFailure::UnexpectedArgument(t@),
            CliError::MissingValue(t) => CliFailure::MissingValue(t@),
            CliError::RepeatedArgument(t) => CliFailure::RepeatedArgument(t@),
            CliError::MissingTask => CliFailure::MissingTask,
        }
    }
}

/// The arguments of a command line: all but the program name.
pub open spec fn arguments(argv: Seq<Seq<char>>) -> Seq<Seq<char>> {
    if argv.len() == 0 {
        Seq::empty()
    } else {
        argv.drop_first()
    }
}

pub open spec fn texts(v: Seq<String>) -> Seq<Seq<char>> {
    v.map_values(|s: String| s@)
}

fn inline_value_of(t: &str, name: &str) -> (r: Option<String>)
    ensures
        r.deep_view() == inline_value(t@, name@),
{
    let mut head = name.to_owned();
    head.append("=");
    proof {
        reveal_strlit("=");
        assert(head@ =~= name@ + seq!['=']);
    }
    if str_starts_with(t, head.as_str()) {
        let k = head.as_str().unicode_len();
        let rest = t.substring_char(k, t.unicode_len());
        assert(rest@ =~= t@.skip(k as int));
        Some(rest.to_owned())
    } else {
        None
    }
}

/// The parser's working state.
struct Reading {
    command: Option<CommandKind>,
    config: Option<String>,
    json: bool,
    task: Option<String>,
    provider: Option<String>,
    after_separator: bool,
}

impl Reading {
    spec fn state(&self) -> ParseState {
        ParseState {
            command: self.command,
            config: self.config.deep_view(),
            json: self.json,
            task: self.task.deep_view(),
            provider: self.provider.deep_view(),
            after_separator: self.after_separator,
        }
    }
}

fn is_value_exec(t: &str) -> (b: bool)
    ensures
        b == is_value(t@),
{
    !(t.unicode_len() > 1 && t.get_char(0) == '-')
}

fn command_of(t: &str) -> (r: Option<CommandKind>)
    ensures
        r == command_named(t@),
{
    if str_eq(t, "run") {
        Some(CommandKind::Run)
    } else if str_eq(t, "doctor") {
        Some(CommandKind::Doctor)
    } else if str_eq(t, "list-skills") {
        Some(CommandKind::ListSkills)
    } else if str_eq(t, "list-agents") {
        Some(CommandKind::ListAgents)
    } else {
        None
    }
}

fn is_run(c: &Option<CommandKind>) -> (b: bool)
    ensures
        b == (*c == Some(CommandKind::Run)),
{
    match c {
        Some(CommandKind::Run) => true,
        _ => false,
    }
}

fn option_of(t: &str, command: &Option<CommandKind>) -> (r: Option<OptionSlot>)
    ensures
        r == option_named(t@, *command),
{
    if str_eq(t, "--config") {
        Some(OptionSlot::Config)
    } else if is_run(command) && str_eq(t, "--task") {
        Some(OptionSlot::Task)
    } else if is_run(command) && str_eq(t, "--provider") {
        Some(OptionSlot::Provider)
    } else {
        None
    }
}

fn inline_option_of(t: &str, command: &Option<CommandKind>) -> (r: Option<(OptionSlot, String)>)
    ensures
        match r {
            Some((slot, v)) => inline_option(t@, *command) == Some((slot, v@)),
            None => inline_option(t@, *command) is None,
        },
{
    match inline_value_of(t, "--config") {
        Some(v) => {
            return Some((OptionSlot::Config, v));
        },
        None => {},
    }
    if is_run(command) {
        match inline_value_of(t, "--task") {
            Some(v) => {
                return Some((OptionSlot::Task, v));
            },
            None => {},
        }
        match inline_value_of(t, "--provider") {
            Some(v) => {
                return Some((OptionSlot::Provider, v));
            },
            None => {},
        }
    }
    None
}

fn set_option_exec(r: &mut Reading, slot: OptionSlot, v: String)
    ensures
        final(r).state() == set_option(old(r).state(), slot, v@),
{
    match slot {
        OptionSlot::Config => {
            r.config = Some(v);
        },
        OptionSlot::Task => {
            r.task = Some(v);
        },
        OptionSlot::Provider => {
            r.provider = Some(v);
        },
    }
}

fn slot_is_set(r: &Reading, slot: &OptionSlot) -> (b: bool)
    ensures
        b == is_set(r.state(), *slot),
{
    match slot {
        OptionSlot::Config => r.config.is_some(),
        OptionSlot::Task => r.task.is_some(),
        OptionSlot::Provider => r.provider.is_some(),
    }
}

fn slot_name_of(slot: &OptionSlot) -> (n: String)
    ensures
        n@ == slot_name(*slot),
{
    match slot {
        OptionSlot::Config => "--config".to_owned(),
        OptionSlot::Task => "--task".to_owned(),
        OptionSlot::Provider => "--provider".to_owned(),
    }
}

fn help_for_exec(command: &Option<CommandKind>) -> (e: CliError)
    ensures
        e@ == help_for(ParseState {
            command: *command,
            config: None,
            json: false,
            task: None,
            provider: None,
            after_separator: false,
        }),
{
    match command {
        Some(c) => CliError::CommandHelp(*c),
        None => CliError::Help,
    }
}

fn copy_kind(c: &Option<CommandKind>) -> (r: Option<CommandKind>)
    ensures
        r == *c,
{
    match c {
        None => None,
        Some(CommandKind::Run) => Some(CommandKind::Run),
        Some(CommandKind::Doctor) => Some(CommandKind::Doctor),
        Some(CommandKind::ListSkills) => Some(CommandKind::ListSkills),
        Some(CommandKind::ListAgents) => Some(CommandKind::ListAgents),
    }
}

impl Cli {
    /// Reads a command line, the program name first (see `parse_cli`); an
    /// empty command line reads as one without arguments.
    pub fn try_parse_from(argv: Vec<String>) -> (r: Result<Cli, CliError>)
        ensures
            match parse_cli(arguments(texts(argv@))) {
                Ok(st) => r matches Ok(c) && cli_matches(c, st),
                Err(e) => r matches Err(x) && x@ == e,
            },
    {
        let ghost tokens = arguments(texts(argv@));
        let n = argv.len();
        let mut rd = Reading {
            command: None,
            config: None,
            json: false,
            task: None,
            provider: None,
            after_separator: false,
        };
        if n == 0 {
            return Err(CliError::MissingCommand);
        }
        let mut i: usize = 1;
        while i < n
            invariant
                n == argv@.len(),
                n >= 1,
                tokens == arguments(texts(argv@)),
                1 <= i <= n + 1,
                parse_from(tokens, 0, initial_state()) == parse_from(tokens, i - 1, rd.state()),
            decreases n + 1 - i,
        {
            let t = argv[i].as_str();
            assert(tokens[i - 1] == t@);
            if rd.after_separator {
                return Err(CliError::UnexpectedArgument(t.to_owned()));
            }
            if str_eq(t, "--") {
                rd.after_separator = true;
                i = i + 1;
            } else if str_eq(t, "--help") || str_eq(t, "-h") {
                return Err(help_for_exec(&rd.command));
            } else if str_eq(t, "--version") || str_eq(t, "-V") {
                return Err(CliError::Version);
            } else if str_eq(t, "--json") {
                if rd.json {
                    return Err(CliError::RepeatedArgument("--json".to_owned()));
                }
                rd.json = true;
                i = i + 1;
            } else {
                match option_of(t, &rd.command) {
                    Some(slot) => {
                        if i + 1 < n && is_value_exec(argv[i + 1].as_str()) {
                            assert(tokens[i as int] == argv@[i + 1]@);
                            if slot_is_set(&rd, &slot) {
                                return Err(CliError::RepeatedArgument(t.to_owned()));
                            }
                            let v = argv[i + 1].clone();
                            set_option_exec(&mut rd, slot, v);
                            i = i + 2;
                        } else {
                            proof {
                                if i + 1 < n {
                                    assert(tokens[i as int] == argv@[i + 1]@);
                                }
                            }
                            return Err(CliError::MissingValue(t.to_owned()));
                        }
                    },
                    None => {
                        match inline_option_of(t, &rd.command) {
                            Some((slot, v)) => {
                                if slot_is_set(&rd, &slot) {
                                    return Err(CliError::RepeatedArgument(slot_name_of(&slot)));
                                }
                                set_option_exec(&mut rd, slot, v);
                                i = i + 1;
                            },
                            None => {
                                let word = rd.command.is_none() && !(t.unicode_len() > 0
                                    && t.get_char(0) == '-');
                                if word {
                                    if str_eq(t, "help") {
                                        if i + 1 >= n {
                                            return Err(CliError::Help);
                                        }
                                        assert(tokens[i as int] == argv@[i + 1]@);
                                        let w = argv[i + 1].as_str();
                                        return match command_of(w) {
                                            Some(c) => Err(CliError::CommandHelp(c)),
                                            None => Err(CliError::UnknownCommand(w.to_owned())),
                                        };
                                    }
                                    match command_of(t) {
                                        Some(c) => {
                                            rd.command = Some(c);
                                            i = i + 1;
                                        },
                                        None => {
                                            return Err(CliError::UnknownCommand(t.to_owned()));
                                        },
                                    }
                                } else {
                                    return Err(CliError::UnexpectedArgument(t.to_owned()));
                                }
                            },
                        }
                    },
                }
            }
        }
        assert(parse_from(tokens, 0, initial_state()) == Ok::<ParseState, CliFailure>(rd.state()));
        let command = match copy_kind(&rd.command) {
            None => {
                return Err(CliError::MissingCommand);
            },
            Some(CommandKind::Run) => {
                match rd.task {
                    None => {
                        return Err(CliError::MissingTask);
                    },
                    Some(task) => Commands::Run(RunArgs { task, provider: rd.provider }),
                }
            },
            Some(CommandKind::Doctor) => Commands::Doctor(DoctorArgs {}),
            Some(CommandKind::ListSkills) => Commands::ListSkills(ListArgs {}),
            Some(CommandKind::ListAgents) => Commands::ListAgents(ListArgs {}),
        };
        let config = match rd.config {
            Some(c) => c,
            None => DEFAULT_CONFIG_PATH.to_owned(),
        };
        Ok(Cli { config, json: rd.json, command })
    }

    /// The long help text: what `lean --help` prints.
    pub fn long_help() -> (help: String)
        ensures
            help@ == LONG_HELP@,
    {
        LONG_HELP.to_owned()
    }

    /// The version line: what `lean --version` prints.
    pub fn version_line() -> (v: String)
        ensures
            v@ == VERSION_LINE@,
    {
        VERSION_LINE.to_owned()
    }
}

pub const RUN_HELP: &'static str = "Run a task through the configured agent harness

Usage: lean run [OPTIONS] --task <TEXT>

Options:
      --task <TEXT>
          Task prompt to execute

      --provider <NAME>
          Provider adapter to use

      --config <PATH>
          Path to the LEAN configuration file

          [default: lean.yaml]

      --json
          Emit machine-readable output

  -h, --help
          Print help (see a summary with '-h')

  -V, --version
          Print version
";

pub const DOCTOR_HELP: &'static str = "Validate local configuration and environment

Usage: lean doctor [OPTIONS]

Options:
      --config <PATH>
          Path to the LEAN configuration file

          [default: lean.yaml]

      --json
          Emit machine-readable output

  -h, --help
          Print help (see a summary with '-h')

  -V, --version
          Print version
";

pub const LIST_SKILLS_HELP: &'static str = "List discovered agent skills

Usage: lean list-skills [OPTIONS]

Options:
      --config <PATH>
          Path to the LEAN configuration file

          [default: lean.yaml]

      --json
          Emit machine-readable output

  -h, --help
          Print help (see a summary with '-h')

  -V, --version
          Print version
";

pub const LIST_AGENTS_HELP: &'static str = "List available agent profiles

Usage: lean list-agents [OPTIONS]

Options:
      --config <PATH>
          Path to the LEAN configuration file

          [default: lean.yaml]

      --json
          Emit machine-readable output

  -h, --help
          Print help (see a summary with '-h')

  -V, --version
          Print version
";

pub const VERSION_LINE: &'static str = "lean 0.1.0";

pub const LONG_HELP: &'static str = "Lightweight Execution Agent Network

Usage: lean [OPTIONS] <COMMAND>

Commands:
  run          Run a task through the configured agent harness
  doctor       Validate local configuration and environment
  list-skills  List discovered agent skills
  list-agents  List available agent profiles
  help         Print this message or the help of the given subcommand(s)

Options:
      --config <PATH>
          Path to the LEAN configuration file

          [default: lean.yaml]

      --json
          Emit machine-readable output

  -h, --help
          Print help (see a summary with '-h')

  -V, --version
          Print version
";

/// Where credential reads are audited when the configuration names no
/// audit log.
pub const DEFAULT_CREDENTIAL_AUDIT_PATH: &'static str = "target/lean-audit.jsonl";

/// A missing configuration file may be skipped for `run` when a provider is
/// named on the command line and the configuration path is the default one.
pub open spec fn may_skip_missing_config(provider_given: bool, config_path: Seq<char>, error: ConfigError) -> bool {
    &&& provider_given
    &&& path_components(config_path) == path_components(DEFAULT_CONFIG_PATH@)
    &&& error matches ConfigError::Read { not_found, .. } && not_found
}

/// Whether a failed load may be skipped (see `may_skip_missing_config`).
#[verifier::loop_isolation(false)]
pub fn can_skip_missing_default_config(provider_given: bool, config_path: &str, error: &ConfigError) -> (b: bool)
    ensures
        b == may_skip_missing_config(provider_given, config_path@, *error),
{
    if !provider_given {
        return false;
    }
    let not_found = match error {
        ConfigError::Read { not_found, .. } => *not_found,
        _ => false,
    };
    if !not_found {
        return false;
    }
    let a = components(config_path);
    let b = components(DEFAULT_CONFIG_PATH);
    if a.len() != b.len() {
        assert(parts_view(a@).len() != parts_view(b@).len());
        return false;
    }
    let n = a.len();
    let mut i: usize = 0;
    while i < n
        invariant
            n == a@.len(),
            n == b@.len(),
            i <= n,
            forall|k: int| 0 <= k < i ==> (#[trigger] a@[k])@ == b@[k]@,
        decreases n - i,
    {
        let same = match (&a[i], &b[i]) {
            (PathComponent::RootDir, PathComponent::RootDir) => true,
            (PathComponent::CurDir, PathComponent::CurDir) => true,
            (PathComponent::ParentDir, PathComponent::ParentDir) => true,
            (PathComponent::Normal(x), PathComponent::Normal(y)) => str_eq(x.as_str(), y.as_str()),
            _ => false,
        };
        if !same {
            assert(parts_view(a@)[i as int] != parts_view(b@)[i as int]);
            return false;
        }
        i = i + 1;
    }
    assert(parts_view(a@) =~= parts_view(b@));
    true
}

/// The configuration a run uses: the loaded one; none when a missing default
/// configuration may be skipped; otherwise the load error's message.
pub fn load_config_for_run(
    provider_given: bool,
    config_path: &str,
    loaded: Result<LeanConfig, ConfigError>,
) -> (r: Result<Option<LeanConfig>, String>)
    ensures
        match loaded {
            Ok(c) => r == Ok::<Option<LeanConfig>, String>(Some(c)),
            Err(e) => if may_skip_missing_config(provider_given, config_path@, e) {
                r == Ok::<Option<LeanConfig>, String>(None)
            } else {
                r matches Err(m) && m@ == config_error_text(e)
            },
        },
{
    match loaded {
        Ok(c) => Ok(Some(c)),
        Err(e) => {
            if can_skip_missing_default_config(provider_given, config_path, &e) {
                Ok(None)
            } else {
                Err(e.message())
            }
        },
    }
}

/// The provider a run uses: the one named on the command line, else the
/// configuration's default provider. One of the two must be present.
pub fn resolve_provider_name(provider: Option<&str>, config: Option<&LeanConfig>) -> (name: String)
    requires
        provider is Some || config is Some,
    ensures
        name@ == match provider {
            Some(p) => p@,
            None => config->Some_0.runtime.default_provider@,
        },
{
    match provider {
        Some(p) => p.to_owned(),
        None => match config {
            Some(c) => c.runtime.default_provider.clone(),
            None => String::new(),
        },
    }
}

/// Where credential reads are audited: the configured audit log, else the
/// default path.
pub fn credential_audit_path(config: Option<&LeanConfig>) -> (path: String)
    ensures
        path@ == match config {
            Some(c) => match c.events.audit_path {
                Some(p) => p@,
                None => DEFAULT_CREDENTIAL_AUDIT_PATH@,
            },
            None => DEFAULT_CREDENTIAL_AUDIT_PATH@,
        },
{
    match config {
        Some(c) => match &c.events.audit_path {
            Some(p) => p.clone(),
            None => DEFAULT_CREDENTIAL_AUDIT_PATH.to_owned(),
        },
        None => DEFAULT_CREDENTIAL_AUDIT_PATH.to_owned(),
    }
}

/// The help text of a command.
pub open spec fn command_help_text(c: CommandKind) -> Seq<char> {
    match c {
        CommandKind::Run => RUN_HELP@,
        CommandKind::Doctor => DOCTOR_HELP@,
        CommandKind::ListSkills => LIST_SKILLS_HELP@,
        CommandKind::ListAgents => LIST_AGENTS_HELP@,
    }
}

/// The message of a refused command line.
pub open spec fn cli_error_text(e: CliFailure) -> Seq<char> {
    match e {
        CliFailure::Help => LONG_HELP@,
        CliFailure::CommandHelp(c) => command_help_text(c),
        CliFailure::Version => VERSION_LINE@,
        CliFailure::MissingCommand => "'lean' requires a subcommand but one was not provided"@,
        CliFailure::UnknownCommand(t) => "unrecognized subcommand '"@ + t + "'"@,
        CliFailure::UnexpectedArgument(t) => "unexpected argument '"@ + t + "' found"@,
        CliFailure::MissingValue(t) => "a value is required for '"@ + t + "' but none was supplied"@,
        CliFailure::RepeatedArgument(t) => "the argument '"@ + t + "' cannot be used multiple times"@,
        CliFailure::MissingTask => "the following required arguments were not provided: --task <TEXT>"@,
    }
}

fn quoted(head: &str, t: &String, tail: &str) -> (r: String)
    ensures
        r@ == head@ + t@ + tail@,
{
    let mut r = head.to_owned();
    r.append(t.as_str());
    r.append(tail);
    r
}

impl CliError {
    /// What is shown for a refused command line: the help text or version
    /// when they were asked for, else the error.
    pub fn message(&self) -> (text: String)
        ensures
            text@ == cli_error_text(self@),
    {
        match self {
            CliError::Help => LONG_HELP.to_owned(),
            CliError::CommandHelp(c) => match c {
                CommandKind::Run => RUN_HELP.to_owned(),
                CommandKind::Doctor => DOCTOR_HELP.to_owned(),
                CommandKind::ListSkills => LIST_SKILLS_HELP.to_owned(),
                CommandKind::ListAgents => LIST_AGENTS_HELP.to_owned(),
            },
            CliError::Version => VERSION_LINE.to_owned(),
            CliError::MissingCommand => "'lean' requires a subcommand but one was not provided".to_owned(),
            CliError::UnknownCommand(t) => quoted("unrecognized subcommand '", t, "'"),
            CliError::UnexpectedArgument(t) => quoted("unexpected argument '", t, "' found"),
            CliError::MissingValue(t) => quoted("a value is required for '", t, "' but none was supplied"),
            CliError::RepeatedArgument(t) => quoted("the argument '", t, "' cannot be used multiple times"),
            CliError::MissingTask => "the following required arguments were not provided: --task <TEXT>".to_owned(),
        }
    }
}

} // verus!
