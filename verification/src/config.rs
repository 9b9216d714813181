//! The `lean.yaml` configuration: its schema, how a YAML document is read
//! into it, and the rules that a loaded configuration must meet.
use vstd::prelude::*;
use vstd::string::*;
use crate::text::{
    is_blank, trim, is_ascii_alphabetic, is_ascii_alphanumeric, is_ascii_digit, str_is_blank, trim_str,
    str_starts_with, char_is_ascii_alphanumeric,
};
use crate::yaml::{YamlValue, yaml_document, parse_yaml_document};

verus! {

#[derive(Debug, Clone, PartialEq, Eq)]
pub struct LeanConfig {
    pub project: ProjectConfig,
    pub runtime: RuntimeConfig,
    pub events: EventConfig,
    pub providers: Vec<ProviderConfig>,
    pub commands: CommandConfig,
    pub workspace: WorkspaceConfig,
}

#[derive(Debug, Clone, PartialEq, Eq)]
pub struct ProjectConfig {
    pub name: String,
    pub root: String,
}

#[derive(Debug, Clone, PartialEq, Eq)]
pub struct RuntimeConfig {
    pub default_provider: String,
    pub max_turns: u32,
}

#[derive(Debug, Clone, PartialEq, Eq)]
pub struct EventConfig {
    pub format: EventFormat,
    pub audit_path: Option<String>,
}

#[derive(Debug, Clone, PartialEq, Eq)]
pub struct ProviderConfig {
    pub name: String,
    pub kind: ProviderKind,
    pub model: String,
    pub api_key_env: String,
    pub base_url: Option<String>,
}

#[derive(Debug, Clone, Copy, PartialEq, Eq, Structural)]
pub enum ProviderKind {
    OpenAiCompatible,
}

#[derive(Debug, Clone, PartialEq, Eq)]
pub struct WorkspaceConfig {
    pub worktree_root: Option<String>,
}

#[derive(Debug, Clone, PartialEq, Eq)]
pub struct CommandConfig {
    pub allowed: Vec<Vec<String>>,
    pub env_allowlist: Vec<String>,
}

#[derive(Debug, Clone, Copy, PartialEq, Eq, Structural)]
pub enum EventFormat {
    Jsonl,
}

/// Why a configuration could not be loaded. `not_found` records whether a
/// read failed because the file does not exist.
#[derive(Debug, Clone, PartialEq, Eq)]
pub enum ConfigError {
    Read { path: String, message: String, not_found: bool },
    Parse { path: String, message: String },
    Validation(String),
}

// ----- views -----

pub struct ProjectView {
    pub name: Seq<char>,
    pub root: Seq<char>,
}

pub struct RuntimeView {
    pub default_provider: Seq<char>,
    pub max_turns: u32,
}

pub struct EventsView {
    pub format: EventFormat,
    pub audit_path: Option<Seq<char>>,
}

pub struct ProviderView {
    pub name: Seq<char>,
    pub kind: ProviderKind,
    pub model: Seq<char>,
    pub api_key_env: Seq<char>,
    pub base_url: Option<Seq<char>>,
}

pub struct CommandsView {
    pub allowed: Seq<Seq<Seq<char>>>,
    pub env_allowlist: Seq<Seq<char>>,
}

pub struct WorkspaceView {
    pub worktree_root: Option<Seq<char>>,
}

pub struct LeanConfigView {
    pub project: ProjectView,
    pub runtime: RuntimeView,
    pub events: EventsView,
    pub providers: Seq<ProviderView>,
    pub commands: CommandsView,
    pub workspace: WorkspaceView,
}

impl View for ProjectConfig {
    type V = ProjectView;

    open spec fn view(&self) -> ProjectView {
        ProjectView { name: self.name@, root: self.root@ }
    }
}

impl View for RuntimeConfig {
    type V = RuntimeView;

    open spec fn view(&self) -> RuntimeView {
        RuntimeView { default_provider: self.default_provider@, max_turns: self.max_turns }
    }
}

impl View for EventConfig {
    type V = EventsView;

    open spec fn view(&self) -> EventsView {
        EventsView { format: self.format, audit_path: self.audit_path.deep_view() }
    }
}

impl View for ProviderConfig {
    type V = ProviderView;

    open spec fn view(&self) -> ProviderView {
        ProviderView {
            name: self.name@,
            kind: self.kind,
            model: self.model@,
            api_key_env: self.api_key_env@,
            base_url: self.base_url.deep_view(),
        }
    }
}

impl View for CommandConfig {
    type V = CommandsView;

    open spec fn view(&self) -> CommandsView {
        CommandsView { allowed: self.allowed.deep_view(), env_allowlist: self.env_allowlist.deep_view() }
    }
}

impl View for WorkspaceConfig {
    type V = WorkspaceView;

    open spec fn view(&self) -> WorkspaceView {
        WorkspaceView { worktree_root: self.worktree_root.deep_view() }
    }
}

pub open spec fn providers_view(ps: Seq<ProviderConfig>) -> Seq<ProviderView> {
    ps.map_values(|p: ProviderConfig| p@)
}

impl View for LeanConfig {
    type V = LeanConfigView;

    open spec fn view(&self) -> LeanConfigView {
        LeanConfigView {
            project: self.project@,
            runtime: self.runtime@,
            events: self.events@,
            providers: providers_view(self.providers@),
            commands: self.commands@,
            workspace: self.workspace@,
        }
    }
}

// ----- validation rules -----

/// A valid environment variable name: `[A-Za-z_][A-Za-z0-9_]*`.
pub open spec fn valid_env_name(name: Seq<char>) -> bool {
    &&& name.len() > 0
    &&& (name[0] == '_' || is_ascii_alphabetic(name[0]))
    &&& forall|i: int| 1 <= i < name.len() ==> (#[trigger] name[i] == '_' || is_ascii_alphanumeric(name[i]))
}

/// The first rule that one provider entry breaks, given the entries before it.
pub open spec fn provider_error(p: ProviderView, earlier: Seq<ProviderView>) -> Option<Seq<char>> {
    if is_blank(p.name) {
        Some("providers.name must not be empty"@)
    } else if p.name == "mock"@ {
        Some("providers.name must not use reserved provider name mock"@)
    } else if exists|i: int| 0 <= i < earlier.len() && #[trigger] earlier[i].name == p.name {
        Some("providers.name must be unique: "@ + p.name)
    } else if is_blank(p.model) {
        Some("providers.model must not be empty"@)
    } else if !valid_env_name(p.api_key_env) {
        Some("providers.api_key_env must be a valid environment variable name"@)
    } else {
        match p.base_url {
            Some(url) => if is_blank(url) {
                Some("providers.base_url must not be empty"@)
            } else if !("https://"@.is_prefix_of(trim(url)) || "http://"@.is_prefix_of(trim(url))) {
                Some("providers.base_url must start with http:// or https://"@)
            } else {
                None
            },
            None => None,
        }
    }
}

/// The first rule that the provider list breaks, checking entries in order.
pub open spec fn providers_error(ps: Seq<ProviderView>) -> Option<Seq<char>>
    decreases ps.len(),
{
    if ps.len() == 0 {
        None
    } else {
        match providers_error(ps.drop_last()) {
            Some(e) => Some(e),
            None => provider_error(ps.last(), ps.drop_last()),
        }
    }
}

/// The rule that one allowed command prefix breaks.
pub open spec fn command_prefix_error(prefix: Seq<Seq<char>>) -> Option<Seq<char>> {
    if prefix.len() == 0 {
        Some("commands.allowed entries must not be empty"@)
    } else if exists|j: int| 0 <= j < prefix.len() && is_blank(#[trigger] prefix[j]) {
        Some("commands.allowed entries must not contain empty argv parts"@)
    } else {
        None
    }
}

/// The first rule that the allowed command prefixes break, in order.
pub open spec fn allowed_error(prefixes: Seq<Seq<Seq<char>>>) -> Option<Seq<char>>
    decreases prefixes.len(),
{
    if prefixes.len() == 0 {
        None
    } else {
        match allowed_error(prefixes.drop_last()) {
            Some(e) => Some(e),
            None => command_prefix_error(prefixes.last()),
        }
    }
}

/// The first rule that a configuration breaks, in the order in which they
/// are checked; `None` for a valid configuration.
pub open spec fn config_error(c: LeanConfigView) -> Option<Seq<char>> {
    if is_blank(c.project.name) {
        Some("project.name must not be empty"@)
    } else if is_blank(c.project.root) {
        Some("project.root must not be empty"@)
    } else if is_blank(c.runtime.default_provider) {
        Some("runtime.default_provider must not be empty"@)
    } else if c.runtime.max_turns == 0 {
        Some("runtime.max_turns must be greater than zero"@)
    } else if providers_error(c.providers) is Some {
        providers_error(c.providers)
    } else if c.workspace.worktree_root matches Some(root) && root.len() == 0 {
        Some("workspace.worktree_root must not be empty"@)
    } else if allowed_error(c.commands.allowed) is Some {
        allowed_error(c.commands.allowed)
    } else if exists|i: int|
        0 <= i < c.commands.env_allowlist.len() && is_blank(#[trigger] c.commands.env_allowlist[i]) {
        Some("commands.env_allowlist entries must not be empty"@)
    } else {
        None
    }
}

// ----- reading the YAML document -----

/// The text that a scalar node gives a string field. The document is read as
/// a value tree, which keeps no scalar's raw text: `~` and `null` read as
/// empty, a boolean as `true` or `false`, a number in its formatted form.
pub open spec fn scalar_text(v: YamlValue) -> Option<Seq<char>> {
    match v {
        YamlValue::Null => Some(Seq::empty()),
        YamlValue::Bool(b) => Some(if b { "true"@ } else { "false"@ }),
        YamlValue::Number(t) => Some(t@),
        YamlValue::String(s) => Some(s@),
        _ => None,
    }
}

/// The entries of a node read as a struct: a mapping, or nothing at all.
pub open spec fn entries_of(v: YamlValue) -> Option<Seq<(YamlValue, YamlValue)>> {
    match v {
        YamlValue::Mapping(es) => Some(es@),
        YamlValue::Null => Some(Seq::empty()),
        _ => None,
    }
}

pub open spec fn key_text(k: YamlValue) -> Option<Seq<char>> {
    match k {
        YamlValue::String(s) => Some(s@),
        _ => None,
    }
}

/// Every key is one of `known`, and no key occurs twice.
pub open spec fn keys_within(es: Seq<(YamlValue, YamlValue)>, known: Seq<Seq<char>>) -> bool {
    &&& forall|i: int|
        0 <= i < es.len() ==> (#[trigger] key_text(es[i].0) matches Some(k) && known.contains(k))
    &&& forall|i: int, j: int|
        0 <= i < j < es.len() ==> key_text(#[trigger] es[i].0) != key_text(#[trigger] es[j].0)
}

/// The value of the first entry with key `key`.
pub open spec fn lookup(es: Seq<(YamlValue, YamlValue)>, key: Seq<char>) -> Option<YamlValue>
    decreases es.len(),
{
    if es.len() == 0 {
        None
    } else if key_text(es[0].0) == Some(key) {
        Some(es[0].1)
    } else {
        lookup(es.drop_first(), key)
    }
}

/// A required string field.
pub open spec fn required_text(es: Seq<(YamlValue, YamlValue)>, key: Seq<char>) -> Option<Seq<char>> {
    match lookup(es, key) {
        Some(v) => scalar_text(v),
        None => None,
    }
}

/// An optional string field: `Some(None)` when absent or null, `None` when
/// it holds no scalar.
pub open spec fn optional_text(es: Seq<(YamlValue, YamlValue)>, key: Seq<char>) -> Option<Option<Seq<char>>> {
    match lookup(es, key) {
        None => Some(None),
        Some(YamlValue::Null) => Some(None),
        Some(v) => match scalar_text(v) {
            Some(t) => Some(Some(t)),
            None => None,
        },
    }
}

pub open spec fn all_digits(t: Seq<char>) -> bool {
    forall|i: int| 0 <= i < t.len() ==> is_ascii_digit(#[trigger] t[i])
}

/// The number that a string of decimal digits denotes.
pub open spec fn digits_value(t: Seq<char>) -> nat
    decreases t.len(),
{
    if t.len() == 0 {
        0
    } else {
        digits_value(t.drop_last()) * 10 + (t.last() as nat - '0' as nat) as nat
    }
}

/// A `u32` field with a default.
pub open spec fn u32_field(es: Seq<(YamlValue, YamlValue)>, key: Seq<char>, default: u32) -> Option<u32> {
    match lookup(es, key) {
        None => Some(default),
        Some(YamlValue::Number(t)) => if t@.len() > 0 && all_digits(t@) && digits_value(t@) <= u32::MAX {
            Some(digits_value(t@) as u32)
        } else {
            None
        },
        Some(_) => None,
    }
}

/// A list of strings; nothing at all reads as an empty list.
pub open spec fn text_list(v: YamlValue) -> Option<Seq<Seq<char>>> {
    match v {
        YamlValue::Null => Some(Seq::empty()),
        YamlValue::Sequence(items) => if forall|i: int| 0 <= i < items@.len() ==> (#[trigger] scalar_text(items@[i])) is Some {
            Some(Seq::new(items@.len(), |i: int| scalar_text(items@[i])->0))
        } else {
            None
        },
        _ => None,
    }
}

/// A list of lists of strings.
pub open spec fn text_list_list(v: YamlValue) -> Option<Seq<Seq<Seq<char>>>> {
    match v {
        YamlValue::Null => Some(Seq::empty()),
        YamlValue::Sequence(items) => if forall|i: int| 0 <= i < items@.len() ==> (#[trigger] text_list(items@[i])) is Some {
            Some(Seq::new(items@.len(), |i: int| text_list(items@[i])->0))
        } else {
            None
        },
        _ => None,
    }
}

pub open spec fn read_project(v: YamlValue) -> Option<ProjectView> {
    match entries_of(v) {
        Some(es) => if keys_within(es, project_keys()) && required_text(es, "name"@) is Some
            && required_text(es, "root"@) is Some {
            Some(ProjectView { name: required_text(es, "name"@)->0, root: required_text(es, "root"@)->0 })
        } else {
            None
        },
        None => None,
    }
}

pub open spec fn read_runtime(v: YamlValue) -> Option<RuntimeView> {
    match entries_of(v) {
        Some(es) => if keys_within(es, runtime_keys())
            && required_text(es, "default_provider"@) is Some && u32_field(es, "max_turns"@, 20) is Some {
            Some(RuntimeView {
                default_provider: required_text(es, "default_provider"@)->0,
                max_turns: u32_field(es, "max_turns"@, 20)->0,
            })
        } else {
            None
        },
        None => None,
    }
}

/// The `format` field: only `jsonl`, which is also the default.
pub open spec fn read_format(es: Seq<(YamlValue, YamlValue)>) -> Option<EventFormat> {
    match lookup(es, "format"@) {
        None => Some(EventFormat::Jsonl),
        Some(YamlValue::String(s)) => if s@ == "jsonl"@ { Some(EventFormat::Jsonl) } else { None },
        Some(_) => None,
    }
}

pub open spec fn read_events(v: YamlValue) -> Option<EventsView> {
    match entries_of(v) {
        Some(es) => if keys_within(es, events_keys()) && read_format(es) is Some
            && optional_text(es, "audit_path"@) is Some {
            Some(EventsView { format: read_format(es)->0, audit_path: optional_text(es, "audit_path"@)->0 })
        } else {
            None
        },
        None => None,
    }
}

/// The `type` field of a provider: only `openai-compatible`.
pub open spec fn read_provider_kind(es: Seq<(YamlValue, YamlValue)>) -> Option<ProviderKind> {
    match lookup(es, "type"@) {
        Some(YamlValue::String(s)) => if s@ == "openai-compatible"@ {
            Some(ProviderKind::OpenAiCompatible)
        } else {
            None
        },
        _ => None,
    }
}

pub open spec fn project_keys() -> Seq<Seq<char>> {
    seq!["name"@, "root"@]
}

pub open spec fn runtime_keys() -> Seq<Seq<char>> {
    seq!["default_provider"@, "max_turns"@]
}

pub open spec fn events_keys() -> Seq<Seq<char>> {
    seq!["format"@, "audit_path"@]
}

pub open spec fn commands_keys() -> Seq<Seq<char>> {
    seq!["allowed"@, "env_allowlist"@]
}

pub open spec fn workspace_keys() -> Seq<Seq<char>> {
    seq!["worktree_root"@]
}

pub open spec fn provider_keys() -> Seq<Seq<char>> {
    seq!["name"@, "type"@, "model"@, "api_key_env"@, "base_url"@]
}

pub open spec fn read_provider(v: YamlValue) -> Option<ProviderView> {
    match entries_of(v) {
        Some(es) => if keys_within(es, provider_keys()) && required_text(es, "name"@) is Some
            && read_provider_kind(es) is Some && required_text(es, "model"@) is Some
            && required_text(es, "api_key_env"@) is Some && optional_text(es, "base_url"@) is Some {
            Some(ProviderView {
                name: required_text(es, "name"@)->0,
                kind: read_provider_kind(es)->0,
                model: required_text(es, "model"@)->0,
                api_key_env: required_text(es, "api_key_env"@)->0,
                base_url: optional_text(es, "base_url"@)->0,
            })
        } else {
            None
        },
        None => None,
    }
}

/// The provider list; absent or empty reads as no providers.
pub open spec fn read_providers(v: Option<YamlValue>) -> Option<Seq<ProviderView>> {
    match v {
        None => Some(Seq::empty()),
        Some(YamlValue::Null) => Some(Seq::empty()),
        Some(YamlValue::Sequence(items)) => if forall|i: int|
            0 <= i < items@.len() ==> (#[trigger] read_provider(items@[i])) is Some {
            Some(Seq::new(items@.len(), |i: int| read_provider(items@[i])->0))
        } else {
            None
        },
        Some(_) => None,
    }
}

pub open spec fn default_env_allowlist_view() -> Seq<Seq<char>> {
    seq!["PATH"@]
}

pub open spec fn read_commands(v: Option<YamlValue>) -> Option<CommandsView> {
    match v {
        None => Some(CommandsView { allowed: Seq::empty(), env_allowlist: default_env_allowlist_view() }),
        Some(v) => match entries_of(v) {
            Some(es) => {
                let allowed = match lookup(es, "allowed"@) {
                    None => Some(Seq::empty()),
                    Some(a) => text_list_list(a),
                };
                let env = match lookup(es, "env_allowlist"@) {
                    None => Some(default_env_allowlist_view()),
                    Some(e) => text_list(e),
                };
                if keys_within(es, commands_keys()) && allowed is Some && env is Some {
                    Some(CommandsView { allowed: allowed->0, env_allowlist: env->0 })
                } else {
                    None
                }
            },
            None => None,
        },
    }
}

pub open spec fn read_workspace(v: Option<YamlValue>) -> Option<WorkspaceView> {
    match v {
        None => Some(WorkspaceView { worktree_root: None }),
        Some(v) => match entries_of(v) {
            Some(es) => if keys_within(es, workspace_keys()) && optional_text(es, "worktree_root"@) is Some {
                Some(WorkspaceView { worktree_root: optional_text(es, "worktree_root"@)->0 })
            } else {
                None
            },
            None => None,
        },
    }
}

pub open spec fn top_keys() -> Seq<Seq<char>> {
    seq!["project"@, "runtime"@, "events"@, "providers"@, "commands"@, "workspace"@]
}

/// The configuration that a YAML document denotes, if it follows the schema:
/// unknown or repeated keys and missing required fields are refused, and
/// absent optional fields take their defaults.
pub open spec fn read_config(doc: YamlValue) -> Option<LeanConfigView> {
    match entries_of(doc) {
        Some(es) => {
            let project = match lookup(es, "project"@) { Some(v) => read_project(v), None => None };
            let runtime = match lookup(es, "runtime"@) { Some(v) => read_runtime(v), None => None };
            let events = match lookup(es, "events"@) { Some(v) => read_events(v), None => None };
            let providers = read_providers(lookup(es, "providers"@));
            let commands = read_commands(lookup(es, "commands"@));
            let workspace = read_workspace(lookup(es, "workspace"@));
            if keys_within(es, top_keys()) && project is Some && runtime is Some && events is Some
                && providers is Some && commands is Some && workspace is Some {
                Some(LeanConfigView {
                    project: project->0,
                    runtime: runtime->0,
                    events: events->0,
                    providers: providers->0,
                    commands: commands->0,
                    workspace: workspace->0,
                })
            } else {
                None
            }
        },
        None => None,
    }
}


// ----- executable validation -----

pub proof fn lemma_providers_error_prefix(s: Seq<ProviderView>, k: int)
    requires
        0 <= k <= s.len(),
        providers_error(s.take(k)) is Some,
    ensures
        providers_error(s) == providers_error(s.take(k)),
    decreases s.len(),
{
    if k == s.len() {
        assert(s.take(k) =~= s);
    } else {
        assert(s.drop_last().take(k) =~= s.take(k));
        lemma_providers_error_prefix(s.drop_last(), k);
    }
}

pub proof fn lemma_allowed_error_prefix(s: Seq<Seq<Seq<char>>>, k: int)
    requires
        0 <= k <= s.len(),
        allowed_error(s.take(k)) is Some,
    ensures
        allowed_error(s) == allowed_error(s.take(k)),
    decreases s.len(),
{
    if k == s.len() {
        assert(s.take(k) =~= s);
    } else {
        assert(s.drop_last().take(k) =~= s.take(k));
        lemma_allowed_error_prefix(s.drop_last(), k);
    }
}

/// Whether `name` can name an environment variable.
fn is_valid_env_name(name: &str) -> (b: bool)
    ensures
        b == valid_env_name(name@),
{
    let n = name.unicode_len();
    if n == 0 {
        return false;
    }
    let first = name.get_char(0);
    if !(first == '_' || ('a' <= first && first <= 'z') || ('A' <= first && first <= 'Z')) {
        return false;
    }
    let mut i: usize = 1;
    while i < n
        invariant
            n == name@.len(),
            1 <= i <= n,
            forall|k: int| 1 <= k < i ==> (#[trigger] name@[k] == '_' || is_ascii_alphanumeric(name@[k])),
        decreases n - i,
    {
        let c = name.get_char(i);
        if !(c == '_' || char_is_ascii_alphanumeric(c)) {
            return false;
        }
        i = i + 1;
    }
    true
}

fn validation(message: &str) -> (e: ConfigError)
    ensures
        e matches ConfigError::Validation(m) && m@ == message@,
{
    ConfigError::Validation(message.to_owned())
}

/// Checks one provider entry against the names of the entries before it,
/// and records its name.
#[verifier::loop_isolation(false)]
fn validate_provider_config(
    provider: &ProviderConfig,
    provider_names: &mut Vec<String>,
    Ghost(earlier): Ghost<Seq<ProviderView>>,
) -> (r: Result<(), ConfigError>)
    requires
        old(provider_names)@.len() == earlier.len(),
        forall|i: int| 0 <= i < earlier.len() ==> old(provider_names)@[i]@ == #[trigger] earlier[i].name,
    ensures
        r is Ok <==> provider_error(provider@, earlier) is None,
        r matches Err(e) ==> (e matches ConfigError::Validation(m) && provider_error(provider@, earlier) == Some(m@)),
        r is Ok ==> final(provider_names)@ == old(provider_names)@.push(provider.name),
{
    if str_is_blank(provider.name.as_str()) {
        return Err(validation("providers.name must not be empty"));
    }
    if str_eq_literal_mock(provider.name.as_str()) {
        return Err(validation("providers.name must not use reserved provider name mock"));
    }
    let n = provider_names.len();
    let mut i: usize = 0;
    while i < n
        invariant
            n == provider_names@.len(),
            i <= n,
            provider_names@ == old(provider_names)@,
            forall|k: int| 0 <= k < i ==> provider_names@[k]@ != provider.name@,
        decreases n - i,
    {
        if provider_names[i] == provider.name {
            proof {
                assert(earlier[i as int].name == provider@.name);
            }
            let mut message = "providers.name must be unique: ".to_owned();
            message.append(provider.name.as_str());
            return Err(ConfigError::Validation(message));
        }
        i = i + 1;
    }
    assert(!exists|k: int| 0 <= k < earlier.len() && #[trigger] earlier[k].name == provider@.name) by {
        if exists|k: int| 0 <= k < earlier.len() && #[trigger] earlier[k].name == provider@.name {
            let k = choose|k: int| 0 <= k < earlier.len() && #[trigger] earlier[k].name == provider@.name;
            assert(provider_names@[k]@ == earlier[k].name);
        }
    }
    provider_names.push(provider.name.clone());
    if str_is_blank(provider.model.as_str()) {
        return Err(validation("providers.model must not be empty"));
    }
    if !is_valid_env_name(provider.api_key_env.as_str()) {
        return Err(validation("providers.api_key_env must be a valid environment variable name"));
    }
    match &provider.base_url {
        Some(base_url) => {
            let trimmed = trim_str(base_url.as_str());
            if str_is_blank(base_url.as_str()) {
                return Err(validation("providers.base_url must not be empty"));
            }
            if !(str_starts_with(trimmed, "https://") || str_starts_with(trimmed, "http://")) {
                return Err(validation("providers.base_url must start with http:// or https://"));
            }
        },
        None => {},
    }
    Ok(())
}

fn str_eq_literal_mock(s: &str) -> (b: bool)
    ensures
        b == (s@ == "mock"@),
{
    crate::text::str_eq(s, "mock")
}

impl LeanConfig {
    /// Checks the loaded configuration against its rules and hands it back,
    /// or names the first rule it breaks.
    #[verifier::loop_isolation(false)]
    pub fn validate(self) -> (r: Result<Self, ConfigError>)
        ensures
            r is Ok <==> config_error(self@) is None,
            r matches Ok(c) ==> c == self,
            r matches Err(e) ==> (e matches ConfigError::Validation(m) && config_error(self@) == Some(m@)),
    {
        if str_is_blank(self.project.name.as_str()) {
            return Err(validation("project.name must not be empty"));
        }
        if str_is_blank(self.project.root.as_str()) {
            return Err(validation("project.root must not be empty"));
        }
        if str_is_blank(self.runtime.default_provider.as_str()) {
            return Err(validation("runtime.default_provider must not be empty"));
        }
        if self.runtime.max_turns == 0 {
            return Err(validation("runtime.max_turns must be greater than zero"));
        }
        let ghost pv = providers_view(self.providers@);
        let mut provider_names: Vec<String> = Vec::new();
        let np = self.providers.len();
        let mut i: usize = 0;
        proof {
            assert(pv.take(0) =~= Seq::<ProviderView>::empty());
        }
        while i < np
            invariant
                np == self.providers@.len(),
                pv == providers_view(self.providers@),
                i <= np,
                providers_error(pv.take(i as int)) is None,
                provider_names@.len() == i,
                forall|k: int| 0 <= k < i ==> provider_names@[k]@ == #[trigger] pv.take(i as int)[k].name,
            decreases np - i,
        {
            let r = validate_provider_config(&self.providers[i], &mut provider_names, Ghost(pv.take(i as int)));
            proof {
                assert(pv.take(i + 1).drop_last() =~= pv.take(i as int));
                assert(pv.take(i + 1).last() == pv[i as int]);
            }
            match r {
                Err(e) => {
                    proof {
                        lemma_providers_error_prefix(pv, i + 1);
                    }
                    return Err(e);
                },
                Ok(()) => {},
            }
            i = i + 1;
        }
        proof {
            assert(pv.take(np as int) =~= pv);
        }
        match &self.workspace.worktree_root {
            Some(root) => {
                if root.as_str().unicode_len() == 0 {
                    return Err(validation("workspace.worktree_root must not be empty"));
                }
            },
            None => {},
        }
        let ghost av = self.commands.allowed.deep_view();
        let na = self.commands.allowed.len();
        let mut j: usize = 0;
        proof {
            assert(av.take(0) =~= Seq::<Seq<Seq<char>>>::empty());
        }
        while j < na
            invariant
                na == self.commands.allowed@.len(),
                av == self.commands.allowed.deep_view(),
                av.len() == na,
                j <= na,
                allowed_error(av.take(j as int)) is None,
            decreases na - j,
        {
            let prefix = &self.commands.allowed[j];
            proof {
                assert(av[j as int] == self.commands.allowed@[j as int].deep_view());
                assert(av.take(j + 1).drop_last() =~= av.take(j as int));
                assert(av.take(j + 1).last() == av[j as int]);
                assert(av[j as int] == prefix.deep_view());
            }
            if prefix.len() == 0 {
                proof {
                    lemma_allowed_error_prefix(av, j + 1);
                }
                return Err(validation("commands.allowed entries must not be empty"));
            }
            let nparts = prefix.len();
            let mut k: usize = 0;
            while k < nparts
                invariant
                    nparts == prefix@.len(),
                    k <= nparts,
                    forall|q: int| 0 <= q < k ==> !is_blank(#[trigger] prefix@[q]@),
                decreases nparts - k,
            {
                if str_is_blank(prefix[k].as_str()) {
                    proof {
                        assert(av[j as int][k as int] == prefix@[k as int]@);
                        assert(is_blank(av[j as int][k as int]));
                        lemma_allowed_error_prefix(av, j + 1);
                    }
                    return Err(validation("commands.allowed entries must not contain empty argv parts"));
                }
                k = k + 1;
            }
            proof {
                assert forall|q: int| 0 <= q < av[j as int].len() implies !is_blank(#[trigger] av[j as int][q]) by {
                    assert(av[j as int][q] == prefix@[q]@);
                }
            }
            j = j + 1;
        }
        proof {
            assert(av.take(na as int) =~= av);
        }
        let ne = self.commands.env_allowlist.len();
        let mut e: usize = 0;
        while e < ne
            invariant
                ne == self.commands.env_allowlist@.len(),
                e <= ne,
                forall|q: int| 0 <= q < e ==> !is_blank(#[trigger] self.commands.env_allowlist@[q]@),
            decreases ne - e,
        {
            if str_is_blank(self.commands.env_allowlist[e].as_str()) {
                proof {
                    assert(is_blank(self@.commands.env_allowlist[e as int]));
                }
                return Err(validation("commands.env_allowlist entries must not be empty"));
            }
            e = e + 1;
        }
        proof {
            assert forall|q: int| 0 <= q < self@.commands.env_allowlist.len()
                implies !is_blank(#[trigger] self@.commands.env_allowlist[q]) by {
                assert(self@.commands.env_allowlist[q] == self.commands.env_allowlist@[q]@);
            }
        }
        Ok(self)
    }
}


// ----- executable reading of the YAML document -----

impl Default for CommandConfig {
    /// No allowed commands; only `PATH` passes through the environment.
    fn default() -> (c: Self)
        ensures
            c@ == (CommandsView { allowed: Seq::empty(), env_allowlist: default_env_allowlist_view() }),
    {
        let mut env_allowlist = Vec::new();
        env_allowlist.push("PATH".to_owned());
        let c = CommandConfig { allowed: Vec::new(), env_allowlist };
        proof {
            assert(c@.env_allowlist =~= default_env_allowlist_view());
            assert(c@.allowed =~= Seq::<Seq<Seq<char>>>::empty());
        }
        c
    }
}

impl Default for WorkspaceConfig {
    /// No configured worktree root.
    fn default() -> (w: Self)
        ensures
            w@.worktree_root is None,
    {
        WorkspaceConfig { worktree_root: None }
    }
}

fn key_is(k: &YamlValue, key: &str) -> (b: bool)
    ensures
        b == (key_text(*k) == Some(key@)),
{
    match k {
        YamlValue::String(s) => crate::text::str_eq(s.as_str(), key),
        _ => false,
    }
}

/// The index of the first entry keyed `key`.
fn find_key(es: &Vec<(YamlValue, YamlValue)>, key: &str) -> (r: Option<usize>)
    ensures
        match r {
            Some(i) => i < es@.len() && lookup(es@, key@) == Some(es@[i as int].1),
            None => lookup(es@, key@) is None,
        },
{
    let n = es.len();
    let mut i: usize = 0;
    proof {
        assert(es@.skip(0) =~= es@);
    }
    while i < n
        invariant
            n == es@.len(),
            i <= n,
            lookup(es@, key@) == lookup(es@.skip(i as int), key@),
        decreases n - i,
    {
        proof {
            assert(es@.skip(i as int)[0] == es@[i as int]);
            assert(es@.skip(i as int).drop_first() =~= es@.skip(i + 1));
        }
        if key_is(&es[i].0, key) {
            return Some(i);
        }
        i = i + 1;
    }
    None
}

/// Whether every key is among `known` and no key repeats.
fn keys_within_exec(es: &Vec<(YamlValue, YamlValue)>, known: &Vec<&str>, Ghost(kv): Ghost<Seq<Seq<char>>>) -> (b: bool)
    requires
        kv.len() == known@.len(),
        forall|i: int| 0 <= i < kv.len() ==> kv[i] == (#[trigger] known@[i])@,
    ensures
        b == keys_within(es@, kv),
{
    let n = es.len();
    let mut i: usize = 0;
    while i < n
        invariant
            n == es@.len(),
            i <= n,
            kv.len() == known@.len(),
            forall|q: int| 0 <= q < kv.len() ==> kv[q] == (#[trigger] known@[q])@,
            forall|q: int| 0 <= q < i ==> (#[trigger] key_text(es@[q].0) matches Some(k) && kv.contains(k)),
            forall|q: int, r: int| 0 <= q < r < i ==> key_text(#[trigger] es@[q].0) != key_text(#[trigger] es@[r].0),
        decreases n - i,
    {
        let key = match &es[i].0 {
            YamlValue::String(s) => s,
            _ => {
                return false;
            },
        };
        let mut found = false;
        let m = known.len();
        let mut j: usize = 0;
        while j < m
            invariant
                m == known@.len(),
                j <= m,
                kv.len() == known@.len(),
                forall|q: int| 0 <= q < kv.len() ==> kv[q] == (#[trigger] known@[q])@,
                found == exists|q: int| 0 <= q < j && kv[q] == key@,
            decreases m - j,
        {
            if crate::text::str_eq(key.as_str(), known[j]) {
                found = true;
            }
            j = j + 1;
        }
        if !found {
            proof {
                assert(!kv.contains(key@));
            }
            return false;
        }
        let mut q: usize = 0;
        while q < i
            invariant
                q <= i,
                i < n,
                n == es@.len(),
                key_text(es@[i as int].0) == Some(key@),
                forall|p: int| 0 <= p < q ==> key_text(#[trigger] es@[p].0) != Some(key@),
            decreases i - q,
        {
            if key_is(&es[q].0, key.as_str()) {
                return false;
            }
            q = q + 1;
        }
        i = i + 1;
    }
    true
}

/// The text a scalar node gives a string field.
fn scalar_string(v: &YamlValue) -> (r: Option<String>)
    ensures
        r.deep_view() == scalar_text(*v),
{
    match v {
        YamlValue::Null => Some(String::new()),
        YamlValue::Bool(b) => Some(if *b { "true".to_owned() } else { "false".to_owned() }),
        YamlValue::Number(t) => Some(t.clone()),
        YamlValue::String(s) => Some(s.clone()),
        _ => None,
    }
}

fn required_string(es: &Vec<(YamlValue, YamlValue)>, key: &str) -> (r: Option<String>)
    ensures
        r.deep_view() == required_text(es@, key@),
{
    match find_key(es, key) {
        Some(i) => scalar_string(&es[i].1),
        None => None,
    }
}

fn optional_string(es: &Vec<(YamlValue, YamlValue)>, key: &str) -> (r: Option<Option<String>>)
    ensures
        match r {
            Some(o) => optional_text(es@, key@) == Some(o.deep_view()),
            None => optional_text(es@, key@) is None,
        },
{
    match find_key(es, key) {
        None => Some(None),
        Some(i) => match &es[i].1 {
            YamlValue::Null => Some(None),
            other => match scalar_string(other) {
                Some(t) => Some(Some(t)),
                None => None,
            },
        },
    }
}

/// The number denoted by a string of decimal digits, when it fits in `u32`.
fn parse_u32_digits(t: &str) -> (r: Option<u32>)
    ensures
        match r {
            Some(n) => t@.len() > 0 && all_digits(t@) && digits_value(t@) == n,
            None => !(t@.len() > 0 && all_digits(t@) && digits_value(t@) <= u32::MAX),
        },
{
    let n = t.unicode_len();
    if n == 0 {
        return None;
    }
    let bound: u64 = 4294967296;
    let mut acc: u64 = 0;
    let mut i: usize = 0;
    proof {
        assert(t@.take(0) =~= Seq::<char>::empty());
    }
    while i < n
        invariant
            n == t@.len(),
            i <= n,
            bound == 4294967296,
            all_digits(t@.take(i as int)),
            acc <= bound,
            acc == (if digits_value(t@.take(i as int)) < bound { digits_value(t@.take(i as int)) } else { bound as nat }),
        decreases n - i,
    {
        let c = t.get_char(i);
        if !('0' <= c && c <= '9') {
            proof {
                assert(!is_ascii_digit(t@[i as int]));
            }
            return None;
        }
        let d: u64 = (c as u32 - '0' as u32) as u64;
        let ghost v = digits_value(t@.take(i as int));
        proof {
            assert(t@.take(i + 1).drop_last() =~= t@.take(i as int));
            assert(t@.take(i + 1).last() == c);
            assert(digits_value(t@.take(i + 1)) == v * 10 + d);
            assert(all_digits(t@.take(i + 1))) by {
                assert forall|q: int| 0 <= q < i + 1 implies is_ascii_digit(#[trigger] t@.take(i + 1)[q]) by {
                    if q < i {
                        assert(t@.take(i + 1)[q] == t@.take(i as int)[q]);
                    }
                }
            }
        }
        if acc >= bound {
            proof {
                assert(v >= bound);
                assert(v * 10 + d >= bound) by (nonlinear_arith)
                    requires v >= bound;
            }
            acc = bound;
        } else {
            let next = acc * 10 + d;
            if next >= bound {
                acc = bound;
            } else {
                acc = next;
            }
        }
        i = i + 1;
    }
    proof {
        assert(t@.take(n as int) =~= t@);
    }
    if acc >= bound {
        None
    } else {
        Some(acc as u32)
    }
}

fn u32_field_exec(es: &Vec<(YamlValue, YamlValue)>, key: &str, default: u32) -> (r: Option<u32>)
    ensures
        r == u32_field(es@, key@, default),
{
    match find_key(es, key) {
        None => Some(default),
        Some(i) => match &es[i].1 {
            YamlValue::Number(t) => parse_u32_digits(t.as_str()),
            _ => None,
        },
    }
}

#[verifier::loop_isolation(false)]
fn read_text_list(v: &YamlValue) -> (r: Option<Vec<String>>)
    ensures
        match r {
            Some(xs) => text_list(*v) == Some(xs.deep_view()),
            None => text_list(*v) is None,
        },
{
    match v {
        YamlValue::Null => {
            let xs: Vec<String> = Vec::new();
            proof {
                assert(xs.deep_view() =~= Seq::<Seq<char>>::empty());
            }
            Some(xs)
        },
        YamlValue::Sequence(items) => {
            let mut out: Vec<String> = Vec::new();
            let n = items.len();
            let mut i: usize = 0;
            while i < n
                invariant
                    n == items@.len(),
                    i <= n,
                    out@.len() == i,
                    forall|q: int| 0 <= q < i ==> (#[trigger] scalar_text(items@[q])) == Some(out@[q]@),
                decreases n - i,
            {
                match scalar_string(&items[i]) {
                    Some(t) => {
                        out.push(t);
                    },
                    None => {
                        assert(!((#[trigger] scalar_text(items@[i as int])) is Some));
                        return None;
                    },
                }
                i = i + 1;
            }
            proof {
                assert(out.deep_view() =~= Seq::new(items@.len(), |q: int| scalar_text(items@[q])->0));
            }
            Some(out)
        },
        _ => None,
    }
}

#[verifier::loop_isolation(false)]
fn read_text_list_list(v: &YamlValue) -> (r: Option<Vec<Vec<String>>>)
    ensures
        match r {
            Some(xs) => text_list_list(*v) == Some(xs.deep_view()),
            None => text_list_list(*v) is None,
        },
{
    match v {
        YamlValue::Null => {
            let xs: Vec<Vec<String>> = Vec::new();
            proof {
                assert(xs.deep_view() =~= Seq::<Seq<Seq<char>>>::empty());
            }
            Some(xs)
        },
        YamlValue::Sequence(items) => {
            let mut out: Vec<Vec<String>> = Vec::new();
            let n = items.len();
            let mut i: usize = 0;
            while i < n
                invariant
                    n == items@.len(),
                    i <= n,
                    out@.len() == i,
                    forall|q: int| 0 <= q < i ==> (#[trigger] text_list(items@[q])) == Some(out@[q].deep_view()),
                decreases n - i,
            {
                match read_text_list(&items[i]) {
                    Some(t) => {
                        out.push(t);
                    },
                    None => {
                        assert(!((#[trigger] text_list(items@[i as int])) is Some));
                        return None;
                    },
                }
                i = i + 1;
            }
            proof {
                assert(out.deep_view() =~= Seq::new(items@.len(), |q: int| text_list(items@[q])->0));
            }
            Some(out)
        },
        _ => None,
    }
}


fn read_project_exec(v: &YamlValue) -> (r: Option<ProjectConfig>)
    ensures
        match r {
            Some(p) => read_project(*v) == Some(p@),
            None => read_project(*v) is None,
        },
{
    let empty: Vec<(YamlValue, YamlValue)> = Vec::new();
    let es = match v {
        YamlValue::Mapping(es) => es,
        YamlValue::Null => &empty,
        _ => {
            return None;
        },
    };
    assert(entries_of(*v) == Some(es@));
    let known = vec!["name", "root"];
    if !keys_within_exec(es, &known, Ghost(project_keys())) {
        return None;
    }
    let name = match required_string(es, "name") {
        Some(t) => t,
        None => {
            return None;
        },
    };
    let root = match required_string(es, "root") {
        Some(t) => t,
        None => {
            return None;
        },
    };
    Some(ProjectConfig { name, root })
}


fn read_runtime_exec(v: &YamlValue) -> (r: Option<RuntimeConfig>)
    ensures
        match r {
            Some(c) => read_runtime(*v) == Some(c@),
            None => read_runtime(*v) is None,
        },
{
    let empty: Vec<(YamlValue, YamlValue)> = Vec::new();
    let es = match v {
        YamlValue::Mapping(es) => es,
        YamlValue::Null => &empty,
        _ => {
            return None;
        },
    };
    assert(entries_of(*v) == Some(es@));
    let known = vec!["default_provider", "max_turns"];
    if !keys_within_exec(es, &known, Ghost(runtime_keys())) {
        return None;
    }
    let default_provider = match required_string(es, "default_provider") {
        Some(t) => t,
        None => {
            return None;
        },
    };
    let max_turns = match u32_field_exec(es, "max_turns", 20) {
        Some(n) => n,
        None => {
            return None;
        },
    };
    Some(RuntimeConfig { default_provider, max_turns })
}

fn read_format_exec(es: &Vec<(YamlValue, YamlValue)>) -> (r: Option<EventFormat>)
    ensures
        r == read_format(es@),
{
    match find_key(es, "format") {
        None => Some(EventFormat::Jsonl),
        Some(i) => match &es[i].1 {
            YamlValue::String(s) => if crate::text::str_eq(s.as_str(), "jsonl") {
                Some(EventFormat::Jsonl)
            } else {
                None
            },
            _ => None,
        },
    }
}

fn read_events_exec(v: &YamlValue) -> (r: Option<EventConfig>)
    ensures
        match r {
            Some(c) => read_events(*v) == Some(c@),
            None => read_events(*v) is None,
        },
{
    let empty: Vec<(YamlValue, YamlValue)> = Vec::new();
    let es = match v {
        YamlValue::Mapping(es) => es,
        YamlValue::Null => &empty,
        _ => {
            return None;
        },
    };
    assert(entries_of(*v) == Some(es@));
    let known = vec!["format", "audit_path"];
    if !keys_within_exec(es, &known, Ghost(events_keys())) {
        return None;
    }
    let format = match read_format_exec(es) {
        Some(f) => f,
        None => {
            return None;
        },
    };
    let audit_path = match optional_string(es, "audit_path") {
        Some(p) => p,
        None => {
            return None;
        },
    };
    Some(EventConfig { format, audit_path })
}

fn read_provider_kind_exec(es: &Vec<(YamlValue, YamlValue)>) -> (r: Option<ProviderKind>)
    ensures
        r == read_provider_kind(es@),
{
    match find_key(es, "type") {
        None => None,
        Some(i) => match &es[i].1 {
            YamlValue::String(s) => if crate::text::str_eq(s.as_str(), "openai-compatible") {
                Some(ProviderKind::OpenAiCompatible)
            } else {
                None
            },
            _ => None,
        },
    }
}

fn read_provider_exec(v: &YamlValue) -> (r: Option<ProviderConfig>)
    ensures
        match r {
            Some(c) => read_provider(*v) == Some(c@),
            None => read_provider(*v) is None,
        },
{
    let empty: Vec<(YamlValue, YamlValue)> = Vec::new();
    let es = match v {
        YamlValue::Mapping(es) => es,
        YamlValue::Null => &empty,
        _ => {
            return None;
        },
    };
    assert(entries_of(*v) == Some(es@));
    let known = vec!["name", "type", "model", "api_key_env", "base_url"];
    if !keys_within_exec(es, &known, Ghost(provider_keys())) {
        return None;
    }
    let name = match required_string(es, "name") {
        Some(t) => t,
        None => {
            return None;
        },
    };
    let kind = match read_provider_kind_exec(es) {
        Some(k) => k,
        None => {
            return None;
        },
    };
    let model = match required_string(es, "model") {
        Some(t) => t,
        None => {
            return None;
        },
    };
    let api_key_env = match required_string(es, "api_key_env") {
        Some(t) => t,
        None => {
            return None;
        },
    };
    let base_url = match optional_string(es, "base_url") {
        Some(u) => u,
        None => {
            return None;
        },
    };
    Some(ProviderConfig { name, kind, model, api_key_env, base_url })
}

#[verifier::loop_isolation(false)]
fn read_providers_exec(v: Option<&YamlValue>) -> (r: Option<Vec<ProviderConfig>>)
    ensures
        match r {
            Some(ps) => read_providers(match v { Some(x) => Some(*x), None => None }) == Some(providers_view(ps@)),
            None => read_providers(match v { Some(x) => Some(*x), None => None }) is None,
        },
{
    match v {
        None => {
            let ps: Vec<ProviderConfig> = Vec::new();
            proof {
                assert(providers_view(ps@) =~= Seq::<ProviderView>::empty());
            }
            Some(ps)
        },
        Some(YamlValue::Null) => {
            let ps: Vec<ProviderConfig> = Vec::new();
            proof {
                assert(providers_view(ps@) =~= Seq::<ProviderView>::empty());
            }
            Some(ps)
        },
        Some(YamlValue::Sequence(items)) => {
            let mut out: Vec<ProviderConfig> = Vec::new();
            let n = items.len();
            let mut i: usize = 0;
            while i < n
                invariant
                    n == items@.len(),
                    i <= n,
                    out@.len() == i,
                    forall|q: int| 0 <= q < i ==> (#[trigger] read_provider(items@[q])) == Some(out@[q]@),
                decreases n - i,
            {
                match read_provider_exec(&items[i]) {
                    Some(p) => {
                        out.push(p);
                    },
                    None => {
                        assert(!((#[trigger] read_provider(items@[i as int])) is Some));
                        return None;
                    },
                }
                i = i + 1;
            }
            proof {
                assert(providers_view(out@) =~= Seq::new(items@.len(), |q: int| read_provider(items@[q])->0));
            }
            Some(out)
        },
        Some(_) => None,
    }
}

fn read_commands_exec(v: Option<&YamlValue>) -> (r: Option<CommandConfig>)
    ensures
        match r {
            Some(c) => read_commands(match v { Some(x) => Some(*x), None => None }) == Some(c@),
            None => read_commands(match v { Some(x) => Some(*x), None => None }) is None,
        },
{
    let v = match v {
        None => {
            return Some(CommandConfig::default());
        },
        Some(v) => v,
    };
    let empty: Vec<(YamlValue, YamlValue)> = Vec::new();
    let es = match v {
        YamlValue::Mapping(es) => es,
        YamlValue::Null => &empty,
        _ => {
            return None;
        },
    };
    assert(entries_of(*v) == Some(es@));
    let known = vec!["allowed", "env_allowlist"];
    if !keys_within_exec(es, &known, Ghost(commands_keys())) {
        return None;
    }
    let allowed = match find_key(es, "allowed") {
        None => {
            let a: Vec<Vec<String>> = Vec::new();
            proof {
                assert(a.deep_view() =~= Seq::<Seq<Seq<char>>>::empty());
            }
            a
        },
        Some(i) => match read_text_list_list(&es[i].1) {
            Some(a) => a,
            None => {
                return None;
            },
        },
    };
    let env_allowlist = match find_key(es, "env_allowlist") {
        None => CommandConfig::default().env_allowlist,
        Some(i) => match read_text_list(&es[i].1) {
            Some(e) => e,
            None => {
                return None;
            },
        },
    };
    Some(CommandConfig { allowed, env_allowlist })
}

fn read_workspace_exec(v: Option<&YamlValue>) -> (r: Option<WorkspaceConfig>)
    ensures
        match r {
            Some(c) => read_workspace(match v { Some(x) => Some(*x), None => None }) == Some(c@),
            None => read_workspace(match v { Some(x) => Some(*x), None => None }) is None,
        },
{
    let v = match v {
        None => {
            return Some(WorkspaceConfig::default());
        },
        Some(v) => v,
    };
    let empty: Vec<(YamlValue, YamlValue)> = Vec::new();
    let es = match v {
        YamlValue::Mapping(es) => es,
        YamlValue::Null => &empty,
        _ => {
            return None;
        },
    };
    assert(entries_of(*v) == Some(es@));
    let known = vec!["worktree_root"];
    if !keys_within_exec(es, &known, Ghost(workspace_keys())) {
        return None;
    }
    match optional_string(es, "worktree_root") {
        Some(worktree_root) => Some(WorkspaceConfig { worktree_root }),
        None => None,
    }
}

/// The entry value keyed `key`, if any.
fn entry_value<'a>(es: &'a Vec<(YamlValue, YamlValue)>, key: &str) -> (r: Option<&'a YamlValue>)
    ensures
        match r {
            Some(x) => lookup(es@, key@) == Some(*x),
            None => lookup(es@, key@) is None,
        },
{
    match find_key(es, key) {
        Some(i) => Some(&es[i].1),
        None => None,
    }
}

/// Reads a YAML document as a configuration, following the schema.
pub fn read_config_document(doc: &YamlValue) -> (r: Option<LeanConfig>)
    ensures
        match r {
            Some(c) => read_config(*doc) == Some(c@),
            None => read_config(*doc) is None,
        },
{
    let empty: Vec<(YamlValue, YamlValue)> = Vec::new();
    let es = match doc {
        YamlValue::Mapping(es) => es,
        YamlValue::Null => &empty,
        _ => {
            return None;
        },
    };
    assert(entries_of(*doc) == Some(es@));
    let known = vec!["project", "runtime", "events", "providers", "commands", "workspace"];
    if !keys_within_exec(es, &known, Ghost(top_keys())) {
        return None;
    }
    let project = match entry_value(es, "project") {
        Some(v) => match read_project_exec(v) {
            Some(p) => p,
            None => {
                return None;
            },
        },
        None => {
            return None;
        },
    };
    let runtime = match entry_value(es, "runtime") {
        Some(v) => match read_runtime_exec(v) {
            Some(p) => p,
            None => {
                return None;
            },
        },
        None => {
            return None;
        },
    };
    let events = match entry_value(es, "events") {
        Some(v) => match read_events_exec(v) {
            Some(p) => p,
            None => {
                return None;
            },
        },
        None => {
            return None;
        },
    };
    let providers = match read_providers_exec(entry_value(es, "providers")) {
        Some(p) => p,
        None => {
            return None;
        },
    };
    let commands = match read_commands_exec(entry_value(es, "commands")) {
        Some(p) => p,
        None => {
            return None;
        },
    };
    let workspace = match read_workspace_exec(entry_value(es, "workspace")) {
        Some(p) => p,
        None => {
            return None;
        },
    };
    Some(LeanConfig { project, runtime, events, providers, commands, workspace })
}

/// What loading the text of a configuration gives: the parse error, the
/// schema error, the first broken rule, or the configuration.
pub open spec fn load_outcome_matches(text: Seq<char>, path: Seq<char>, r: Result<LeanConfig, ConfigError>) -> bool {
    match yaml_document(text) {
        Err(message) => r matches Err(ConfigError::Parse { path: p, message: m }) && p@ == path && m == message,
        Ok(doc) => match read_config(doc) {
            None => r matches Err(ConfigError::Parse { path: p, .. }) && p@ == path,
            Some(c) => match config_error(c) {
                None => r matches Ok(loaded) && loaded@ == c,
                Some(rule) => r matches Err(ConfigError::Validation(m)) && m@ == rule,
            },
        },
    }
}

impl LeanConfig {
    /// Loads a configuration from YAML text read from `path`.
    pub fn from_str_with_path(contents: &str, path: String) -> (r: Result<Self, ConfigError>)
        ensures
            load_outcome_matches(contents@, path@, r),
    {
        let doc = match parse_yaml_document(contents) {
            Ok(doc) => doc,
            Err(message) => {
                return Err(ConfigError::Parse { path, message });
            },
        };
        match read_config_document(&doc) {
            Some(config) => config.validate(),
            None => Err(ConfigError::Parse {
                path,
                message: "document does not follow the configuration schema".to_owned(),
            }),
        }
    }

    /// Loads a configuration from YAML text held in memory.
    pub fn from_yaml_str(contents: &str) -> (r: Result<Self, ConfigError>)
        ensures
            load_outcome_matches(contents@, "<memory>"@, r),
    {
        Self::from_str_with_path(contents, "<memory>".to_owned())
    }
}


/// The human-readable text of a configuration error.
pub open spec fn config_error_text(e: ConfigError) -> Seq<char> {
    match e {
        ConfigError::Read { path, message, .. } => "failed to read config "@ + path@ + ": "@ + message@,
        ConfigError::Parse { path, message } => "failed to parse config "@ + path@ + ": "@ + message@,
        ConfigError::Validation(m) => "config validation failed: "@ + m@,
    }
}

impl ConfigError {
    /// The error's message, as it is shown to the user.
    pub fn message(&self) -> (text: String)
        ensures
            text@ == config_error_text(*self),
    {
        match self {
            ConfigError::Read { path, message, .. } => {
                let mut text = "failed to read config ".to_owned();
                text.append(path.as_str());
                text.append(": ");
                text.append(message.as_str());
                text
            },
            ConfigError::Parse { path, message } => {
                let mut text = "failed to parse config ".to_owned();
                text.append(path.as_str());
                text.append(": ");
                text.append(message.as_str());
                text
            },
            ConfigError::Validation(m) => {
                let mut text = "config validation failed: ".to_owned();
                text.append(m.as_str());
                text
            },
        }
    }
}

/// A provider's base URL may use either scheme: a non-blank URL that begins
/// (after trimming) with `http://` or with `https://` is judged exactly as if
/// the provider had no base URL, while one that begins with neither is
/// refused for its scheme whenever the rest of the entry is valid.
pub proof fn lemma_base_url_schemes(p: ProviderView, earlier: Seq<ProviderView>, url: Seq<char>)
    requires
        p.base_url == Some(url),
        !is_blank(url),
    ensures
        ("http://"@.is_prefix_of(trim(url)) || "https://"@.is_prefix_of(trim(url))) ==> provider_error(
            p,
            earlier,
        ) == provider_error(ProviderView { base_url: None, ..p }, earlier),
        !("http://"@.is_prefix_of(trim(url)) || "https://"@.is_prefix_of(trim(url)))
            && provider_error(ProviderView { base_url: None, ..p }, earlier) is None ==> provider_error(
            p,
            earlier,
        ) == Some("providers.base_url must start with http:// or https://"@),
{
}

} // verus!
