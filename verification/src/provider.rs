//! Model providers: the provider interface, the registry that resolves a
//! provider name to a provider with its credential, the mock provider, and
//! the decisions of the OpenAI-compatible chat-completions exchange.
use vstd::prelude::*;
use vstd::string::*;
use crate::config::{LeanConfig, ProviderConfig, ProviderKind, ProviderView, providers_view};
use crate::text::{
    decimal, decimal_string, is_blank, str_eq, str_is_blank, str_starts_with,
    trim, trim_str,
};

verus! {

pub const MOCK_PROVIDER_NAME: &'static str = "mock";

pub const DEFAULT_MOCK_FINAL_MESSAGE: &'static str = "mock provider completed task";

pub const MINIMAX_PROVIDER_NAME: &'static str = "minimax";

pub const MINIMAX_MODEL_PREFIX: &'static str = "minimax/";

pub const MINIMAX_DEFAULT_MODEL: &'static str = "MiniMax-M2.7";

pub const MINIMAX_API_KEY_ENV: &'static str = "MINIMAX_API_KEY";

pub const MINIMAX_BASE_URL: &'static str = "https://api.minimax.io/v1";

pub const MINIMAX_BASE_URL_ENV: &'static str = "MINIMAX_BASE_URL";

pub const OPENAI_COMPATIBLE_BASE_URL: &'static str = "https://api.openai.com/v1";

#[derive(Debug, Clone, PartialEq, Eq)]
pub struct ModelRequest {
    pub task: String,
}

#[derive(Debug, Clone, PartialEq, Eq)]
pub struct ModelResponse {
    pub final_message: String,
}

#[derive(Debug, Clone, PartialEq, Eq)]
pub struct ProviderError {
    pub provider: String,
    pub kind: ProviderErrorKind,
}

#[derive(Debug, Clone, PartialEq, Eq)]
pub enum ProviderErrorKind {
    HttpStatus { status_code: u16 },
    HttpTransport,
    MalformedResponse { reason: &'static str },
}

#[derive(Debug, Clone, PartialEq, Eq)]
pub enum ProviderRegistryError {
    UnknownProvider { provider: String },
    MissingCredential { provider: String, env_var: String },
    EmptyCredential { provider: String, env_var: String },
    InvalidProviderSpec { provider: String, reason: &'static str },
}

/// A model provider: it has a name and completes requests. Each
/// implementation states, through the two specification functions, the name
/// it reports and the outcomes it may give for a request. A completion
/// obtained outside the library, such as over HTTP, enters a session through
/// `PresetProvider`.
pub trait ModelProvider {
    /// The name this provider reports.
    spec fn spec_name(&self) -> Seq<char>;

    /// Whether `result` is an outcome this provider may give for `request`.
    spec fn completes(&self, request: ModelRequest, result: Result<ModelResponse, ProviderError>) -> bool;

    fn name(&self) -> (r: &str)
        ensures
            r@ == self.spec_name(),
    ;

    fn complete(&self, request: ModelRequest) -> (r: Result<ModelResponse, ProviderError>)
        ensures
            self.completes(request, r),
    ;
}

/// A provider that always answers with the same final message.
#[derive(Debug, Clone, PartialEq, Eq)]
pub struct MockProvider {
    final_message: String,
}

impl MockProvider {
    pub closed spec fn spec_final_message(&self) -> Seq<char> {
        self.final_message@
    }

    pub fn new(final_message: &str) -> (p: MockProvider)
        ensures
            p.spec_final_message() == final_message@,
    {
        MockProvider { final_message: final_message.to_owned() }
    }

    /// The mock provider with its default message.
    pub fn default_provider() -> (p: MockProvider)
        ensures
            p.spec_final_message() == DEFAULT_MOCK_FINAL_MESSAGE@,
    {
        MockProvider::new(DEFAULT_MOCK_FINAL_MESSAGE)
    }
}

impl Default for MockProvider {
    fn default() -> (p: MockProvider)
        ensures
            p.spec_final_message() == DEFAULT_MOCK_FINAL_MESSAGE@,
    {
        MockProvider::default_provider()
    }
}

impl ModelProvider for MockProvider {
    /// The mock provider is named `mock`.
    open spec fn spec_name(&self) -> Seq<char> {
        MOCK_PROVIDER_NAME@
    }

    /// Whatever the request, the mock provider answers with its final message.
    open spec fn completes(&self, request: ModelRequest, result: Result<ModelResponse, ProviderError>) -> bool {
        result matches Ok(m) && m.final_message@ == self.spec_final_message()
    }

    fn name(&self) -> (r: &str) {
        MOCK_PROVIDER_NAME
    }

    fn complete(&self, request: ModelRequest) -> (r: Result<ModelResponse, ProviderError>) {
        Ok(ModelResponse { final_message: self.final_message.clone() })
    }
}

/// Whether two outcomes of a completion report the same thing: the same
/// final message, or an error of the same provider and kind.
pub open spec fn same_outcome(a: Result<ModelResponse, ProviderError>, b: Result<ModelResponse, ProviderError>) -> bool {
    match (a, b) {
        (Ok(x), Ok(y)) => x.final_message@ == y.final_message@,
        (Err(x), Err(y)) => x.provider@ == y.provider@ && x.kind == y.kind,
        _ => false,
    }
}

fn copy_error_kind(kind: &ProviderErrorKind) -> (r: ProviderErrorKind)
    ensures
        r == *kind,
{
    match kind {
        ProviderErrorKind::HttpStatus { status_code } => ProviderErrorKind::HttpStatus { status_code: *status_code },
        ProviderErrorKind::HttpTransport => ProviderErrorKind::HttpTransport,
        ProviderErrorKind::MalformedResponse { reason } => ProviderErrorKind::MalformedResponse { reason: *reason },
    }
}

fn copy_outcome(outcome: &Result<ModelResponse, ProviderError>) -> (r: Result<ModelResponse, ProviderError>)
    ensures
        same_outcome(r, *outcome),
{
    match outcome {
        Ok(response) => Ok(ModelResponse { final_message: response.final_message.clone() }),
        Err(error) => Err(ProviderError { provider: error.provider.clone(), kind: copy_error_kind(&error.kind) }),
    }
}

/// A provider with a given name that gives the same preset answer to every
/// request: the answer of a completion obtained elsewhere, such as over HTTP.
#[derive(Debug)]
pub struct PresetProvider {
    pub name: String,
    pub answer: Result<ModelResponse, ProviderError>,
}

impl PresetProvider {
    pub fn new(name: &str, answer: Result<ModelResponse, ProviderError>) -> (p: PresetProvider)
        ensures
            p.name@ == name@,
            p.answer == answer,
    {
        PresetProvider { name: name.to_owned(), answer }
    }
}

impl ModelProvider for PresetProvider {
    /// The preset provider reports the name it was given.
    open spec fn spec_name(&self) -> Seq<char> {
        self.name@
    }

    /// Whatever the request, the preset provider gives its answer.
    open spec fn completes(&self, request: ModelRequest, result: Result<ModelResponse, ProviderError>) -> bool {
        same_outcome(result, self.answer)
    }

    fn name(&self) -> (r: &str) {
        self.name.as_str()
    }

    fn complete(&self, request: ModelRequest) -> (r: Result<ModelResponse, ProviderError>) {
        copy_outcome(&self.answer)
    }
}

/// Where a provider's credentials are looked up: a snapshot of the process
/// environment, or explicit values. Entries are `(name, value)`; a later
/// entry for a name replaces an earlier one.
#[derive(Debug, Clone, PartialEq, Eq)]
pub enum CredentialStore {
    Environment(Vec<(String, String)>),
    Values(Vec<(String, String)>),
}

/// The value of the last entry named `name`.
pub open spec fn lookup(entries: Seq<(String, String)>, name: Seq<char>) -> Option<Seq<char>>
    decreases entries.len(),
{
    if entries.len() == 0 {
        None
    } else if entries.last().0@ == name {
        Some(entries.last().1@)
    } else {
        lookup(entries.drop_last(), name)
    }
}

/// Looks up the last entry named `name`.
pub fn lookup_entry(entries: &Vec<(String, String)>, name: &str) -> (r: Option<String>)
    ensures
        r.deep_view() == lookup(entries@, name@),
{
    let n = entries.len();
    let mut i: usize = n;
    proof {
        assert(entries@.take(n as int) =~= entries@);
    }
    while i > 0
        invariant
            n == entries@.len(),
            i <= n,
            lookup(entries@, name@) == lookup(entries@.take(i as int), name@),
        decreases i,
    {
        proof {
            assert(entries@.take(i as int).last() == entries@[i - 1]);
            assert(entries@.take(i as int).drop_last() =~= entries@.take(i - 1));
        }
        if str_eq(entries[i - 1].0.as_str(), name) {
            return Some(entries[i - 1].1.clone());
        }
        i = i - 1;
    }
    None
}

impl CredentialStore {
    pub open spec fn entries(&self) -> Seq<(String, String)> {
        match self {
            CredentialStore::Environment(e) => e@,
            CredentialStore::Values(v) => v@,
        }
    }

    /// The credential named `name`, if there is one.
    pub fn get(&self, name: &str) -> (r: Option<String>)
        ensures
            r.deep_view() == lookup(self.entries(), name@),
    {
        match self {
            CredentialStore::Environment(e) => lookup_entry(e, name),
            CredentialStore::Values(v) => lookup_entry(v, name),
        }
    }
}

/// That a provider's credential was read: the provider and the variable.
#[derive(Debug, Clone, PartialEq, Eq)]
pub struct CredentialAccess {
    pub provider: String,
    pub env_var: String,
}

/// The settings of an OpenAI-compatible chat-completions provider.
pub struct OpenAiCompatibleProvider {
    name: String,
    model: String,
    base_url: String,
    api_key: String,
    reasoning_split: Option<bool>,
}

/// A provider that a name resolved to.
pub enum ProviderSpec {
    Mock(MockProvider),
    OpenAiCompatible(OpenAiCompatibleProvider),
}

/// A resolved provider and, when it needs one, the credential it read.
pub struct ResolvedProvider {
    provider: ProviderSpec,
    credential_access: Option<CredentialAccess>,
}

#[derive(Debug, Clone)]
pub struct ProviderRegistry {
    providers: Vec<ProviderConfig>,
    credentials: CredentialStore,
    environment: Vec<(String, String)>,
}

/// A provider profile: what a configured or built-in provider needs.
#[derive(Debug, Clone, PartialEq, Eq)]
struct ResolvedProviderProfile {
    name: String,
    kind: ProviderKind,
    model: String,
    api_key_env: String,
    base_url: String,
    reasoning_split: Option<bool>,
}

/// A provider profile as plain values.
pub struct ProfileView {
    pub name: Seq<char>,
    pub model: Seq<char>,
    pub api_key_env: Seq<char>,
    pub base_url: Seq<char>,
    pub reasoning_split: Option<bool>,
}

/// The provider settings as plain values.
pub struct ProviderSettingsView {
    pub name: Seq<char>,
    pub model: Seq<char>,
    pub base_url: Seq<char>,
    pub api_key: Seq<char>,
    pub reasoning_split: Option<bool>,
}

impl OpenAiCompatibleProvider {
    pub closed spec fn settings(&self) -> ProviderSettingsView {
        ProviderSettingsView {
            name: self.name@,
            model: self.model@,
            base_url: self.base_url@,
            api_key: self.api_key@,
            reasoning_split: self.reasoning_split,
        }
    }
}

impl ResolvedProviderProfile {
    spec fn view_profile(&self) -> ProfileView {
        ProfileView {
            name: self.name@,
            model: self.model@,
            api_key_env: self.api_key_env@,
            base_url: self.base_url@,
            reasoning_split: self.reasoning_split,
        }
    }
}

/// The profile of a configured provider: its base URL defaults to the
/// OpenAI endpoint.
pub open spec fn configured_profile(p: ProviderView) -> ProfileView {
    ProfileView {
        name: p.name,
        model: p.model,
        api_key_env: p.api_key_env,
        base_url: match p.base_url {
            Some(u) => u,
            None => OPENAI_COMPATIBLE_BASE_URL@,
        },
        reasoning_split: None,
    }
}

/// The MiniMax base URL: `MINIMAX_BASE_URL` when set and not blank
/// (trimmed), else the public endpoint.
pub open spec fn minimax_base_url(environment: Seq<(String, String)>) -> Seq<char> {
    match lookup(environment, MINIMAX_BASE_URL_ENV@) {
        Some(v) => if trim(v).len() > 0 {
            trim(v)
        } else {
            MINIMAX_BASE_URL@
        },
        None => MINIMAX_BASE_URL@,
    }
}

/// A registry error as plain values.
pub enum RegistryFailure {
    UnknownProvider(Seq<char>),
    MissingCredential(Seq<char>, Seq<char>),
    EmptyCredential(Seq<char>, Seq<char>),
    InvalidProviderSpec(Seq<char>, Seq<char>),
}

impl View for ProviderRegistryError {
    type V = RegistryFailure;

    open spec fn view(&self) -> RegistryFailure {
        match self {
            ProviderRegistryError::UnknownProvider { provider } => RegistryFailure::UnknownProvider(
                provider@,
            ),
            ProviderRegistryError::MissingCredential { provider, env_var } => RegistryFailure::MissingCredential(provider@, env_var@),
            ProviderRegistryError::EmptyCredential { provider, env_var } => RegistryFailure::EmptyCredential(provider@, env_var@),
            ProviderRegistryError::InvalidProviderSpec { provider, reason } => RegistryFailure::InvalidProviderSpec(provider@, reason@),
        }
    }
}

/// The built-in MiniMax profile of a provider name: `minimax` uses the
/// default model; `minimax/<model>` the trimmed model, which must not be
/// empty; other names have none.
pub open spec fn minimax_profile(name: Seq<char>, environment: Seq<(String, String)>) -> Result<
    Option<ProfileView>,
    RegistryFailure,
> {
    let model = if name == MINIMAX_PROVIDER_NAME@ {
        Some(MINIMAX_DEFAULT_MODEL@)
    } else if MINIMAX_MODEL_PREFIX@.is_prefix_of(name) {
        Some(trim(name.skip(MINIMAX_MODEL_PREFIX@.len() as int)))
    } else {
        None
    };
    match model {
        None => Ok(None),
        Some(m) => if m.len() == 0 {
            Err(
                RegistryFailure::InvalidProviderSpec(
                    name,
                    "minimax provider model must not be empty"@,
                ),
            )
        } else {
            Ok(
                Some(
                    ProfileView {
                        name,
                        model: m,
                        api_key_env: MINIMAX_API_KEY_ENV@,
                        base_url: minimax_base_url(environment),
                        reasoning_split: Some(true),
                    },
                ),
            )
        },
    }
}

/// What a provider name resolves to, as plain values.
pub enum ResolutionView {
    /// The mock provider with its default message; no credential is read.
    Mock,
    /// An OpenAI-compatible provider with its settings; the credential read
    /// is `(provider, env_var)`.
    OpenAiCompatible { settings: ProviderSettingsView, access: (Seq<char>, Seq<char>) },
}

/// The first configured provider with the given name.
pub open spec fn first_named(providers: Seq<ProviderView>, name: Seq<char>) -> Option<ProviderView>
    decreases providers.len(),
{
    if providers.len() == 0 {
        None
    } else if providers[0].name == name {
        Some(providers[0])
    } else {
        first_named(providers.drop_first(), name)
    }
}

/// A profile resolved against the credentials: its key must be present and
/// not blank.
pub open spec fn profile_resolution(profile: ProfileView, credentials: Seq<(String, String)>) -> Result<
    ResolutionView,
    RegistryFailure,
> {
    match lookup(credentials, profile.api_key_env) {
        None => Err(RegistryFailure::MissingCredential(profile.name, profile.api_key_env)),
        Some(key) => if is_blank(key) {
            Err(RegistryFailure::EmptyCredential(profile.name, profile.api_key_env))
        } else {
            Ok(
                ResolutionView::OpenAiCompatible {
                    settings: ProviderSettingsView {
                        name: profile.name,
                        model: profile.model,
                        base_url: profile.base_url,
                        api_key: key,
                        reasoning_split: profile.reasoning_split,
                    },
                    access: (profile.name, profile.api_key_env),
                },
            )
        },
    }
}

/// What a provider name resolves to: `mock` first, then a configured
/// provider of that name, then a built-in MiniMax profile; any other name is
/// unknown.
pub open spec fn resolution(
    providers: Seq<ProviderView>,
    credentials: Seq<(String, String)>,
    environment: Seq<(String, String)>,
    name: Seq<char>,
) -> Result<ResolutionView, RegistryFailure> {
    if name == MOCK_PROVIDER_NAME@ {
        Ok(ResolutionView::Mock)
    } else {
        match first_named(providers, name) {
            Some(p) => profile_resolution(configured_profile(p), credentials),
            None => match minimax_profile(name, environment) {
                Err(e) => Err(e),
                Ok(Some(profile)) => profile_resolution(profile, credentials),
                Ok(None) => Err(RegistryFailure::UnknownProvider(name)),
            },
        }
    }
}

impl ResolvedProvider {
    pub closed spec fn spec_resolution(&self) -> ResolutionView {
        match self.provider {
            ProviderSpec::Mock(_) => ResolutionView::Mock,
            ProviderSpec::OpenAiCompatible(p) => ResolutionView::OpenAiCompatible {
                settings: p.settings(),
                access: match self.credential_access {
                    Some(a) => (a.provider@, a.env_var@),
                    None => (Seq::empty(), Seq::empty()),
                },
            },
        }
    }

    /// Whether this is the mock provider with its default message and no
    /// credential, or a provider with the credential it read.
    pub closed spec fn well_formed(&self) -> bool {
        match self.provider {
            ProviderSpec::Mock(m) => m.spec_final_message() == DEFAULT_MOCK_FINAL_MESSAGE@
                && self.credential_access is None,
            ProviderSpec::OpenAiCompatible(_) => self.credential_access is Some,
        }
    }

    /// The credential the provider read, if any.
    pub fn credential_access(&self) -> (r: Option<&CredentialAccess>)
        requires
            self.well_formed(),
        ensures
            match self.spec_resolution() {
                ResolutionView::Mock => r is None,
                ResolutionView::OpenAiCompatible { access, .. } => r matches Some(a)
                    && a.provider@ == access.0 && a.env_var@ == access.1,
            },
    {
        match &self.credential_access {
            Some(a) => Some(a),
            None => None,
        }
    }

    /// The provider itself.
    pub fn into_provider(self) -> (p: ProviderSpec)
        requires
            self.well_formed(),
        ensures
            match self.spec_resolution() {
                ResolutionView::Mock => p matches ProviderSpec::Mock(m) && m.spec_final_message()
                    == DEFAULT_MOCK_FINAL_MESSAGE@,
                ResolutionView::OpenAiCompatible { settings, .. } => p matches ProviderSpec::OpenAiCompatible(o) && o.settings() == settings,
            },
    {
        self.provider
    }
}

impl ProviderSpec {
    pub open spec fn spec_name(&self) -> Seq<char> {
        match self {
            ProviderSpec::Mock(_) => MOCK_PROVIDER_NAME@,
            ProviderSpec::OpenAiCompatible(p) => p.settings().name,
        }
    }

    /// The provider's name.
    pub fn name(&self) -> (r: &str)
        ensures
            r@ == self.spec_name(),
    {
        match self {
            ProviderSpec::Mock(m) => m.name(),
            ProviderSpec::OpenAiCompatible(p) => p.name.as_str(),
        }
    }
}

fn profile_from_config(config: &ProviderConfig) -> (p: ResolvedProviderProfile)
    ensures
        p.view_profile() == configured_profile(config@),
        p.kind == config.kind,
{
    ResolvedProviderProfile {
        name: config.name.clone(),
        kind: config.kind,
        model: config.model.clone(),
        api_key_env: config.api_key_env.clone(),
        base_url: match &config.base_url {
            Some(u) => u.clone(),
            None => OPENAI_COMPATIBLE_BASE_URL.to_owned(),
        },
        reasoning_split: None,
    }
}

fn minimax_base_url_of(environment: &Vec<(String, String)>) -> (r: String)
    ensures
        r@ == minimax_base_url(environment@),
{
    match lookup_entry(environment, MINIMAX_BASE_URL_ENV) {
        Some(v) => {
            let t = trim_str(v.as_str());
            if t.unicode_len() > 0 {
                t.to_owned()
            } else {
                MINIMAX_BASE_URL.to_owned()
            }
        },
        None => MINIMAX_BASE_URL.to_owned(),
    }
}

fn built_in_minimax_profile(provider_name: &str, environment: &Vec<(String, String)>) -> (r: Result<
    Option<ResolvedProviderProfile>,
    ProviderRegistryError,
>)
    ensures
        match r {
            Ok(Some(p)) => minimax_profile(provider_name@, environment@) == Ok::<
                Option<ProfileView>,
                RegistryFailure,
            >(Some(p.view_profile())) && p.kind == ProviderKind::OpenAiCompatible,
            Ok(None) => minimax_profile(provider_name@, environment@) == Ok::<
                Option<ProfileView>,
                RegistryFailure,
            >(None),
            Err(e) => minimax_profile(provider_name@, environment@) == Err::<
                Option<ProfileView>,
                RegistryFailure,
            >(e@),
        },
{
    let model: String = if str_eq(provider_name, MINIMAX_PROVIDER_NAME) {
        MINIMAX_DEFAULT_MODEL.to_owned()
    } else if str_starts_with(provider_name, MINIMAX_MODEL_PREFIX) {
        let rest = provider_name.substring_char(MINIMAX_MODEL_PREFIX.unicode_len(), provider_name.unicode_len());
        assert(rest@ =~= provider_name@.skip(MINIMAX_MODEL_PREFIX@.len() as int));
        let m = trim_str(rest);
        if m.unicode_len() == 0 {
            return Err(
                ProviderRegistryError::InvalidProviderSpec {
                    provider: provider_name.to_owned(),
                    reason: "minimax provider model must not be empty",
                },
            );
        }
        m.to_owned()
    } else {
        return Ok(None);
    };
    proof {
        reveal_strlit("MiniMax-M2.7");
    }
    Ok(
        Some(
            ResolvedProviderProfile {
                name: provider_name.to_owned(),
                kind: ProviderKind::OpenAiCompatible,
                model,
                api_key_env: MINIMAX_API_KEY_ENV.to_owned(),
                base_url: minimax_base_url_of(environment),
                reasoning_split: Some(true),
            },
        ),
    )
}

impl ProviderRegistry {
    pub closed spec fn spec_providers(&self) -> Seq<ProviderView> {
        providers_view(self.providers@)
    }

    pub closed spec fn spec_credentials(&self) -> Seq<(String, String)> {
        self.credentials.entries()
    }

    pub closed spec fn spec_environment(&self) -> Seq<(String, String)> {
        self.environment@
    }

    /// The registry of a (possibly missing) configuration, reading
    /// credentials and `MINIMAX_BASE_URL` from a snapshot of the process
    /// environment.
    pub fn from_config(config: Option<&LeanConfig>, environment: Vec<(String, String)>) -> (r: ProviderRegistry)
        ensures
            r.spec_providers() == match config {
                Some(c) => providers_view(c.providers@),
                None => Seq::<ProviderView>::empty(),
            },
            r.spec_credentials() == environment@,
            r.spec_environment() == environment@,
    {
        let providers = match config {
            Some(c) => clone_providers(&c.providers),
            None => Vec::new(),
        };
        ProviderRegistry {
            providers,
            credentials: CredentialStore::Environment(copy_entries(&environment)),
            environment,
        }
    }

    /// A registry with explicit credentials. It holds no environment (this
    /// library reads none): the built-in MiniMax profile then uses its default
    /// base URL unless `with_environment` supplies `MINIMAX_BASE_URL`.
    pub fn with_credentials(providers: Vec<ProviderConfig>, credentials: Vec<(String, String)>) -> (r: ProviderRegistry)
        ensures
            r.spec_providers() == providers_view(providers@),
            r.spec_credentials() == credentials@,
            r.spec_environment() == Seq::<(String, String)>::empty(),
    {
        ProviderRegistry { providers, credentials: CredentialStore::Values(credentials), environment: Vec::new() }
    }

    /// The same registry, reading `MINIMAX_BASE_URL` from the given snapshot
    /// of the process environment.
    pub fn with_environment(self, environment: Vec<(String, String)>) -> (r: ProviderRegistry)
        ensures
            r.spec_providers() == self.spec_providers(),
            r.spec_credentials() == self.spec_credentials(),
            r.spec_environment() == environment@,
    {
        ProviderRegistry { providers: self.providers, credentials: self.credentials, environment }
    }

    fn find_configured(&self, provider_name: &str) -> (r: Option<ResolvedProviderProfile>)
        ensures
            match r {
                Some(p) => first_named(self.spec_providers(), provider_name@) matches Some(c)
                    && p.view_profile() == configured_profile(c) && p.kind
                    == ProviderKind::OpenAiCompatible,
                None => first_named(self.spec_providers(), provider_name@) is None,
            },
    {
        let n = self.providers.len();
        let ghost pv = self.spec_providers();
        let mut i: usize = 0;
        proof {
            assert(pv.skip(0) =~= pv);
        }
        while i < n
            invariant
                n == self.providers@.len(),
                pv == providers_view(self.providers@),
                i <= n,
                first_named(pv, provider_name@) == first_named(pv.skip(i as int), provider_name@),
            decreases n - i,
        {
            proof {
                assert(pv.skip(i as int)[0] == self.providers@[i as int]@);
                assert(pv.skip(i as int).drop_first() =~= pv.skip(i + 1));
            }
            if str_eq(self.providers[i].name.as_str(), provider_name) {
                return Some(profile_from_config(&self.providers[i]));
            }
            i = i + 1;
        }
        None
    }

    fn resolve_profile(&self, profile: ResolvedProviderProfile) -> (r: Result<ResolvedProvider, ProviderRegistryError>)
        ensures
            match r {
                Ok(p) => p.well_formed() && profile_resolution(
                    profile.view_profile(),
                    self.credentials.entries(),
                ) == Ok::<ResolutionView, RegistryFailure>(p.spec_resolution()),
                Err(e) => profile_resolution(profile.view_profile(), self.credentials.entries())
                    == Err::<ResolutionView, RegistryFailure>(e@),
            },
    {
        let api_key = match self.credentials.get(profile.api_key_env.as_str()) {
            Some(k) => k,
            None => {
                return Err(
                    ProviderRegistryError::MissingCredential {
                        provider: profile.name.clone(),
                        env_var: profile.api_key_env.clone(),
                    },
                );
            },
        };
        if str_is_blank(api_key.as_str()) {
            return Err(
                ProviderRegistryError::EmptyCredential {
                    provider: profile.name,
                    env_var: profile.api_key_env,
                },
            );
        }
        let credential_access = CredentialAccess {
            provider: profile.name.clone(),
            env_var: profile.api_key_env.clone(),
        };
        Ok(
            ResolvedProvider {
                provider: ProviderSpec::OpenAiCompatible(
                    OpenAiCompatibleProvider::with_options(
                        profile.name,
                        profile.model,
                        profile.base_url,
                        api_key,
                        profile.reasoning_split,
                    ),
                ),
                credential_access: Some(credential_access),
            },
        )
    }

    /// Resolves a provider name (see `resolution`), with the credential the
    /// provider read.
    pub fn resolve_with_audit(&self, provider_name: &str) -> (r: Result<ResolvedProvider, ProviderRegistryError>)
        ensures
            match r {
                Ok(p) => p.well_formed() && resolution(
                    self.spec_providers(),
                    self.spec_credentials(),
                    self.spec_environment(),
                    provider_name@,
                ) == Ok::<ResolutionView, RegistryFailure>(p.spec_resolution()),
                Err(e) => resolution(
                    self.spec_providers(),
                    self.spec_credentials(),
                    self.spec_environment(),
                    provider_name@,
                ) == Err::<ResolutionView, RegistryFailure>(e@),
            },
    {
        if str_eq(provider_name, MOCK_PROVIDER_NAME) {
            return Ok(
                ResolvedProvider {
                    provider: ProviderSpec::Mock(MockProvider::default_provider()),
                    credential_access: None,
                },
            );
        }
        match self.find_configured(provider_name) {
            Some(profile) => {
                return self.resolve_profile(profile);
            },
            None => {},
        }
        match built_in_minimax_profile(provider_name, &self.environment) {
            Err(e) => Err(e),
            Ok(Some(profile)) => self.resolve_profile(profile),
            Ok(None) => Err(ProviderRegistryError::UnknownProvider { provider: provider_name.to_owned() }),
        }
    }

    /// Resolves a provider name to the provider alone.
    pub fn resolve(&self, provider_name: &str) -> (r: Result<ProviderSpec, ProviderRegistryError>)
        ensures
            match r {
                Ok(p) => p.spec_name() == provider_name@ && match resolution(
                    self.spec_providers(),
                    self.spec_credentials(),
                    self.spec_environment(),
                    provider_name@,
                ) {
                    Ok(ResolutionView::Mock) => p matches ProviderSpec::Mock(m)
                        && m.spec_final_message() == DEFAULT_MOCK_FINAL_MESSAGE@,
                    Ok(ResolutionView::OpenAiCompatible { settings, .. }) => p matches ProviderSpec::OpenAiCompatible(o) && o.settings() == settings,
                    Err(_) => false,
                },
                Err(e) => resolution(
                    self.spec_providers(),
                    self.spec_credentials(),
                    self.spec_environment(),
                    provider_name@,
                ) == Err::<ResolutionView, RegistryFailure>(e@),
            },
    {
        proof {
            lemma_first_named_has_name(self.spec_providers(), provider_name@);
        }
        match self.resolve_with_audit(provider_name) {
            Ok(p) => {
                let q = p.into_provider();
                Ok(q)
            },
            Err(e) => Err(e),
        }
    }
}

fn clone_providers(v: &Vec<ProviderConfig>) -> (r: Vec<ProviderConfig>)
    ensures
        providers_view(r@) == providers_view(v@),
{
    let n = v.len();
    let mut r: Vec<ProviderConfig> = Vec::new();
    let mut i: usize = 0;
    while i < n
        invariant
            n == v@.len(),
            i <= n,
            r@.len() == i,
            forall|k: int| 0 <= k < i ==> (#[trigger] r@[k])@ == v@[k]@,
        decreases n - i,
    {
        r.push(copy_provider(&v[i]));
        i = i + 1;
    }
    proof {
        assert(providers_view(r@) =~= providers_view(v@));
    }
    r
}

fn copy_entries(v: &Vec<(String, String)>) -> (r: Vec<(String, String)>)
    ensures
        r@ == v@,
{
    let n = v.len();
    let mut r: Vec<(String, String)> = Vec::new();
    let mut i: usize = 0;
    while i < n
        invariant
            n == v@.len(),
            i <= n,
            r@ == v@.take(i as int),
        decreases n - i,
    {
        r.push((v[i].0.clone(), v[i].1.clone()));
        proof {
            assert(r@ =~= v@.take(i + 1));
        }
        i = i + 1;
    }
    proof {
        assert(v@.take(n as int) =~= v@);
    }
    r
}

/// The provider `first_named` finds carries the name it was looked up by.
pub proof fn lemma_first_named_has_name(providers: Seq<ProviderView>, name: Seq<char>)
    ensures
        first_named(providers, name) matches Some(c) ==> c.name == name,
    decreases providers.len(),
{
    if providers.len() > 0 && providers[0].name != name {
        lemma_first_named_has_name(providers.drop_first(), name);
    }
}

fn copy_provider(p: &ProviderConfig) -> (r: ProviderConfig)
    ensures
        r@ == p@,
{
    ProviderConfig {
        name: p.name.clone(),
        kind: p.kind,
        model: p.model.clone(),
        api_key_env: p.api_key_env.clone(),
        base_url: match &p.base_url {
            Some(u) => Some(u.clone()),
            None => None,
        },
    }
}

/// Why an HTTP exchange failed before a response could be used.
#[derive(Debug, Clone, Copy, PartialEq, Eq, Structural)]
pub enum HttpFailure {
    /// The request could not be sent or the response could not be read.
    Transport,
    /// The response body was not the expected JSON.
    Decode,
}

/// The chat-completions request body, as plain values.
#[derive(Debug, Clone, PartialEq, Eq)]
pub struct ChatCompletionRequest {
    pub model: String,
    pub messages: Vec<ChatCompletionMessage>,
    pub stream: bool,
    pub reasoning_split: Option<bool>,
}

#[derive(Debug, Clone, PartialEq, Eq)]
pub struct ChatCompletionMessage {
    pub role: String,
    pub content: String,
}

/// `s` without its trailing `/` characters.
pub open spec fn trim_trailing_slashes(s: Seq<char>) -> Seq<char>
    decreases s.len(),
{
    if s.len() > 0 && s.last() == '/' {
        trim_trailing_slashes(s.drop_last())
    } else {
        s
    }
}

/// The error kind of a failed exchange.
pub open spec fn failure_kind(f: HttpFailure) -> ProviderErrorKind {
    match f {
        HttpFailure::Decode => ProviderErrorKind::MalformedResponse { reason: "response JSON was invalid" },
        HttpFailure::Transport => ProviderErrorKind::HttpTransport,
    }
}

/// A status code of the 2xx class.
pub open spec fn is_success(status: u16) -> bool {
    200 <= status < 300
}

impl OpenAiCompatibleProvider {
    /// A provider without provider-specific options.
    pub fn new(name: &str, model: &str, base_url: &str, api_key: &str) -> (p: OpenAiCompatibleProvider)
        ensures
            p.settings() == (ProviderSettingsView {
                name: name@,
                model: model@,
                base_url: base_url@,
                api_key: api_key@,
                reasoning_split: None,
            }),
    {
        OpenAiCompatibleProvider::with_options(
            name.to_owned(),
            model.to_owned(),
            base_url.to_owned(),
            api_key.to_owned(),
            None,
        )
    }

    /// A provider with the given settings.
    pub fn with_options(
        name: String,
        model: String,
        base_url: String,
        api_key: String,
        reasoning_split: Option<bool>,
    ) -> (p: OpenAiCompatibleProvider)
        ensures
            p.settings() == (ProviderSettingsView {
                name: name@,
                model: model@,
                base_url: base_url@,
                api_key: api_key@,
                reasoning_split,
            }),
    {
        OpenAiCompatibleProvider { name, model, base_url, api_key, reasoning_split }
    }

    pub fn name(&self) -> (r: &str)
        ensures
            r@ == self.settings().name,
    {
        self.name.as_str()
    }

    /// The endpoint: the base URL without trailing slashes, then
    /// `/chat/completions`.
    pub fn chat_completions_url(&self) -> (url: String)
        ensures
            url@ == trim_trailing_slashes(self.settings().base_url) + "/chat/completions"@,
    {
        let s = self.base_url.as_str();
        let mut j: usize = s.unicode_len();
        proof {
            assert(s@.subrange(0, j as int) =~= s@);
        }
        while j > 0 && s.get_char(j - 1) == '/'
            invariant
                j <= s@.len(),
                trim_trailing_slashes(s@) == trim_trailing_slashes(s@.subrange(0, j as int)),
            decreases j,
        {
            proof {
                assert(s@.subrange(0, j as int).drop_last() =~= s@.subrange(0, j - 1));
            }
            j = j - 1;
        }
        let mut url = s.substring_char(0, j).to_owned();
        url.append("/chat/completions");
        url
    }

    /// The `Authorization` header value: `Bearer <api key>`.
    pub fn authorization_header(&self) -> (h: String)
        ensures
            h@ == "Bearer "@ + self.settings().api_key,
    {
        let mut h = "Bearer ".to_owned();
        h.append(self.api_key.as_str());
        h
    }

    /// The request body: the model, one user message with the task, no
    /// streaming, and the reasoning-split option when the provider has one.
    pub fn chat_request(&self, request: &ModelRequest) -> (body: ChatCompletionRequest)
        ensures
            body.model@ == self.settings().model,
            body.messages@.len() == 1,
            body.messages@[0].role@ == "user"@,
            body.messages@[0].content@ == request.task@,
            !body.stream,
            body.reasoning_split == self.settings().reasoning_split,
    {
        ChatCompletionRequest {
            model: self.model.clone(),
            messages: vec![ChatCompletionMessage { role: "user".to_owned(), content: request.task.clone() }],
            stream: false,
            reasoning_split: self.reasoning_split,
        }
    }

    /// What the status of a sent request means: a failed send is an error of
    /// its kind; a status outside 2xx is an HTTP status error.
    pub fn status_outcome(&self, sent: Result<u16, HttpFailure>) -> (r: Result<(), ProviderError>)
        ensures
            match sent {
                Err(f) => r matches Err(e) && e.provider@ == self.settings().name && e.kind
                    == failure_kind(f),
                Ok(status) => if is_success(status) {
                    r is Ok
                } else {
                    r matches Err(e) && e.provider@ == self.settings().name && e.kind
                        == (ProviderErrorKind::HttpStatus { status_code: status })
                },
            },
    {
        match sent {
            Err(f) => Err(ProviderError { provider: self.name.clone(), kind: kind_of_failure(f) }),
            Ok(status) => {
                if 200 <= status && status < 300 {
                    Ok(())
                } else {
                    Err(
                        ProviderError {
                            provider: self.name.clone(),
                            kind: ProviderErrorKind::HttpStatus { status_code: status },
                        },
                    )
                }
            },
        }
    }

    /// What a decoded response body means: the content of the first choice's
    /// message is the final message; without one the response is malformed.
    pub fn body_outcome(&self, decoded: Result<Vec<Option<String>>, HttpFailure>) -> (r: Result<
        ModelResponse,
        ProviderError,
    >)
        ensures
            match decoded {
                Err(f) => r matches Err(e) && e.provider@ == self.settings().name && e.kind
                    == failure_kind(f),
                Ok(contents) => if contents@.len() > 0 && contents@[0] is Some {
                    r matches Ok(m) && m.final_message@ == contents@[0]->Some_0@
                } else {
                    r matches Err(e) && e.provider@ == self.settings().name && e.kind
                        == (ProviderErrorKind::MalformedResponse {
                        reason: "missing choices[0].message.content",
                    })
                },
            },
    {
        match decoded {
            Err(f) => Err(ProviderError { provider: self.name.clone(), kind: kind_of_failure(f) }),
            Ok(contents) => {
                if contents.len() > 0 {
                    match &contents[0] {
                        Some(c) => {
                            return Ok(ModelResponse { final_message: c.clone() });
                        },
                        None => {},
                    }
                }
                Err(
                    ProviderError {
                        provider: self.name.clone(),
                        kind: ProviderErrorKind::MalformedResponse {
                            reason: "missing choices[0].message.content",
                        },
                    },
                )
            },
        }
    }
}

fn kind_of_failure(f: HttpFailure) -> (k: ProviderErrorKind)
    ensures
        k == failure_kind(f),
{
    match f {
        HttpFailure::Decode => ProviderErrorKind::MalformedResponse { reason: "response JSON was invalid" },
        HttpFailure::Transport => ProviderErrorKind::HttpTransport,
    }
}

/// The message of a provider error kind.
pub open spec fn error_kind_text(k: ProviderErrorKind) -> Seq<char> {
    match k {
        ProviderErrorKind::HttpStatus { status_code } => "HTTP request failed with status "@ + decimal(
            status_code as nat,
        ),
        ProviderErrorKind::HttpTransport => "HTTP transport failed"@,
        ProviderErrorKind::MalformedResponse { reason } => "provider returned malformed response: "@
            + reason@,
    }
}

/// The message of a registry error.
pub open spec fn registry_error_text(e: RegistryFailure) -> Seq<char> {
    match e {
        RegistryFailure::UnknownProvider(p) => "unsupported provider: "@ + p,
        RegistryFailure::MissingCredential(p, v) => "provider "@ + p
            + " is missing credential environment variable "@ + v,
        RegistryFailure::EmptyCredential(p, v) => "provider "@ + p + " credential environment variable "@
            + v + " must not be empty"@,
        RegistryFailure::InvalidProviderSpec(p, r) => "invalid provider "@ + p + ": "@ + r,
    }
}

impl ProviderError {
    /// The error's message: `provider <name> failed: <kind>`.
    pub fn message(&self) -> (text: String)
        ensures
            text@ == "provider "@ + self.provider@ + " failed: "@ + error_kind_text(self.kind),
    {
        let mut t = "provider ".to_owned();
        t.append(self.provider.as_str());
        t.append(" failed: ");
        match self.kind {
            ProviderErrorKind::HttpStatus { status_code } => {
                t.append("HTTP request failed with status ");
                let d = decimal_string(status_code as u64);
                t.append(d.as_str());
            },
            ProviderErrorKind::HttpTransport => {
                t.append("HTTP transport failed");
            },
            ProviderErrorKind::MalformedResponse { reason } => {
                t.append("provider returned malformed response: ");
                t.append(reason);
            },
        }
        t
    }
}

impl ProviderRegistryError {
    /// The error's message, as it is shown to the user.
    pub fn message(&self) -> (text: String)
        ensures
            text@ == registry_error_text(self@),
    {
        match self {
            ProviderRegistryError::UnknownProvider { provider } => {
                let mut t = "unsupported provider: ".to_owned();
                t.append(provider.as_str());
                t
            },
            ProviderRegistryError::MissingCredential { provider, env_var } => {
                let mut t = "provider ".to_owned();
                t.append(provider.as_str());
                t.append(" is missing credential environment variable ");
                t.append(env_var.as_str());
                t
            },
            ProviderRegistryError::EmptyCredential { provider, env_var } => {
                let mut t = "provider ".to_owned();
                t.append(provider.as_str());
                t.append(" credential environment variable ");
                t.append(env_var.as_str());
                t.append(" must not be empty");
                t
            },
            ProviderRegistryError::InvalidProviderSpec { provider, reason } => {
                let mut t = "invalid provider ".to_owned();
                t.append(provider.as_str());
                t.append(": ");
                t.append(reason);
                t
            },
        }
    }
}

/// `mock` always resolves, to the mock provider, whatever providers are
/// configured and whatever credentials exist: it reads no credential.
pub proof fn lemma_mock_needs_no_credentials(
    providers: Seq<ProviderView>,
    credentials: Seq<(String, String)>,
    environment: Seq<(String, String)>,
)
    ensures
        resolution(providers, credentials, environment, MOCK_PROVIDER_NAME@) == Ok::<
            ResolutionView,
            RegistryFailure,
        >(ResolutionView::Mock),
{
}

/// A resolved non-mock provider always reports the credential it read: the
/// provider's own name and the variable its key came from.
pub proof fn lemma_resolution_reports_credential(
    providers: Seq<ProviderView>,
    credentials: Seq<(String, String)>,
    environment: Seq<(String, String)>,
    name: Seq<char>,
)
    ensures
        resolution(providers, credentials, environment, name) matches Ok(
            ResolutionView::OpenAiCompatible { settings, access },
        ) ==> access.0 == name && settings.name == name && lookup(credentials, access.1)
            == Some(settings.api_key) && !is_blank(settings.api_key),
{
    lemma_first_named_has_name(providers, name);
}

/// A configured provider of a name is chosen before the built-in MiniMax
/// profile of that name: its own model, key variable and base URL are used.
pub proof fn lemma_configured_provider_first(
    providers: Seq<ProviderView>,
    credentials: Seq<(String, String)>,
    environment: Seq<(String, String)>,
    name: Seq<char>,
)
    requires
        name != MOCK_PROVIDER_NAME@,
        first_named(providers, name) is Some,
    ensures
        resolution(providers, credentials, environment, name) == profile_resolution(
            configured_profile(first_named(providers, name)->Some_0),
            credentials,
        ),
{
}

/// A built-in MiniMax name `minimax/<model>` selects that model: when no
/// provider of the name is configured and the trimmed model is not empty, a
/// successful resolution gives settings of that name whose model is the
/// trimmed model, read with the MiniMax key variable.
pub proof fn lemma_minimax_model_from_name(
    providers: Seq<ProviderView>,
    credentials: Seq<(String, String)>,
    environment: Seq<(String, String)>,
    model: Seq<char>,
)
    requires
        first_named(providers, "minimax/"@ + model) is None,
        trim(model).len() > 0,
    ensures
        resolution(providers, credentials, environment, "minimax/"@ + model) matches Ok(
            ResolutionView::OpenAiCompatible { settings, access },
        ) ==> settings.model == trim(model) && settings.name == "minimax/"@ + model && access.1
            == MINIMAX_API_KEY_ENV@,
        resolution(providers, credentials, environment, "minimax/"@ + model) is Ok || resolution(
            providers,
            credentials,
            environment,
            "minimax/"@ + model,
        ) matches Err(RegistryFailure::MissingCredential(..)) || resolution(
            providers,
            credentials,
            environment,
            "minimax/"@ + model,
        ) matches Err(RegistryFailure::EmptyCredential(..)),
{
    reveal_strlit("minimax/");
    reveal_strlit("minimax");
    reveal_strlit("mock");
    let name = "minimax/"@ + model;
    assert(name != MOCK_PROVIDER_NAME@) by {
        assert(name[1] == 'i');
    }
    assert(name != MINIMAX_PROVIDER_NAME@) by {
        assert(name.len() != 7);
    }
    assert(MINIMAX_MODEL_PREFIX@.is_prefix_of(name)) by {
        assert(name.subrange(0, 8) =~= "minimax/"@);
    }
    assert(name.skip(MINIMAX_MODEL_PREFIX@.len() as int) =~= model);
}

} // verus!
