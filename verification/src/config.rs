//! Configuration values, their defaults, and the decisions made on them.
use vstd::prelude::*;

use crate::llm::{copy_string, opt_view};
use crate::text::{chars_of, string_from, trim, trim_chars};

verus! {

/// Configuration errors that the library itself detects.
#[derive(Debug)]
pub enum ConfigError {
    /// `defaults.language` names no supported UI language.
    InvalidLanguage { language: String },
    /// No API key is configured and the named environment variable is unset.
    MissingApiKey { env: String },
    /// A plugin hook exited unsuccessfully.
    HookFailed { command: String, code: Option<i32> },
    /// The MCP configuration could not be parsed.
    McpParse(String),
}

/// Checks `defaults.language`: `zh-CN` and `en-US` are accepted.
pub fn validate_language(language: &str) -> (r: Result<(), ConfigError>)
    ensures
        r is Ok <==> crate::i18n::supported_locale(language@),
        r matches Err(ConfigError::InvalidLanguage { language: l }) ==> l@ == language@,
        r matches Err(e) ==> e is InvalidLanguage,
{
    if crate::i18n::is_supported_locale(language) {
        Ok(())
    } else {
        Err(ConfigError::InvalidLanguage { language: copy_string(language) })
    }
}

/// Options that override layered configuration (CLI flags, etc.).
#[derive(Debug, Clone, Default)]
pub struct LoadOptions {
    pub cwd: Option<String>,
    pub model: Option<String>,
    pub provider: Option<String>,
    pub language: Option<String>,
}

/// Replaces `value` by the override when there is one.
fn override_with(value: &mut String, over: &Option<String>)
    ensures
        final(value)@ == (match opt_view(*over) {
            Some(o) => o,
            None => old(value)@,
        }),
{
    if let Some(o) = over {
        *value = o.clone();
    }
}

/// Applies the command-line overrides to the configured default model, provider and
/// language: each one given replaces the configured value.
pub fn apply_cli_overrides(
    model: &mut String,
    provider: &mut String,
    language: &mut String,
    opts: &LoadOptions,
)
    ensures
        final(model)@ == (match opt_view(opts.model) {
            Some(m) => m,
            None => old(model)@,
        }),
        final(provider)@ == (match opt_view(opts.provider) {
            Some(p) => p,
            None => old(provider)@,
        }),
        final(language)@ == (match opt_view(opts.language) {
            Some(l) => l,
            None => old(language)@,
        }),
{
    override_with(model, &opts.model);
    override_with(provider, &opts.provider);
    override_with(language, &opts.language);
}

/// The directory configuration is resolved from: the one given, else the process's
/// current directory (`current_dir`, when it could be read), else `.`.
pub fn working_dir(opts: &LoadOptions, current_dir: Option<String>) -> (r: String)
    ensures
        r@ == (match opt_view(opts.cwd) {
            Some(c) => c,
            None => match opt_view(current_dir) {
                Some(d) => d,
                None => "."@,
            },
        }),
{
    match &opts.cwd {
        Some(c) => c.clone(),
        None => match current_dir {
            Some(d) => d,
            None => copy_string("."),
        },
    }
}

/// Settings of one LLM provider.
#[derive(Debug, Clone)]
pub struct ProviderConfig {
    /// Direct API key; takes precedence over `api_key_env` when set.
    pub api_key: Option<String>,
    pub api_key_env: Option<String>,
    pub base_url: Option<String>,
    pub api_style: Option<String>,
    /// `tools` (OpenAI tools API) or `functions` (legacy function calling).
    /// Default: `functions`.
    pub tool_format: Option<String>,
}

/// Where a provider's API key comes from.
#[derive(Debug, Clone, PartialEq, Eq)]
pub enum ApiKeySource {
    /// The configured key, trimmed.
    Direct(String),
    /// The environment variable with this name.
    Env(String),
}

/// The configured key, trimmed, when it is not blank.
pub open spec fn direct_key(cfg: ProviderConfig) -> Option<Seq<char>> {
    match cfg.api_key {
        Some(k) if trim(k@).len() > 0 => Some(trim(k@)),
        _ => None,
    }
}

/// The environment variable that holds the key when none is configured.
pub open spec fn key_env_name(cfg: ProviderConfig) -> Seq<char> {
    match cfg.api_key_env {
        Some(n) if n@.len() > 0 => n@,
        _ => "OPENAI_API_KEY"@,
    }
}

impl ProviderConfig {
    /// Where the API key comes from: a configured key that is not blank (trimmed),
    /// else the variable named by `api_key_env` when that is not empty, else
    /// `OPENAI_API_KEY`.
    pub fn api_key_source(&self) -> (r: ApiKeySource)
        ensures
            direct_key(*self) matches Some(k) ==> (r matches ApiKeySource::Direct(d) && d@ == k),
            direct_key(*self) is None ==> (r matches ApiKeySource::Env(e) && e@ == key_env_name(
                *self,
            )),
            match self.api_key {
                Some(k) if trim(k@).len() > 0 => r matches ApiKeySource::Direct(d) && d@ == trim(k@),
                _ => r matches ApiKeySource::Env(e) && e@ == (match self.api_key_env {
                    Some(n) if n@.len() > 0 => n@,
                    _ => "OPENAI_API_KEY"@,
                }),
            },
    {
        if let Some(k) = &self.api_key {
            let t = trim_chars(&chars_of(k.as_str()));
            if t.len() > 0 {
                return ApiKeySource::Direct(string_from(t.as_slice()));
            }
        }
        match &self.api_key_env {
            Some(n) => if n.as_str().is_empty() {
                ApiKeySource::Env(copy_string("OPENAI_API_KEY"))
            } else {
                ApiKeySource::Env(n.clone())
            },
            None => ApiKeySource::Env(copy_string("OPENAI_API_KEY")),
        }
    }

    /// Resolves the API key: the configured key when it is not blank (trimmed), else
    /// the value of the environment variable that `api_key_source` names, which the
    /// caller looked up and passes as `env_value`.
    pub fn resolve_api_key(&self, env_value: Option<String>) -> (r: Result<String, ConfigError>)
        ensures
            direct_key(*self) matches Some(k) ==> (r matches Ok(s) && s@ == k),
            direct_key(*self) is None && env_value is Some ==> (r matches Ok(s) && s@
                == env_value->0@),
            direct_key(*self) is None && env_value is None ==> (r matches Err(
                ConfigError::MissingApiKey { env },
            ) && env@ == key_env_name(*self)),
    {
        match self.api_key_source() {
            ApiKeySource::Direct(k) => Ok(k),
            ApiKeySource::Env(name) => match env_value {
                Some(v) => Ok(v),
                None => Err(ConfigError::MissingApiKey { env: name }),
            },
        }
    }
}

fn some_str(s: &str) -> (r: Option<String>)
    ensures
        opt_view(r) == Some(s@),
{
    Some(copy_string(s))
}

/// No two providers of the list carry the same name: the list stands for a map from
/// provider names to their settings.
pub open spec fn unique_provider_names(providers: Seq<(String, ProviderConfig)>) -> bool {
    forall|i: int, j: int|
        0 <= i < providers.len() && 0 <= j < providers.len() && i != j ==> #[trigger] providers[i].0@
            != #[trigger] providers[j].0@
}

/// The providers configured out of the box.
pub fn default_providers() -> (r: Vec<(String, ProviderConfig)>)
    ensures
        unique_provider_names(r@),
        r@.len() == 3,
        r@[0].0@ == "openai"@,
        opt_view(r@[0].1.api_key) is None,
        opt_view(r@[0].1.api_key_env) == Some("OPENAI_API_KEY"@),
        opt_view(r@[0].1.base_url) == Some("https://api.openai.com/v1"@),
        opt_view(r@[0].1.api_style) == Some("openai"@),
        opt_view(r@[0].1.tool_format) == Some("tools"@),
        r@[1].0@ == "anthropic"@,
        opt_view(r@[1].1.api_key) is None,
        opt_view(r@[1].1.api_key_env) == Some("ANTHROPIC_API_KEY"@),
        opt_view(r@[1].1.base_url) is None,
        opt_view(r@[1].1.api_style) == Some("anthropic"@),
        opt_view(r@[1].1.tool_format) is None,
        r@[2].0@ == "custom"@,
        opt_view(r@[2].1.api_key) is None,
        opt_view(r@[2].1.api_key_env) == Some("CUSTOM_API_KEY"@),
        opt_view(r@[2].1.base_url) == Some("http://localhost:8080/v1"@),
        opt_view(r@[2].1.api_style) == Some("openai"@),
        opt_view(r@[2].1.tool_format) == Some("tools"@),
{
    let mut r: Vec<(String, ProviderConfig)> = Vec::new();
    r.push(
        (
            copy_string("openai"),
            ProviderConfig {
                api_key: None,
                api_key_env: some_str("OPENAI_API_KEY"),
                base_url: some_str("https://api.openai.com/v1"),
                api_style: some_str("openai"),
                tool_format: some_str("tools"),
            },
        ),
    );
    r.push(
        (
            copy_string("anthropic"),
            ProviderConfig {
                api_key: None,
                api_key_env: some_str("ANTHROPIC_API_KEY"),
                base_url: None,
                api_style: some_str("anthropic"),
                tool_format: None,
            },
        ),
    );
    r.push(
        (
            copy_string("custom"),
            ProviderConfig {
                api_key: None,
                api_key_env: some_str("CUSTOM_API_KEY"),
                base_url: some_str("http://localhost:8080/v1"),
                api_style: some_str("openai"),
                tool_format: some_str("tools"),
            },
        ),
    );
    proof {
        reveal_strlit("openai");
        reveal_strlit("anthropic");
        reveal_strlit("custom");
        assert(r@[0].0@[0] == 'o' && r@[1].0@[0] == 'a' && r@[2].0@[0] == 'c');
    }
    r
}

/// Sandbox of the shell tool.
#[derive(Debug, Clone, Copy, PartialEq, Eq, Structural)]
pub enum ShellSandboxMode {
    Off,
    Restricted,
}

impl Default for ShellSandboxMode {
    fn default() -> (r: Self)
        ensures
            r == ShellSandboxMode::Off,
    {
        ShellSandboxMode::Off
    }
}

/// Colour theme of the terminal UI.
#[derive(Debug, Clone, Copy, PartialEq, Eq, Structural)]
pub enum UiTheme {
    Auto,
    Dark,
    Light,
}

impl Default for UiTheme {
    fn default() -> (r: Self)
        ensures
            r == UiTheme::Auto,
    {
        UiTheme::Auto
    }
}

/// Where sessions are stored.
#[derive(Debug, Clone, Copy, PartialEq, Eq, Structural)]
pub enum SessionStorage {
    Sqlite,
    Json,
}

impl Default for SessionStorage {
    fn default() -> (r: Self)
        ensures
            r == SessionStorage::Sqlite,
    {
        SessionStorage::Sqlite
    }
}

/// Limits of the grep tool.
#[derive(Debug, Clone)]
pub struct GrepToolConfig {
    pub max_matches: usize,
    pub max_files: usize,
}

impl Default for GrepToolConfig {
    fn default() -> (r: Self)
        ensures
            r.max_matches == 200,
            r.max_files == 5000,
    {
        GrepToolConfig { max_matches: 200, max_files: 5_000 }
    }
}

/// Settings of the shell tool.
#[derive(Debug, Clone)]
pub struct ShellToolConfig {
    pub enabled: bool,
    pub timeout_secs: u64,
    pub sandbox: ShellSandboxMode,
    pub allowlist: Vec<String>,
}

/// A tool that can only be switched on or off.
#[derive(Debug, Clone)]
pub struct EnabledToolConfig {
    pub enabled: bool,
}

/// Settings of the built-in tools.
#[derive(Debug, Clone)]
pub struct ToolsConfig {
    pub shell: ShellToolConfig,
    pub write: EnabledToolConfig,
    pub web_search: EnabledToolConfig,
    pub grep: GrepToolConfig,
}

impl Default for ToolsConfig {
    /// Shell on with a two-minute timeout and no sandbox or allow-list, writing on, web
    /// search off, default grep limits.
    fn default() -> (r: Self)
        ensures
            r.shell.enabled,
            r.shell.timeout_secs == 120,
            r.shell.sandbox == ShellSandboxMode::Off,
            r.shell.allowlist@.len() == 0,
            r.write.enabled,
            !r.web_search.enabled,
            r.grep.max_matches == 200,
            r.grep.max_files == 5000,
    {
        ToolsConfig {
            shell: ShellToolConfig {
                enabled: true,
                timeout_secs: 120,
                sandbox: ShellSandboxMode::Off,
                allowlist: Vec::new(),
            },
            write: EnabledToolConfig { enabled: true },
            web_search: EnabledToolConfig { enabled: false },
            grep: GrepToolConfig::default(),
        }
    }
}

/// Settings of the terminal UI.
#[derive(Debug, Clone)]
pub struct UiConfig {
    pub theme: UiTheme,
    pub show_tool_output: bool,
    pub confirm_destructive: bool,
}

impl Default for UiConfig {
    fn default() -> (r: Self)
        ensures
            r.theme == UiTheme::Auto,
            r.show_tool_output,
            r.confirm_destructive,
    {
        UiConfig { theme: UiTheme::Auto, show_tool_output: true, confirm_destructive: true }
    }
}

/// Session persistence settings.
#[derive(Debug, Clone)]
pub struct SessionConfig {
    pub storage: SessionStorage,
    pub dir: String,
}

impl Default for SessionConfig {
    fn default() -> (r: Self)
        ensures
            r.storage == SessionStorage::Sqlite,
            r.dir@ == "~/.local/share/codei/sessions"@,
    {
        SessionConfig { storage: SessionStorage::Sqlite, dir: copy_string("~/.local/share/codei/sessions") }
    }
}

/// The user configuration file that `codei config init` writes: the built-in
/// defaults, spelled out.
pub const DEFAULT_CONFIG_TEMPLATE: &'static str = "# CodeI user configuration\n\n[defaults]\nmodel = \"gpt-4o\"\nprovider = \"openai\"\ntemperature = 0.2\nmax_tokens = 8192\nlanguage = \"zh-CN\"\n\n[providers.openai]\napi_key_env = \"OPENAI_API_KEY\"\nbase_url = \"https://api.openai.com/v1\"\napi_style = \"openai\"\ntool_format = \"tools\"\n\n[providers.anthropic]\napi_key_env = \"ANTHROPIC_API_KEY\"\napi_style = \"anthropic\"\n\n[agent]\nmax_turns = 50\nmax_tool_rounds_per_turn = 25\ncontext_window_tokens = 128000\ncompaction_threshold = 0.85\n\n[tools.shell]\nenabled = true\ntimeout_secs = 120\n\n[tools.write]\nenabled = true\n\n[tools.web_search]\nenabled = false\n\n[ui]\ntheme = \"auto\"\nshow_tool_output = true\nconfirm_destructive = true\n\n[session]\nstorage = \"sqlite\"\ndir = \"~/.local/share/codei/sessions\"\n";

/// Default user configuration written by `codei config init`.
pub fn default_config_template() -> (r: &'static str)
    ensures
        r == DEFAULT_CONFIG_TEMPLATE,
{
    DEFAULT_CONFIG_TEMPLATE
}

} // verus!
