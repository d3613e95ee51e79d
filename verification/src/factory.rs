//! Choosing and configuring the chat provider, and the parts of a chat request that
//! depend on it.
use vstd::prelude::*;

use crate::config::{direct_key, key_env_name, unique_provider_names, ApiKeySource, ProviderConfig};
use crate::llm::{copy_string, opt_view, tool_format_of, LlmError, ToolFormat};
use crate::text::{append_str, chars_of, eq_str, strip_char_end, string_from};

verus! {

/// A provider ready to be connected: which API it speaks, its name, key and endpoint.
#[derive(Debug, Clone)]
pub enum ProviderPlan {
    OpenAi { id: String, api_key: String, base_url: String, tool_format: ToolFormat },
    Anthropic { id: String, api_key: String, base_url: String },
}

/// Default endpoint of the OpenAI API.
pub open spec fn openai_default_base() -> Seq<char> {
    "https://api.openai.com/v1"@
}

/// Default endpoint of the Anthropic API.
pub open spec fn anthropic_default_base() -> Seq<char> {
    "https://api.anthropic.com/v1"@
}

/// Position of the first provider named `name`.
pub open spec fn provider_index(providers: Seq<(String, ProviderConfig)>, name: Seq<char>, from: int) -> Option<int>
    decreases providers.len() - from,
{
    if from < 0 || from >= providers.len() {
        None
    } else if providers[from].0@ == name {
        Some(from)
    } else {
        provider_index(providers, name, from + 1)
    }
}

proof fn lemma_provider_index_bounds(
    providers: Seq<(String, ProviderConfig)>,
    name: Seq<char>,
    from: int,
)
    ensures
        provider_index(providers, name, from) matches Some(i) ==> from <= i < providers.len()
            && providers[i].0@ == name,
    decreases providers.len() - from,
{
    if 0 <= from < providers.len() && providers[from].0@ != name {
        lemma_provider_index_bounds(providers, name, from + 1);
    }
}

/// In a list whose names are unique, the provider found by name is the one that carries
/// that name, wherever it stands.
pub proof fn lemma_provider_index_unique(
    providers: Seq<(String, ProviderConfig)>,
    name: Seq<char>,
    i: int,
)
    requires
        unique_provider_names(providers),
        0 <= i < providers.len(),
        providers[i].0@ == name,
    ensures
        provider_index(providers, name, 0) == Some(i),
{
    lemma_provider_index_from(providers, name, i, 0);
}

proof fn lemma_provider_index_from(
    providers: Seq<(String, ProviderConfig)>,
    name: Seq<char>,
    i: int,
    from: int,
)
    requires
        unique_provider_names(providers),
        0 <= from <= i < providers.len(),
        providers[i].0@ == name,
    ensures
        provider_index(providers, name, from) == Some(i),
    decreases i - from,
{
    if from < i {
        assert(providers[from].0@ != providers[i].0@);
        lemma_provider_index_from(providers, name, i, from + 1);
    }
}

/// Finds the provider named `name`.
pub fn find_provider(providers: &Vec<(String, ProviderConfig)>, name: &str) -> (r: Option<usize>)
    ensures
        match provider_index(providers@, name@, 0) {
            Some(i) => r matches Some(j) && j == i,
            None => r is None,
        },
        r matches Some(i) ==> i < providers@.len(),
{
    proof {
        lemma_provider_index_bounds(providers@, name@, 0);
    }
    let mut i: usize = 0;
    while i < providers.len()
        invariant
            0 <= i <= providers.len(),
            provider_index(providers@, name@, 0) == provider_index(providers@, name@, i as int),
        decreases providers.len() - i,
    {
        if eq_str(&chars_of(providers[i].0.as_str()), name) {
            return Some(i);
        }
        i = i + 1;
    }
    None
}

/// An endpoint without trailing slashes: the configured one, else the default.
pub open spec fn base_url_spec(configured: Option<Seq<char>>, default: Seq<char>) -> Seq<char> {
    strip_char_end(
        match configured {
            Some(u) => u,
            None => default,
        },
        '/',
    )
}

/// `s` without its trailing `c` characters (`str::trim_end_matches`).
fn strip_trailing(s: &str, c: char) -> (r: String)
    ensures
        r@ == strip_char_end(s@, c),
{
    let v = chars_of(s);
    let mut j = v.len();
    assert(v@.take(j as int) =~= v@);
    while j > 0 && v[j - 1] == c
        invariant
            j <= v.len(),
            v@ == s@,
            strip_char_end(s@, c) == strip_char_end(v@.take(j as int), c),
        decreases j,
    {
        assert(v@.take(j as int).drop_last() =~= v@.take(j - 1));
        j = j - 1;
    }
    assert(strip_char_end(v@.take(j as int), c) == v@.take(j as int));
    let mut out: Vec<char> = Vec::new();
    let mut k: usize = 0;
    while k < j
        invariant
            0 <= k <= j <= v.len(),
            out@ == v@.take(k as int),
        decreases j - k,
    {
        out.push(v[k]);
        assert(v@.take(k + 1) =~= v@.take(k as int).push(v@[k as int]));
        k = k + 1;
    }
    string_from(out.as_slice())
}

fn base_url(configured: &Option<String>, default: &str) -> (r: String)
    ensures
        r@ == base_url_spec(opt_view(*configured), default@),
{
    match configured {
        Some(u) => strip_trailing(u.as_str(), '/'),
        None => strip_trailing(default, '/'),
    }
}

/// The API style a provider declares, `openai` when it declares none.
pub open spec fn api_style_of(cfg: ProviderConfig) -> Seq<char> {
    match opt_view(cfg.api_style) {
        Some(s) => s,
        None => "openai"@,
    }
}

/// The plan for the provider named `provider_name`: it must be configured, have an
/// API key, and speak a supported API. `env_value` is the value of the environment
/// variable that the provider's `api_key_source` names, as the caller found it.
pub fn create_provider_by_name(
    providers: &Vec<(String, ProviderConfig)>,
    provider_name: &str,
    env_value: Option<String>,
) -> (r: Result<ProviderPlan, LlmError>)
    ensures
        provider_index(providers@, provider_name@, 0) is None ==> (r matches Err(
            LlmError::ProviderNotConfigured { provider },
        ) && provider@ == provider_name@),
        provider_index(providers@, provider_name@, 0) matches Some(i) ==> {
            let cfg = providers@[i].1;
            let key = match direct_key(cfg) {
                Some(k) => Some(k),
                None => opt_view(env_value),
            };
            &&& key is None ==> (r matches Err(LlmError::MissingApiKey { env }) && env@
                == key_env_name(cfg))
            &&& key is Some && api_style_of(cfg) == "openai"@ ==> (r matches Ok(
                ProviderPlan::OpenAi { id, api_key, base_url, tool_format },
            ) && id@ == provider_name@ && api_key@ == key->0 && base_url@ == base_url_spec(
                opt_view(cfg.base_url),
                openai_default_base(),
            ) && tool_format == tool_format_of(opt_view(cfg.tool_format)))
            &&& key is Some && api_style_of(cfg) == "anthropic"@ ==> (r matches Ok(
                ProviderPlan::Anthropic { id, api_key, base_url },
            ) && id@ == provider_name@ && api_key@ == key->0 && base_url@ == base_url_spec(
                opt_view(cfg.base_url),
                anthropic_default_base(),
            ))
            &&& key is Some && api_style_of(cfg) != "openai"@ && api_style_of(cfg) != "anthropic"@
                ==> (r matches Err(LlmError::UnsupportedProvider(s)) && s@ == api_style_of(cfg))
        },
{
    let i = match find_provider(providers, provider_name) {
        Some(i) => i,
        None => {
            return Err(LlmError::ProviderNotConfigured { provider: copy_string(provider_name) });
        },
    };
    let cfg = &providers[i].1;
    let api_key = match cfg.api_key_source() {
        ApiKeySource::Direct(k) => k,
        ApiKeySource::Env(name) => match env_value {
            Some(v) => v,
            None => {
                return Err(LlmError::MissingApiKey { env: name });
            },
        },
    };
    let style = match &cfg.api_style {
        Some(s) => s.clone(),
        None => copy_string("openai"),
    };
    let style_chars = chars_of(style.as_str());
    proof {
        reveal_strlit("openai");
        reveal_strlit("anthropic");
    }
    assert(style@ == api_style_of(*cfg));
    if eq_str(&style_chars, "openai") {
        let tool_format = match &cfg.tool_format {
            Some(f) => ToolFormat::parse(Some(f.as_str())),
            None => ToolFormat::parse(None),
        };
        Ok(
            ProviderPlan::OpenAi {
                id: copy_string(provider_name),
                api_key,
                base_url: base_url(&cfg.base_url, "https://api.openai.com/v1"),
                tool_format,
            },
        )
    } else if eq_str(&style_chars, "anthropic") {
        Ok(
            ProviderPlan::Anthropic {
                id: copy_string(provider_name),
                api_key,
                base_url: base_url(&cfg.base_url, "https://api.anthropic.com/v1"),
            },
        )
    } else {
        Err(LlmError::UnsupportedProvider(style))
    }
}

impl ProviderPlan {
    /// The URL chat requests are posted to.
    pub fn endpoint(&self) -> (r: String)
        ensures
            r@ == (match self {
                ProviderPlan::OpenAi { base_url, .. } => base_url@ + "/chat/completions"@,
                ProviderPlan::Anthropic { base_url, .. } => base_url@ + "/messages"@,
            }),
    {
        let mut v: Vec<char> = Vec::new();
        match self {
            ProviderPlan::OpenAi { base_url, .. } => {
                append_str(&mut v, base_url.as_str());
                append_str(&mut v, "/chat/completions");
            },
            ProviderPlan::Anthropic { base_url, .. } => {
                append_str(&mut v, base_url.as_str());
                append_str(&mut v, "/messages");
            },
        }
        string_from(v.as_slice())
    }
}

/// Which tool fields an OpenAI request carries.
#[derive(Debug, Clone, Copy, PartialEq, Eq, Structural)]
pub struct OpenAiToolFields {
    /// The tool definitions go in `tools`.
    pub tools: bool,
    /// `tool_choice` is `"auto"`.
    pub tool_choice_auto: bool,
    /// The tool definitions go in `functions`.
    pub functions: bool,
    /// `function_call` is `"auto"`.
    pub function_call_auto: bool,
}

/// The tools API sends `tools` with `tool_choice: "auto"`; the legacy format sends
/// `functions` with `function_call: "auto"`.
pub fn openai_tool_fields(format: ToolFormat) -> (r: OpenAiToolFields)
    ensures
        format == ToolFormat::Tools ==> r == (OpenAiToolFields {
            tools: true,
            tool_choice_auto: true,
            functions: false,
            function_call_auto: false,
        }),
        format == ToolFormat::Functions ==> r == (OpenAiToolFields {
            tools: false,
            tool_choice_auto: false,
            functions: true,
            function_call_auto: true,
        }),
{
    match format {
        ToolFormat::Tools => OpenAiToolFields {
            tools: true,
            tool_choice_auto: true,
            functions: false,
            function_call_auto: false,
        },
        ToolFormat::Functions => OpenAiToolFields {
            tools: false,
            tool_choice_auto: false,
            functions: true,
            function_call_auto: true,
        },
    }
}

/// The output budget of an Anthropic request: the requested one, else 8192.
pub fn anthropic_max_tokens(requested: Option<u32>) -> (r: u32)
    ensures
        r == (match requested {
            Some(n) => n,
            None => 8192,
        }),
{
    match requested {
        Some(n) => n,
        None => 8192,
    }
}

/// An HTTP status outside 200..=299 turns the response body into an API error.
pub fn check_status(status: u16, body: String) -> (r: Result<(), LlmError>)
    ensures
        200 <= status <= 299 ==> r is Ok,
        !(200 <= status <= 299) ==> (r matches Err(LlmError::Api { status: s, message }) && s
            == status && message@ == body@),
{
    if 200 <= status && status <= 299 {
        Ok(())
    } else {
        Err(LlmError::Api { status, message: body })
    }
}

} // verus!
