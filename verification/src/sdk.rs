//! The programmatic client: its builder, what a run returns, and how a session is
//! chosen when one starts.
use vstd::prelude::*;

use crate::agent::TurnOutcome;
use crate::config::LoadOptions;
use crate::llm::{clone_opt_string, copy_string, opt_view};

verus! {

/// Result of a single agent run.
#[derive(Debug, Clone)]
pub struct RunResult {
    pub session_id: String,
    pub outcome: TurnOutcome,
}

/// Builder of a client: the overrides it loads its configuration with, and whether
/// tool calls are approved without asking.
#[derive(Debug, Clone)]
pub struct CodeiClientBuilder {
    pub cwd: Option<String>,
    pub model: Option<String>,
    pub provider: Option<String>,
    pub auto_approve: bool,
}

impl Default for CodeiClientBuilder {
    /// No overrides; tool calls approved.
    fn default() -> (r: Self)
        ensures
            r.cwd is None,
            r.model is None,
            r.provider is None,
            r.auto_approve,
    {
        CodeiClientBuilder { cwd: None, model: None, provider: None, auto_approve: true }
    }
}

impl CodeiClientBuilder {
    pub fn new() -> (r: Self)
        ensures
            r.cwd is None,
            r.model is None,
            r.provider is None,
            r.auto_approve,
    {
        Self::default()
    }

    /// Sets the working directory.
    pub fn cwd(self, cwd: &str) -> (r: Self)
        ensures
            opt_view(r.cwd) == Some(cwd@),
            r.model == self.model,
            r.provider == self.provider,
            r.auto_approve == self.auto_approve,
    {
        CodeiClientBuilder { cwd: Some(copy_string(cwd)), ..self }
    }

    /// Sets the model.
    pub fn model(self, model: &str) -> (r: Self)
        ensures
            opt_view(r.model) == Some(model@),
            r.cwd == self.cwd,
            r.provider == self.provider,
            r.auto_approve == self.auto_approve,
    {
        CodeiClientBuilder { model: Some(copy_string(model)), ..self }
    }

    /// Sets the provider.
    pub fn provider(self, provider: &str) -> (r: Self)
        ensures
            opt_view(r.provider) == Some(provider@),
            r.cwd == self.cwd,
            r.model == self.model,
            r.auto_approve == self.auto_approve,
    {
        CodeiClientBuilder { provider: Some(copy_string(provider)), ..self }
    }

    /// Sets whether tool calls are approved without asking.
    pub fn auto_approve(self, yes: bool) -> (r: Self)
        ensures
            r.auto_approve == yes,
            r.cwd == self.cwd,
            r.model == self.model,
            r.provider == self.provider,
    {
        CodeiClientBuilder { auto_approve: yes, ..self }
    }

    /// The options the client loads its configuration with: the builder's overrides,
    /// and the configured language.
    pub fn load_options(&self) -> (r: LoadOptions)
        ensures
            opt_view(r.cwd) == opt_view(self.cwd),
            opt_view(r.model) == opt_view(self.model),
            opt_view(r.provider) == opt_view(self.provider),
            r.language is None,
    {
        LoadOptions {
            cwd: clone_opt_string(&self.cwd),
            model: clone_opt_string(&self.model),
            provider: clone_opt_string(&self.provider),
            language: None,
        }
    }
}

/// A client over a launched runtime `L` (configuration, provider, session and store).
#[derive(Debug)]
pub struct CodeiClient<L> {
    pub launch: L,
    pub auto_approve: bool,
}

impl<L> CodeiClient<L> {
    /// A builder with no overrides that approves tool calls.
    pub fn builder() -> (r: CodeiClientBuilder)
        ensures
            r.cwd is None,
            r.model is None,
            r.provider is None,
            r.auto_approve,
    {
        CodeiClientBuilder::new()
    }
}

/// Which session a run works in.
#[derive(Debug, Clone, PartialEq, Eq)]
pub enum SessionChoice {
    /// The stored session with this ID.
    Resume(String),
    /// The most recent stored session, or a new one when there is none.
    ContinueLatest,
    /// A new session.
    Fresh,
}

/// An explicit session ID wins over continuing the latest session.
pub fn session_choice(resume: Option<&str>, continue_latest: bool) -> (r: SessionChoice)
    ensures
        match resume {
            Some(id) => r matches SessionChoice::Resume(s) && s@ == id@,
            None => if continue_latest {
                r is ContinueLatest
            } else {
                r is Fresh
            },
        },
{
    match resume {
        Some(id) => SessionChoice::Resume(copy_string(id)),
        None => if continue_latest {
            SessionChoice::ContinueLatest
        } else {
            SessionChoice::Fresh
        },
    }
}

} // verus!
