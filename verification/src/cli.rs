//! The command line: what it accepts and the settings it implies.
use vstd::prelude::*;

use crate::config::LoadOptions;
use crate::llm::{clone_opt_string, copy_string, opt_view};

verus! {

/// Arguments of `codei`.
#[derive(Debug, Clone)]
pub struct Cli {
    /// Optional one-shot prompt (print or agent mode).
    pub prompt: Option<String>,
    /// Print mode: stream the response to stdout.
    pub print: bool,
    /// Continue the most recent session (`--continue`).
    pub continue_session: bool,
    /// Resume a specific session by ID.
    pub resume: Option<String>,
    /// Auto-approve tool calls.
    pub yes: bool,
    /// Auto-approve all tool calls (same as `--yes`).
    pub yolo: bool,
    /// Use the line-based REPL instead of the full-screen UI.
    pub no_tui: bool,
    /// Working directory for project discovery and relative paths.
    pub cwd: Option<String>,
    /// Default LLM model (overrides config).
    pub model: Option<String>,
    /// LLM provider name (overrides config).
    pub provider: Option<String>,
    /// UI language: zh-CN or en-US (overrides config).
    pub language: Option<String>,
    /// Enable debug logging.
    pub verbose: bool,
    pub command: Option<Commands>,
}

/// Subcommands of `codei`.
#[derive(Debug, Clone)]
pub enum Commands {
    /// Manage configuration.
    Config { command: ConfigCommands },
    /// Manage chat sessions.
    Session { command: SessionCommands },
    /// Manage MCP servers.
    Mcp { command: McpCommands },
    /// Start the web UI server.
    Server { host: String, port: u16 },
    /// Print version information.
    Version,
}

/// `codei config ...`
#[derive(Debug, Clone, Copy, PartialEq, Eq, Structural)]
pub enum ConfigCommands {
    /// Show merged configuration.
    Show,
    /// Create the user config file with defaults.
    Init,
}

/// `codei session ...`
#[derive(Debug, Clone)]
pub enum SessionCommands {
    /// List saved sessions.
    List { limit: usize },
    /// Delete a session.
    Delete { id: String },
    /// Export session messages.
    Export { id: String, format: String },
}

/// `codei mcp ...`
#[derive(Debug, Clone)]
pub enum McpCommands {
    /// List configured MCP servers.
    List,
    /// Create the default MCP config file.
    Init,
    /// Add an MCP server: its name, then its command and arguments.
    Add { name: String, command: Vec<String> },
}

impl Cli {
    /// Tool calls are approved without asking when `--yes` or `--yolo` is given.
    pub fn auto_approve(&self) -> (r: bool)
        ensures
            r == (self.yes || self.yolo),
    {
        self.yes || self.yolo
    }

    /// The configuration overrides given on the command line.
    pub fn load_options(&self) -> (r: LoadOptions)
        ensures
            opt_view(r.cwd) == opt_view(self.cwd),
            opt_view(r.model) == opt_view(self.model),
            opt_view(r.provider) == opt_view(self.provider),
            opt_view(r.language) == opt_view(self.language),
    {
        LoadOptions {
            cwd: clone_opt_string(&self.cwd),
            model: clone_opt_string(&self.model),
            provider: clone_opt_string(&self.provider),
            language: clone_opt_string(&self.language),
        }
    }
}

/// How the agent runs when no subcommand is given.
#[derive(Debug, Clone)]
pub enum AgentMode {
    /// Answer one prompt on standard output.
    Print { prompt: String },
    /// The line-based REPL.
    Repl,
    /// The full-screen UI.
    Tui,
}

impl Cli {
    /// The agent's mode: a prompt is answered in print mode; `--print` without a prompt
    /// is an error (`None`); otherwise the REPL with `--no-tui`, else the full-screen UI.
    pub fn agent_mode(&self) -> (r: Option<AgentMode>)
        ensures
            match self.prompt {
                Some(p) => r matches Some(AgentMode::Print { prompt }) && prompt@ == p@,
                None => if self.print {
                    r is None
                } else if self.no_tui {
                    r matches Some(AgentMode::Repl)
                } else {
                    r matches Some(AgentMode::Tui)
                },
            },
    {
        match &self.prompt {
            Some(p) => Some(AgentMode::Print { prompt: p.clone() }),
            None => if self.print {
                None
            } else if self.no_tui {
                Some(AgentMode::Repl)
            } else {
                Some(AgentMode::Tui)
            },
        }
    }

    /// The UI language: the one given on the command line, else the configured one.
    pub fn ui_language(&self, configured: &str) -> (r: String)
        ensures
            r@ == (match opt_view(self.language) {
                Some(l) => l,
                None => configured@,
            }),
    {
        match &self.language {
            Some(l) => l.clone(),
            None => copy_string(configured),
        }
    }
}

/// The log filter used when none is set in the environment: debug output of the
/// agent's crates with `--verbose`, warnings only otherwise.
pub fn default_log_filter(verbose: bool) -> (r: &'static str)
    ensures
        verbose ==> r@ == "codei=info,codei_llm=debug,codei_agent=debug,codei_tools=debug"@,
        !verbose ==> r@ == "warn"@,
{
    if verbose {
        "codei=info,codei_llm=debug,codei_agent=debug,codei_tools=debug"
    } else {
        "warn"
    }
}

/// Session exports are written as JSON lines only; any other format is refused with
/// this message.
pub fn export_format_error(format: &str) -> (r: Option<String>)
    ensures
        format@ == "jsonl"@ ==> r is None,
        format@ != "jsonl"@ ==> (r matches Some(m) && m@ == "unsupported export format: "@
            + format@ + " (only jsonl)"@),
{
    if crate::text::eq_str(&crate::text::chars_of(format), "jsonl") {
        None
    } else {
        let mut v: Vec<char> = Vec::new();
        crate::text::append_str(&mut v, "unsupported export format: ");
        crate::text::append_str(&mut v, format);
        crate::text::append_str(&mut v, " (only jsonl)");
        Some(crate::text::string_from(v.as_slice()))
    }
}

} // verus!
