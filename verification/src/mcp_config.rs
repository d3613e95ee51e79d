//! The MCP server list: its model, its template, and adding a server to it.
use vstd::prelude::*;

use crate::text::{append_str, chars_of, eq_chars, string_from};

verus! {

/// One configured MCP server: a command started with its arguments and environment.
#[derive(Debug, Clone)]
pub struct McpServer {
    pub name: String,
    pub command: String,
    pub args: Vec<String>,
    pub env: Vec<(String, String)>,
}

/// The configured MCP servers.
#[derive(Debug, Clone)]
pub struct McpConfig {
    pub servers: Vec<McpServer>,
}

impl Default for McpConfig {
    fn default() -> (r: Self)
        ensures
            r.servers@.len() == 0,
    {
        McpConfig { servers: Vec::new() }
    }
}

/// The file written by `codei mcp init`.
pub fn default_mcp_template() -> (r: &'static str)
    ensures
        r@ == "# MCP server configuration for CodeI\n# Docs: https://modelcontextprotocol.io/\n\n[[servers]]\nname = \"example\"\ncommand = \"node\"\nargs = [\"/path/to/mcp-server.js\"]\n"@,
{
    "# MCP server configuration for CodeI\n# Docs: https://modelcontextprotocol.io/\n\n[[servers]]\nname = \"example\"\ncommand = \"node\"\nargs = [\"/path/to/mcp-server.js\"]\n"
}

/// Is a server named `name` configured?
pub open spec fn has_server(servers: Seq<McpServer>, name: Seq<char>) -> bool {
    exists|i: int| 0 <= i < servers.len() && (#[trigger] servers[i]).name@ == name
}

/// No two servers share a name.
pub open spec fn unique_names(servers: Seq<McpServer>) -> bool {
    forall|i: int, j: int|
        0 <= i < servers.len() && 0 <= j < servers.len() && i != j ==> (#[trigger] servers[i]).name@
            != (#[trigger] servers[j]).name@
}

pub open spec fn string_views(v: Seq<String>) -> Seq<Seq<char>> {
    v.map_values(|s: String| s@)
}

/// `after` is `before` with one more server at the end, named `name`, running
/// `command[0]` with the rest of `command` as arguments and no extra environment.
pub open spec fn server_added(
    before: Seq<McpServer>,
    after: Seq<McpServer>,
    name: Seq<char>,
    command: Seq<String>,
) -> bool {
    &&& after.len() == before.len() + 1
    &&& after.drop_last() == before
    &&& after.last().name@ == name
    &&& after.last().command@ == command[0]@
    &&& string_views(after.last().args@) == string_views(command.skip(1))
    &&& after.last().env@.len() == 0
}

/// Why a server could not be added.
#[derive(Debug)]
pub enum McpAddError {
    /// No command was given after the name.
    MissingCommand,
    /// A server of this name is already configured.
    AlreadyExists { name: String },
}

impl McpAddError {
    /// The message shown to the user.
    pub fn message(&self) -> (r: String)
        ensures
            r@ == (match self {
                McpAddError::MissingCommand => "usage: codei mcp add <name> -- <command> [args...]"@,
                McpAddError::AlreadyExists { name } => "MCP server `"@ + name@ + "` already exists"@,
            }),
    {
        match self {
            McpAddError::MissingCommand => string_from(
                chars_of("usage: codei mcp add <name> -- <command> [args...]").as_slice(),
            ),
            McpAddError::AlreadyExists { name } => {
                let mut v: Vec<char> = Vec::new();
                append_str(&mut v, "MCP server `");
                append_str(&mut v, name.as_str());
                append_str(&mut v, "` already exists");
                string_from(v.as_slice())
            },
        }
    }
}

fn find_server(servers: &Vec<McpServer>, name: &str) -> (r: bool)
    ensures
        r == has_server(servers@, name@),
{
    let n = chars_of(name);
    let mut i: usize = 0;
    while i < servers.len()
        invariant
            0 <= i <= servers.len(),
            n@ == name@,
            forall|k: int| 0 <= k < i ==> (#[trigger] servers@[k]).name@ != name@,
        decreases servers.len() - i,
    {
        if eq_chars(&chars_of(servers[i].name.as_str()), &n) {
            assert(servers@[i as int].name@ == name@);
            return true;
        }
        i = i + 1;
    }
    false
}

/// Adds a server named `name` that runs `command[0]` with the rest of `command` as
/// its arguments (`codei mcp add <name> -- <command> [args...]`). A missing command
/// and a name already in use are refused, leaving the list unchanged.
pub fn add_mcp_server(config: &mut McpConfig, name: String, command: Vec<String>) -> (r: Result<
    (),
    McpAddError,
>)
    ensures
        command@.len() == 0 ==> (r matches Err(McpAddError::MissingCommand) && final(config).servers@
            == old(config).servers@),
        command@.len() > 0 && has_server(old(config).servers@, name@) ==> (r matches Err(
            McpAddError::AlreadyExists { name: n },
        ) && n@ == name@ && final(config).servers@ == old(config).servers@),
        command@.len() > 0 && !has_server(old(config).servers@, name@) ==> (r is Ok
            && server_added(old(config).servers@, final(config).servers@, name@, command@)),
        unique_names(old(config).servers@) ==> unique_names(final(config).servers@),
{
    if command.len() == 0 {
        return Err(McpAddError::MissingCommand);
    }
    if find_server(&config.servers, name.as_str()) {
        return Err(McpAddError::AlreadyExists { name });
    }
    let mut args: Vec<String> = Vec::new();
    let mut i: usize = 1;
    while i < command.len()
        invariant
            1 <= i <= command.len(),
            string_views(args@) == string_views(command@.subrange(1, i as int)),
        decreases command.len() - i,
    {
        args.push(command[i].clone());
        proof {
            assert(string_views(command@.subrange(1, i + 1)) =~= string_views(
                command@.subrange(1, i as int),
            ).push(command@[i as int]@));
            assert(string_views(args@) =~= string_views(command@.subrange(1, i as int)).push(
                command@[i as int]@,
            ));
        }
        i = i + 1;
    }
    assert(command@.subrange(1, command.len() as int) =~= command@.skip(1));
    let ghost before = config.servers@;
    let first = command[0].clone();
    config.servers.push(McpServer { name, command: first, args, env: Vec::new() });
    proof {
        assert(config.servers@.drop_last() =~= before);
        if unique_names(before) {
            assert forall|i: int, j: int|
                0 <= i < config.servers@.len() && 0 <= j < config.servers@.len() && i != j implies (
            #[trigger] config.servers@[i]).name@ != (#[trigger] config.servers@[j]).name@ by {
                if i < before.len() && j < before.len() {
                    assert(before[i] == config.servers@[i]);
                    assert(before[j] == config.servers@[j]);
                } else if i < before.len() {
                    assert(before[i] == config.servers@[i]);
                } else {
                    assert(before[j] == config.servers@[j]);
                }
            }
        }
    }
    Ok(())
}

} // verus!
