//! Where configuration, logs and projects live on disk.
use vstd::prelude::*;

use directories::ProjectDirs;

use crate::llm::{copy_string, opt_view};
use crate::text::{chars_of, slice_chars, starts_with, starts_with_str, string_from};

verus! {

/// `directories::ProjectDirs`, the per-user directories of an application.
#[verifier::external_type_specification]
#[verifier::external_body]
pub struct ExProjectDirs(ProjectDirs);

/// The per-user directories of an application (`ProjectDirs::from`). They come from the
/// user's environment (home directory, XDG variables), so nothing is promised about
/// them, not even that they exist.
#[verifier::external_body]
fn project_dirs_from(qualifier: &str, organization: &str, application: &str) -> Option<
    ProjectDirs,
> {
    ProjectDirs::from(qualifier, organization, application)
}

/// The configuration directory of an application (`ProjectDirs::config_dir`), as text.
#[verifier::external_body]
fn config_dir_of(dirs: &ProjectDirs) -> String {
    dirs.config_dir().to_string_lossy().into_owned()
}

/// The local data directory of an application (`ProjectDirs::data_local_dir`), as text.
#[verifier::external_body]
fn data_local_dir_of(dirs: &ProjectDirs) -> String {
    dirs.data_local_dir().to_string_lossy().into_owned()
}

/// `rel` joined onto `base` as `Path::join` does it on Unix: an absolute `rel` (one that
/// starts with `/`) replaces `base`; otherwise `rel` is appended, with a `/` between the
/// two unless `base` is empty or already ends with `/`.
pub open spec fn path_join(base: Seq<char>, rel: Seq<char>) -> Seq<char> {
    if rel.len() > 0 && rel[0] == '/' {
        rel
    } else if base.len() == 0 || base.last() == '/' {
        base + rel
    } else {
        base + seq!['/'] + rel
    }
}

/// `rel` joined onto `base` (`std::path::Path::join`, then `to_string_lossy`, which
/// loses nothing on text that came from `&str`). The contract is the Unix behaviour of
/// `PathBuf::push`, the targets this library is built for.
#[verifier::external_body]
pub(crate) fn join_path(base: &str, rel: &str) -> (r: String)
    ensures
        r@ == path_join(base@, rel@),
{
    std::path::Path::new(base).join(rel).to_string_lossy().into_owned()
}

/// The qualifier, organization and application name under which the per-user
/// directories are looked up.
pub fn app_identity() -> (r: (&'static str, &'static str, &'static str))
    ensures
        r.0@ == "com"@,
        r.1@ == "codei"@,
        r.2@ == "codei"@,
{
    ("com", "codei", "codei")
}

/// The configuration directory, given what the platform lookup found.
pub open spec fn config_dir_spec(found: Option<Seq<char>>) -> Seq<char> {
    match found {
        Some(d) => d,
        None => ".config/codei"@,
    }
}

/// The log directory, given the local data directory the platform lookup found.
pub open spec fn log_dir_spec(data: Option<Seq<char>>) -> Seq<char> {
    match data {
        Some(d) => path_join(d, "logs"@),
        None => ".local/share/codei/logs"@,
    }
}

/// The configuration directory: the one the platform gave, or `.config/codei` where it
/// gave none.
pub fn config_dir_or_default(found: Option<String>) -> (r: String)
    ensures
        r@ == config_dir_spec(opt_view(found)),
{
    match found {
        Some(d) => d,
        None => copy_string(".config/codei"),
    }
}

/// The log directory: `logs` under the local data directory the platform gave, or
/// `.local/share/codei/logs` where it gave none.
pub fn log_dir_from(data: Option<String>) -> (r: String)
    ensures
        r@ == log_dir_spec(opt_view(data)),
{
    match data {
        Some(d) => join_path(d.as_str(), "logs"),
        None => copy_string(".local/share/codei/logs"),
    }
}

/// The user-level configuration directory (`~/.config/codei` on Linux), or
/// `.config/codei` where the platform has none. Which of the two, and where the first
/// lies, depends on the user's environment.
pub fn user_config_dir() -> (r: String)
    ensures
        exists|found: Option<Seq<char>>| r@ == config_dir_spec(found),
{
    let (qualifier, organization, application) = app_identity();
    let found = match project_dirs_from(qualifier, organization, application) {
        Some(dirs) => Some(config_dir_of(&dirs)),
        None => None,
    };
    let ghost f = opt_view(found);
    let r = config_dir_or_default(found);
    assert(r@ == config_dir_spec(f));
    r
}

/// The directory of debug and runtime logs (`~/.local/share/codei/logs` on Linux), or
/// `.local/share/codei/logs` where the platform has none. Which of the two, and where
/// the first lies, depends on the user's environment.
pub fn user_log_dir() -> (r: String)
    ensures
        exists|data: Option<Seq<char>>| r@ == log_dir_spec(data),
{
    let (qualifier, organization, application) = app_identity();
    let data = match project_dirs_from(qualifier, organization, application) {
        Some(dirs) => Some(data_local_dir_of(&dirs)),
        None => None,
    };
    let ghost f = opt_view(data);
    let r = log_dir_from(data);
    assert(r@ == log_dir_spec(f));
    r
}

/// The append-only debug log written with `--verbose`: `debug.log` in the log directory.
pub fn debug_log_path() -> (r: String)
    ensures
        exists|data: Option<Seq<char>>| r@ == path_join(log_dir_spec(data), "debug.log"@),
{
    let dir = user_log_dir();
    let ghost data = choose|data: Option<Seq<char>>| dir@ == log_dir_spec(data);
    let r = join_path(dir.as_str(), "debug.log");
    assert(r@ == path_join(log_dir_spec(data), "debug.log"@));
    r
}

/// The user-level config file: `config.toml` in the configuration directory.
pub fn user_config_path() -> (r: String)
    ensures
        exists|found: Option<Seq<char>>| r@ == path_join(config_dir_spec(found), "config.toml"@),
{
    let dir = user_config_dir();
    let ghost found = choose|found: Option<Seq<char>>| dir@ == config_dir_spec(found);
    let r = join_path(dir.as_str(), "config.toml");
    assert(r@ == path_join(config_dir_spec(found), "config.toml"@));
    r
}

/// The project-level config file, `.codei/config.toml` under the project root.
pub fn project_config_path(project_root: &str) -> (r: String)
    ensures
        r@ == path_join(path_join(project_root@, ".codei"@), "config.toml"@),
{
    let dir = join_path(project_root, ".codei");
    join_path(dir.as_str(), "config.toml")
}

/// What was found in a directory while looking for a project root.
#[derive(Debug, Clone, Copy, PartialEq, Eq, Structural)]
pub struct RootProbe {
    /// `.git` exists.
    pub has_git: bool,
    /// `.codei` is a directory.
    pub has_codei_dir: bool,
    /// `AGENTS.md` is a file.
    pub has_agents_md: bool,
}

pub open spec fn is_root(p: RootProbe) -> bool {
    p.has_git || p.has_codei_dir || p.has_agents_md
}

/// A directory is a project root when it holds any of the project markers.
pub fn is_project_root(probe: &RootProbe) -> (r: bool)
    ensures
        r == is_root(*probe),
{
    probe.has_git || probe.has_codei_dir || probe.has_agents_md
}

/// Position of the first candidate, from `from` on, that is a project root.
pub open spec fn first_root(candidates: Seq<(String, RootProbe)>, from: int) -> Option<int>
    decreases candidates.len() - from,
{
    if from < 0 || from >= candidates.len() {
        None
    } else if is_root(candidates[from].1) {
        Some(from)
    } else {
        first_root(candidates, from + 1)
    }
}

/// The project root seen from a directory: `candidates` are that directory and then
/// each of its ancestors in turn, each with what it holds; the nearest one that holds
/// a project marker is the root.
pub fn discover_project_root(candidates: &Vec<(String, RootProbe)>) -> (r: Option<String>)
    ensures
        match first_root(candidates@, 0) {
            Some(i) => r matches Some(p) && p@ == candidates@[i].0@,
            None => r is None,
        },
{
    let mut i: usize = 0;
    while i < candidates.len()
        invariant
            0 <= i <= candidates.len(),
            first_root(candidates@, 0) == first_root(candidates@, i as int),
        decreases candidates.len() - i,
    {
        if is_project_root(&candidates[i].1) {
            return Some(candidates[i].0.clone());
        }
        i = i + 1;
    }
    None
}

/// A path with a leading `~/` resolved against the home directory, when one is known.
pub open spec fn expand_tilde_spec(path: Seq<char>, home: Option<Seq<char>>) -> Seq<char> {
    if starts_with(path, "~/"@) && home is Some {
        path_join(home->0, path.skip(2))
    } else {
        path
    }
}

/// Expands a leading `~/` using the home directory `home` (the `HOME` variable).
pub fn expand_tilde(path: &str, home: Option<&str>) -> (r: String)
    ensures
        r@ == expand_tilde_spec(
            path@,
            match home {
                Some(h) => Some(h@),
                None => None,
            },
        ),
{
    let p = chars_of(path);
    if starts_with_str(&p, "~/") {
        proof {
            reveal_strlit("~/");
        }
        if let Some(h) = home {
            let rest = slice_chars(&p, 2, p.len());
            assert(rest@ =~= path@.skip(2));
            let rest_s = string_from(rest.as_slice());
            return join_path(h, rest_s.as_str());
        }
    }
    copy_string(path)
}

/// The MCP server configuration file, `~/.config/codei/mcp.toml`.
pub fn mcp_config_path(home: Option<&str>) -> (r: String)
    ensures
        r@ == expand_tilde_spec(
            "~/.config/codei/mcp.toml"@,
            match home {
                Some(h) => Some(h@),
                None => None,
            },
        ),
{
    expand_tilde("~/.config/codei/mcp.toml", home)
}

} // verus!
