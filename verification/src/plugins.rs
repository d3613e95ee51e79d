//! Project hooks: shell commands run before and after each agent turn.
use vstd::prelude::*;

use crate::config::ConfigError;

verus! {

/// When a hook runs.
#[derive(Debug, Clone, Copy, PartialEq, Eq, Structural)]
pub enum HookEvent {
    BeforeTurn,
    AfterTurn,
}

/// A hook: a shell command bound to an event.
#[derive(Debug, Clone)]
pub struct HookConfig {
    pub event: HookEvent,
    pub command: String,
}

/// The hooks of a project (`.codei/hooks.toml`).
#[derive(Debug, Clone)]
pub struct PluginsConfig {
    pub hooks: Vec<HookConfig>,
}

impl Default for PluginsConfig {
    fn default() -> (r: Self)
        ensures
            r.hooks@.len() == 0,
    {
        PluginsConfig { hooks: Vec::new() }
    }
}

/// The hook at position `i` is one of those bound to `event`.
pub open spec fn hook_runs(config: PluginsConfig, event: HookEvent, i: int) -> bool {
    0 <= i < config.hooks@.len() && config.hooks@[i].event == event
}

/// Runs the hooks bound to `event`, in their configured order, with `run_hook`
/// (which starts the command in the project's directory). The first failure stops
/// the run and is returned; hooks of the other event are not run.
pub fn run_hooks<F: Fn(&HookConfig) -> Result<(), ConfigError>>(
    config: &PluginsConfig,
    event: HookEvent,
    run_hook: F,
) -> (r: Result<(), ConfigError>)
    requires
        forall|i: int| #[trigger]
            hook_runs(*config, event, i) ==> call_requires(run_hook, (&config.hooks@[i],)),
    ensures
        r is Ok ==> forall|i: int| #[trigger]
            hook_runs(*config, event, i) ==> call_ensures(run_hook, (&config.hooks@[i],), Ok(())),
        r is Err ==> exists|i: int| #[trigger]
            hook_runs(*config, event, i) && call_ensures(run_hook, (&config.hooks@[i],), r)
                && forall|j: int|
                0 <= j < i && #[trigger] hook_runs(*config, event, j) ==> call_ensures(
                    run_hook,
                    (&config.hooks@[j],),
                    Ok(()),
                ),
{
    let mut i: usize = 0;
    while i < config.hooks.len()
        invariant
            0 <= i <= config.hooks.len(),
            forall|k: int| #[trigger]
                hook_runs(*config, event, k) ==> call_requires(run_hook, (&config.hooks@[k],)),
            forall|j: int|
                0 <= j < i && #[trigger] hook_runs(*config, event, j) ==> call_ensures(
                    run_hook,
                    (&config.hooks@[j],),
                    Ok(()),
                ),
        decreases config.hooks.len() - i,
    {
        if config.hooks[i].event == event {
            assert(hook_runs(*config, event, i as int));
            let hook = &config.hooks[i];
            let res = run_hook(hook);
            if res.is_err() {
                return res;
            }
            assert(res->Ok_0 == ());
        }
        i = i + 1;
    }
    Ok(())
}

} // verus!
