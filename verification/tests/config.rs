use codei::cli::{default_log_filter, export_format_error, AgentMode, Cli, Commands, ConfigCommands};
use codei::config::{
    apply_cli_overrides, default_providers, validate_language, working_dir, ApiKeySource,
    ConfigError, GrepToolConfig, LoadOptions, ProviderConfig, SessionConfig, SessionStorage,
    ToolsConfig, UiConfig, UiTheme,
};
use codei::mcp_config::{add_mcp_server, default_mcp_template, McpAddError, McpConfig};
use codei::paths::{
    app_identity, config_dir_or_default, debug_log_path, discover_project_root, expand_tilde,
    is_project_root, log_dir_from, mcp_config_path, project_config_path, user_config_dir,
    user_config_path, user_log_dir, RootProbe,
};
use codei::plugins::{run_hooks, HookConfig, HookEvent, PluginsConfig};
use codei::sdk::{session_choice, CodeiClient, CodeiClientBuilder, SessionChoice};
use codei::skill_index::merge_skills;
use codei::skills::{
    find_skill, format_skills_for_prompt, parse_skill_meta, skill_body, skill_from_file_text, Skill,
    SkillSource,
};
use std::cell::RefCell;

fn provider(api_key: Option<&str>, api_key_env: Option<&str>) -> ProviderConfig {
    ProviderConfig {
        api_key: api_key.map(|s| s.to_string()),
        api_key_env: api_key_env.map(|s| s.to_string()),
        base_url: None,
        api_style: None,
        tool_format: None,
    }
}

fn skill(name: &str, path: &str, source: SkillSource) -> Skill {
    Skill {
        name: name.into(),
        description: format!("{name} skill"),
        path: path.into(),
        source,
    }
}

fn cli() -> Cli {
    Cli {
        prompt: None,
        print: false,
        continue_session: false,
        resume: None,
        yes: false,
        yolo: false,
        no_tui: false,
        cwd: None,
        model: None,
        provider: None,
        language: None,
        verbose: false,
        command: None,
    }
}

#[test]
fn resolve_api_key_prefers_direct_config() {
    let cfg = ProviderConfig {
        api_key: Some("sk-direct".into()),
        api_key_env: Some("OPENAI_API_KEY".into()),
        base_url: None,
        api_style: None,
        tool_format: None,
    };
    assert_eq!(cfg.api_key_source(), ApiKeySource::Direct("sk-direct".into()));
    assert_eq!(cfg.resolve_api_key(None).unwrap(), "sk-direct");
}

#[test]
fn blank_api_key_falls_back_to_env() {
    let cfg = ProviderConfig {
        api_key: Some("   ".into()),
        api_key_env: Some("NONEXISTENT_CODEI_API_KEY".into()),
        base_url: None,
        api_style: None,
        tool_format: None,
    };
    assert_eq!(
        cfg.api_key_source(),
        ApiKeySource::Env("NONEXISTENT_CODEI_API_KEY".into())
    );
    let err = cfg.resolve_api_key(None).unwrap_err();
    assert!(matches!(
        err,
        ConfigError::MissingApiKey {
            env: ref name
        } if name == "NONEXISTENT_CODEI_API_KEY"
    ));
}

#[test]
fn api_key_comes_from_environment_value() {
    let cfg = provider(Some("  sk-x  "), None);
    assert_eq!(cfg.resolve_api_key(Some("env".into())).unwrap(), "sk-x");
    let cfg = provider(None, Some(""));
    assert_eq!(cfg.api_key_source(), ApiKeySource::Env("OPENAI_API_KEY".into()));
    assert_eq!(cfg.resolve_api_key(Some("from-env".into())).unwrap(), "from-env");
}

#[test]
fn only_supported_languages_validate() {
    assert!(validate_language("zh-CN").is_ok());
    assert!(validate_language("en-US").is_ok());
    assert!(matches!(
        validate_language("de-DE"),
        Err(ConfigError::InvalidLanguage { language }) if language == "de-DE"
    ));
}

#[test]
fn cli_values_override_configuration() {
    let mut model = "gpt-4o".to_string();
    let mut provider_name = "openai".to_string();
    let mut language = "zh-CN".to_string();
    let opts = LoadOptions {
        cwd: None,
        model: Some("cli-model".into()),
        provider: None,
        language: Some("en-US".into()),
    };
    apply_cli_overrides(&mut model, &mut provider_name, &mut language, &opts);
    assert_eq!(model, "cli-model");
    assert_eq!(provider_name, "openai");
    assert_eq!(language, "en-US");
}

#[test]
fn working_dir_prefers_the_option() {
    let mut opts = LoadOptions::default();
    assert_eq!(working_dir(&opts, Some("/cur".into())), "/cur");
    assert_eq!(working_dir(&opts, None), ".");
    opts.cwd = Some("/given".into());
    assert_eq!(working_dir(&opts, Some("/cur".into())), "/given");
}

#[test]
fn built_in_defaults() {
    let providers = default_providers();
    let names: Vec<&str> = providers.iter().map(|p| p.0.as_str()).collect();
    assert_eq!(names, vec!["openai", "anthropic", "custom"]);
    assert_eq!(providers[2].1.base_url.as_deref(), Some("http://localhost:8080/v1"));
    let tools = ToolsConfig::default();
    assert_eq!(tools.shell.timeout_secs, 120);
    assert!(!tools.web_search.enabled);
    assert_eq!(GrepToolConfig::default().max_files, 5000);
    assert_eq!(UiConfig::default().theme, UiTheme::Auto);
    let session = SessionConfig::default();
    assert_eq!(session.storage, SessionStorage::Sqlite);
    assert_eq!(session.dir, "~/.local/share/codei/sessions");
}

#[test]
fn expand_tilde_uses_home() {
    assert_eq!(
        expand_tilde("~/sessions", Some("/home/u")),
        std::path::PathBuf::from("/home/u").join("sessions").to_string_lossy()
    );
    assert_eq!(expand_tilde("~/sessions", None), "~/sessions");
    assert_eq!(expand_tilde("/abs/x", Some("/home/u")), "/abs/x");
}

#[test]
fn config_paths() {
    assert_eq!(project_config_path("/proj"), "/proj/.codei/config.toml");
    assert_eq!(
        mcp_config_path(Some("/home/u")),
        "/home/u/.config/codei/mcp.toml"
    );
}

#[test]
fn user_files_are_named_inside_their_directories() {
    let config = std::path::PathBuf::from(user_config_path());
    assert_eq!(config.file_name().and_then(|n| n.to_str()), Some("config.toml"));
    let log = std::path::PathBuf::from(debug_log_path());
    assert_eq!(log.file_name().and_then(|n| n.to_str()), Some("debug.log"));
    assert_eq!(
        log.parent().and_then(|p| p.file_name()).and_then(|n| n.to_str()),
        Some("logs")
    );
    assert_eq!(
        user_config_path(),
        std::path::PathBuf::from(user_config_dir()).join("config.toml").to_string_lossy()
    );
    assert_eq!(
        debug_log_path(),
        std::path::PathBuf::from(user_log_dir()).join("debug.log").to_string_lossy()
    );
}

#[test]
fn per_user_directories_fall_back_when_the_platform_has_none() {
    assert_eq!(app_identity(), ("com", "codei", "codei"));
    assert_eq!(config_dir_or_default(None), ".config/codei");
    assert_eq!(
        config_dir_or_default(Some("/home/u/.config/codei".to_string())),
        "/home/u/.config/codei"
    );
    assert_eq!(log_dir_from(None), ".local/share/codei/logs");
    assert_eq!(
        log_dir_from(Some("/home/u/.local/share/codei".to_string())),
        "/home/u/.local/share/codei/logs"
    );
    assert_eq!(log_dir_from(Some("/d/".to_string())), "/d/logs");
}

#[test]
fn project_root_is_nearest_marked_directory() {
    let none = RootProbe {
        has_git: false,
        has_codei_dir: false,
        has_agents_md: false,
    };
    let git = RootProbe {
        has_git: true,
        ..none
    };
    let agents = RootProbe {
        has_agents_md: true,
        ..none
    };
    assert!(!is_project_root(&none));
    assert!(is_project_root(&agents));
    let candidates = vec![
        ("/a/b/c".to_string(), none),
        ("/a/b".to_string(), agents),
        ("/a".to_string(), git),
    ];
    assert_eq!(discover_project_root(&candidates).as_deref(), Some("/a/b"));
    assert_eq!(discover_project_root(&vec![("/x".to_string(), none)]), None);
}

#[test]
fn mcp_servers_are_added_once() {
    let mut config = McpConfig::default();
    add_mcp_server(
        &mut config,
        "fs".into(),
        vec!["node".into(), "server.js".into(), "--flag".into()],
    )
    .unwrap();
    assert_eq!(config.servers.len(), 1);
    assert_eq!(config.servers[0].command, "node");
    assert_eq!(config.servers[0].args, vec!["server.js", "--flag"]);
    let dup = add_mcp_server(&mut config, "fs".into(), vec!["python".into()]).unwrap_err();
    assert!(matches!(dup, McpAddError::AlreadyExists { ref name } if name == "fs"));
    assert_eq!(dup.message(), "MCP server `fs` already exists");
    let missing = add_mcp_server(&mut config, "other".into(), vec![]).unwrap_err();
    assert_eq!(
        missing.message(),
        "usage: codei mcp add <name> -- <command> [args...]"
    );
    assert_eq!(config.servers.len(), 1);
    assert!(default_mcp_template().contains("[[servers]]"));
}

#[test]
fn hooks_run_for_their_event_until_one_fails() {
    let config = PluginsConfig {
        hooks: vec![
            HookConfig {
                event: HookEvent::BeforeTurn,
                command: "one".into(),
            },
            HookConfig {
                event: HookEvent::AfterTurn,
                command: "after".into(),
            },
            HookConfig {
                event: HookEvent::BeforeTurn,
                command: "two".into(),
            },
            HookConfig {
                event: HookEvent::BeforeTurn,
                command: "three".into(),
            },
        ],
    };
    let ran = RefCell::new(Vec::new());
    let result = run_hooks(&config, HookEvent::BeforeTurn, |hook: &HookConfig| {
        ran.borrow_mut().push(hook.command.clone());
        if hook.command == "two" {
            Err(ConfigError::HookFailed {
                command: hook.command.clone(),
                code: Some(1),
            })
        } else {
            Ok(())
        }
    });
    assert!(matches!(result, Err(ConfigError::HookFailed { ref command, code: Some(1) }) if command == "two"));
    assert_eq!(*ran.borrow(), vec!["one", "two"]);
    assert!(run_hooks(&PluginsConfig::default(), HookEvent::AfterTurn, |_h: &HookConfig| Ok(())).is_ok());
}

#[test]
fn parses_skill_frontmatter() {
    let raw = "---\nname: pdf-helper\ndescription: Process PDF files.\n---\n\n# PDF\nDo work.";
    let skill = skill_from_file_text(raw, "/tmp/.codei/skills/pdf-helper/SKILL.md", SkillSource::Project);
    let skills = merge_skills(vec![skill]);
    assert_eq!(skills.len(), 1);
    assert_eq!(skills[0].name, "pdf-helper");
    assert_eq!(skills[0].description, "Process PDF files.");
    assert_eq!(skill_body(raw), "# PDF\nDo work.");
}

#[test]
fn skill_without_frontmatter_uses_directory_and_first_line() {
    let (name, description) = parse_skill_meta("\n# Title\nbody", "my-dir");
    assert_eq!(name, "my-dir");
    assert_eq!(description, "body");
    let (_, fallback) = parse_skill_meta("# Only a title", "d");
    assert_eq!(fallback, "Specialized agent instructions.");
}

#[test]
fn find_skill_matches_name_case_insensitively() {
    let skill = Skill {
        name: "PDF-Helper".into(),
        description: "x".into(),
        path: "/tmp/pdf-helper/SKILL.md".into(),
        source: SkillSource::Project,
    };
    assert!(find_skill(&[skill], "pdf-helper").is_some());
}

#[test]
fn find_skill_by_directory_name() {
    let skills = [skill("renamed", "/s/pdf-tools/SKILL.md", SkillSource::User)];
    assert_eq!(find_skill(&skills, "PDF-TOOLS").map(|s| s.name.as_str()), Some("renamed"));
    assert!(find_skill(&skills, "   ").is_none());
}

#[test]
fn find_skill_prefers_a_name_over_an_earlier_directory() {
    let skills = [
        skill("first", "/s/deploy/SKILL.md", SkillSource::User),
        skill("Deploy", "/s/other/SKILL.md", SkillSource::Project),
    ];
    assert_eq!(find_skill(&skills, " deploy ").map(|s| s.name.as_str()), Some("Deploy"));
    assert_eq!(find_skill(&skills, "OTHER").map(|s| s.name.as_str()), Some("Deploy"));
    assert!(find_skill(&skills, "nothing").is_none());
}

#[test]
fn later_skill_sources_override_earlier_ones() {
    let found = vec![
        skill("zeta", "/u/zeta/SKILL.md", SkillSource::CursorUser),
        skill("alpha", "/u/alpha/SKILL.md", SkillSource::User),
        skill("zeta", "/p/zeta/SKILL.md", SkillSource::Project),
    ];
    let merged = merge_skills(found);
    let names: Vec<&str> = merged.iter().map(|s| s.name.as_str()).collect();
    assert_eq!(names, vec!["alpha", "zeta"]);
    assert_eq!(merged[1].source, SkillSource::Project);
    assert_eq!(merged[1].path, "/p/zeta/SKILL.md");
}

#[test]
fn skills_prompt_lists_each_skill() {
    assert_eq!(format_skills_for_prompt(&[]), "");
    let text = format_skills_for_prompt(&[skill("a", "/a/SKILL.md", SkillSource::User)]);
    assert!(text.starts_with("## Available skills\n"));
    assert!(text.ends_with("\n\n- **a**: a skill"));
}

#[test]
fn cli_settings() {
    let mut c = cli();
    assert!(!c.auto_approve());
    c.yolo = true;
    assert!(c.auto_approve());
    c.model = Some("m".into());
    c.cwd = Some("/w".into());
    let opts = c.load_options();
    assert_eq!(opts.model.as_deref(), Some("m"));
    assert_eq!(opts.cwd.as_deref(), Some("/w"));
    assert_eq!(opts.provider, None);
    assert!(matches!(c.agent_mode(), Some(AgentMode::Tui)));
    c.no_tui = true;
    assert!(matches!(c.agent_mode(), Some(AgentMode::Repl)));
    c.print = true;
    assert!(c.agent_mode().is_none());
    c.prompt = Some("hi".into());
    assert!(matches!(c.agent_mode(), Some(AgentMode::Print { prompt }) if prompt == "hi"));
    assert_eq!(c.ui_language("zh-CN"), "zh-CN");
    c.language = Some("en-US".into());
    assert_eq!(c.ui_language("zh-CN"), "en-US");
    c.command = Some(Commands::Config {
        command: ConfigCommands::Show,
    });
    assert_eq!(default_log_filter(false), "warn");
    assert!(default_log_filter(true).starts_with("codei=info"));
}

#[test]
fn session_export_accepts_jsonl_only() {
    assert_eq!(export_format_error("jsonl"), None);
    assert_eq!(
        export_format_error("csv").as_deref(),
        Some("unsupported export format: csv (only jsonl)")
    );
}

#[test]
fn client_builder_collects_overrides() {
    let b = CodeiClient::<()>::builder();
    assert!(b.auto_approve);
    let b = CodeiClientBuilder::new()
        .cwd("/w")
        .model("m")
        .provider("p")
        .auto_approve(false);
    assert!(!b.auto_approve);
    let opts = b.load_options();
    assert_eq!(opts.cwd.as_deref(), Some("/w"));
    assert_eq!(opts.model.as_deref(), Some("m"));
    assert_eq!(opts.provider.as_deref(), Some("p"));
    assert_eq!(opts.language, None);
}

#[test]
fn resume_wins_over_continue() {
    assert_eq!(session_choice(Some("abc"), true), SessionChoice::Resume("abc".into()));
    assert_eq!(session_choice(None, true), SessionChoice::ContinueLatest);
    assert_eq!(session_choice(None, false), SessionChoice::Fresh);
}
