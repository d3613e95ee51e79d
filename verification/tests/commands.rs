use codei::commands::{
    execute_command, model_after_command, parse_input, provider_after_command, CommandOutcome,
    CommandTexts, Input, SessionEffect, SlashCommand, TokenStats, COMPACT_KEEP,
};
use codei::completions::{filter_slash_hints, slash_hints};

fn texts() -> CommandTexts {
    CommandTexts {
        help_lines: vec!["Commands:".to_string(), "/help  show help".to_string()],
        tokens_none: "No tokens yet.".to_string(),
        tokens_report: "in={input} out={output} total={total} last={last_input}/{last_output}"
            .to_string(),
        unknown_command: "Unknown command: {command}".to_string(),
    }
}

#[test]
fn lists_all_on_slash_only() {
    assert_eq!(filter_slash_hints("/").len(), slash_hints().len());
}

#[test]
fn filters_by_prefix() {
    let hints = filter_slash_hints("/hel");
    assert!(hints.iter().any(|h| h.command == "/help"));
    assert!(!hints.iter().any(|h| h.command == "/clear"));
}

#[test]
fn filters_session_subcommands() {
    let hints = filter_slash_hints("/session l");
    assert!(hints.iter().any(|h| h.command == "/session list"));
}

#[test]
fn hints_ignore_case_and_surrounding_space() {
    let hints = filter_slash_hints("  /COPY ");
    let commands: Vec<&str> = hints.iter().map(|h| h.command).collect();
    assert_eq!(commands, vec!["/copy", "/copy last"]);
    assert_eq!(hints[1].description_key, "slash_copy_last_desc");
}

#[test]
fn no_hints_without_leading_slash() {
    assert!(filter_slash_hints("help").is_empty());
    assert!(filter_slash_hints("").is_empty());
    assert!(filter_slash_hints("/zzz").is_empty());
}

#[test]
fn parses_user_message() {
    assert!(matches!(parse_input("hello"), Input::UserMessage(s) if s == "hello"));
}

#[test]
fn parses_model_command() {
    assert!(matches!(
        parse_input("/model gpt-4o-mini"),
        Input::SlashCommand(SlashCommand::Model(s)) if s == "gpt-4o-mini"
    ));
}

#[test]
fn parses_session_list() {
    assert!(matches!(
        parse_input("/session list"),
        Input::SlashCommand(SlashCommand::SessionList)
    ));
}

#[test]
fn parses_copy_commands() {
    assert!(matches!(
        parse_input("/copy"),
        Input::SlashCommand(SlashCommand::Copy)
    ));
    assert!(matches!(
        parse_input("/copy last"),
        Input::SlashCommand(SlashCommand::CopyLast)
    ));
}

#[test]
fn parses_language_command() {
    assert!(matches!(
        parse_input("/language zh-CN"),
        Input::SlashCommand(SlashCommand::Language(s)) if s == "zh-CN"
    ));
    assert!(matches!(
        parse_input("/lang en-US"),
        Input::SlashCommand(SlashCommand::Language(s)) if s == "en-US"
    ));
}

#[test]
fn parses_tokens_command() {
    assert!(matches!(
        parse_input("/tokens"),
        Input::SlashCommand(SlashCommand::Tokens)
    ));
}

#[test]
fn unknown_command_keeps_its_text() {
    assert!(matches!(
        parse_input("/frobnicate now"),
        Input::SlashCommand(SlashCommand::Unknown(s)) if s == "/frobnicate now"
    ));
}

#[test]
fn clear_and_compact_change_the_session() {
    let t = texts();
    let (outcome, effect) = execute_command(SlashCommand::Clear, "m", None, &t);
    assert!(matches!(outcome, CommandOutcome::Cleared));
    assert_eq!(effect, SessionEffect::Clear);
    let (outcome, effect) = execute_command(SlashCommand::Compact, "m", None, &t);
    assert!(matches!(outcome, CommandOutcome::Compacted));
    assert_eq!(effect, SessionEffect::Compact(COMPACT_KEEP));
    assert_eq!(COMPACT_KEEP, 12);
    let (_, effect) = execute_command(SlashCommand::Exit, "m", None, &t);
    assert_eq!(effect, SessionEffect::Keep);
}

#[test]
fn tokens_report_fills_the_template() {
    let t = texts();
    let stats = TokenStats {
        session_input: 10,
        session_output: 5,
        last_input: 3,
        last_output: 2,
    };
    let (outcome, _) = execute_command(SlashCommand::Tokens, "m", Some(&stats), &t);
    assert!(matches!(outcome, CommandOutcome::TokensReport(s) if s == "in=10 out=5 total=15 last=3/2"));
    let zero = TokenStats::default();
    let (outcome, _) = execute_command(SlashCommand::Tokens, "m", Some(&zero), &t);
    assert!(matches!(outcome, CommandOutcome::TokensReport(s) if s == "No tokens yet."));
    let (outcome, _) = execute_command(SlashCommand::Tokens, "m", None, &t);
    assert!(matches!(outcome, CommandOutcome::TokensReport(s) if s == "No tokens yet."));
}

#[test]
fn unknown_command_gets_notice_and_help() {
    let t = texts();
    let (outcome, _) =
        execute_command(SlashCommand::Unknown("/nope".to_string()), "m", None, &t);
    assert!(matches!(
        outcome,
        CommandOutcome::Help(s) if s == "Unknown command: /nope\n\nCommands:\n/help  show help"
    ));
}

#[test]
fn invalid_language_is_reported() {
    let t = texts();
    let (outcome, _) =
        execute_command(SlashCommand::Language("fr-FR".to_string()), "m", None, &t);
    assert!(matches!(outcome, CommandOutcome::LanguageInvalid(s) if s == "unsupported locale: fr-FR"));
}

#[test]
fn model_and_provider_follow_the_outcome() {
    let changed = CommandOutcome::ModelChanged("gpt-4o-mini".to_string());
    assert_eq!(model_after_command(&changed, "gpt-4o"), "gpt-4o-mini");
    assert_eq!(provider_after_command(&changed, "openai"), "openai");
    let provider = CommandOutcome::ProviderChanged("anthropic".to_string());
    assert_eq!(provider_after_command(&provider, "openai"), "anthropic");
    assert_eq!(model_after_command(&CommandOutcome::Exit, "gpt-4o"), "gpt-4o");
}
