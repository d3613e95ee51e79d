//! Parsing of the interactive input line into a user message or a slash command.
use vstd::prelude::*;

use crate::i18n::{arg_views, t_fmt, interpolate_spec, locale, set_locale, supported_locale};
use crate::text::{
    append_str, ascii_lower, chars_of, decimal, decimal_string, eq_str, join, join_from, lemma_words_nonempty, lower_chars, split_whitespace,
    string_from, trim, trim_chars, views, words, is_ws,
};

verus! {

/// One line of interactive input.
#[derive(Debug, Clone, PartialEq, Eq)]
pub enum Input {
    UserMessage(String),
    SlashCommand(SlashCommand),
}

/// A recognised (or unrecognised) slash command.
#[derive(Debug, Clone, PartialEq, Eq)]
pub enum SlashCommand {
    Help,
    Exit,
    Clear,
    Compact,
    Model(String),
    Provider(String),
    SessionList,
    SessionNew,
    SessionResume(String),
    Copy,
    CopyLast,
    Language(String),
    Tokens,
    Unknown(String),
}

/// The mathematical value of a [`SlashCommand`].
pub enum SlashCommandView {
    Help,
    Exit,
    Clear,
    Compact,
    Model(Seq<char>),
    Provider(Seq<char>),
    SessionList,
    SessionNew,
    SessionResume(Seq<char>),
    Copy,
    CopyLast,
    Language(Seq<char>),
    Tokens,
    Unknown(Seq<char>),
}

/// The mathematical value of an [`Input`].
pub enum InputView {
    UserMessage(Seq<char>),
    SlashCommand(SlashCommandView),
}

impl View for SlashCommand {
    type V = SlashCommandView;

    open spec fn view(&self) -> SlashCommandView {
        match self {
            SlashCommand::Help => SlashCommandView::Help,
            SlashCommand::Exit => SlashCommandView::Exit,
            SlashCommand::Clear => SlashCommandView::Clear,
            SlashCommand::Compact => SlashCommandView::Compact,
            SlashCommand::Model(s) => SlashCommandView::Model(s@),
            SlashCommand::Provider(s) => SlashCommandView::Provider(s@),
            SlashCommand::SessionList => SlashCommandView::SessionList,
            SlashCommand::SessionNew => SlashCommandView::SessionNew,
            SlashCommand::SessionResume(s) => SlashCommandView::SessionResume(s@),
            SlashCommand::Copy => SlashCommandView::Copy,
            SlashCommand::CopyLast => SlashCommandView::CopyLast,
            SlashCommand::Language(s) => SlashCommandView::Language(s@),
            SlashCommand::Tokens => SlashCommandView::Tokens,
            SlashCommand::Unknown(s) => SlashCommandView::Unknown(s@),
        }
    }
}

impl View for Input {
    type V = InputView;

    open spec fn view(&self) -> InputView {
        match self {
            Input::UserMessage(s) => InputView::UserMessage(s@),
            Input::SlashCommand(c) => InputView::SlashCommand(c@),
        }
    }
}

/// A single space, the separator of command arguments.
pub open spec fn space() -> Seq<char> {
    seq![' ']
}

/// The command for a trimmed line that starts with `/`: its first word, lower-cased,
/// picks the command; the remaining words are its arguments.
pub open spec fn slash_command_spec(t: Seq<char>) -> SlashCommandView {
    let parts = words(t);
    let cmd = ascii_lower(parts[0]);
    let rest = join(parts.skip(1), space());
    if cmd == "/help"@ {
        SlashCommandView::Help
    } else if cmd == "/exit"@ || cmd == "/quit"@ {
        SlashCommandView::Exit
    } else if cmd == "/clear"@ {
        SlashCommandView::Clear
    } else if cmd == "/compact"@ {
        SlashCommandView::Compact
    } else if cmd == "/copy"@ {
        if parts.len() < 2 {
            SlashCommandView::Copy
        } else if ascii_lower(parts[1]) == "last"@ {
            SlashCommandView::CopyLast
        } else {
            SlashCommandView::Unknown(t)
        }
    } else if cmd == "/model"@ {
        if rest.len() == 0 {
            SlashCommandView::Unknown(t)
        } else {
            SlashCommandView::Model(rest)
        }
    } else if cmd == "/provider"@ {
        if rest.len() == 0 {
            SlashCommandView::Unknown(t)
        } else {
            SlashCommandView::Provider(rest)
        }
    } else if cmd == "/language"@ || cmd == "/lang"@ {
        SlashCommandView::Language(rest)
    } else if cmd == "/tokens"@ {
        SlashCommandView::Tokens
    } else if cmd == "/session"@ {
        if parts.len() < 2 {
            SlashCommandView::Unknown(t)
        } else {
            let sub = ascii_lower(parts[1]);
            if sub == "list"@ {
                SlashCommandView::SessionList
            } else if sub == "new"@ {
                SlashCommandView::SessionNew
            } else if sub == "resume"@ {
                let id = join(parts.skip(2), space());
                if id.len() == 0 {
                    SlashCommandView::Unknown(t)
                } else {
                    SlashCommandView::SessionResume(id)
                }
            } else {
                SlashCommandView::Unknown(t)
            }
        }
    } else {
        SlashCommandView::Unknown(t)
    }
}

/// What a line of input means: the trimmed line is a user message unless it starts
/// with `/`, in which case it is a slash command.
pub open spec fn parse_input_spec(line: Seq<char>) -> InputView {
    let t = trim(line);
    if t.len() > 0 && t[0] == '/' {
        InputView::SlashCommand(slash_command_spec(t))
    } else {
        InputView::UserMessage(t)
    }
}

proof fn lemma_command_names_differ()
    ensures
        "/help"@.len() == 5 && "/help"@[1] == 'h',
        "/exit"@.len() == 5 && "/exit"@[1] == 'e',
        "/quit"@.len() == 5 && "/quit"@[1] == 'q',
        "/copy"@.len() == 5 && "/copy"@[1] == 'c',
        "/lang"@.len() == 5 && "/lang"@[1] == 'l',
        "/clear"@.len() == 6 && "/clear"@[1] == 'c',
        "/model"@.len() == 6 && "/model"@[1] == 'm',
        "/tokens"@.len() == 7,
        "/compact"@.len() == 8 && "/compact"@[1] == 'c',
        "/session"@.len() == 8 && "/session"@[1] == 's',
        "/provider"@.len() == 9 && "/provider"@[1] == 'p',
        "/language"@.len() == 9 && "/language"@[1] == 'l',
        "list"@.len() == 4,
        "last"@.len() == 4 && "last"@[1] == 'a' && "list"@[1] == 'i',
        "new"@.len() == 3,
        "resume"@.len() == 6,
{
    reveal_strlit("/help");
    reveal_strlit("/exit");
    reveal_strlit("/quit");
    reveal_strlit("/copy");
    reveal_strlit("/lang");
    reveal_strlit("/clear");
    reveal_strlit("/model");
    reveal_strlit("/tokens");
    reveal_strlit("/compact");
    reveal_strlit("/session");
    reveal_strlit("/provider");
    reveal_strlit("/language");
    reveal_strlit("list");
    reveal_strlit("last");
    reveal_strlit("new");
    reveal_strlit("resume");
}

/// The first word of a trimmed line, lower-cased.
pub open spec fn command_word(line: Seq<char>) -> Seq<char> {
    ascii_lower(words(trim(line))[0])
}

/// The words after the first, joined by single spaces.
pub open spec fn command_rest(line: Seq<char>) -> Seq<char> {
    join(words(trim(line)).skip(1), space())
}

/// The first words of the commands that are known.
pub open spec fn known_command(w: Seq<char>) -> bool {
    w == "/help"@ || w == "/exit"@ || w == "/quit"@ || w == "/clear"@ || w == "/compact"@ || w
        == "/copy"@ || w == "/model"@ || w == "/provider"@ || w == "/language"@ || w == "/lang"@
        || w == "/tokens"@ || w == "/session"@
}

/// A line is a slash command when, trimmed, it starts with `/`.
pub open spec fn is_slash_line(line: Seq<char>) -> bool {
    trim(line).len() > 0 && trim(line)[0] == '/'
}

/// What a line means. A line that does not start with `/` (once trimmed) is the user's
/// message, trimmed. Otherwise its first word, in any case, names the command:
/// `/help`, `/exit` or `/quit`, `/clear`, `/compact` and `/tokens` take no argument;
/// `/model` and `/provider` take the rest of the line (words joined by one space),
/// which must not be empty; `/language` and `/lang` take the rest as it is; `/session
/// new`, `/session list` and `/session resume <id>` manage sessions.
pub proof fn lemma_parse_input(line: Seq<char>)
    ensures
        !is_slash_line(line) ==> parse_input_spec(line) == InputView::UserMessage(trim(line)),
        is_slash_line(line) && command_word(line) == "/help"@ ==> parse_input_spec(line)
            == InputView::SlashCommand(SlashCommandView::Help),
        is_slash_line(line) && (command_word(line) == "/exit"@ || command_word(line) == "/quit"@)
            ==> parse_input_spec(line) == InputView::SlashCommand(SlashCommandView::Exit),
        is_slash_line(line) && command_word(line) == "/clear"@ ==> parse_input_spec(line)
            == InputView::SlashCommand(SlashCommandView::Clear),
        is_slash_line(line) && command_word(line) == "/compact"@ ==> parse_input_spec(line)
            == InputView::SlashCommand(SlashCommandView::Compact),
        is_slash_line(line) && command_word(line) == "/tokens"@ ==> parse_input_spec(line)
            == InputView::SlashCommand(SlashCommandView::Tokens),
        is_slash_line(line) && command_word(line) == "/model"@ && command_rest(line).len() > 0
            ==> parse_input_spec(line) == InputView::SlashCommand(
            SlashCommandView::Model(command_rest(line)),
        ),
        is_slash_line(line) && command_word(line) == "/provider"@ && command_rest(line).len() > 0
            ==> parse_input_spec(line) == InputView::SlashCommand(
            SlashCommandView::Provider(command_rest(line)),
        ),
        is_slash_line(line) && (command_word(line) == "/model"@ || command_word(line)
            == "/provider"@) && command_rest(line).len() == 0 ==> parse_input_spec(line)
            == InputView::SlashCommand(SlashCommandView::Unknown(trim(line))),
        is_slash_line(line) && (command_word(line) == "/language"@ || command_word(line)
            == "/lang"@) ==> parse_input_spec(line) == InputView::SlashCommand(
            SlashCommandView::Language(command_rest(line)),
        ),
        is_slash_line(line) && !known_command(command_word(line)) ==> parse_input_spec(line)
            == InputView::SlashCommand(SlashCommandView::Unknown(trim(line))),
        is_slash_line(line) && command_word(line) == "/copy"@ && words(trim(line)).len() < 2
            ==> parse_input_spec(line) == InputView::SlashCommand(SlashCommandView::Copy),
        is_slash_line(line) && command_word(line) == "/copy"@ && words(trim(line)).len() >= 2
            && ascii_lower(words(trim(line))[1]) == "last"@ ==> parse_input_spec(line)
            == InputView::SlashCommand(SlashCommandView::CopyLast),
        is_slash_line(line) && command_word(line) == "/session"@ && words(trim(line)).len() < 2
            ==> parse_input_spec(line) == InputView::SlashCommand(
            SlashCommandView::Unknown(trim(line)),
        ),
        is_slash_line(line) && command_word(line) == "/session"@ && words(trim(line)).len() >= 2
            && ascii_lower(words(trim(line))[1]) == "new"@ ==> parse_input_spec(line)
            == InputView::SlashCommand(SlashCommandView::SessionNew),
        is_slash_line(line) && command_word(line) == "/session"@ && words(trim(line)).len() >= 2
            && ascii_lower(words(trim(line))[1]) == "list"@ ==> parse_input_spec(line)
            == InputView::SlashCommand(SlashCommandView::SessionList),
        is_slash_line(line) && command_word(line) == "/session"@ && words(trim(line)).len() >= 2
            && ascii_lower(words(trim(line))[1]) == "resume"@ && join(
            words(trim(line)).skip(2),
            space(),
        ).len() > 0 ==> parse_input_spec(line) == InputView::SlashCommand(
            SlashCommandView::SessionResume(join(words(trim(line)).skip(2), space())),
        ),
{
    lemma_command_names_differ();
}

fn unknown(t: &Vec<char>) -> (r: Input)
    ensures
        r@ == InputView::SlashCommand(SlashCommandView::Unknown(t@)),
{
    Input::SlashCommand(SlashCommand::Unknown(string_from(t.as_slice())))
}

/// Parses one line of interactive input.
pub fn parse_input(line: &str) -> (r: Input)
    ensures
        r@ == parse_input_spec(line@),
{
    let chars = chars_of(line);
    let t = trim_chars(&chars);
    if !(t.len() > 0 && t[0] == '/') {
        return Input::UserMessage(string_from(t.as_slice()));
    }
    proof {
        // The trimmed line starts with '/', which is not whitespace.
        assert(!is_ws(t@[0]));
        lemma_words_nonempty(t@);
    }
    let parts = split_whitespace(&t);
    assert(views(parts@)[0] == parts@[0]@);
    let cmd = lower_chars(&parts[0]);
    let sep: Vec<char> = vec![' '];
    assert(sep@ =~= space());
    let ghost pv = views(parts@);
    let ghost spec_cmd = slash_command_spec(t@);
    if eq_str(&cmd, "/help") {
        Input::SlashCommand(SlashCommand::Help)
    } else if eq_str(&cmd, "/exit") || eq_str(&cmd, "/quit") {
        Input::SlashCommand(SlashCommand::Exit)
    } else if eq_str(&cmd, "/clear") {
        Input::SlashCommand(SlashCommand::Clear)
    } else if eq_str(&cmd, "/compact") {
        Input::SlashCommand(SlashCommand::Compact)
    } else if eq_str(&cmd, "/copy") {
        if parts.len() < 2 {
            Input::SlashCommand(SlashCommand::Copy)
        } else {
            assert(pv[1] == parts@[1]@);
            let sub = lower_chars(&parts[1]);
            if eq_str(&sub, "last") {
                Input::SlashCommand(SlashCommand::CopyLast)
            } else {
                unknown(&t)
            }
        }
    } else if eq_str(&cmd, "/model") {
        let model = join_from(&parts, 1, &sep);
        if model.len() == 0 {
            unknown(&t)
        } else {
            Input::SlashCommand(SlashCommand::Model(string_from(model.as_slice())))
        }
    } else if eq_str(&cmd, "/provider") {
        let provider = join_from(&parts, 1, &sep);
        if provider.len() == 0 {
            unknown(&t)
        } else {
            Input::SlashCommand(SlashCommand::Provider(string_from(provider.as_slice())))
        }
    } else if eq_str(&cmd, "/language") || eq_str(&cmd, "/lang") {
        let language = join_from(&parts, 1, &sep);
        Input::SlashCommand(SlashCommand::Language(string_from(language.as_slice())))
    } else if eq_str(&cmd, "/tokens") {
        Input::SlashCommand(SlashCommand::Tokens)
    } else if eq_str(&cmd, "/session") {
        if parts.len() < 2 {
            unknown(&t)
        } else {
            assert(pv[1] == parts@[1]@);
            let sub = lower_chars(&parts[1]);
            if eq_str(&sub, "list") {
                Input::SlashCommand(SlashCommand::SessionList)
            } else if eq_str(&sub, "new") {
                Input::SlashCommand(SlashCommand::SessionNew)
            } else if eq_str(&sub, "resume") {
                let id = join_from(&parts, 2, &sep);
                if id.len() == 0 {
                    unknown(&t)
                } else {
                    Input::SlashCommand(SlashCommand::SessionResume(string_from(id.as_slice())))
                }
            } else {
                unknown(&t)
            }
        }
    } else {
        unknown(&t)
    }
}

} // verus!

verus! {

/// What the interactive front end does after a slash command.
#[derive(Debug, Clone)]
pub enum CommandOutcome {
    Continue,
    Exit,
    ModelChanged(String),
    ProviderChanged(String),
    Cleared,
    Compacted,
    SessionList,
    SessionNew,
    SessionResume(String),
    Help(String),
    LanguageChanged(String),
    LanguageInfo(String),
    LanguageInvalid(String),
    TokensReport(String),
}

/// The mathematical value of a [`CommandOutcome`].
pub enum CommandOutcomeView {
    Continue,
    Exit,
    ModelChanged(Seq<char>),
    ProviderChanged(Seq<char>),
    Cleared,
    Compacted,
    SessionList,
    SessionNew,
    SessionResume(Seq<char>),
    Help(Seq<char>),
    LanguageChanged(Seq<char>),
    LanguageInfo(Seq<char>),
    LanguageInvalid(Seq<char>),
    TokensReport(Seq<char>),
}

impl View for CommandOutcome {
    type V = CommandOutcomeView;

    open spec fn view(&self) -> CommandOutcomeView {
        match self {
            CommandOutcome::Continue => CommandOutcomeView::Continue,
            CommandOutcome::Exit => CommandOutcomeView::Exit,
            CommandOutcome::ModelChanged(s) => CommandOutcomeView::ModelChanged(s@),
            CommandOutcome::ProviderChanged(s) => CommandOutcomeView::ProviderChanged(s@),
            CommandOutcome::Cleared => CommandOutcomeView::Cleared,
            CommandOutcome::Compacted => CommandOutcomeView::Compacted,
            CommandOutcome::SessionList => CommandOutcomeView::SessionList,
            CommandOutcome::SessionNew => CommandOutcomeView::SessionNew,
            CommandOutcome::SessionResume(s) => CommandOutcomeView::SessionResume(s@),
            CommandOutcome::Help(s) => CommandOutcomeView::Help(s@),
            CommandOutcome::LanguageChanged(s) => CommandOutcomeView::LanguageChanged(s@),
            CommandOutcome::LanguageInfo(s) => CommandOutcomeView::LanguageInfo(s@),
            CommandOutcome::LanguageInvalid(s) => CommandOutcomeView::LanguageInvalid(s@),
            CommandOutcome::TokensReport(s) => CommandOutcomeView::TokensReport(s@),
        }
    }
}

/// Token counters shown by `/tokens`.
#[derive(Debug, Clone, Copy, Default)]
pub struct TokenStats {
    pub session_input: u32,
    pub session_output: u32,
    pub last_input: u32,
    pub last_output: u32,
}

/// What a command does to the current session's message history.
#[derive(Debug, Clone, Copy, PartialEq, Eq)]
pub enum SessionEffect {
    /// The history is left as it is.
    Keep,
    /// All messages are removed.
    Clear,
    /// Older messages are dropped, keeping the given number of recent ones.
    Compact(usize),
}

/// Number of recent messages that `/compact` keeps.
pub const COMPACT_KEEP: usize = 12;

/// The translated texts a command answer is assembled from, in the active locale.
pub struct CommandTexts {
    /// The lines of the help screen, title first.
    pub help_lines: Vec<String>,
    /// Answer to `/tokens` when nothing has been counted yet.
    pub tokens_none: String,
    /// Template of the `/tokens` answer, with `{input}`, `{output}`, `{total}`,
    /// `{last_input}` and `{last_output}` placeholders.
    pub tokens_report: String,
    /// Template of the unknown-command notice, with a `{command}` placeholder.
    pub unknown_command: String,
}

pub open spec fn string_views(v: Seq<String>) -> Seq<Seq<char>> {
    v.map_values(|s: String| s@)
}

/// The help screen: the help lines joined by newlines.
pub open spec fn help_spec(texts: CommandTexts) -> Seq<char> {
    join(string_views(texts.help_lines@), seq!['\n'])
}

/// The `/tokens` report for the given counters.
pub open spec fn tokens_report_spec(template: Seq<char>, stats: TokenStats) -> Seq<char> {
    interpolate_spec(
        template,
        seq![
            ("input"@, decimal(stats.session_input as nat)),
            ("output"@, decimal(stats.session_output as nat)),
            ("total"@, decimal((stats.session_input + stats.session_output) as nat)),
            ("last_input"@, decimal(stats.last_input as nat)),
            ("last_output"@, decimal(stats.last_output as nat)),
        ],
    )
}

/// The answer to an unrecognised command: the notice, a blank line, and the help.
pub open spec fn unknown_spec(texts: CommandTexts, raw: Seq<char>) -> Seq<char> {
    interpolate_spec(texts.unknown_command@, seq![("command"@, raw)]) + "\n\n"@ + help_spec(texts)
}

/// The help screen text.
pub fn help_text(texts: &CommandTexts) -> (r: String)
    ensures
        r@ == help_spec(*texts),
{
    let mut parts: Vec<Vec<char>> = Vec::new();
    let mut i: usize = 0;
    while i < texts.help_lines.len()
        invariant
            0 <= i <= texts.help_lines.len(),
            views(parts@) == string_views(texts.help_lines@).take(i as int),
        decreases texts.help_lines.len() - i,
    {
        let line = chars_of(texts.help_lines[i].as_str());
        let ghost prev = parts@;
        parts.push(line);
        assert(views(parts@) =~= views(prev).push(line@));
        assert(string_views(texts.help_lines@).take(i + 1) =~= string_views(
            texts.help_lines@,
        ).take(i as int).push(texts.help_lines@[i as int]@));
        i = i + 1;
    }
    assert(string_views(texts.help_lines@).take(texts.help_lines.len() as int) =~= string_views(
        texts.help_lines@,
    ));
    let sep: Vec<char> = vec!['\n'];
    let r = join_from(&parts, 0, &sep);
    assert(views(parts@).skip(0) =~= views(parts@));
    assert(sep@ =~= seq!['\n']);
    string_from(r.as_slice())
}

/// Runs a slash command: decides the answer to show and what happens to the session.
///
/// `/language` with an argument switches the active locale when the argument names a
/// supported one; without an argument it reports the active locale.
pub fn execute_command(
    cmd: SlashCommand,
    _current_model: &str,
    token_stats: Option<&TokenStats>,
    texts: &CommandTexts,
) -> (r: (CommandOutcome, SessionEffect))
    requires
        cmd is Tokens && token_stats is Some ==> token_stats.unwrap().session_input
            + token_stats.unwrap().session_output <= u32::MAX,
    ensures
        r.1 == (match cmd {
            SlashCommand::Clear => SessionEffect::Clear,
            SlashCommand::Compact => SessionEffect::Compact(COMPACT_KEEP),
            _ => SessionEffect::Keep,
        }),
        match cmd {
            SlashCommand::Help => r.0@ == CommandOutcomeView::Help(help_spec(*texts)),
            SlashCommand::Exit => r.0@ == CommandOutcomeView::Exit,
            SlashCommand::Clear => r.0@ == CommandOutcomeView::Cleared,
            SlashCommand::Compact => r.0@ == CommandOutcomeView::Compacted,
            SlashCommand::Model(name) => r.0@ == CommandOutcomeView::ModelChanged(name@),
            SlashCommand::Provider(name) => r.0@ == CommandOutcomeView::ProviderChanged(name@),
            SlashCommand::SessionList => r.0@ == CommandOutcomeView::SessionList,
            SlashCommand::SessionNew => r.0@ == CommandOutcomeView::SessionNew,
            SlashCommand::SessionResume(id) => r.0@ == CommandOutcomeView::SessionResume(id@),
            SlashCommand::Copy | SlashCommand::CopyLast => r.0@ == CommandOutcomeView::Continue,
            SlashCommand::Language(language) => if language@.len() == 0 {
                r.0 is LanguageInfo
            } else if supported_locale(language@) {
                r.0@ == CommandOutcomeView::LanguageChanged(language@)
            } else {
                r.0@ == CommandOutcomeView::LanguageInvalid("unsupported locale: "@ + language@)
            },
            SlashCommand::Tokens => match token_stats {
                Some(stats) => if stats.session_input == 0 && stats.session_output == 0 {
                    r.0@ == CommandOutcomeView::TokensReport(texts.tokens_none@)
                } else {
                    r.0@ == CommandOutcomeView::TokensReport(
                        tokens_report_spec(texts.tokens_report@, *stats),
                    )
                },
                None => r.0@ == CommandOutcomeView::TokensReport(texts.tokens_none@),
            },
            SlashCommand::Unknown(raw) => r.0@ == CommandOutcomeView::Help(
                unknown_spec(*texts, raw@),
            ),
        },
{
    match cmd {
        SlashCommand::Help => (CommandOutcome::Help(help_text(texts)), SessionEffect::Keep),
        SlashCommand::Exit => (CommandOutcome::Exit, SessionEffect::Keep),
        SlashCommand::Clear => (CommandOutcome::Cleared, SessionEffect::Clear),
        SlashCommand::Compact => (CommandOutcome::Compacted, SessionEffect::Compact(COMPACT_KEEP)),
        SlashCommand::Model(name) => (CommandOutcome::ModelChanged(name), SessionEffect::Keep),
        SlashCommand::Provider(name) => (CommandOutcome::ProviderChanged(name), SessionEffect::Keep),
        SlashCommand::SessionList => (CommandOutcome::SessionList, SessionEffect::Keep),
        SlashCommand::SessionNew => (CommandOutcome::SessionNew, SessionEffect::Keep),
        SlashCommand::SessionResume(id) => (CommandOutcome::SessionResume(id), SessionEffect::Keep),
        SlashCommand::Copy | SlashCommand::CopyLast => (
            CommandOutcome::Continue,
            SessionEffect::Keep,
        ),
        SlashCommand::Language(language) => {
            if language.as_str().is_empty() {
                (CommandOutcome::LanguageInfo(locale()), SessionEffect::Keep)
            } else {
                match set_locale(language.as_str()) {
                    Err(err) => (CommandOutcome::LanguageInvalid(err.message()), SessionEffect::Keep),
                    Ok(()) => (CommandOutcome::LanguageChanged(language), SessionEffect::Keep),
                }
            }
        },
        SlashCommand::Tokens => {
            let stats = match token_stats {
                None => {
                    return (
                        CommandOutcome::TokensReport(texts.tokens_none.clone()),
                        SessionEffect::Keep,
                    );
                },
                Some(stats) => stats,
            };
            if stats.session_input == 0 && stats.session_output == 0 {
                (CommandOutcome::TokensReport(texts.tokens_none.clone()), SessionEffect::Keep)
            } else {
                let input = decimal_string(stats.session_input as u64);
                let output = decimal_string(stats.session_output as u64);
                let total = decimal_string((stats.session_input + stats.session_output) as u64);
                let last_input = decimal_string(stats.last_input as u64);
                let last_output = decimal_string(stats.last_output as u64);
                let args = [
                    ("input", input.as_str()),
                    ("output", output.as_str()),
                    ("total", total.as_str()),
                    ("last_input", last_input.as_str()),
                    ("last_output", last_output.as_str()),
                ];
                let report = t_fmt(texts.tokens_report.as_str(), args.as_slice());
                proof {
                    assert(arg_views(args@) =~= seq![
                        ("input"@, decimal(stats.session_input as nat)),
                        ("output"@, decimal(stats.session_output as nat)),
                        ("total"@, decimal((stats.session_input + stats.session_output) as nat)),
                        ("last_input"@, decimal(stats.last_input as nat)),
                        ("last_output"@, decimal(stats.last_output as nat)),
                    ]);
                }
                (CommandOutcome::TokensReport(report), SessionEffect::Keep)
            }
        },
        SlashCommand::Unknown(raw) => {
            let args = [("command", raw.as_str())];
            let notice = t_fmt(texts.unknown_command.as_str(), args.as_slice());
            assert(arg_views(args@) =~= seq![("command"@, raw@)]);
            let mut v = chars_of(notice.as_str());
            append_str(&mut v, "\n\n");
            let help = help_text(texts);
            append_str(&mut v, help.as_str());
            (CommandOutcome::Help(string_from(v.as_slice())), SessionEffect::Keep)
        },
    }
}

/// The model in use after a command: the new one if the command changed it.
pub fn model_after_command(outcome: &CommandOutcome, current: &str) -> (r: String)
    ensures
        r@ == (match outcome {
            CommandOutcome::ModelChanged(model) => model@,
            _ => current@,
        }),
{
    match outcome {
        CommandOutcome::ModelChanged(model) => model.clone(),
        _ => string_from(chars_of(current).as_slice()),
    }
}

/// The provider in use after a command: the new one if the command changed it.
pub fn provider_after_command(outcome: &CommandOutcome, current: &str) -> (r: String)
    ensures
        r@ == (match outcome {
            CommandOutcome::ProviderChanged(name) => name@,
            _ => current@,
        }),
{
    match outcome {
        CommandOutcome::ProviderChanged(name) => name.clone(),
        _ => string_from(chars_of(current).as_slice()),
    }
}

} // verus!
