//! The agent's decisions: how a turn proceeds from one model response to the next,
//! when and how a session is compacted, and how sub-agents are configured. The
//! model calls, tool execution and session storage are carried out by the caller,
//! which hands each result back to the functions here.
use vstd::prelude::*;

use crate::config::ConfigError;
use crate::llm::{
    calls_view, clone_calls, copy_string, AssistantResponse, LlmError, Role, ToolCall,
    ToolCallView, Usage,
};
use crate::text::{
    append_str, chars_of, decimal, join, join_from, push_decimal, slice_chars, string_from, trim,
    trim_chars, views,
};
use vstd::utf8::{encode_scalar, encode_utf8};

verus! {

// ---------------------------------------------------------------------------
// Turns
// ---------------------------------------------------------------------------

/// What a completed turn reports.
#[derive(Debug, Clone)]
pub struct TurnOutcome {
    /// Token usage of the last model response that reported any.
    pub usage: Option<Usage>,
}

impl Default for TurnOutcome {
    fn default() -> (r: Self)
        ensures
            r.usage is None,
    {
        TurnOutcome { usage: None }
    }
}

/// Errors that end a turn.
#[derive(Debug)]
pub enum AgentError {
    Llm(LlmError),
    Config(ConfigError),
    Stopped(String),
    /// The turn used up its tool rounds without a final answer.
    MaxToolRounds,
}

/// Progress of one turn: how many model rounds it has started, how many it may
/// start, and the latest usage reported.
#[derive(Debug, Clone, Copy)]
pub struct TurnState {
    pub rounds: u32,
    pub max_rounds: u32,
    pub usage: Option<Usage>,
}

/// What the caller does after a model response.
#[derive(Debug, Clone)]
pub enum TurnStep {
    /// The response has no tool calls: record it and end the turn with this outcome.
    Finish(TurnOutcome),
    /// Record the response, run its tool calls, then start another round.
    RunTools,
}

/// The state after starting a round, if one may start.
pub open spec fn start_spec(s: TurnState) -> Option<TurnState> {
    if s.rounds >= s.max_rounds {
        None
    } else {
        Some(TurnState { rounds: (s.rounds + 1) as u32, ..s })
    }
}

/// The usage kept after a response that reported `reported`.
pub open spec fn usage_after(kept: Option<Usage>, reported: Option<Usage>) -> Option<Usage> {
    if reported is Some {
        reported
    } else {
        kept
    }
}

/// A fresh turn.
pub open spec fn fresh_turn(max_rounds: u32) -> TurnState {
    TurnState { rounds: 0, max_rounds, usage: None }
}

impl TurnState {
    /// A turn that may start up to `max_rounds` model rounds.
    pub fn new(max_rounds: u32) -> (r: Self)
        ensures
            r == fresh_turn(max_rounds),
    {
        TurnState { rounds: 0, max_rounds, usage: None }
    }

    /// Starts the next model round, or fails with `MaxToolRounds` when all are used.
    /// On success returns the round's number (from 1).
    pub fn start_round(&mut self) -> (r: Result<u32, AgentError>)
        ensures
            start_spec(*old(self)) is None ==> (r matches Err(AgentError::MaxToolRounds)
                && *final(self) == *old(self)),
            start_spec(*old(self)) matches Some(s) ==> (r matches Ok(n) && n == s.rounds
                && *final(self) == s),
    {
        if self.rounds >= self.max_rounds {
            return Err(AgentError::MaxToolRounds);
        }
        self.rounds = self.rounds + 1;
        Ok(self.rounds)
    }

    /// Takes in a model response: keeps its usage when it reports one, and ends the
    /// turn when it asks for no tool calls.
    pub fn on_response(&mut self, response: &AssistantResponse) -> (step: TurnStep)
        ensures
            final(self).rounds == old(self).rounds,
            final(self).max_rounds == old(self).max_rounds,
            final(self).usage == usage_after(old(self).usage, response.usage),
            response.tool_calls@.len() == 0 ==> (step matches TurnStep::Finish(o)
                && o.usage == final(self).usage),
            response.tool_calls@.len() > 0 ==> step is RunTools,
    {
        if let Some(u) = response.usage {
            self.usage = Some(u);
        }
        if response.tool_calls.len() == 0 {
            TurnStep::Finish(TurnOutcome { usage: self.usage })
        } else {
            TurnStep::RunTools
        }
    }
}

/// An entry a turn adds to the session history.
#[derive(Debug, Clone)]
pub enum TurnRecord {
    /// The user's input, recorded when the turn starts.
    User(String),
    /// A model response: its text, and the tool calls it asked for, if any.
    Assistant { content: String, tool_calls: Option<Vec<ToolCall>> },
    /// What a tool call produced, or the error it failed with, under the call's id.
    Tool { call_id: String, content: String },
}

pub enum TurnRecordView {
    User(Seq<char>),
    Assistant { content: Seq<char>, tool_calls: Option<Seq<ToolCallView>> },
    Tool { call_id: Seq<char>, content: Seq<char> },
}

impl View for TurnRecord {
    type V = TurnRecordView;

    open spec fn view(&self) -> TurnRecordView {
        match self {
            TurnRecord::User(t) => TurnRecordView::User(t@),
            TurnRecord::Assistant { content, tool_calls } => TurnRecordView::Assistant {
                content: content@,
                tool_calls: match tool_calls {
                    Some(v) => Some(calls_view(v@)),
                    None => None,
                },
            },
            TurnRecord::Tool { call_id, content } => TurnRecordView::Tool {
                call_id: call_id@,
                content: content@,
            },
        }
    }
}

/// The record of a tool call's result, under the call's id.
pub open spec fn tool_result_record(call_id: Seq<char>, content: Seq<char>) -> TurnRecordView {
    TurnRecordView::Tool { call_id, content }
}

/// The record of a model response with text `content` and calls `tool_calls`.
pub open spec fn assistant_record(content: Seq<char>, tool_calls: Option<Seq<ToolCallView>>) -> TurnRecordView {
    TurnRecordView::Assistant { content, tool_calls }
}

/// The record of a model response: its text, with its tool calls when there are any.
pub open spec fn response_record_spec(content: Seq<char>, calls: Seq<ToolCallView>) -> TurnRecordView {
    assistant_record(
        content,
        if calls.len() == 0 {
            None
        } else {
            Some(calls)
        },
    )
}

/// The text recorded for a tool call: its output, or the error it failed with.
pub open spec fn tool_output_spec(outcome: Result<Seq<char>, Seq<char>>) -> Seq<char> {
    match outcome {
        Ok(output) => output,
        Err(error) => error,
    }
}

/// The records of one round: the model response, then one result per tool call it
/// asked for, in the order of the calls, each under its call's id.
pub open spec fn round_history(
    content: Seq<char>,
    calls: Seq<ToolCallView>,
    outputs: Seq<Seq<char>>,
) -> Seq<TurnRecordView> {
    seq![response_record_spec(content, calls)] + Seq::new(
        calls.len(),
        |k: int| tool_result_record(calls[k].id, outputs[k]),
    )
}

/// The record of the user's input that starts a turn.
pub fn user_record(input: &str) -> (r: TurnRecord)
    ensures
        r@ == TurnRecordView::User(input@),
{
    TurnRecord::User(copy_string(input))
}

/// The record of a model response.
pub fn response_record(response: &AssistantResponse) -> (r: TurnRecord)
    ensures
        r@ == response_record_spec(response.content@, calls_view(response.tool_calls@)),
{
    let tool_calls = if response.tool_calls.len() == 0 {
        None
    } else {
        Some(clone_calls(&response.tool_calls))
    };
    TurnRecord::Assistant { content: response.content.clone(), tool_calls }
}

/// The record of a tool call's result: its output, or the error it failed with.
pub fn tool_record(call: &ToolCall, outcome: Result<String, String>) -> (r: TurnRecord)
    ensures
        r@ == tool_result_record(
            call.id@,
            tool_output_spec(
                match outcome {
                    Ok(o) => Ok(o@),
                    Err(e) => Err(e@),
                },
            ),
        ),
{
    let content = match outcome {
        Ok(o) => o,
        Err(e) => e,
    };
    TurnRecord::Tool { call_id: call.id.clone(), content }
}

/// What a round records: a response that ends the turn (no tool calls) is recorded
/// alone and without calls; a response that asks for tools is recorded with its calls,
/// followed by exactly one result per call, in call order, under that call's id.
pub proof fn lemma_round_history(
    content: Seq<char>,
    calls: Seq<ToolCallView>,
    outputs: Seq<Seq<char>>,
)
    requires
        outputs.len() == calls.len(),
    ensures
        round_history(content, calls, outputs).len() == calls.len() + 1,
        calls.len() == 0 ==> round_history(content, calls, outputs) == seq![
            assistant_record(content, None),
        ],
        calls.len() > 0 ==> round_history(content, calls, outputs)[0] == assistant_record(
            content,
            Some(calls),
        ),
        forall|k: int|
            0 <= k < calls.len() ==> #[trigger] round_history(content, calls, outputs)[k + 1]
                == tool_result_record(calls[k].id, outputs[k]),
{
    let h = round_history(content, calls, outputs);
    if calls.len() == 0 {
        assert(h =~= seq![assistant_record(content, None)]);
    }
}

/// The state after `k` rounds were started, each answered with tool calls, if all of
/// them could start.
pub open spec fn after_tool_rounds(s: TurnState, k: nat) -> Option<TurnState>
    decreases k,
{
    if k == 0 {
        Some(s)
    } else {
        match after_tool_rounds(s, (k - 1) as nat) {
            Some(t) => start_spec(t),
            None => None,
        }
    }
}

proof fn lemma_after_rounds(max_rounds: u32, k: nat)
    ensures
        after_tool_rounds(fresh_turn(max_rounds), k) is Some <==> k <= max_rounds,
        k <= max_rounds ==> (after_tool_rounds(fresh_turn(max_rounds), k) matches Some(t)
            && t.rounds == k && t.max_rounds == max_rounds),
    decreases k,
{
    if k > 0 {
        lemma_after_rounds(max_rounds, (k - 1) as nat);
    }
}

/// A turn starts at most `max_rounds` model rounds: from a fresh turn, `k` rounds
/// can be started one after another exactly when `k <= max_rounds`, and the next
/// start after the last one fails.
pub proof fn lemma_round_limit(max_rounds: u32, k: nat)
    ensures
        after_tool_rounds(fresh_turn(max_rounds), k) is Some <==> k <= max_rounds,
        k <= max_rounds ==> (after_tool_rounds(fresh_turn(max_rounds), k) matches Some(t)
            && t.rounds == k && t.max_rounds == max_rounds),
        (after_tool_rounds(fresh_turn(max_rounds), max_rounds as nat) matches Some(t)
            && start_spec(t) is None),
{
    lemma_after_rounds(max_rounds, k);
    lemma_after_rounds(max_rounds, max_rounds as nat);
}

/// The usage kept after responses reporting `reported`, in order.
pub open spec fn usage_over(kept: Option<Usage>, reported: Seq<Option<Usage>>) -> Option<Usage>
    decreases reported.len(),
{
    if reported.len() == 0 {
        kept
    } else {
        usage_after(usage_over(kept, reported.drop_last()), reported.last())
    }
}

/// The last usage that some response reported, if any did.
pub open spec fn last_reported(reported: Seq<Option<Usage>>) -> Option<Usage>
    decreases reported.len(),
{
    if reported.len() == 0 {
        None
    } else if reported.last() is Some {
        reported.last()
    } else {
        last_reported(reported.drop_last())
    }
}

/// A turn's outcome carries the usage of the last response that reported one: a
/// response without usage never erases an earlier report.
pub proof fn lemma_turn_usage_is_last_reported(reported: Seq<Option<Usage>>)
    ensures
        usage_over(None, reported) == last_reported(reported),
    decreases reported.len(),
{
    if reported.len() > 0 {
        lemma_turn_usage_is_last_reported(reported.drop_last());
    }
}

// ---------------------------------------------------------------------------
// Compaction
// ---------------------------------------------------------------------------

/// System prompt of the summarizing request.
pub const SUMMARIZE_SYSTEM: &'static str = "You compress conversation history for a coding assistant context window.\n\nProduce a dense summary that preserves:\n- User goals, requirements, and constraints\n- Key decisions, conclusions, and agreed approaches\n- Important file paths, symbols, commands, and code changes\n- Unresolved tasks, errors, and open questions\n\nDo not invent facts. Omit small talk. Use the same language as the conversation.";

/// Where a session is cut for compaction: the first `split` messages are summarized,
/// the last `keep` stay as they are.
#[derive(Debug, Clone, Copy, PartialEq, Eq, Structural)]
pub struct CompactionSplit {
    pub keep: usize,
    pub split: usize,
}

/// How many recent messages compaction keeps: the setting, but at least two.
pub open spec fn keep_count(keep_setting: u32) -> nat {
    if keep_setting < 2 {
        2
    } else {
        keep_setting as nat
    }
}

/// Decides whether a session of `message_count` messages is compacted, and where.
/// Sessions no longer than the kept tail are left alone.
pub fn compaction_split(message_count: usize, keep_setting: u32) -> (r: Option<CompactionSplit>)
    ensures
        message_count <= keep_count(keep_setting) ==> r is None,
        message_count > keep_count(keep_setting) ==> (r matches Some(c) && c.keep
            == keep_count(keep_setting) && c.split + c.keep == message_count && c.split > 0),
{
    let keep: u32 = if keep_setting < 2 {
        2
    } else {
        keep_setting
    };
    if message_count <= keep as usize {
        None
    } else {
        Some(CompactionSplit { keep: keep as usize, split: message_count - keep as usize })
    }
}

/// What happens to the older part of a session.
#[derive(Debug, Clone)]
pub enum CompactionStep {
    /// Drop the older messages and keep the last `keep`.
    Truncate { keep: usize },
    /// Ask the model to summarize, with this user prompt.
    Summarize { prompt: String },
}

/// The user prompt of the summarizing request.
pub open spec fn summary_prompt_spec(language: Seq<char>, transcript: Seq<char>) -> Seq<char> {
    "Summarize the conversation below. Write the summary in "@ + language + ".\n\n"@ + transcript
}

/// The user prompt that asks for a summary of `transcript` in `language`.
pub fn summary_prompt(language: &str, transcript: &str) -> (r: String)
    ensures
        r@ == summary_prompt_spec(language@, transcript@),
{
    let mut v: Vec<char> = Vec::new();
    append_str(&mut v, "Summarize the conversation below. Write the summary in ");
    append_str(&mut v, language);
    append_str(&mut v, ".\n\n");
    append_str(&mut v, transcript);
    string_from(v.as_slice())
}

pub enum CompactionStepView {
    Truncate(nat),
    Summarize(Seq<char>),
}

impl View for CompactionStep {
    type V = CompactionStepView;

    open spec fn view(&self) -> CompactionStepView {
        match self {
            CompactionStep::Truncate { keep } => CompactionStepView::Truncate(*keep as nat),
            CompactionStep::Summarize { prompt } => CompactionStepView::Summarize(prompt@),
        }
    }
}

/// The step for the older messages given their transcript, keeping `keep` messages.
pub open spec fn step_spec(keep: nat, transcript: Seq<char>, language: Seq<char>) -> CompactionStepView {
    if trim(transcript).len() == 0 {
        CompactionStepView::Truncate(keep)
    } else {
        CompactionStepView::Summarize(summary_prompt_spec(language, transcript))
    }
}

/// Given the transcript of the older messages: a blank transcript is simply dropped,
/// anything else is summarized.
pub fn compaction_step(split: &CompactionSplit, transcript: &str, language: &str) -> (r:
    CompactionStep)
    ensures
        r@ == step_spec(split.keep as nat, transcript@, language@),
        trim(transcript@).len() == 0 ==> (r matches CompactionStep::Truncate { keep } && keep
            == split.keep),
        trim(transcript@).len() > 0 ==> (r matches CompactionStep::Summarize { prompt } && prompt@
            == summary_prompt_spec(language@, transcript@)),
{
    let t = trim_chars(&chars_of(transcript));
    if t.len() == 0 {
        CompactionStep::Truncate { keep: split.keep }
    } else {
        CompactionStep::Summarize { prompt: summary_prompt(language, transcript) }
    }
}

/// How the session is finally rewritten.
#[derive(Debug, Clone)]
pub enum Compaction {
    /// Keep the last `keep` messages only.
    Truncate { keep: usize },
    /// Replace the older messages by `summary` and keep the last `keep`.
    WithSummary { keep: usize, summary: String },
}

/// The message of a summary that came back empty.
pub open spec fn empty_summary_message() -> Seq<char> {
    "compaction summary was empty"@
}

/// The summary in a model's answer: its text trimmed, when that is not empty.
pub open spec fn summary_spec(content: Seq<char>) -> Option<Seq<char>> {
    if trim(content).len() == 0 {
        None
    } else {
        Some(trim(content))
    }
}

/// The summary in a model's answer: its text trimmed, which must not be empty.
pub fn summary_from_response(content: &str) -> (r: Result<String, LlmError>)
    ensures
        match summary_spec(content@) {
            Some(s) => r matches Ok(t) && t@ == s,
            None => r is Err,
        },
        trim(content@).len() > 0 ==> (r matches Ok(s) && s@ == trim(content@)),
        trim(content@).len() == 0 ==> (r matches Err(LlmError::Config(m)) && m@
            == empty_summary_message()),
{
    let t = trim_chars(&chars_of(content));
    if t.len() == 0 {
        Err(LlmError::Config(string_from(chars_of("compaction summary was empty").as_slice())))
    } else {
        Ok(string_from(t.as_slice()))
    }
}

pub enum CompactionView {
    Truncate(nat),
    WithSummary(nat, Seq<char>),
}

impl View for Compaction {
    type V = CompactionView;

    open spec fn view(&self) -> CompactionView {
        match self {
            Compaction::Truncate { keep } => CompactionView::Truncate(*keep as nat),
            Compaction::WithSummary { keep, summary } => CompactionView::WithSummary(
                *keep as nat,
                summary@,
            ),
        }
    }
}

/// The rewrite after the summarizing request, given the summary it produced, if any.
pub open spec fn after_spec(keep: nat, summary: Option<Seq<char>>) -> CompactionView {
    match summary {
        Some(s) => CompactionView::WithSummary(keep, s),
        None => CompactionView::Truncate(keep),
    }
}

/// After the summarizing request: a summary replaces the older messages; when the
/// request failed, compaction falls back to dropping them.
pub fn compaction_after_summary(keep: usize, summary: Result<String, LlmError>) -> (r: Compaction)
    ensures
        r@ == after_spec(
            keep as nat,
            match summary {
                Ok(s) => Some(s@),
                Err(_) => None,
            },
        ),
        summary matches Ok(s) ==> (r matches Compaction::WithSummary { keep: k, summary: t } && k
            == keep && t@ == s@),
        summary is Err ==> (r matches Compaction::Truncate { keep: k } && k == keep),
{
    match summary {
        Ok(s) => Compaction::WithSummary { keep, summary: s },
        Err(_) => Compaction::Truncate { keep },
    }
}

/// How a session ends up after compaction.
pub enum CompactionEnd {
    /// Left as it is, and no summary is asked for.
    Unchanged,
    /// Rewritten as the compaction says.
    Rewritten(CompactionView),
}

/// The end of compaction for a session of `n` messages, given the transcript of its
/// older messages and the answer text of the summarizing request (`None` when the
/// request failed). Each stage is the one `compaction_split`, `compaction_step`,
/// `summary_from_response` and `compaction_after_summary` carry out.
pub open spec fn compaction_end(
    n: nat,
    keep_setting: u32,
    transcript: Seq<char>,
    language: Seq<char>,
    reply: Option<Seq<char>>,
) -> CompactionEnd {
    let keep = keep_count(keep_setting);
    if n <= keep {
        CompactionEnd::Unchanged
    } else {
        match step_spec(keep, transcript, language) {
            CompactionStepView::Truncate(k) => CompactionEnd::Rewritten(CompactionView::Truncate(k)),
            CompactionStepView::Summarize(_) => CompactionEnd::Rewritten(
                after_spec(
                    keep,
                    match reply {
                        Some(c) => summary_spec(c),
                        None => None,
                    },
                ),
            ),
        }
    }
}

/// Compaction leaves a session of at most the kept number of messages unchanged, without
/// asking for a summary. A longer one is always rewritten, never failed, keeping the
/// last `keep_count` messages: with the trimmed summary when the older messages have
/// text and the summarizing request answered with non-blank text, and by plain
/// truncation when the request failed or its answer was blank.
pub proof fn lemma_compaction_end(
    n: nat,
    keep_setting: u32,
    transcript: Seq<char>,
    language: Seq<char>,
    reply: Option<Seq<char>>,
)
    ensures
        n <= keep_count(keep_setting) ==> compaction_end(
            n,
            keep_setting,
            transcript,
            language,
            reply,
        ) is Unchanged,
        n > keep_count(keep_setting) ==> compaction_end(n, keep_setting, transcript, language, reply)
            == CompactionEnd::Rewritten(
            match reply {
                Some(c) => if trim(transcript).len() > 0 && trim(c).len() > 0 {
                    CompactionView::WithSummary(keep_count(keep_setting), trim(c))
                } else {
                    CompactionView::Truncate(keep_count(keep_setting))
                },
                None => CompactionView::Truncate(keep_count(keep_setting)),
            },
        ),
{
}

/// Output budget of the summarizing request: at least 256 tokens.
pub fn summary_max_tokens(max_tokens: u32) -> (r: u32)
    ensures
        r == (if max_tokens < 256 {
            256
        } else {
            max_tokens
        }),
{
    if max_tokens < 256 {
        256
    } else {
        max_tokens
    }
}

// ---------------------------------------------------------------------------
// Sub-agents
// ---------------------------------------------------------------------------

/// Tool rounds of a sub-agent: half the parent's, kept between 3 and 12.
pub fn sub_agent_rounds(max_tool_rounds: u32) -> (r: u32)
    ensures
        r == (if max_tool_rounds / 2 < 3 {
            3
        } else if max_tool_rounds / 2 > 12 {
            12
        } else {
            max_tool_rounds / 2
        }),
        3 <= r <= 12,
{
    let half = max_tool_rounds / 2;
    if half < 3 {
        3
    } else if half > 12 {
        12
    } else {
        half
    }
}

/// The part of a stored session message that the agent reads.
#[derive(Debug, Clone)]
pub struct SessionMessage {
    pub role: Role,
    pub text: String,
}

/// Index of the last assistant message at or before `end`.
pub open spec fn last_assistant(messages: Seq<SessionMessage>, end: int) -> Option<int>
    decreases end,
{
    if end <= 0 {
        None
    } else if messages[end - 1].role == Role::Assistant {
        Some(end - 1)
    } else {
        last_assistant(messages, end - 1)
    }
}

proof fn lemma_last_assistant_bounds(messages: Seq<SessionMessage>, end: int)
    requires
        end <= messages.len(),
    ensures
        last_assistant(messages, end) matches Some(i) ==> 0 <= i < end && messages[i].role
            == Role::Assistant,
    decreases end,
{
    if end > 0 && messages[end - 1].role != Role::Assistant {
        lemma_last_assistant_bounds(messages, end - 1);
    }
}

/// The text of the last assistant message.
pub fn last_assistant_text(messages: &Vec<SessionMessage>) -> (r: Option<String>)
    ensures
        match last_assistant(messages@, messages@.len() as int) {
            Some(i) => r matches Some(t) && t@ == messages@[i].text@,
            None => r is None,
        },
{
    let mut end = messages.len();
    while end > 0
        invariant
            end <= messages.len(),
            last_assistant(messages@, messages@.len() as int) == last_assistant(
                messages@,
                end as int,
            ),
        decreases end,
    {
        if messages[end - 1].role == Role::Assistant {
            return Some(messages[end - 1].text.clone());
        }
        end = end - 1;
    }
    None
}

/// What a sub-agent hands back to its parent: its last answer, or a fixed note when it
/// gave none.
pub fn sub_agent_reply(messages: &Vec<SessionMessage>) -> (r: String)
    ensures
        match last_assistant(messages@, messages@.len() as int) {
            Some(i) => r@ == messages@[i].text@,
            None => r@ == "Sub-agent finished."@,
        },
{
    match last_assistant_text(messages) {
        Some(t) => t,
        None => string_from(chars_of("Sub-agent finished.").as_slice()),
    }
}

// ---------------------------------------------------------------------------
// System prompt
// ---------------------------------------------------------------------------

pub const PROMPT_HEAD: &'static str = "You are CodeI, an AI coding assistant running in the user's local terminal.\n\n## Capabilities\n- Read, write, and edit files; search the codebase; run shell commands\n- Working directory: ";

pub const PROMPT_OS: &'static str = "\n- Operating system: ";

pub const PROMPT_PROJECT: &'static str = "\n\n## Project instructions\n";

pub const PROMPT_TOOLS: &'static str = "\n\n## Tool usage\n- Read relevant files before editing code\n- Prefer specialized tools over shell for file operations\n- When using edit, ensure old_string matches exactly once\n- Do not make unrelated changes the user did not ask for\n\n## Output\n- Communicate with the user in ";

pub const PROMPT_TAIL: &'static str = "\n- Be concise and actionable";

/// The system prompt for a working directory, operating system, project
/// instructions and conversation language.
pub open spec fn system_prompt_spec(
    cwd: Seq<char>,
    os: Seq<char>,
    project_instructions: Seq<char>,
    language: Seq<char>,
) -> Seq<char> {
    PROMPT_HEAD@ + cwd + PROMPT_OS@ + os + PROMPT_PROJECT@ + project_instructions + PROMPT_TOOLS@
        + language + PROMPT_TAIL@
}

/// Builds the agent's system prompt.
pub fn build_system_prompt(cwd: &str, os: &str, project_instructions: &str, language: &str) -> (r:
    String)
    ensures
        r@ == system_prompt_spec(cwd@, os@, project_instructions@, language@),
{
    let mut v: Vec<char> = Vec::new();
    append_str(&mut v, PROMPT_HEAD);
    append_str(&mut v, cwd);
    append_str(&mut v, PROMPT_OS);
    append_str(&mut v, os);
    append_str(&mut v, PROMPT_PROJECT);
    append_str(&mut v, project_instructions);
    append_str(&mut v, PROMPT_TOOLS);
    append_str(&mut v, language);
    append_str(&mut v, PROMPT_TAIL);
    string_from(v.as_slice())
}

// ---------------------------------------------------------------------------
// Project instructions
// ---------------------------------------------------------------------------

/// The section of an agents file at `rel` (relative to the project root).
pub open spec fn agents_section(rel: Seq<char>, content: Seq<char>) -> Seq<char> {
    "### From `"@ + rel + "`\n"@ + content
}

/// The section of a rule file named `name`.
pub open spec fn rule_section(name: Seq<char>, content: Seq<char>) -> Seq<char> {
    "### Rule `"@ + name + "`\n"@ + content
}

pub open spec fn rule_sections(rules: Seq<(String, String)>) -> Seq<Seq<char>>
    decreases rules.len(),
{
    if rules.len() == 0 {
        Seq::empty()
    } else {
        rule_sections(rules.drop_last()).push(rule_section(rules.last().0@, rules.last().1@))
    }
}

/// The agents section: from `.codei/AGENTS.md` when the project has one, else from
/// `AGENTS.md`, else none.
pub open spec fn agents_sections(codei_agents: Option<Seq<char>>, root_agents: Option<Seq<char>>) -> Seq<Seq<char>> {
    match codei_agents {
        Some(c) => seq![agents_section(".codei/AGENTS.md"@, c)],
        None => match root_agents {
            Some(c) => seq![agents_section("AGENTS.md"@, c)],
            None => Seq::empty(),
        },
    }
}

fn section(head: &str, name: &str, content: &str) -> (r: Vec<char>)
    ensures
        r@ == head@ + name@ + "`\n"@ + content@,
{
    let mut v: Vec<char> = Vec::new();
    append_str(&mut v, head);
    append_str(&mut v, name);
    append_str(&mut v, "`\n");
    append_str(&mut v, content);
    v
}

/// The project instructions of the system prompt: the agents file's section, then one
/// section per rule file (`.codei/rules/*.md`, given as name and content in file-name
/// order), separated by blank lines. `codei_agents` and `root_agents` are the contents
/// of `.codei/AGENTS.md` and `AGENTS.md`, where they exist.
pub fn project_instructions(
    codei_agents: Option<&str>,
    root_agents: Option<&str>,
    rules: &Vec<(String, String)>,
) -> (r: String)
    ensures
        r@ == join(
            agents_sections(
                match codei_agents {
                    Some(c) => Some(c@),
                    None => None,
                },
                match root_agents {
                    Some(c) => Some(c@),
                    None => None,
                },
            ) + rule_sections(rules@),
            "\n\n"@,
        ),
{
    let mut sections: Vec<Vec<char>> = Vec::new();
    match codei_agents {
        Some(c) => sections.push(section("### From `", ".codei/AGENTS.md", c)),
        None => match root_agents {
            Some(c) => sections.push(section("### From `", "AGENTS.md", c)),
            None => {},
        },
    }
    let ghost head = views(sections@);
    assert(head =~= agents_sections(
        match codei_agents {
            Some(c) => Some(c@),
            None => None,
        },
        match root_agents {
            Some(c) => Some(c@),
            None => None,
        },
    ));
    let mut i: usize = 0;
    assert(rules@.take(0) =~= Seq::<(String, String)>::empty());
    while i < rules.len()
        invariant
            0 <= i <= rules.len(),
            views(sections@) == head + rule_sections(rules@.take(i as int)),
        decreases rules.len() - i,
    {
        let sec = section("### Rule `", rules[i].0.as_str(), rules[i].1.as_str());
        let ghost before = views(sections@);
        let ghost sv = sec@;
        sections.push(sec);
        proof {
            assert(views(sections@) =~= before.push(sv));
            assert(sv == rule_section(rules@[i as int].0@, rules@[i as int].1@));
            assert(rules@.take(i + 1).drop_last() =~= rules@.take(i as int));
            assert(rules@.take(i + 1).last() == rules@[i as int]);
            assert(views(sections@) =~= head + rule_sections(rules@.take(i + 1)));
        }
        i = i + 1;
    }
    assert(rules@.take(rules.len() as int) =~= rules@);
    let sep: Vec<char> = vec!['\n', '\n'];
    let joined = join_from(&sections, 0, &sep);
    proof {
        assert(views(sections@).skip(0) =~= views(sections@));
        reveal_strlit("\n\n");
        assert(sep@ =~= "\n\n"@);
    }
    string_from(joined.as_slice())
}

// ---------------------------------------------------------------------------
// Log previews
// ---------------------------------------------------------------------------

/// The number of bytes `s` takes in UTF-8 (`str::len`).
pub open spec fn utf8_len(s: Seq<char>) -> nat {
    encode_utf8(s).len()
}

/// What replaces the rest of a text cut short: its length in bytes.
pub open spec fn truncation_note(total: nat) -> Seq<char> {
    "… [truncated, total "@ + decimal(total) + " bytes]"@
}

proof fn lemma_encode_push(a: Seq<char>, c: char)
    ensures
        encode_utf8(a.push(c)) == encode_utf8(a) + encode_scalar(c as u32),
    decreases a.len(),
{
    if a.len() == 0 {
        let e = Seq::<char>::empty();
        assert(a.push(c).drop_first() =~= e);
        assert(encode_utf8(e) =~= Seq::<u8>::empty());
        assert(a.push(c)[0] == c);
        assert(encode_utf8(a.push(c)) =~= encode_scalar(c as u32) + encode_utf8(e));
        assert(encode_utf8(a.push(c)) =~= encode_utf8(a) + encode_scalar(c as u32));
    } else {
        assert(a.push(c).drop_first() =~= a.drop_first().push(c));
        lemma_encode_push(a.drop_first(), c);
        assert(encode_utf8(a.push(c)) =~= encode_utf8(a) + encode_scalar(c as u32));
    }
}

/// Longer prefixes take strictly more bytes.
proof fn lemma_prefix_bytes_grow(s: Seq<char>, i: int, j: int)
    requires
        0 <= i <= j <= s.len(),
    ensures
        utf8_len(s.take(i)) <= utf8_len(s.take(j)),
        i < j ==> utf8_len(s.take(i)) < utf8_len(s.take(j)),
    decreases j - i,
{
    if i < j {
        lemma_prefix_bytes_grow(s, i, j - 1);
        assert(s.take(j) =~= s.take(j - 1).push(s[j - 1]));
        lemma_encode_push(s.take(j - 1), s[j - 1]);
    }
}

/// The number of bytes `c` takes in UTF-8.
fn utf8_width(c: char) -> (w: usize)
    ensures
        w == encode_scalar(c as u32).len(),
{
    let v = c as u32;
    if v <= 0x7F {
        1
    } else if v <= 0x7FF {
        2
    } else if v <= 0xFFFF {
        3
    } else {
        4
    }
}

/// `value` for a log line: as it is when it takes at most `max` bytes, else its first
/// `max` bytes followed by a note of its full length in bytes.
pub fn truncate(value: &str, max: usize) -> (r: String)
    requires
        utf8_len(value@) <= usize::MAX,
        utf8_len(value@) <= max || exists|k: int|
            0 <= k <= value@.len() && #[trigger] utf8_len(value@.take(k)) == max,
    ensures
        utf8_len(value@) <= max ==> r@ == value@,
        utf8_len(value@) > max ==> exists|k: int|
            0 <= k <= value@.len() && #[trigger] utf8_len(value@.take(k)) == max && r@
                == value@.take(k) + truncation_note(utf8_len(value@)),
{
    let total = value.len();
    if total <= max {
        return copy_string(value);
    }
    let v = chars_of(value);
    let ghost s = value@;
    let ghost k = choose|k: int| 0 <= k <= s.len() && #[trigger] utf8_len(s.take(k)) == max;
    proof {
        assert(s.take(0) =~= Seq::<char>::empty());
        assert(s.take(s.len() as int) =~= s);
    }
    let mut i: usize = 0;
    let mut b: usize = 0;
    while b < max
        invariant
            v@ == s,
            0 <= i <= v.len(),
            0 <= k <= s.len(),
            utf8_len(s.take(k)) == max,
            b == utf8_len(s.take(i as int)),
            b <= max,
            max < total,
            total == utf8_len(s),
        decreases max - b,
    {
        proof {
            if i >= k {
                lemma_prefix_bytes_grow(s, k, i as int);
            }
            if i == v.len() {
                assert(s.take(i as int) =~= s);
            }
        }
        let w = utf8_width(v[i]);
        proof {
            assert(s.take(i + 1) =~= s.take(i as int).push(s[i as int]));
            lemma_encode_push(s.take(i as int), s[i as int]);
            lemma_prefix_bytes_grow(s, i + 1, k);
        }
        b = b + w;
        i = i + 1;
    }
    let mut out = slice_chars(&v, 0, i);
    append_str(&mut out, "… [truncated, total ");
    push_decimal(&mut out, total as u64);
    append_str(&mut out, " bytes]");
    let r = string_from(out.as_slice());
    proof {
        assert(r@ =~= s.take(i as int) + truncation_note(utf8_len(s)));
    }
    r
}

/// An optional text for a log line: `truncate` of it, or `<none>`.
pub fn truncate_opt(value: Option<&str>, max: usize) -> (r: String)
    requires
        value matches Some(t) ==> utf8_len(t@) <= usize::MAX && (utf8_len(t@) <= max
            || exists|k: int| 0 <= k <= t@.len() && #[trigger] utf8_len(t@.take(k)) == max),
    ensures
        value is None ==> r@ == "<none>"@,
        value matches Some(t) ==> (utf8_len(t@) <= max ==> r@ == t@),
        value matches Some(t) ==> (utf8_len(t@) > max ==> exists|k: int|
            0 <= k <= t@.len() && #[trigger] utf8_len(t@.take(k)) == max && r@ == t@.take(k)
                + truncation_note(utf8_len(t@))),
{
    match value {
        Some(t) => truncate(t, max),
        None => copy_string("<none>"),
    }
}

} // verus!
