//! Chat messages, streaming events and the assembly of a streamed answer.
use vstd::prelude::*;

use crate::text::{append_chars, chars_of, eq_str, lower_chars, string_from, trim, trim_chars, ascii_lower};

verus! {

// ---------------------------------------------------------------------------
// Messages
// ---------------------------------------------------------------------------

/// Author of a chat message.
#[derive(Debug, Clone, Copy, PartialEq, Eq, Structural)]
pub enum Role {
    System,
    User,
    Assistant,
    Tool,
}

/// A function call requested by the model.
#[derive(Debug, Clone, PartialEq, Eq)]
pub struct ToolCall {
    pub id: String,
    pub name: String,
    pub arguments: String,
}

/// The mathematical value of a [`ToolCall`].
pub struct ToolCallView {
    pub id: Seq<char>,
    pub name: Seq<char>,
    pub arguments: Seq<char>,
}

impl View for ToolCall {
    type V = ToolCallView;

    open spec fn view(&self) -> ToolCallView {
        ToolCallView { id: self.id@, name: self.name@, arguments: self.arguments@ }
    }
}

/// One message of a conversation.
#[derive(Debug, Clone)]
pub struct Message {
    pub role: Role,
    pub content: Option<String>,
    pub tool_calls: Option<Vec<ToolCall>>,
    pub tool_call_id: Option<String>,
}

pub open spec fn opt_view(o: Option<String>) -> Option<Seq<char>> {
    match o {
        Some(s) => Some(s@),
        None => None,
    }
}

pub open spec fn calls_view(v: Seq<ToolCall>) -> Seq<ToolCallView> {
    v.map_values(|c: ToolCall| c@)
}

pub fn clone_calls(v: &Vec<ToolCall>) -> (r: Vec<ToolCall>)
    ensures
        calls_view(r@) == calls_view(v@),
{
    let mut r: Vec<ToolCall> = Vec::new();
    let mut i: usize = 0;
    while i < v.len()
        invariant
            0 <= i <= v.len(),
            calls_view(r@) == calls_view(v@).take(i as int),
        decreases v.len() - i,
    {
        let c = ToolCall { id: v[i].id.clone(), name: v[i].name.clone(), arguments: v[i].arguments.clone() };
        let ghost prev = r@;
        r.push(c);
        assert(calls_view(r@) =~= calls_view(prev).push(c@));
        assert(calls_view(v@).take(i + 1) =~= calls_view(v@).take(i as int).push(v@[i as int]@));
        i = i + 1;
    }
    assert(calls_view(v@).take(v.len() as int) =~= calls_view(v@));
    r
}

pub fn copy_string(s: &str) -> (r: String)
    ensures
        r@ == s@,
{
    string_from(chars_of(s).as_slice())
}

impl Message {
    pub fn system(content: &str) -> (m: Self)
        ensures
            m.role == Role::System,
            opt_view(m.content) == Some(content@),
            m.tool_calls is None,
            m.tool_call_id is None,
    {
        Message { role: Role::System, content: Some(copy_string(content)), tool_calls: None, tool_call_id: None }
    }

    pub fn user(content: &str) -> (m: Self)
        ensures
            m.role == Role::User,
            opt_view(m.content) == Some(content@),
            m.tool_calls is None,
            m.tool_call_id is None,
    {
        Message { role: Role::User, content: Some(copy_string(content)), tool_calls: None, tool_call_id: None }
    }

    /// An assistant message; empty text is stored as no content.
    pub fn assistant(content: String, tool_calls: Option<Vec<ToolCall>>) -> (m: Self)
        ensures
            m.role == Role::Assistant,
            opt_view(m.content) == (if content@.len() == 0 { None } else { Some(content@) }),
            m.tool_calls == tool_calls,
            m.tool_call_id is None,
    {
        let text = content;
        Message {
            role: Role::Assistant,
            content: if text.as_str().is_empty() { None } else { Some(text) },
            tool_calls,
            tool_call_id: None,
        }
    }

    pub fn assistant_with_calls(tool_calls: Vec<ToolCall>) -> (m: Self)
        ensures
            m.role == Role::Assistant,
            m.content is None,
            m.tool_calls == Some(tool_calls),
            m.tool_call_id is None,
    {
        Message { role: Role::Assistant, content: None, tool_calls: Some(tool_calls), tool_call_id: None }
    }

    /// The result of the tool call `tool_call_id`.
    pub fn tool(tool_call_id: &str, content: &str) -> (m: Self)
        ensures
            m.role == Role::Tool,
            opt_view(m.content) == Some(content@),
            m.tool_calls is None,
            opt_view(m.tool_call_id) == Some(tool_call_id@),
    {
        Message {
            role: Role::Tool,
            content: Some(copy_string(content)),
            tool_calls: None,
            tool_call_id: Some(copy_string(tool_call_id)),
        }
    }
}

/// The mathematical value of a [`Message`].
pub struct MessageView {
    pub role: Role,
    pub content: Option<Seq<char>>,
    pub tool_calls: Option<Seq<ToolCallView>>,
    pub tool_call_id: Option<Seq<char>>,
}

impl View for Message {
    type V = MessageView;

    open spec fn view(&self) -> MessageView {
        MessageView {
            role: self.role,
            content: opt_view(self.content),
            tool_calls: match self.tool_calls {
                Some(v) => Some(calls_view(v@)),
                None => None,
            },
            tool_call_id: opt_view(self.tool_call_id),
        }
    }
}

pub open spec fn messages_view(v: Seq<Message>) -> Seq<MessageView> {
    v.map_values(|m: Message| m@)
}

/// A copy of a message.
pub fn clone_message(m: &Message) -> (r: Message)
    ensures
        r@ == m@,
{
    Message {
        role: m.role,
        content: match &m.content {
            Some(c) => Some(c.clone()),
            None => None,
        },
        tool_calls: match &m.tool_calls {
            Some(v) => Some(clone_calls(v)),
            None => None,
        },
        tool_call_id: match &m.tool_call_id {
            Some(c) => Some(c.clone()),
            None => None,
        },
    }
}

/// Builds a tool call from the two shapes servers send: a nested
/// `function: { name, arguments }` object, or flat `name` / `arguments` fields.
/// The nested object wins; without it a name is required and the arguments default
/// to the empty string.
pub fn tool_call_from_parts(
    id: String,
    name: Option<String>,
    arguments: Option<String>,
    function: Option<(String, String)>,
) -> (r: Result<ToolCall, String>)
    ensures
        match function {
            Some(f) => r matches Ok(c) && c@ == ToolCallView { id: id@, name: f.0@, arguments: f.1@ },
            None => match name {
                Some(n) => r matches Ok(c) && c@ == ToolCallView {
                    id: id@,
                    name: n@,
                    arguments: match arguments { Some(a) => a@, None => Seq::empty() },
                },
                None => r matches Err(msg) && msg@ == "tool call missing name/function"@,
            },
        },
{
    if let Some(f) = function {
        return Ok(ToolCall { id, name: f.0, arguments: f.1 });
    }
    match name {
        Some(n) => Ok(ToolCall {
            id,
            name: n,
            arguments: match arguments {
                Some(a) => a,
                None => String::new(),
            },
        }),
        None => Err(copy_string("tool call missing name/function")),
    }
}

// ---------------------------------------------------------------------------
// Usage, tool format
// ---------------------------------------------------------------------------

/// Token counts of one response.
#[derive(Debug, Clone, Copy, Default, PartialEq, Eq, Structural)]
pub struct Usage {
    pub input_tokens: u32,
    pub output_tokens: u32,
}

pub open spec fn sat_add(a: u32, b: u32) -> u32 {
    if a + b > u32::MAX {
        u32::MAX
    } else {
        (a + b) as u32
    }
}

impl Usage {
    /// Adds `other` to the counters, saturating at `u32::MAX`.
    pub fn add_assign(&mut self, other: Self)
        ensures
            final(self).input_tokens == sat_add(old(self).input_tokens, other.input_tokens),
            final(self).output_tokens == sat_add(old(self).output_tokens, other.output_tokens),
    {
        self.input_tokens = self.input_tokens.saturating_add(other.input_tokens);
        self.output_tokens = self.output_tokens.saturating_add(other.output_tokens);
    }

    /// Input plus output tokens, saturating at `u32::MAX`.
    pub fn total(&self) -> (r: u32)
        ensures
            r == sat_add(self.input_tokens, self.output_tokens),
    {
        self.input_tokens.saturating_add(self.output_tokens)
    }
}

/// How tools are offered to an OpenAI-compatible endpoint.
#[derive(Debug, Clone, Copy, PartialEq, Eq, Default, Structural)]
pub enum ToolFormat {
    /// `tools` + `tool_choice` + `tool_calls`.
    Tools,
    /// Legacy `functions` + `function_call`; the default.
    #[default]
    Functions,
}

/// The format a configured name selects: `tools` (case and surrounding whitespace
/// ignored) selects the tools API; any other name, or none, the documented default,
/// the legacy `functions` format.
pub open spec fn tool_format_of(raw: Option<Seq<char>>) -> ToolFormat {
    match raw {
        Some(s) => if ascii_lower(trim(s)) == "tools"@ {
            ToolFormat::Tools
        } else {
            ToolFormat::Functions
        },
        None => ToolFormat::Functions,
    }
}

impl ToolFormat {
    /// Reads a configured format name: `tools` selects the tools API, anything else
    /// (or nothing) the legacy `functions` format.
    pub fn parse(raw: Option<&str>) -> (r: Self)
        ensures
            r == tool_format_of(
                match raw {
                    Some(s) => Some(s@),
                    None => None,
                },
            ),
    {
        match raw {
            None => ToolFormat::Functions,
            Some(s) => {
                let k = lower_chars(&trim_chars(&chars_of(s)));
                if eq_str(&k, "tools") {
                    ToolFormat::Tools
                } else {
                    ToolFormat::Functions
                }
            },
        }
    }
}

// ---------------------------------------------------------------------------
// Streaming events and their assembly
// ---------------------------------------------------------------------------

/// One event of a streamed chat response.
#[derive(Debug, Clone)]
pub enum StreamEvent {
    TextDelta(String),
    ToolCallDelta {
        index: u32,
        id: Option<String>,
        name: Option<String>,
        arguments: Option<String>,
    },
    Usage(Usage),
    Done,
}

/// The mathematical value of a [`StreamEvent`].
pub enum StreamEventView {
    TextDelta(Seq<char>),
    ToolCallDelta {
        index: u32,
        id: Option<Seq<char>>,
        name: Option<Seq<char>>,
        arguments: Option<Seq<char>>,
    },
    Usage(Usage),
    Done,
}

impl View for StreamEvent {
    type V = StreamEventView;

    open spec fn view(&self) -> StreamEventView {
        match self {
            StreamEvent::TextDelta(t) => StreamEventView::TextDelta(t@),
            StreamEvent::ToolCallDelta { index, id, name, arguments } => StreamEventView::ToolCallDelta {
                index: *index,
                id: opt_view(*id),
                name: opt_view(*name),
                arguments: opt_view(*arguments),
            },
            StreamEvent::Usage(u) => StreamEventView::Usage(*u),
            StreamEvent::Done => StreamEventView::Done,
        }
    }
}

pub open spec fn events_view(v: Seq<StreamEvent>) -> Seq<StreamEventView> {
    v.map_values(|e: StreamEvent| e@)
}

/// Aggregated assistant response after consuming a stream.
#[derive(Debug, Clone, Default)]
pub struct AssistantResponse {
    pub content: String,
    pub tool_calls: Vec<ToolCall>,
    pub usage: Option<Usage>,
}

/// A tool call being assembled from its deltas.
#[derive(Debug, Clone)]
pub struct PendingToolCall {
    pub index: u32,
    pub id: Option<String>,
    pub name: Option<String>,
    pub arguments: Vec<char>,
}

pub struct PendingView {
    pub index: u32,
    pub id: Option<Seq<char>>,
    pub name: Option<Seq<char>>,
    pub arguments: Seq<char>,
}

impl View for PendingToolCall {
    type V = PendingView;

    open spec fn view(&self) -> PendingView {
        PendingView { index: self.index, id: opt_view(self.id), name: opt_view(self.name), arguments: self.arguments@ }
    }
}

pub open spec fn pending_view(v: Seq<PendingToolCall>) -> Seq<PendingView> {
    v.map_values(|e: PendingToolCall| e@)
}

/// The state of an answer being assembled.
pub struct CollectView {
    pub content: Seq<char>,
    pub pending: Seq<PendingView>,
    pub usage: Option<Usage>,
}

/// Entries ordered by strictly increasing index (so no index occurs twice).
pub open spec fn sorted_pending(p: Seq<PendingView>) -> bool {
    forall|i: int, j: int| 0 <= i < j < p.len() ==> p[i].index < p[j].index
}

/// Number of leading entries whose index is below `idx`.
pub open spec fn find_pos(p: Seq<PendingView>, idx: u32) -> nat
    decreases p.len(),
{
    if p.len() == 0 {
        0
    } else if p[0].index < idx {
        1 + find_pos(p.drop_first(), idx)
    } else {
        0
    }
}

pub open spec fn opt_or(new: Option<Seq<char>>, old: Option<Seq<char>>) -> Option<Seq<char>> {
    if new is Some {
        new
    } else {
        old
    }
}

pub open spec fn opt_text(o: Option<Seq<char>>) -> Seq<char> {
    match o {
        Some(s) => s,
        None => Seq::empty(),
    }
}

/// A delta folded into an entry: a given id or name replaces the old one, and given
/// arguments are appended.
pub open spec fn merge_delta(
    e: PendingView,
    id: Option<Seq<char>>,
    name: Option<Seq<char>>,
    arguments: Option<Seq<char>>,
) -> PendingView {
    PendingView {
        index: e.index,
        id: opt_or(id, e.id),
        name: opt_or(name, e.name),
        arguments: e.arguments + opt_text(arguments),
    }
}

/// A delta folded into the pending calls: into the entry with its index, or into a
/// fresh entry inserted in index order.
pub open spec fn apply_delta(
    p: Seq<PendingView>,
    idx: u32,
    id: Option<Seq<char>>,
    name: Option<Seq<char>>,
    arguments: Option<Seq<char>>,
) -> Seq<PendingView> {
    let pos = find_pos(p, idx) as int;
    if pos < p.len() && p[pos].index == idx {
        p.update(pos, merge_delta(p[pos], id, name, arguments))
    } else {
        p.insert(
            pos,
            merge_delta(PendingView { index: idx, id: None, name: None, arguments: Seq::empty() }, id, name, arguments),
        )
    }
}

/// One event folded into the state.
pub open spec fn step(s: CollectView, e: StreamEventView) -> CollectView {
    match e {
        StreamEventView::TextDelta(t) => CollectView { content: s.content + t, ..s },
        StreamEventView::ToolCallDelta { index, id, name, arguments } => CollectView {
            pending: apply_delta(s.pending, index, id, name, arguments),
            ..s
        },
        StreamEventView::Usage(u) => CollectView { usage: Some(u), ..s },
        StreamEventView::Done => s,
    }
}

pub open spec fn initial_collect() -> CollectView {
    CollectView { content: Seq::empty(), pending: Seq::empty(), usage: None }
}

/// The state after folding a whole sequence of events.
pub open spec fn collect(events: Seq<StreamEventView>) -> CollectView
    decreases events.len(),
{
    if events.len() == 0 {
        initial_collect()
    } else {
        step(collect(events.drop_last()), events.last())
    }
}

/// The completed calls of a one-shot response: entries that have both an id and a
/// name, in index order.
pub open spec fn response_calls(p: Seq<PendingView>) -> Seq<ToolCallView>
    decreases p.len(),
{
    if p.len() == 0 {
        Seq::empty()
    } else {
        let rest = response_calls(p.drop_last());
        let e = p.last();
        if e.id is Some && e.name is Some {
            rest.push(ToolCallView { id: e.id.unwrap(), name: e.name.unwrap(), arguments: e.arguments })
        } else {
            rest
        }
    }
}

/// The id given to a call that arrived without one (function-calling mode).
pub open spec fn synthetic_id(name: Seq<char>) -> Seq<char> {
    "call_"@ + name
}

/// The calls of an agent turn: entries that have a name, in index order; a missing
/// id is replaced by `call_{name}`.
pub open spec fn turn_calls(p: Seq<PendingView>) -> Seq<ToolCallView>
    decreases p.len(),
{
    if p.len() == 0 {
        Seq::empty()
    } else {
        let rest = turn_calls(p.drop_last());
        let e = p.last();
        if e.name is Some {
            rest.push(
                ToolCallView {
                    id: match e.id {
                        Some(i) => i,
                        None => synthetic_id(e.name.unwrap()),
                    },
                    name: e.name.unwrap(),
                    arguments: e.arguments,
                },
            )
        } else {
            rest
        }
    }
}

proof fn lemma_find_pos_at(p: Seq<PendingView>, idx: u32, i: int)
    requires
        0 <= i <= p.len(),
        forall|k: int| 0 <= k < i ==> #[trigger] p[k].index < idx,
        i < p.len() ==> p[i].index >= idx,
    ensures
        find_pos(p, idx) == i,
    decreases i,
{
    if i > 0 {
        lemma_find_pos_at(p.drop_first(), idx, i - 1);
    }
}

proof fn lemma_insert_sorted(p: Seq<PendingView>, pos: int, v: PendingView)
    requires
        sorted_pending(p),
        0 <= pos <= p.len(),
        forall|k: int| 0 <= k < pos ==> #[trigger] p[k].index < v.index,
        forall|k: int| pos <= k < p.len() ==> #[trigger] p[k].index > v.index,
    ensures
        sorted_pending(p.insert(pos, v)),
{
    let q = p.insert(pos, v);
    assert forall|i: int, j: int| 0 <= i < j < q.len() implies q[i].index < q[j].index by {
        if j < pos {
            assert(q[i] == p[i] && q[j] == p[j]);
        } else if j == pos {
            assert(q[i] == p[i] && q[j] == v);
        } else if i == pos {
            assert(q[j] == p[j - 1] && q[i] == v);
        } else if i < pos {
            assert(q[j] == p[j - 1] && q[i] == p[i]);
        } else {
            assert(q[i] == p[i - 1] && q[j] == p[j - 1]);
        }
    }
}

proof fn lemma_update_sorted(p: Seq<PendingView>, pos: int, v: PendingView)
    requires
        sorted_pending(p),
        0 <= pos < p.len(),
        v.index == p[pos].index,
    ensures
        sorted_pending(p.update(pos, v)),
{
    let q = p.update(pos, v);
    assert forall|i: int, j: int| 0 <= i < j < q.len() implies q[i].index < q[j].index by {
        assert(q[i].index == p[i].index);
        assert(q[j].index == p[j].index);
    }
}

/// Folding a delta keeps the pending calls in strictly increasing index order.
pub proof fn lemma_apply_delta_sorted(
    p: Seq<PendingView>,
    idx: u32,
    id: Option<Seq<char>>,
    name: Option<Seq<char>>,
    arguments: Option<Seq<char>>,
)
    requires
        sorted_pending(p),
    ensures
        sorted_pending(apply_delta(p, idx, id, name, arguments)),
        find_pos(p, idx) <= p.len(),
{
    let pos = find_pos(p, idx) as int;
    lemma_find_pos_facts(p, idx);
    if pos < p.len() && p[pos].index == idx {
        lemma_update_sorted(p, pos, merge_delta(p[pos], id, name, arguments));
    } else {
        let v = merge_delta(PendingView { index: idx, id: None, name: None, arguments: Seq::empty() }, id, name, arguments);
        assert forall|k: int| pos <= k < p.len() implies #[trigger] p[k].index > v.index by {
            if k == pos {
                assert(p[pos].index >= idx);
            }
        }
        lemma_insert_sorted(p, pos, v);
    }
}

proof fn lemma_find_pos_facts(p: Seq<PendingView>, idx: u32)
    requires
        sorted_pending(p),
    ensures
        find_pos(p, idx) <= p.len(),
        forall|k: int| 0 <= k < find_pos(p, idx) ==> #[trigger] p[k].index < idx,
        find_pos(p, idx) < p.len() ==> p[find_pos(p, idx) as int].index >= idx,
        forall|k: int| find_pos(p, idx) < k < p.len() ==> #[trigger] p[k].index > idx,
    decreases p.len(),
{
    if p.len() > 0 {
        if p[0].index < idx {
            let t = p.drop_first();
            assert(sorted_pending(t));
            lemma_find_pos_facts(t, idx);
            assert forall|k: int| 0 <= k < find_pos(p, idx) implies #[trigger] p[k].index < idx by {
                if k > 0 {
                    assert(p[k] == t[k - 1]);
                }
            }
            assert forall|k: int| find_pos(p, idx) < k < p.len() implies #[trigger] p[k].index
                > idx by {
                assert(p[k] == t[k - 1]);
            }
            if find_pos(p, idx) < p.len() {
                assert(p[find_pos(p, idx) as int] == t[find_pos(t, idx) as int]);
            }
        } else {
            assert forall|k: int| find_pos(p, idx) < k < p.len() implies #[trigger] p[k].index
                > idx by {
                assert(p[0].index < p[k].index);
            }
        }
    }
}

/// Every reachable state keeps its pending calls in strictly increasing index order.
pub proof fn lemma_collect_sorted(events: Seq<StreamEventView>)
    ensures
        sorted_pending(collect(events).pending),
    decreases events.len(),
{
    if events.len() > 0 {
        lemma_collect_sorted(events.drop_last());
        let s = collect(events.drop_last());
        match events.last() {
            StreamEventView::ToolCallDelta { index, id, name, arguments } => {
                lemma_apply_delta_sorted(s.pending, index, id, name, arguments);
            },
            _ => {},
        }
    }
}

/// The entry kept for call `idx`, if any.
pub open spec fn entry_for(p: Seq<PendingView>, idx: u32) -> Option<PendingView>
    decreases p.len(),
{
    if p.len() == 0 {
        None
    } else if p[0].index == idx {
        Some(p[0])
    } else {
        entry_for(p.drop_first(), idx)
    }
}

/// All text deltas, concatenated in order.
pub open spec fn text_of(events: Seq<StreamEventView>) -> Seq<char>
    decreases events.len(),
{
    if events.len() == 0 {
        Seq::empty()
    } else {
        text_of(events.drop_last()) + match events.last() {
            StreamEventView::TextDelta(t) => t,
            _ => Seq::empty(),
        }
    }
}

/// The argument fragments of call `idx`, concatenated in order.
pub open spec fn fragments(events: Seq<StreamEventView>, idx: u32) -> Seq<char>
    decreases events.len(),
{
    if events.len() == 0 {
        Seq::empty()
    } else {
        fragments(events.drop_last(), idx) + match events.last() {
            StreamEventView::ToolCallDelta { index, arguments, .. } => if index == idx {
                opt_text(arguments)
            } else {
                Seq::empty()
            },
            _ => Seq::empty(),
        }
    }
}

/// Some delta of the stream concerns call `idx`.
pub open spec fn mentions(events: Seq<StreamEventView>, idx: u32) -> bool {
    exists|i: int|
        0 <= i < events.len() && (#[trigger] events[i] matches StreamEventView::ToolCallDelta {
            index,
            ..
        } && index == idx)
}

/// The last id given for call `idx`.
pub open spec fn last_id(events: Seq<StreamEventView>, idx: u32) -> Option<Seq<char>>
    decreases events.len(),
{
    if events.len() == 0 {
        None
    } else {
        match events.last() {
            StreamEventView::ToolCallDelta { index, id: Some(x), .. } if index == idx => Some(x),
            _ => last_id(events.drop_last(), idx),
        }
    }
}

/// The last name given for call `idx`.
pub open spec fn last_name(events: Seq<StreamEventView>, idx: u32) -> Option<Seq<char>>
    decreases events.len(),
{
    if events.len() == 0 {
        None
    } else {
        match events.last() {
            StreamEventView::ToolCallDelta { index, name: Some(x), .. } if index == idx => Some(x),
            _ => last_name(events.drop_last(), idx),
        }
    }
}

/// The last usage report.
pub open spec fn last_usage(events: Seq<StreamEventView>) -> Option<Usage>
    decreases events.len(),
{
    if events.len() == 0 {
        None
    } else {
        match events.last() {
            StreamEventView::Usage(u) => Some(u),
            _ => last_usage(events.drop_last()),
        }
    }
}

proof fn lemma_entry_for_at(p: Seq<PendingView>, idx: u32, k: int)
    requires
        sorted_pending(p),
        0 <= k < p.len(),
        p[k].index == idx,
    ensures
        entry_for(p, idx) == Some(p[k]),
    decreases k,
{
    if k > 0 {
        assert(p[0].index < p[k].index);
        let t = p.drop_first();
        assert(sorted_pending(t));
        assert(t[k - 1] == p[k]);
        lemma_entry_for_at(t, idx, k - 1);
    }
}

proof fn lemma_entry_for_none(p: Seq<PendingView>, idx: u32)
    requires
        forall|k: int| 0 <= k < p.len() ==> #[trigger] p[k].index != idx,
    ensures
        entry_for(p, idx) is None,
    decreases p.len(),
{
    if p.len() > 0 {
        let t = p.drop_first();
        assert forall|k: int| 0 <= k < t.len() implies #[trigger] t[k].index != idx by {
            assert(t[k] == p[k + 1]);
        }
        lemma_entry_for_none(t, idx);
    }
}

proof fn lemma_entry_for_some(p: Seq<PendingView>, idx: u32) -> (k: int)
    requires
        entry_for(p, idx) is Some,
    ensures
        0 <= k < p.len(),
        p[k].index == idx,
        entry_for(p, idx) == Some(p[k]),
    decreases p.len(),
{
    if p[0].index == idx {
        0
    } else {
        let j = lemma_entry_for_some(p.drop_first(), idx);
        j + 1
    }
}

pub open spec fn fresh_entry(idx: u32) -> PendingView {
    PendingView { index: idx, id: None, name: None, arguments: Seq::empty() }
}

/// How a delta for call `j` changes the entry kept for call `idx`.
proof fn lemma_entry_after_delta(
    p: Seq<PendingView>,
    j: u32,
    id: Option<Seq<char>>,
    name: Option<Seq<char>>,
    arguments: Option<Seq<char>>,
    idx: u32,
)
    requires
        sorted_pending(p),
    ensures
        entry_for(apply_delta(p, j, id, name, arguments), idx) == if j == idx {
            Some(
                merge_delta(
                    match entry_for(p, idx) {
                        Some(e) => e,
                        None => fresh_entry(idx),
                    },
                    id,
                    name,
                    arguments,
                ),
            )
        } else {
            entry_for(p, idx)
        },
{
    let pos = find_pos(p, j) as int;
    lemma_find_pos_facts(p, j);
    lemma_apply_delta_sorted(p, j, id, name, arguments);
    let q = apply_delta(p, j, id, name, arguments);
    let found = pos < p.len() && p[pos].index == j;
    if j == idx {
        if found {
            lemma_entry_for_at(p, idx, pos);
            lemma_entry_for_at(q, idx, pos);
        } else {
            assert forall|k: int| 0 <= k < p.len() implies #[trigger] p[k].index != idx by {
                if k < pos {
                } else if k == pos {
                } else {
                }
            }
            lemma_entry_for_none(p, idx);
            assert(q[pos].index == idx);
            lemma_entry_for_at(q, idx, pos);
        }
    } else {
        if entry_for(p, idx) is Some {
            let k = lemma_entry_for_some(p, idx);
            if found {
                assert(q[k] == (if k == pos { merge_delta(p[pos], id, name, arguments) } else { p[k] }));
                lemma_entry_for_at(q, idx, k);
            } else if k < pos {
                assert(q[k] == p[k]);
                lemma_entry_for_at(q, idx, k);
            } else {
                assert(q[k + 1] == p[k]);
                lemma_entry_for_at(q, idx, k + 1);
            }
        } else {
            assert forall|k: int| 0 <= k < p.len() implies #[trigger] p[k].index != idx by {
                if p[k].index == idx {
                    lemma_entry_for_at(p, idx, k);
                }
            }
            assert forall|k: int| 0 <= k < q.len() implies #[trigger] q[k].index != idx by {
                if found {
                    assert(q[k].index == p[k].index);
                } else if k < pos {
                    assert(q[k] == p[k]);
                } else if k > pos {
                    assert(q[k] == p[k - 1]);
                }
            }
            lemma_entry_for_none(q, idx);
        }
    }
}

proof fn lemma_unmentioned(events: Seq<StreamEventView>, idx: u32)
    requires
        !mentions(events, idx),
    ensures
        fragments(events, idx) == Seq::<char>::empty(),
        last_id(events, idx) is None,
        last_name(events, idx) is None,
    decreases events.len(),
{
    if events.len() > 0 {
        let prev = events.drop_last();
        assert(!mentions(prev, idx)) by {
            if mentions(prev, idx) {
                let i = choose|i: int|
                    0 <= i < prev.len() && (#[trigger] prev[i] matches StreamEventView::ToolCallDelta {
                        index,
                        ..
                    } && index == idx);
                assert(events[i] == prev[i]);
            }
        }
        lemma_unmentioned(prev, idx);
        assert(!(events[events.len() - 1] matches StreamEventView::ToolCallDelta { index, .. } && index == idx));
        assert(fragments(events, idx) =~= fragments(prev, idx));
    }
}

/// What a collected stream holds: the text is all text deltas in order; the last
/// usage report is kept; and the call with index `idx` is present exactly when some
/// delta concerns it, with its argument fragments concatenated in order and the last
/// id and name given for it.
pub proof fn lemma_collect_contents(events: Seq<StreamEventView>, idx: u32)
    ensures
        collect(events).content == text_of(events),
        collect(events).usage == last_usage(events),
        entry_for(collect(events).pending, idx) is Some <==> mentions(events, idx),
        entry_for(collect(events).pending, idx) matches Some(e) ==> {
            &&& e.index == idx
            &&& e.arguments == fragments(events, idx)
            &&& e.id == last_id(events, idx)
            &&& e.name == last_name(events, idx)
        },
    decreases events.len(),
{
    if events.len() == 0 {
        assert(!mentions(events, idx));
    } else {
        let prev = events.drop_last();
        lemma_collect_contents(prev, idx);
        lemma_collect_sorted(prev);
        let s = collect(prev);
        assert forall|i: int| 0 <= i < prev.len() implies #[trigger] prev[i] == events[i] by {}
        match events.last() {
            StreamEventView::ToolCallDelta { index, id, name, arguments } => {
                lemma_entry_after_delta(s.pending, index, id, name, arguments, idx);
                if index == idx {
                    assert(events[events.len() - 1] == events.last());
                } else {
                    if mentions(events, idx) {
                        let i = choose|i: int|
                            0 <= i < events.len() && (#[trigger] events[i] matches StreamEventView::ToolCallDelta {
                                index,
                                ..
                            } && index == idx);
                        assert(i < prev.len());
                        assert(prev[i] == events[i]);
                    }
                }
            },
            _ => {
                if mentions(events, idx) {
                    let i = choose|i: int|
                        0 <= i < events.len() && (#[trigger] events[i] matches StreamEventView::ToolCallDelta {
                            index,
                            ..
                        } && index == idx);
                    assert(i < prev.len());
                    assert(prev[i] == events[i]);
                }
            },
        }
        if entry_for(s.pending, idx) is None {
            lemma_unmentioned(prev, idx);
        }
    }
}

/// Accumulates the events of a streamed response.
pub struct ResponseCollector {
    content: Vec<char>,
    pending: Vec<PendingToolCall>,
    usage: Option<Usage>,
}

impl View for ResponseCollector {
    type V = CollectView;

    closed spec fn view(&self) -> CollectView {
        CollectView { content: self.content@, pending: pending_view(self.pending@), usage: self.usage }
    }
}

impl ResponseCollector {
    pub closed spec fn well_formed(&self) -> bool {
        sorted_pending(pending_view(self.pending@))
    }

    pub fn new() -> (r: Self)
        ensures
            r@ == initial_collect(),
            r.well_formed(),
    {
        let r = ResponseCollector { content: Vec::new(), pending: Vec::new(), usage: None };
        assert(r@.content =~= Seq::<char>::empty());
        assert(r@.pending =~= Seq::<PendingView>::empty());
        r
    }

    /// Folds one event into the state.
    pub fn push(&mut self, event: StreamEvent)
        requires
            old(self).well_formed(),
        ensures
            final(self).well_formed(),
            final(self)@ == step(old(self)@, event@),
    {
        match event {
            StreamEvent::TextDelta(text) => {
                let t = chars_of(text.as_str());
                append_chars(&mut self.content, &t);
            },
            StreamEvent::ToolCallDelta { index, id, name, arguments } => {
                proof {
                    lemma_apply_delta_sorted(self@.pending, index, opt_view(id), opt_view(name), opt_view(arguments));
                }
                self.apply(index, id, name, arguments);
            },
            StreamEvent::Usage(u) => {
                self.usage = Some(u);
            },
            StreamEvent::Done => {},
        }
    }

    fn apply(&mut self, idx: u32, id: Option<String>, name: Option<String>, arguments: Option<String>)
        requires
            old(self).well_formed(),
        ensures
            final(self).well_formed(),
            final(self)@ == (CollectView {
                pending: apply_delta(old(self)@.pending, idx, opt_view(id), opt_view(name), opt_view(arguments)),
                ..old(self)@
            }),
    {
        let ghost p = pending_view(self.pending@);
        proof {
            lemma_find_pos_facts(p, idx);
            lemma_apply_delta_sorted(p, idx, opt_view(id), opt_view(name), opt_view(arguments));
        }
        let mut i: usize = 0;
        while i < self.pending.len() && self.pending[i].index < idx
            invariant
                0 <= i <= self.pending.len(),
                p == pending_view(self.pending@),
                forall|k: int| 0 <= k < i ==> #[trigger] p[k].index < idx,
            decreases self.pending.len() - i,
        {
            i = i + 1;
        }
        proof {
            lemma_find_pos_at(p, idx, i as int);
        }
        let extra = match arguments {
            Some(a) => chars_of(a.as_str()),
            None => Vec::new(),
        };
        assert(extra@ == opt_text(opt_view(arguments)));
        if i < self.pending.len() && self.pending[i].index == idx {
            let old_entry = self.pending.remove(i);
            let mut args = old_entry.arguments;
            append_chars(&mut args, &extra);
            let entry = PendingToolCall {
                index: idx,
                id: match id {
                    Some(x) => Some(x),
                    None => old_entry.id,
                },
                name: match name {
                    Some(x) => Some(x),
                    None => old_entry.name,
                },
                arguments: args,
            };
            self.pending.insert(i, entry);
            assert(pending_view(self.pending@) =~= p.update(i as int, merge_delta(p[i as int], opt_view(id), opt_view(name), opt_view(arguments))));
        } else {
            let entry = PendingToolCall { index: idx, id, name, arguments: extra };
            self.pending.insert(i, entry);
            assert(pending_view(self.pending@) =~= p.insert(
                i as int,
                merge_delta(PendingView { index: idx, id: None, name: None, arguments: Seq::empty() }, opt_view(id), opt_view(name), opt_view(arguments)),
            ));
        }
    }

    /// The assembled one-shot response: the text, the calls that got both an id and
    /// a name (in index order), and the last usage report.
    pub fn finish_response(self) -> (r: AssistantResponse)
        ensures
            r.content@ == self@.content,
            calls_view(r.tool_calls@) == response_calls(self@.pending),
            r.usage == self@.usage,
    {
        let ghost p = self@.pending;
        let mut calls: Vec<ToolCall> = Vec::new();
        let mut i: usize = 0;
        assert(p.take(0) =~= Seq::<PendingView>::empty());
        while i < self.pending.len()
            invariant
                0 <= i <= self.pending.len(),
                p == pending_view(self.pending@),
                calls_view(calls@) == response_calls(p.take(i as int)),
            decreases self.pending.len() - i,
        {
            let e = &self.pending[i];
            assert(p.take(i + 1).drop_last() =~= p.take(i as int));
            assert(p[i as int] == e@);
            let ghost prev = calls@;
            match (&e.id, &e.name) {
                (Some(id), Some(name)) => {
                    let c = ToolCall { id: id.clone(), name: name.clone(), arguments: string_from(e.arguments.as_slice()) };
                    calls.push(c);
                    assert(calls_view(calls@) =~= calls_view(prev).push(c@));
                },
                _ => {},
            }
            i = i + 1;
        }
        assert(p.take(self.pending.len() as int) =~= p);
        AssistantResponse { content: string_from(self.content.as_slice()), tool_calls: calls, usage: self.usage }
    }

    /// The assembled agent response: the text, the calls that got a name (in index
    /// order, with `call_{name}` for a missing id), and the last usage report.
    pub fn finish_turn(self) -> (r: AssistantResponse)
        ensures
            r.content@ == self@.content,
            calls_view(r.tool_calls@) == turn_calls(self@.pending),
            r.usage == self@.usage,
    {
        let ghost p = self@.pending;
        let mut calls: Vec<ToolCall> = Vec::new();
        let mut i: usize = 0;
        assert(p.take(0) =~= Seq::<PendingView>::empty());
        while i < self.pending.len()
            invariant
                0 <= i <= self.pending.len(),
                p == pending_view(self.pending@),
                calls_view(calls@) == turn_calls(p.take(i as int)),
            decreases self.pending.len() - i,
        {
            let e = &self.pending[i];
            assert(p.take(i + 1).drop_last() =~= p.take(i as int));
            assert(p[i as int] == e@);
            let ghost prev = calls@;
            match &e.name {
                Some(name) => {
                    let id = match &e.id {
                        Some(id) => id.clone(),
                        None => {
                            let mut v = chars_of("call_");
                            append_chars(&mut v, &chars_of(name.as_str()));
                            string_from(v.as_slice())
                        },
                    };
                    let c = ToolCall { id, name: name.clone(), arguments: string_from(e.arguments.as_slice()) };
                    calls.push(c);
                    assert(calls_view(calls@) =~= calls_view(prev).push(c@));
                },
                None => {},
            }
            i = i + 1;
        }
        assert(p.take(self.pending.len() as int) =~= p);
        AssistantResponse { content: string_from(self.content.as_slice()), tool_calls: calls, usage: self.usage }
    }
}

pub fn clone_opt_string(o: &Option<String>) -> (r: Option<String>)
    ensures
        opt_view(r) == opt_view(*o),
{
    match o {
        Some(s) => Some(s.clone()),
        None => None,
    }
}

/// A copy of an event.
pub fn clone_event(e: &StreamEvent) -> (r: StreamEvent)
    ensures
        r@ == e@,
{
    match e {
        StreamEvent::TextDelta(t) => StreamEvent::TextDelta(t.clone()),
        StreamEvent::ToolCallDelta { index, id, name, arguments } => StreamEvent::ToolCallDelta {
            index: *index,
            id: clone_opt_string(id),
            name: clone_opt_string(name),
            arguments: clone_opt_string(arguments),
        },
        StreamEvent::Usage(u) => StreamEvent::Usage(*u),
        StreamEvent::Done => StreamEvent::Done,
    }
}

/// Collects a complete list of stream events into one response (the events of a
/// stream, in order).
pub fn collect_response(events: Vec<StreamEvent>) -> (r: AssistantResponse)
    ensures
        r.content@ == collect(events_view(events@)).content,
        calls_view(r.tool_calls@) == response_calls(collect(events_view(events@)).pending),
        r.usage == collect(events_view(events@)).usage,
{
    let ghost ev = events_view(events@);
    let mut c = ResponseCollector::new();
    let mut i: usize = 0;
    assert(ev.take(0) =~= Seq::<StreamEventView>::empty());
    while i < events.len()
        invariant
            0 <= i <= events.len(),
            ev == events_view(events@),
            c@ == collect(ev.take(i as int)),
            c.well_formed(),
        decreases events.len() - i,
    {
        let e = clone_event(&events[i]);
        assert(ev.take(i + 1).drop_last() =~= ev.take(i as int));
        assert(ev[i as int] == e@);
        c.push(e);
        i = i + 1;
    }
    assert(ev.take(events.len() as int) =~= ev);
    c.finish_response()
}

// ---------------------------------------------------------------------------
// Errors
// ---------------------------------------------------------------------------

/// Errors of the LLM layer.
#[derive(Debug)]
pub enum LlmError {
    /// No provider of this name is configured.
    ProviderNotConfigured { provider: String },
    /// No API key is configured and the named environment variable is unset.
    MissingApiKey { env: String },
    /// Any other configuration problem.
    Config(String),
    /// The HTTP transport failed; its message.
    Http(String),
    /// The API answered with a non-success status.
    Api { status: u16, message: String },
    /// A streamed payload could not be parsed.
    StreamParse(String),
    /// The configured `api_style` names no supported API.
    UnsupportedProvider(String),
}

} // verus!
