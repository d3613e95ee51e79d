//! Wire formats of the chat providers: server-sent-event framing, the OpenAI and
//! Anthropic streaming payloads, and the request messages each API expects.
use vstd::prelude::*;

use crate::json::{is_json, json_valid};
use crate::llm::{
    collect, entry_for, fragments, last_id, last_name, lemma_collect_contents, mentions, text_of,
    calls_view, copy_string, clone_message, events_view, messages_view, opt_view, Message, MessageView, Role,
    StreamEvent, StreamEventView, ToolCall, ToolCallView, ToolFormat, Usage,
};
use crate::text::{
    append_chars, chars_of, eq_chars, eq_str, lines, split_lines, starts_with, starts_with_str,
    string_from, trim, trim_chars, views, join_from, join,
};

verus! {

// ---------------------------------------------------------------------------
// Server-sent events
// ---------------------------------------------------------------------------

/// Text decoded from bytes with invalid sequences replaced by U+FFFD
/// (`String::from_utf8_lossy`).
pub uninterp spec fn utf8_lossy(bytes: Seq<u8>) -> Seq<char>;

/// Decodes a received chunk (`String::from_utf8_lossy`). The result is determined by
/// the bytes; for valid UTF-8 it is the decoded text.
#[verifier::external_body]
fn decode_lossy(bytes: &[u8]) -> (r: String)
    ensures
        r@ == utf8_lossy(bytes@),
        vstd::utf8::valid_utf8(bytes@) ==> r@ == vstd::utf8::decode_utf8(bytes@),
{
    String::from_utf8_lossy(bytes).into_owned()
}

/// Position of the first blank-line separator `"\n\n"`.
pub open spec fn first_separator(s: Seq<char>) -> Option<int>
    decreases s.len(),
{
    if s.len() < 2 {
        None
    } else if s[0] == '\n' && s[1] == '\n' {
        Some(0)
    } else {
        match first_separator(s.drop_first()) {
            Some(p) => Some(p + 1),
            None => None,
        }
    }
}

/// Splits buffered text into the complete event blocks and the unfinished rest.
#[verifier::opaque]
pub open spec fn sse_blocks(buf: Seq<char>) -> (Seq<Seq<char>>, Seq<char>)
    decreases buf.len(),
{
    match first_separator(buf) {
        Some(p) => {
            proof {
                lemma_first_separator_bound(buf);
            }
            let rest = sse_blocks(buf.skip(p + 2));
            (seq![buf.take(p)] + rest.0, rest.1)
        },
        None => (seq![], buf),
    }
}

pub proof fn lemma_first_separator_bound(s: Seq<char>)
    ensures
        first_separator(s) matches Some(p) ==> 0 <= p && p + 2 <= s.len() && s[p] == '\n' && s[p + 1] == '\n',
        first_separator(s) matches Some(p) ==> forall|k: int| 0 <= k < p ==> !(#[trigger] s[k] == '\n' && s[k + 1] == '\n'),
        first_separator(s) is None ==> forall|k: int| 0 <= k && k + 1 < s.len() ==> !(#[trigger] s[k] == '\n' && s[k + 1] == '\n'),
    decreases s.len(),
{
    if s.len() >= 2 && !(s[0] == '\n' && s[1] == '\n') {
        let t = s.drop_first();
        lemma_first_separator_bound(t);
        assert forall|k: int| 0 < k && k + 1 < s.len() implies (#[trigger] s[k] == t[k - 1] && s[k + 1] == t[k]) by {}
    }
}

proof fn lemma_first_separator_at(s: Seq<char>, p: int)
    requires
        0 <= p && p + 2 <= s.len(),
        s[p] == '\n' && s[p + 1] == '\n',
        forall|k: int| 0 <= k < p ==> !(#[trigger] s[k] == '\n' && s[k + 1] == '\n'),
    ensures
        first_separator(s) == Some(p),
    decreases p,
{
    if p > 0 {
        let t = s.drop_first();
        assert forall|k: int| 0 <= k < p - 1 implies !(#[trigger] t[k] == '\n' && t[k + 1] == '\n') by {
            assert(t[k] == s[k + 1] && t[k + 1] == s[k + 2]);
        }
        lemma_first_separator_at(t, p - 1);
    }
}

proof fn lemma_no_separator(s: Seq<char>)
    requires
        forall|k: int| 0 <= k && k + 1 < s.len() ==> !(#[trigger] s[k] == '\n' && s[k + 1] == '\n'),
    ensures
        first_separator(s) is None,
    decreases s.len(),
{
    if s.len() >= 2 {
        let t = s.drop_first();
        assert forall|k: int| 0 <= k && k + 1 < t.len() implies !(#[trigger] t[k] == '\n' && t[k + 1] == '\n') by {
            assert(t[k] == s[k + 1] && t[k + 1] == s[k + 2]);
        }
        lemma_no_separator(t);
    }
}

proof fn lemma_first_separator_prefix(x: Seq<char>, y: Seq<char>)
    ensures
        first_separator(x) matches Some(p) ==> first_separator(x + y) == Some(p),
{
    lemma_first_separator_bound(x);
    if let Some(p) = first_separator(x) {
        let xy = x + y;
        assert forall|k: int| 0 <= k < p implies !(#[trigger] xy[k] == '\n' && xy[k + 1] == '\n') by {
            assert(xy[k] == x[k] && xy[k + 1] == x[k + 1]);
            assert(!(x[k] == '\n' && x[k + 1] == '\n'));
        }
        assert(xy[p] == x[p] && xy[p + 1] == x[p + 1]);
        lemma_first_separator_at(xy, p);
    }
}

/// Splitting `x + y`: the blocks of `x`, then the blocks of what `x` left over
/// followed by `y`.
proof fn lemma_sse_blocks_append(x: Seq<char>, y: Seq<char>)
    ensures
        sse_blocks(x + y).0 == sse_blocks(x).0 + sse_blocks(sse_blocks(x).1 + y).0,
        sse_blocks(x + y).1 == sse_blocks(sse_blocks(x).1 + y).1,
    decreases x.len(),
{
    reveal(sse_blocks);
    lemma_first_separator_bound(x);
    lemma_first_separator_prefix(x, y);
    match first_separator(x) {
        Some(p) => {
            lemma_sse_blocks_append(x.skip(p + 2), y);
            assert((x + y).skip(p + 2) =~= x.skip(p + 2) + y);
            assert((x + y).take(p) =~= x.take(p));
            assert(sse_blocks(x + y).0 =~= seq![x.take(p)] + sse_blocks(x.skip(p + 2) + y).0);
            assert(sse_blocks(x).0 =~= seq![x.take(p)] + sse_blocks(x.skip(p + 2)).0);
            assert(sse_blocks(x).1 == sse_blocks(x.skip(p + 2)).1);
            assert(sse_blocks(x + y).0 =~= sse_blocks(x).0 + sse_blocks(sse_blocks(x).1 + y).0);
        },
        None => {
            assert(sse_blocks(x).0 =~= Seq::<Seq<char>>::empty());
            assert(sse_blocks(x).1 == x);
            assert(sse_blocks(x).0 + sse_blocks(x + y).0 =~= sse_blocks(x + y).0);
        },
    }
}

/// The split of a stream into received chunks does not matter: feeding `first` and
/// then `second` to a buffer holding `leftover` yields the same blocks, and leaves the
/// same unfinished rest, as feeding `first + second` at once.
pub proof fn lemma_sse_chunking(leftover: Seq<char>, first: Seq<char>, second: Seq<char>)
    ensures
        ({
            let once = sse_blocks(leftover + first);
            let twice = sse_blocks(once.1 + second);
            &&& once.0 + twice.0 == sse_blocks(leftover + first + second).0
            &&& twice.1 == sse_blocks(leftover + first + second).1
        }),
{
    lemma_sse_blocks_append(leftover + first, second);
}

/// Text received but not yet terminated by a blank line.
pub struct SseBuffer {
    pub leftover: Vec<char>,
}

impl SseBuffer {
    pub fn new() -> (r: Self)
        ensures
            r.leftover@ == Seq::<char>::empty(),
    {
        SseBuffer { leftover: Vec::new() }
    }
}

proof fn lemma_block_found(all: Seq<char>, start: int, i: int, prev: Seq<Seq<char>>)
    requires
        0 <= start <= i,
        i + 2 <= all.len(),
        all[i] == '\n' && all[i + 1] == '\n',
        forall|k: int| start <= k < i ==> !(#[trigger] all[k] == '\n' && all[k + 1] == '\n'),
        prev + sse_blocks(all.skip(start)).0 == sse_blocks(all).0,
        sse_blocks(all.skip(start)).1 == sse_blocks(all).1,
    ensures
        prev.push(all.subrange(start, i)) + sse_blocks(all.skip(i + 2)).0 == sse_blocks(all).0,
        sse_blocks(all.skip(i + 2)).1 == sse_blocks(all).1,
{
    let rest = all.skip(start);
    assert forall|k: int| 0 <= k < i - start implies !(#[trigger] rest[k] == '\n' && rest[k + 1] == '\n') by {
        assert(rest[k] == all[k + start] && rest[k + 1] == all[k + start + 1]);
    }
    assert(rest[i - start] == all[i] && rest[i - start + 1] == all[i + 1]);
    lemma_first_separator_at(rest, i - start);
    reveal(sse_blocks);
    assert(rest.take(i - start) =~= all.subrange(start, i));
    assert(rest.skip(i - start + 2) =~= all.skip(i + 2));
    assert(prev.push(all.subrange(start, i)) + sse_blocks(all.skip(i + 2)).0 =~= prev + sse_blocks(rest).0);
}

proof fn lemma_blocks_done(all: Seq<char>, start: int, prev: Seq<Seq<char>>)
    requires
        0 <= start <= all.len(),
        forall|k: int| start <= k && k + 1 < all.len() ==> !(#[trigger] all[k] == '\n' && all[k + 1] == '\n'),
        prev + sse_blocks(all.skip(start)).0 == sse_blocks(all).0,
        sse_blocks(all.skip(start)).1 == sse_blocks(all).1,
    ensures
        prev == sse_blocks(all).0,
        all.subrange(start, all.len() as int) == sse_blocks(all).1,
{
    let rest = all.skip(start);
    assert forall|k: int| 0 <= k && k + 1 < rest.len() implies !(#[trigger] rest[k] == '\n' && rest[k + 1] == '\n') by {
        assert(rest[k] == all[k + start] && rest[k + 1] == all[k + start + 1]);
    }
    lemma_no_separator(rest);
    reveal(sse_blocks);
    assert(prev + Seq::<Seq<char>>::empty() =~= prev);
    assert(rest =~= all.subrange(start, all.len() as int));
}

/// Appends `text` to the buffer and removes the complete blocks, returning them.
pub fn take_blocks(buf: &mut SseBuffer, text: &str) -> (blocks: Vec<Vec<char>>)
    ensures
        views(blocks@) == sse_blocks(old(buf).leftover@ + text@).0,
        final(buf).leftover@ == sse_blocks(old(buf).leftover@ + text@).1,
{
    let t = chars_of(text);
    append_chars(&mut buf.leftover, &t);
    let ghost all = buf.leftover@;
    let s = &buf.leftover;
    let n = s.len();
    let mut blocks: Vec<Vec<char>> = Vec::new();
    let mut start: usize = 0;
    let mut i: usize = 0;
    assert(all.skip(0) =~= all);
    assert(views(blocks@) =~= Seq::<Seq<char>>::empty());
    while i < n && i + 1 < n
        invariant
            s@ == all,
            n == s.len(),
            start <= i <= n,
            views(blocks@) + sse_blocks(all.skip(start as int)).0 == sse_blocks(all).0,
            sse_blocks(all.skip(start as int)).1 == sse_blocks(all).1,
            forall|k: int| start <= k < i ==> !(#[trigger] all[k] == '\n' && all[k + 1] == '\n'),
        decreases n - i,
    {
        if s[i] == '\n' && s[i + 1] == '\n' {
            proof {
                lemma_block_found(all, start as int, i as int, views(blocks@));
            }
            let b = crate::text::slice_chars(s, start, i);
            let ghost prev = blocks@;
            blocks.push(b);
            assert(views(blocks@) =~= views(prev).push(b@));
            start = i + 2;
            i = i + 2;
        } else {
            i = i + 1;
        }
    }
    proof {
        lemma_blocks_done(all, start as int, views(blocks@));
    }
    let left = crate::text::slice_chars(s, start, n);
    buf.leftover = left;
    blocks
}

/// One `data:` payload of an OpenAI stream.
#[derive(Debug, Clone, PartialEq, Eq)]
pub enum SseData {
    /// The `[DONE]` marker.
    Done,
    /// A JSON chunk, as text.
    Payload(String),
}

pub enum SseDataView {
    Done,
    Payload(Seq<char>),
}

impl View for SseData {
    type V = SseDataView;

    open spec fn view(&self) -> SseDataView {
        match self {
            SseData::Done => SseDataView::Done,
            SseData::Payload(p) => SseDataView::Payload(p@),
        }
    }
}

pub open spec fn data_view(v: Seq<SseData>) -> Seq<SseDataView> {
    v.map_values(|d: SseData| d@)
}

/// The `data:` payloads of one line: a trimmed line starting with `data: ` carries the
/// rest of the line; `[DONE]` ends the stream.
pub open spec fn line_data(line: Seq<char>) -> Seq<SseDataView> {
    let l = trim(line);
    if starts_with(l, "data: "@) {
        let d = l.skip(6);
        if d == "[DONE]"@ {
            seq![SseDataView::Done]
        } else {
            seq![SseDataView::Payload(d)]
        }
    } else {
        seq![]
    }
}

pub open spec fn lines_data(ls: Seq<Seq<char>>) -> Seq<SseDataView>
    decreases ls.len(),
{
    if ls.len() == 0 {
        seq![]
    } else {
        lines_data(ls.drop_last()) + line_data(ls.last())
    }
}

pub open spec fn blocks_data(bs: Seq<Seq<char>>) -> Seq<SseDataView>
    decreases bs.len(),
{
    if bs.len() == 0 {
        seq![]
    } else {
        blocks_data(bs.drop_last()) + lines_data(lines(bs.last()))
    }
}

fn data_of_line(line: &Vec<char>, out: &mut Vec<SseData>)
    ensures
        data_view(final(out)@) == data_view(old(out)@) + line_data(line@),
{
    let l = trim_chars(line);
    let ghost before = out@;
    if starts_with_str(&l, "data: ") {
        proof {
            vstd::string::axiom_str_literal_len("data: ");
            reveal_strlit("data: ");
        }
        assert("data: "@.len() == 6);
        let d = crate::text::slice_chars(&l, 6, l.len());
        assert(d@ =~= l@.skip(6));
        if eq_str(&d, "[DONE]") {
            out.push(SseData::Done);
        } else {
            out.push(SseData::Payload(string_from(d.as_slice())));
        }
        assert(data_view(out@) =~= data_view(before) + line_data(line@));
    } else {
        assert(data_view(out@) =~= data_view(before) + line_data(line@));
    }
}

/// Feeds a received chunk of an OpenAI stream and returns the payloads of the blocks
/// it completes, in order.
pub fn parse_sse_chunk(buf: &mut SseBuffer, bytes: &[u8]) -> (r: Vec<SseData>)
    ensures
        data_view(r@) == blocks_data(sse_blocks(old(buf).leftover@ + utf8_lossy(bytes@)).0),
        final(buf).leftover@ == sse_blocks(old(buf).leftover@ + utf8_lossy(bytes@)).1,
{
    let text = decode_lossy(bytes);
    let blocks = take_blocks(buf, text.as_str());
    let ghost bv = views(blocks@);
    let mut out: Vec<SseData> = Vec::new();
    let mut b: usize = 0;
    assert(bv.take(0) =~= Seq::<Seq<char>>::empty());
    assert(data_view(out@) =~= Seq::<SseDataView>::empty());
    while b < blocks.len()
        invariant
            0 <= b <= blocks.len(),
            bv == views(blocks@),
            data_view(out@) == blocks_data(bv.take(b as int)),
        decreases blocks.len() - b,
    {
        let ls = split_lines(&blocks[b]);
        let ghost lv = views(ls@);
        let ghost start = data_view(out@);
        let mut k: usize = 0;
        assert(lv.take(0) =~= Seq::<Seq<char>>::empty());
        assert(start + lines_data(lv.take(0)) =~= start);
        while k < ls.len()
            invariant
                0 <= k <= ls.len(),
                lv == views(ls@),
                data_view(out@) == start + lines_data(lv.take(k as int)),
            decreases ls.len() - k,
        {
            data_of_line(&ls[k], &mut out);
            assert(lv.take(k + 1).drop_last() =~= lv.take(k as int));
            assert(lv[k as int] == ls@[k as int]@);
            k = k + 1;
        }
        assert(lv.take(ls.len() as int) =~= lv);
        assert(bv.take(b + 1).drop_last() =~= bv.take(b as int));
        assert(bv[b as int] == blocks@[b as int]@);
        b = b + 1;
    }
    assert(bv.take(blocks.len() as int) =~= bv);
    out
}

/// One event block of an Anthropic stream: its `event:` name and `data:` payload.
#[derive(Debug, Clone, PartialEq, Eq)]
pub struct AnthropicFrame {
    pub event: String,
    pub data: String,
}

pub struct FrameView {
    pub event: Seq<char>,
    pub data: Seq<char>,
}

/// The frame of one block: the last `event: ` line gives the (trimmed) name, the last
/// `data: ` line the payload; blocks without a payload are skipped.
pub open spec fn frame_scan(ls: Seq<Seq<char>>) -> FrameView
    decreases ls.len(),
{
    if ls.len() == 0 {
        FrameView { event: Seq::empty(), data: Seq::empty() }
    } else {
        let f = frame_scan(ls.drop_last());
        let l = ls.last();
        if starts_with(l, "event: "@) {
            FrameView { event: trim(l.skip(7)), ..f }
        } else if starts_with(l, "data: "@) {
            FrameView { data: l.skip(6), ..f }
        } else {
            f
        }
    }
}

pub open spec fn frames_of(bs: Seq<Seq<char>>) -> Seq<FrameView>
    decreases bs.len(),
{
    if bs.len() == 0 {
        seq![]
    } else {
        let f = frame_scan(lines(bs.last()));
        frames_of(bs.drop_last()) + if f.data.len() == 0 {
            seq![]
        } else {
            seq![f]
        }
    }
}

pub open spec fn frames_view(v: Seq<AnthropicFrame>) -> Seq<FrameView> {
    v.map_values(|f: AnthropicFrame| FrameView { event: f.event@, data: f.data@ })
}

fn frame_of_block(block: &Vec<char>) -> (r: (Vec<char>, Vec<char>))
    ensures
        r.0@ == frame_scan(lines(block@)).event,
        r.1@ == frame_scan(lines(block@)).data,
{
    let ls = split_lines(block);
    let ghost lv = views(ls@);
    let mut event: Vec<char> = Vec::new();
    let mut data: Vec<char> = Vec::new();
    let mut k: usize = 0;
    proof {
        vstd::string::axiom_str_literal_len("event: ");
        vstd::string::axiom_str_literal_len("data: ");
        reveal_strlit("event: ");
        reveal_strlit("data: ");
    }
    assert(lv.take(0) =~= Seq::<Seq<char>>::empty());
    while k < ls.len()
        invariant
            0 <= k <= ls.len(),
            lv == views(ls@),
            "event: "@.len() == 7,
            "data: "@.len() == 6,
            event@ == frame_scan(lv.take(k as int)).event,
            data@ == frame_scan(lv.take(k as int)).data,
        decreases ls.len() - k,
    {
        let l = &ls[k];
        assert(lv.take(k + 1).drop_last() =~= lv.take(k as int));
        assert(lv[k as int] == l@);
        if starts_with_str(l, "event: ") {
            let rest = crate::text::slice_chars(l, 7, l.len());
            assert(rest@ =~= l@.skip(7));
            event = trim_chars(&rest);
        } else if starts_with_str(l, "data: ") {
            let rest = crate::text::slice_chars(l, 6, l.len());
            assert(rest@ =~= l@.skip(6));
            data = rest;
        }
        k = k + 1;
    }
    assert(lv.take(ls.len() as int) =~= lv);
    (event, data)
}

/// Feeds a received chunk of an Anthropic stream and returns the frames of the
/// blocks it completes, in order.
pub fn parse_anthropic_sse(buf: &mut SseBuffer, bytes: &[u8]) -> (r: Vec<AnthropicFrame>)
    ensures
        frames_view(r@) == frames_of(sse_blocks(old(buf).leftover@ + utf8_lossy(bytes@)).0),
        final(buf).leftover@ == sse_blocks(old(buf).leftover@ + utf8_lossy(bytes@)).1,
{
    let text = decode_lossy(bytes);
    let blocks = take_blocks(buf, text.as_str());
    let ghost bv = views(blocks@);
    let mut out: Vec<AnthropicFrame> = Vec::new();
    let mut b: usize = 0;
    assert(bv.take(0) =~= Seq::<Seq<char>>::empty());
    assert(frames_view(out@) =~= Seq::<FrameView>::empty());
    while b < blocks.len()
        invariant
            0 <= b <= blocks.len(),
            bv == views(blocks@),
            frames_view(out@) == frames_of(bv.take(b as int)),
        decreases blocks.len() - b,
    {
        let (event, data) = frame_of_block(&blocks[b]);
        let ghost prev = out@;
        assert(bv.take(b + 1).drop_last() =~= bv.take(b as int));
        assert(bv[b as int] == blocks@[b as int]@);
        if data.len() > 0 {
            let f = AnthropicFrame { event: string_from(event.as_slice()), data: string_from(data.as_slice()) };
            out.push(f);
            assert(frames_view(out@) =~= frames_view(prev).push(FrameView { event: event@, data: data@ }));
        }
        assert(frames_view(out@) =~= frames_of(bv.take(b + 1)));
        b = b + 1;
    }
    assert(bv.take(blocks.len() as int) =~= bv);
    out
}

// ---------------------------------------------------------------------------
// OpenAI streaming chunks
// ---------------------------------------------------------------------------

/// A streamed chat-completion chunk.
#[derive(Debug)]
pub struct ChatCompletionChunk {
    pub choices: Vec<StreamChoice>,
    pub usage: Option<OpenAiUsage>,
}

#[derive(Debug)]
pub struct StreamChoice {
    pub delta: StreamDelta,
    pub finish_reason: Option<String>,
}

#[derive(Debug, Default)]
pub struct StreamDelta {
    pub content: Option<String>,
    pub tool_calls: Option<Vec<StreamToolCallDelta>>,
    pub function_call: Option<StreamFunctionDelta>,
}

/// A tool-call fragment; some servers flatten `name` and `arguments` out of
/// `function`.
#[derive(Debug)]
pub struct StreamToolCallDelta {
    pub index: u32,
    pub id: Option<String>,
    pub function: Option<StreamFunctionDelta>,
    pub name: Option<String>,
    pub arguments: Option<String>,
}

#[derive(Debug)]
pub struct StreamFunctionDelta {
    pub name: Option<String>,
    pub arguments: Option<String>,
}

#[derive(Debug, Clone, Copy)]
pub struct OpenAiUsage {
    pub prompt_tokens: u32,
    pub completion_tokens: u32,
}

fn clone_opt(o: &Option<String>) -> (r: Option<String>)
    ensures
        opt_view(r) == opt_view(*o),
{
    match o {
        Some(s) => Some(s.clone()),
        None => None,
    }
}

/// The nested value if present, otherwise the flat one.
pub open spec fn nested_or_flat(nested: Option<Option<String>>, flat: Option<String>) -> Option<Seq<char>> {
    match nested {
        Some(Some(v)) => Some(v@),
        _ => opt_view(flat),
    }
}

impl StreamToolCallDelta {
    pub fn id(&self) -> (r: Option<String>)
        ensures
            opt_view(r) == opt_view(self.id),
    {
        clone_opt(&self.id)
    }

    /// The function name, from `function` or else from the flat field.
    pub fn name(&self) -> (r: Option<String>)
        ensures
            opt_view(r) == nested_or_flat(
                match self.function { Some(f) => Some(f.name), None => None },
                self.name,
            ),
    {
        match &self.function {
            Some(f) => match &f.name {
                Some(n) => Some(n.clone()),
                None => clone_opt(&self.name),
            },
            None => clone_opt(&self.name),
        }
    }

    /// The argument fragment, from `function` or else from the flat field.
    pub fn arguments(&self) -> (r: Option<String>)
        ensures
            opt_view(r) == nested_or_flat(
                match self.function { Some(f) => Some(f.arguments), None => None },
                self.arguments,
            ),
    {
        match &self.function {
            Some(f) => match &f.arguments {
                Some(a) => Some(a.clone()),
                None => clone_opt(&self.arguments),
            },
            None => clone_opt(&self.arguments),
        }
    }
}

pub fn usage_to_usage(usage: &OpenAiUsage) -> (r: Usage)
    ensures
        r == (Usage { input_tokens: usage.prompt_tokens, output_tokens: usage.completion_tokens }),
{
    Usage { input_tokens: usage.prompt_tokens, output_tokens: usage.completion_tokens }
}

pub open spec fn tool_delta_events(tcs: Seq<StreamToolCallDelta>) -> Seq<StreamEventView>
    decreases tcs.len(),
{
    if tcs.len() == 0 {
        seq![]
    } else {
        let tc = tcs.last();
        tool_delta_events(tcs.drop_last()).push(
            StreamEventView::ToolCallDelta {
                index: tc.index,
                id: opt_view(tc.id),
                name: nested_or_flat(match tc.function { Some(f) => Some(f.name), None => None }, tc.name),
                arguments: nested_or_flat(
                    match tc.function { Some(f) => Some(f.arguments), None => None },
                    tc.arguments,
                ),
            },
        )
    }
}

/// The events of one choice: non-empty text, then a legacy `function_call` as the
/// call with index 0, then each tool-call fragment.
pub open spec fn choice_events(c: StreamChoice) -> Seq<StreamEventView> {
    text_part(c) + function_part(c) + tools_part(c)
}

pub open spec fn text_part(c: StreamChoice) -> Seq<StreamEventView> {
    match c.delta.content {
        Some(t) => if t@.len() > 0 { seq![StreamEventView::TextDelta(t@)] } else { seq![] },
        None => seq![],
    }
}

pub open spec fn function_part(c: StreamChoice) -> Seq<StreamEventView> {
    match c.delta.function_call {
        Some(f) => seq![StreamEventView::ToolCallDelta { index: 0, id: None, name: opt_view(f.name), arguments: opt_view(f.arguments) }],
        None => seq![],
    }
}

pub open spec fn tools_part(c: StreamChoice) -> Seq<StreamEventView> {
    match c.delta.tool_calls {
        Some(tcs) => tool_delta_events(tcs@),
        None => seq![],
    }
}

pub open spec fn choices_events(cs: Seq<StreamChoice>) -> Seq<StreamEventView>
    decreases cs.len(),
{
    if cs.len() == 0 {
        seq![]
    } else {
        choices_events(cs.drop_last()) + choice_events(cs.last())
    }
}

/// The events of a chunk: its usage report first, then the events of each choice.
pub open spec fn chunk_events(chunk: ChatCompletionChunk) -> Seq<StreamEventView> {
    (match chunk.usage {
        Some(u) => seq![StreamEventView::Usage(Usage { input_tokens: u.prompt_tokens, output_tokens: u.completion_tokens })],
        None => seq![],
    }) + choices_events(chunk.choices@)
}

fn push_choice_events(c: &StreamChoice, out: &mut Vec<StreamEvent>)
    ensures
        events_view(final(out)@) == events_view(old(out)@) + choice_events(*c),
{
    let ghost start = events_view(out@);
    let ghost part1 = text_part(*c);
    let ghost part2 = function_part(*c);
    if let Some(content) = &c.delta.content {
        if !content.as_str().is_empty() {
            let e = StreamEvent::TextDelta(content.clone());
            out.push(e);
        }
    }
    assert(events_view(out@) =~= start + part1);
    if let Some(f) = &c.delta.function_call {
        let e = StreamEvent::ToolCallDelta { index: 0, id: None, name: clone_opt(&f.name), arguments: clone_opt(&f.arguments) };
        out.push(e);
    }
    assert(events_view(out@) =~= start + part1 + part2);
    if let Some(tcs) = &c.delta.tool_calls {
        let ghost mid = events_view(out@);
        let mut i: usize = 0;
        assert(tcs@.take(0) =~= Seq::<StreamToolCallDelta>::empty());
        assert(mid + tool_delta_events(tcs@.take(0)) =~= mid);
        while i < tcs.len()
            invariant
                0 <= i <= tcs.len(),
                events_view(out@) == mid + tool_delta_events(tcs@.take(i as int)),
            decreases tcs.len() - i,
        {
            let tc = &tcs[i];
            let e = StreamEvent::ToolCallDelta { index: tc.index, id: tc.id(), name: tc.name(), arguments: tc.arguments() };
            let ghost before = out@;
            out.push(e);
            assert(tcs@.take(i + 1).drop_last() =~= tcs@.take(i as int));
            assert(events_view(out@) =~= events_view(before).push(e@));
            i = i + 1;
        }
        assert(tcs@.take(tcs.len() as int) =~= tcs@);
    } else {
    }
    assert(events_view(out@) =~= start + choice_events(*c));
}

/// The event of a tool-call fragment: its index and id, and its name and arguments
/// from `function` or else from the flat fields.
pub open spec fn fragment_event(tc: StreamToolCallDelta) -> StreamEventView {
    StreamEventView::ToolCallDelta {
        index: tc.index,
        id: opt_view(tc.id),
        name: nested_or_flat(
            match tc.function {
                Some(f) => Some(f.name),
                None => None,
            },
            tc.name,
        ),
        arguments: nested_or_flat(
            match tc.function {
                Some(f) => Some(f.arguments),
                None => None,
            },
            tc.arguments,
        ),
    }
}

/// The event of a usage report.
pub open spec fn usage_event(u: OpenAiUsage) -> StreamEventView {
    StreamEventView::Usage(Usage { input_tokens: u.prompt_tokens, output_tokens: u.completion_tokens })
}

/// The text the choices of a chunk carry: their contents, concatenated.
pub open spec fn choices_text(cs: Seq<StreamChoice>) -> Seq<char>
    decreases cs.len(),
{
    if cs.len() == 0 {
        seq![]
    } else {
        choices_text(cs.drop_last()) + match cs.last().delta.content {
            Some(t) => t@,
            None => seq![],
        }
    }
}

proof fn lemma_text_of_concat(a: Seq<StreamEventView>, b: Seq<StreamEventView>)
    ensures
        text_of(a + b) == text_of(a) + text_of(b),
    decreases b.len(),
{
    if b.len() == 0 {
        assert(a + b =~= a);
    } else {
        lemma_text_of_concat(a, b.drop_last());
        assert((a + b).drop_last() =~= a + b.drop_last());
    }
}

proof fn lemma_tool_delta_events(tcs: Seq<StreamToolCallDelta>)
    ensures
        tool_delta_events(tcs).len() == tcs.len(),
        text_of(tool_delta_events(tcs)) == Seq::<char>::empty(),
        forall|k: int|
            0 <= k < tcs.len() ==> #[trigger] tool_delta_events(tcs)[k]
                == fragment_event(tcs[k]),
    decreases tcs.len(),
{
    if tcs.len() > 0 {
        lemma_tool_delta_events(tcs.drop_last());
        let prev = tool_delta_events(tcs.drop_last());
        assert(tool_delta_events(tcs).drop_last() =~= prev);
        assert(text_of(tool_delta_events(tcs)) =~= text_of(prev) + Seq::<char>::empty());
    } else {
        assert(text_of(tool_delta_events(tcs)) =~= Seq::<char>::empty());
    }
}

proof fn lemma_choice_text(c: StreamChoice)
    ensures
        text_of(choice_events(c)) == match c.delta.content {
            Some(t) => t@,
            None => Seq::<char>::empty(),
        },
{
    let t1 = text_part(c);
    let t2 = function_part(c);
    let t3 = tools_part(c);
    lemma_text_of_concat(t1 + t2, t3);
    lemma_text_of_concat(t1, t2);
    if let Some(tcs) = c.delta.tool_calls {
        lemma_tool_delta_events(tcs@);
    }
    assert(text_of(seq![]) == Seq::<char>::empty());
    if let Some(t) = c.delta.content {
        if t@.len() > 0 {
            assert(seq![StreamEventView::TextDelta(t@)].drop_last() =~= Seq::<StreamEventView>::empty());
        } else {
            assert(t@ =~= Seq::<char>::empty());
        }
    }
    if let Some(f) = c.delta.function_call {
        let e = seq![StreamEventView::ToolCallDelta { index: 0, id: None, name: opt_view(f.name), arguments: opt_view(f.arguments) }];
        assert(e.drop_last() =~= Seq::<StreamEventView>::empty());
    }
}

/// The text of a chunk's events is the text of its choices, in order: no content is
/// dropped, repeated or reordered.
pub proof fn lemma_chunk_text(chunk: ChatCompletionChunk)
    ensures
        text_of(chunk_events(chunk)) == choices_text(chunk.choices@),
{
    let u = match chunk.usage {
        Some(u) => seq![StreamEventView::Usage(Usage { input_tokens: u.prompt_tokens, output_tokens: u.completion_tokens })],
        None => Seq::<StreamEventView>::empty(),
    };
    lemma_text_of_concat(u, choices_events(chunk.choices@));
    assert(text_of(u) =~= Seq::<char>::empty()) by {
        let e = Seq::<StreamEventView>::empty();
        assert(text_of(e) =~= Seq::<char>::empty());
        if u.len() > 0 {
            assert(u.drop_last() =~= e);
            assert(text_of(u) =~= text_of(e) + Seq::<char>::empty());
        }
    }
    lemma_choices_text(chunk.choices@);
}

proof fn lemma_choices_text(cs: Seq<StreamChoice>)
    ensures
        text_of(choices_events(cs)) == choices_text(cs),
    decreases cs.len(),
{
    if cs.len() > 0 {
        lemma_choices_text(cs.drop_last());
        lemma_text_of_concat(choices_events(cs.drop_last()), choice_events(cs.last()));
        lemma_choice_text(cs.last());
    }
}

/// A chunk's events begin with its usage report when it has one.
pub proof fn lemma_chunk_usage_first(chunk: ChatCompletionChunk, u: OpenAiUsage)
    requires
        chunk.usage == Some(u),
    ensures
        chunk_events(chunk)[0] == usage_event(u),
{
}

/// A chunk whose one choice carries non-empty text `t` and a legacy `function_call`
/// yields the text first and then that call as the tool call with index 0, with the
/// call's name and argument fragment.
pub proof fn lemma_chunk_function_call(chunk: ChatCompletionChunk, t: Seq<char>, f: StreamFunctionDelta)
    requires
        chunk.usage is None,
        chunk.choices@.len() == 1,
        opt_view(chunk.choices@[0].delta.content) == Some(t),
        t.len() > 0,
        chunk.choices@[0].delta.function_call == Some(f),
        chunk.choices@[0].delta.tool_calls is None,
    ensures
        chunk_events(chunk) == seq![
            StreamEventView::TextDelta(t),
            function_event(opt_view(f.name), opt_view(f.arguments)),
        ],
{
    let cs = chunk.choices@;
    let e = Seq::<StreamEventView>::empty();
    assert(cs.drop_last() =~= Seq::<StreamChoice>::empty());
    assert(choices_events(cs.drop_last()) == e);
    assert(text_part(cs[0]) == seq![StreamEventView::TextDelta(t)]);
    assert(function_part(cs[0]) == seq![function_event(opt_view(f.name), opt_view(f.arguments))]);
    assert(tools_part(cs[0]) == e);
    assert(choices_events(cs) =~= e + choice_events(cs[0]));
    assert(chunk_events(chunk) =~= seq![
        StreamEventView::TextDelta(t),
        function_event(opt_view(f.name), opt_view(f.arguments)),
    ]);
}

/// The event of a legacy `function_call`: the tool call with index 0.
pub open spec fn function_event(name: Option<Seq<char>>, arguments: Option<Seq<char>>) -> StreamEventView {
    StreamEventView::ToolCallDelta { index: 0, id: None, name, arguments }
}

/// A chunk whose one choice carries only tool-call fragments yields one tool-call event
/// per fragment, in order, each with the fragment's index and id, and its name and
/// arguments taken from `function` or else from the flat fields.
pub proof fn lemma_chunk_tool_fragments(chunk: ChatCompletionChunk, tcs: Seq<StreamToolCallDelta>)
    requires
        chunk.usage is None,
        chunk.choices@.len() == 1,
        chunk.choices@[0].delta.content is None,
        chunk.choices@[0].delta.function_call is None,
        chunk.choices@[0].delta.tool_calls matches Some(v) && v@ == tcs,
    ensures
        chunk_events(chunk) == Seq::new(tcs.len(), |k: int| fragment_event(tcs[k])),
{
    let cs = chunk.choices@;
    let e = Seq::<StreamEventView>::empty();
    assert(cs.drop_last() =~= Seq::<StreamChoice>::empty());
    assert(choices_events(cs.drop_last()) == e);
    assert(text_part(cs[0]) == e);
    assert(function_part(cs[0]) == e);
    assert(tools_part(cs[0]) == tool_delta_events(tcs));
    assert(choices_events(cs) =~= tool_delta_events(tcs));
    lemma_tool_delta_events(tcs);
    assert(chunk_events(chunk) =~= e + tool_delta_events(tcs));
    assert(tool_delta_events(tcs) =~= Seq::new(tcs.len(), |k: int| fragment_event(tcs[k])));
}

/// The stream events carried by one chunk.
pub fn chunk_to_events(chunk: ChatCompletionChunk) -> (r: Vec<StreamEvent>)
    ensures
        events_view(r@) == chunk_events(chunk),
{
    let mut events: Vec<StreamEvent> = Vec::new();
    if let Some(usage) = &chunk.usage {
        events.push(StreamEvent::Usage(usage_to_usage(usage)));
    }
    let ghost start = events_view(events@);
    let mut i: usize = 0;
    assert(chunk.choices@.take(0) =~= Seq::<StreamChoice>::empty());
    assert(start + choices_events(Seq::<StreamChoice>::empty()) =~= start);
    while i < chunk.choices.len()
        invariant
            0 <= i <= chunk.choices.len(),
            events_view(events@) == start + choices_events(chunk.choices@.take(i as int)),
        decreases chunk.choices.len() - i,
    {
        push_choice_events(&chunk.choices[i], &mut events);
        assert(chunk.choices@.take(i + 1).drop_last() =~= chunk.choices@.take(i as int));
        i = i + 1;
    }
    assert(chunk.choices@.take(chunk.choices.len() as int) =~= chunk.choices@);
    assert(events_view(events@) =~= chunk_events(chunk));
    events
}

// ---------------------------------------------------------------------------
// Anthropic streaming events
// ---------------------------------------------------------------------------

/// The JSON object of one Anthropic stream event.
#[derive(Debug)]
pub struct StreamWrapper {
    pub event_type: String,
    pub delta: Option<AnthropicDelta>,
    pub content_block: Option<ContentBlock>,
    pub index: Option<u32>,
    pub usage: Option<AnthropicUsage>,
}

#[derive(Debug)]
pub struct AnthropicDelta {
    pub delta_type: Option<String>,
    pub text: Option<String>,
    pub partial_json: Option<String>,
}

#[derive(Debug)]
pub struct ContentBlock {
    pub block_type: Option<String>,
    pub id: Option<String>,
    pub name: Option<String>,
}

#[derive(Debug, Clone, Copy)]
pub struct AnthropicUsage {
    pub input_tokens: Option<u32>,
    pub output_tokens: Option<u32>,
}

pub open spec fn unwrap_zero(o: Option<u32>) -> u32 {
    match o {
        Some(v) => v,
        None => 0,
    }
}

/// The stream events of one Anthropic event: text and `partial_json` fragments of a
/// content block delta, the start of a `tool_use` block, usage then the end on
/// `message_delta`, and the end on `message_stop`.
pub open spec fn anthropic_events(event_name: Seq<char>, w: StreamWrapper) -> Seq<StreamEventView> {
    if event_name == "content_block_delta"@ {
        match w.delta {
            Some(d) => (match d.text {
                Some(t) => if t@.len() > 0 { seq![StreamEventView::TextDelta(t@)] } else { seq![] },
                None => seq![],
            }) + (match (w.index, d.partial_json) {
                (Some(i), Some(p)) => seq![StreamEventView::ToolCallDelta { index: i, id: None, name: None, arguments: Some(p@) }],
                _ => seq![],
            }),
            None => seq![],
        }
    } else if event_name == "content_block_start"@ {
        match (w.index, w.content_block) {
            (Some(i), Some(b)) => if opt_view(b.block_type) == Some("tool_use"@) {
                seq![StreamEventView::ToolCallDelta { index: i, id: opt_view(b.id), name: opt_view(b.name), arguments: None }]
            } else {
                seq![]
            },
            _ => seq![],
        }
    } else if event_name == "message_delta"@ {
        (match w.usage {
            Some(u) => seq![StreamEventView::Usage(Usage { input_tokens: unwrap_zero(u.input_tokens), output_tokens: unwrap_zero(u.output_tokens) })],
            None => seq![],
        }) + seq![StreamEventView::Done]
    } else if event_name == "message_stop"@ {
        seq![StreamEventView::Done]
    } else {
        seq![]
    }
}

fn unwrap_or_zero(o: Option<u32>) -> (r: u32)
    ensures
        r == unwrap_zero(o),
{
    match o {
        Some(v) => v,
        None => 0,
    }
}

proof fn lemma_event_names_differ()
    ensures
        "content_block_start"@ != "content_block_delta"@,
        "message_delta"@ != "content_block_delta"@,
        "message_delta"@ != "content_block_start"@,
        "message_stop"@ != "content_block_delta"@,
        "message_stop"@ != "content_block_start"@,
        "message_stop"@ != "message_delta"@,
{
    reveal_strlit("content_block_start");
    reveal_strlit("content_block_delta");
    reveal_strlit("message_delta");
    reveal_strlit("message_stop");
    assert("content_block_start"@[14] != "content_block_delta"@[14]);
    assert("message_delta"@[0] != "content_block_delta"@[0]);
    assert("message_delta"@[0] != "content_block_start"@[0]);
    assert("message_stop"@[0] != "content_block_delta"@[0]);
    assert("message_stop"@[0] != "content_block_start"@[0]);
    assert("message_stop"@[8] != "message_delta"@[8]);
}

/// A tool-call event carrying argument text `p` for the call at `index`.
pub open spec fn argument_fragment(index: u32, p: Seq<char>) -> StreamEventView {
    StreamEventView::ToolCallDelta { index, id: None, name: None, arguments: Some(p) }
}

/// A content-block delta for the block at `index` that carries the JSON fragment `p`
/// yields that fragment as argument text of the tool call at `index`, after the delta's
/// text if it has any; a non-empty text fragment comes first, as text.
pub proof fn lemma_anthropic_fragment(w: StreamWrapper, index: u32, p: Seq<char>)
    requires
        w.index == Some(index),
        w.delta matches Some(d) && opt_view(d.partial_json) == Some(p),
    ensures
        anthropic_events("content_block_delta"@, w).len() >= 1,
        anthropic_events("content_block_delta"@, w).last() == argument_fragment(index, p),
        anthropic_events("content_block_delta"@, w).len() <= 2,
{
}

/// A content-block delta with non-empty text `t` yields `t` as text first.
pub proof fn lemma_anthropic_text(w: StreamWrapper, t: Seq<char>)
    requires
        w.delta matches Some(d) && opt_view(d.text) == Some(t),
        t.len() > 0,
    ensures
        anthropic_events("content_block_delta"@, w)[0] == StreamEventView::TextDelta(t),
{
}

/// The start of a `tool_use` block at `index` yields exactly the start of the tool call
/// at `index`, with the block's id and name and no arguments yet; any other block
/// start yields nothing.
pub proof fn lemma_anthropic_block_start(w: StreamWrapper, index: u32)
    requires
        w.index == Some(index),
        w.content_block is Some,
    ensures
        opt_view(w.content_block->0.block_type) == Some("tool_use"@) ==> anthropic_events(
            "content_block_start"@,
            w,
        ) == seq![tool_start(index, opt_view(w.content_block->0.id), opt_view(w.content_block->0.name))],
        opt_view(w.content_block->0.block_type) != Some("tool_use"@) ==> anthropic_events(
            "content_block_start"@,
            w,
        ).len() == 0,
{
    lemma_event_names_differ();
}

/// The start of the tool call at `index` with id `id` and name `name`.
pub open spec fn tool_start(index: u32, id: Option<Seq<char>>, name: Option<Seq<char>>) -> StreamEventView {
    StreamEventView::ToolCallDelta { index, id, name, arguments: None }
}

/// `message_stop` ends the stream; `message_delta` ends it after reporting its usage,
/// with missing counts as zero.
pub proof fn lemma_anthropic_end(w: StreamWrapper)
    ensures
        anthropic_events("message_stop"@, w) == seq![StreamEventView::Done],
        anthropic_events("message_delta"@, w).last() == StreamEventView::Done,
        w.usage is None ==> anthropic_events("message_delta"@, w) == seq![StreamEventView::Done],
        w.usage matches Some(u) ==> anthropic_events("message_delta"@, w) == seq![
            StreamEventView::Usage(
                Usage { input_tokens: unwrap_zero(u.input_tokens), output_tokens: unwrap_zero(u.output_tokens) },
            ),
            StreamEventView::Done,
        ],
{
    lemma_event_names_differ();
    assert(anthropic_events("message_delta"@, w) =~= (match w.usage {
        Some(u) => seq![StreamEventView::Usage(Usage { input_tokens: unwrap_zero(u.input_tokens), output_tokens: unwrap_zero(u.output_tokens) })],
        None => Seq::<StreamEventView>::empty(),
    }) + seq![StreamEventView::Done]);
}

/// The stream events of a run of content-block deltas, in order.
pub open spec fn delta_events(ds: Seq<StreamWrapper>) -> Seq<StreamEventView>
    decreases ds.len(),
{
    if ds.len() == 0 {
        seq![]
    } else {
        delta_events(ds.drop_last()) + anthropic_events("content_block_delta"@, ds.last())
    }
}

/// Pieces of text joined end to end, in order.
pub open spec fn concat_parts(parts: Seq<Seq<char>>) -> Seq<char>
    decreases parts.len(),
{
    if parts.len() == 0 {
        seq![]
    } else {
        concat_parts(parts.drop_last()) + parts.last()
    }
}

/// A `tool_use` block start at `index` followed by content-block deltas for that block
/// carrying the JSON fragments `parts` (and no text) is collected into the tool call at
/// `index` whose arguments are the fragments joined in order, and whose id and name are
/// the block's.
pub proof fn lemma_anthropic_call_assembled(
    start: StreamWrapper,
    deltas: Seq<StreamWrapper>,
    index: u32,
    parts: Seq<Seq<char>>,
)
    requires
        start.index == Some(index),
        start.content_block matches Some(b) && opt_view(b.block_type) == Some("tool_use"@),
        deltas.len() == parts.len(),
        forall|k: int|
            0 <= k < deltas.len() ==> (#[trigger] deltas[k]).index == Some(index) && (
            deltas[k].delta matches Some(d) && d.text is None && opt_view(d.partial_json) == Some(
                parts[k],
            )),
    ensures
        ({
            let events = anthropic_events("content_block_start"@, start) + delta_events(deltas);
            let b = start.content_block->0;
            &&& entry_for(collect(events).pending, index) is Some
            &&& entry_for(collect(events).pending, index)->0.arguments == concat_parts(parts)
            &&& entry_for(collect(events).pending, index)->0.id == opt_view(b.id)
            &&& entry_for(collect(events).pending, index)->0.name == opt_view(b.name)
        }),
{
    let b = start.content_block->0;
    lemma_anthropic_block_start(start, index);
    let head = anthropic_events("content_block_start"@, start);
    lemma_assembled_prefix(head, deltas, index, parts, opt_view(b.id), opt_view(b.name));
    let events = head + delta_events(deltas);
    lemma_collect_contents(events, index);
    assert(events[0] == head[0]);
    assert(mentions(events, index));
}

proof fn lemma_assembled_prefix(
    head: Seq<StreamEventView>,
    deltas: Seq<StreamWrapper>,
    index: u32,
    parts: Seq<Seq<char>>,
    id: Option<Seq<char>>,
    name: Option<Seq<char>>,
)
    requires
        head == seq![tool_start(index, id, name)],
        deltas.len() == parts.len(),
        forall|k: int|
            0 <= k < deltas.len() ==> (#[trigger] deltas[k]).index == Some(index) && (
            deltas[k].delta matches Some(d) && d.text is None && opt_view(d.partial_json) == Some(
                parts[k],
            )),
    ensures
        (head + delta_events(deltas)).len() >= 1,
        (head + delta_events(deltas))[0] == head[0],
        fragments(head + delta_events(deltas), index) == concat_parts(parts),
        last_id(head + delta_events(deltas), index) == id,
        last_name(head + delta_events(deltas), index) == name,
    decreases deltas.len(),
{
    if deltas.len() == 0 {
        let e = Seq::<StreamEventView>::empty();
        assert(head + delta_events(deltas) =~= head);
        assert(head.drop_last() =~= e);
        assert(fragments(e, index) == Seq::<char>::empty());
        assert(fragments(head, index) =~= Seq::<char>::empty());
        assert(last_id(e, index) is None);
        assert(last_name(e, index) is None);
        assert(head.last() == tool_start(index, id, name));
        assert(last_id(head, index) == id);
        assert(last_name(head, index) == name);
    } else {
        let ds = deltas.drop_last();
        let ps = parts.drop_last();
        assert forall|k: int| 0 <= k < ds.len() implies (#[trigger] ds[k]).index == Some(index) && (
        ds[k].delta matches Some(d) && d.text is None && opt_view(d.partial_json) == Some(ps[k])) by {
            assert(ds[k] == deltas[k]);
            assert(ps[k] == parts[k]);
        }
        lemma_assembled_prefix(head, ds, index, ps, id, name);
        let last = deltas.last();
        let k = deltas.len() - 1;
        assert(deltas[k] == last);
        let p = parts.last();
        let frag = argument_fragment(index, p);
        assert(anthropic_events("content_block_delta"@, last) =~= seq![frag]);
        let prev = head + delta_events(ds);
        assert(head + delta_events(deltas) =~= prev.push(frag));
        assert(prev.push(frag).drop_last() =~= prev);
        assert(prev.push(frag).last() == frag);
        assert(last_id(prev.push(frag), index) == last_id(prev, index));
        assert(last_name(prev.push(frag), index) == last_name(prev, index));
    }
}

/// Maps one Anthropic stream event to stream events.
pub fn map_anthropic_event(event_name: &str, wrapper: StreamWrapper) -> (r: Vec<StreamEvent>)
    ensures
        events_view(r@) == anthropic_events(event_name@, wrapper),
{
    let name = chars_of(event_name);
    let mut events: Vec<StreamEvent> = Vec::new();
    if eq_str(&name, "content_block_delta") {
        if let Some(delta) = &wrapper.delta {
            if let Some(text) = &delta.text {
                if !text.as_str().is_empty() {
                    events.push(StreamEvent::TextDelta(text.clone()));
                }
            }
            let ghost first = events_view(events@);
            if let (Some(index), Some(partial)) = (wrapper.index, &delta.partial_json) {
                events.push(StreamEvent::ToolCallDelta { index, id: None, name: None, arguments: Some(partial.clone()) });
            }
            assert(events_view(events@) =~= anthropic_events(event_name@, wrapper));
        }
    } else if eq_str(&name, "content_block_start") {
        if let (Some(index), Some(block)) = (wrapper.index, &wrapper.content_block) {
            let is_tool = match &block.block_type {
                Some(t) => eq_str(&chars_of(t.as_str()), "tool_use"),
                None => false,
            };
            if is_tool {
                events.push(StreamEvent::ToolCallDelta { index, id: clone_opt(&block.id), name: clone_opt(&block.name), arguments: None });
            }
            assert(events_view(events@) =~= anthropic_events(event_name@, wrapper));
        }
    } else if eq_str(&name, "message_delta") {
        if let Some(usage) = &wrapper.usage {
            events.push(StreamEvent::Usage(Usage {
                input_tokens: unwrap_or_zero(usage.input_tokens),
                output_tokens: unwrap_or_zero(usage.output_tokens),
            }));
        }
        events.push(StreamEvent::Done);
        assert(events_view(events@) =~= anthropic_events(event_name@, wrapper));
    } else if eq_str(&name, "message_stop") {
        events.push(StreamEvent::Done);
        assert(events_view(events@) =~= anthropic_events(event_name@, wrapper));
    }
    assert(events_view(events@) =~= anthropic_events(event_name@, wrapper));
    events
}

} // verus!

verus! {

// ---------------------------------------------------------------------------
// Request messages
// ---------------------------------------------------------------------------

/// The name of the call `id` in a list of calls (first match).
pub open spec fn call_name(calls: Seq<ToolCallView>, id: Seq<char>) -> Option<Seq<char>>
    decreases calls.len(),
{
    if calls.len() == 0 {
        None
    } else if calls[0].id == id {
        Some(calls[0].name)
    } else {
        call_name(calls.drop_first(), id)
    }
}

/// The name of the function whose call had id `id`, searching the messages from the
/// latest backwards.
pub open spec fn function_name_spec(messages: Seq<MessageView>, id: Seq<char>) -> Option<Seq<char>>
    decreases messages.len(),
{
    if messages.len() == 0 {
        None
    } else {
        match messages.last().tool_calls {
            Some(calls) => match call_name(calls, id) {
                Some(n) => Some(n),
                None => function_name_spec(messages.drop_last(), id),
            },
            None => function_name_spec(messages.drop_last(), id),
        }
    }
}

fn call_name_exec(calls: &Vec<ToolCall>, id: &Vec<char>) -> (r: Option<String>)
    ensures
        opt_view(r) == call_name(calls_view(calls@), id@),
{
    let ghost cv = calls_view(calls@);
    let mut i: usize = 0;
    assert(cv.skip(0) =~= cv);
    while i < calls.len()
        invariant
            0 <= i <= calls.len(),
            cv == calls_view(calls@),
            call_name(cv, id@) == call_name(cv.skip(i as int), id@),
        decreases calls.len() - i,
    {
        let cid = chars_of(calls[i].id.as_str());
        assert(cv.skip(i as int)[0] == calls@[i as int]@);
        if eq_chars(&cid, id) {
            return Some(calls[i].name.clone());
        }
        assert(cv.skip(i as int).drop_first() =~= cv.skip(i + 1));
        i = i + 1;
    }
    None
}

fn lookup_before(messages: &[Message], end: usize, id: &Vec<char>) -> (r: Option<String>)
    requires
        end <= messages@.len(),
    ensures
        opt_view(r) == function_name_spec(messages_view(messages@).take(end as int), id@),
{
    let ghost mv = messages_view(messages@);
    let mut k = end;
    while k > 0
        invariant
            k <= end <= messages@.len(),
            mv == messages_view(messages@),
            function_name_spec(mv.take(end as int), id@) == function_name_spec(mv.take(k as int), id@),
        decreases k,
    {
        let m = &messages[k - 1];
        assert(mv.take(k as int).last() == m@);
        assert(mv.take(k as int).drop_last() =~= mv.take(k - 1));
        match &m.tool_calls {
            Some(calls) => {
                let found = call_name_exec(calls, id);
                if found.is_some() {
                    return found;
                }
            },
            None => {},
        }
        k = k - 1;
    }
    assert(mv.take(0) =~= Seq::<MessageView>::empty());
    None
}

/// The name of the function called with id `tool_call_id`, latest call first.
pub fn lookup_function_name(messages: &[Message], tool_call_id: &str) -> (r: Option<String>)
    ensures
        opt_view(r) == function_name_spec(messages_view(messages@), tool_call_id@),
{
    let id = chars_of(tool_call_id);
    assert(messages_view(messages@).take(messages@.len() as int) =~= messages_view(messages@));
    lookup_before(messages, messages.len(), &id)
}

/// A message as an OpenAI-compatible endpoint receives it.
#[derive(Debug)]
pub enum ApiMessage {
    /// The message with its own fields.
    Plain(Message),
    /// A legacy assistant message: its text (or null) and its first call as
    /// `function_call`.
    Assistant { content: Option<String>, function_call: Option<ToolCall> },
    /// A legacy tool result, with role `function` and the called function's name.
    Function { name: String, content: String },
}

pub enum ApiMessageView {
    Plain(MessageView),
    Assistant { content: Option<Seq<char>>, function_call: Option<ToolCallView> },
    Function { name: Seq<char>, content: Seq<char> },
}

impl View for ApiMessage {
    type V = ApiMessageView;

    open spec fn view(&self) -> ApiMessageView {
        match self {
            ApiMessage::Plain(m) => ApiMessageView::Plain(m@),
            ApiMessage::Assistant { content, function_call } => ApiMessageView::Assistant {
                content: opt_view(*content),
                function_call: match function_call {
                    Some(c) => Some(c@),
                    None => None,
                },
            },
            ApiMessage::Function { name, content } => ApiMessageView::Function { name: name@, content: content@ },
        }
    }
}

pub open spec fn text_or_empty(o: Option<Seq<char>>) -> Seq<char> {
    match o {
        Some(s) => s,
        None => Seq::empty(),
    }
}

/// How a message is sent: unchanged in the `tools` format; in the legacy `functions`
/// format an assistant message carries its first call as `function_call` (and no
/// empty text), and a tool result becomes a `function` message named after the call
/// it answers (or after the call id when no earlier call has that id).
pub open spec fn api_message_spec(m: MessageView, prior: Seq<MessageView>, format: ToolFormat) -> ApiMessageView {
    if format == ToolFormat::Tools {
        ApiMessageView::Plain(m)
    } else if m.role == Role::Assistant {
        ApiMessageView::Assistant {
            content: match m.content {
                Some(t) => if t.len() > 0 { Some(t) } else { None },
                None => None,
            },
            function_call: match m.tool_calls {
                Some(calls) => if calls.len() > 0 { Some(calls[0]) } else { None },
                None => None,
            },
        }
    } else if m.role == Role::Tool {
        let id = text_or_empty(m.tool_call_id);
        ApiMessageView::Function {
            name: match function_name_spec(prior, id) {
                Some(n) => n,
                None => id,
            },
            content: text_or_empty(m.content),
        }
    } else {
        ApiMessageView::Plain(m)
    }
}

fn message_to_api(messages: &[Message], index: usize, format: ToolFormat) -> (r: ApiMessage)
    requires
        index < messages@.len(),
    ensures
        r@ == api_message_spec(messages@[index as int]@, messages_view(messages@).take(index as int), format),
{
    let msg = &messages[index];
    if format == ToolFormat::Tools {
        return ApiMessage::Plain(clone_message(msg));
    }
    match msg.role {
        Role::Assistant => {
            let content = match &msg.content {
                Some(t) => if t.as_str().is_empty() { None } else { Some(t.clone()) },
                None => None,
            };
            let function_call = match &msg.tool_calls {
                Some(calls) => if calls.len() > 0 {
                    Some(ToolCall { id: calls[0].id.clone(), name: calls[0].name.clone(), arguments: calls[0].arguments.clone() })
                } else {
                    None
                },
                None => None,
            };
            ApiMessage::Assistant { content, function_call }
        },
        Role::Tool => {
            let id = match &msg.tool_call_id {
                Some(i) => chars_of(i.as_str()),
                None => Vec::new(),
            };
            let name = match lookup_before(messages, index, &id) {
                Some(n) => n,
                None => string_from(id.as_slice()),
            };
            let content = match &msg.content {
                Some(c) => c.clone(),
                None => String::new(),
            };
            ApiMessage::Function { name, content }
        },
        _ => ApiMessage::Plain(clone_message(msg)),
    }
}

/// Converts a conversation for an OpenAI-compatible endpoint, message by message.
pub fn convert_messages_for_api(messages: &[Message], format: ToolFormat) -> (r: Vec<ApiMessage>)
    ensures
        r@.len() == messages@.len(),
        forall|i: int| 0 <= i < messages@.len() ==> #[trigger] r@[i]@ == api_message_spec(
            messages@[i]@,
            messages_view(messages@).take(i),
            format,
        ),
{
    let mut out: Vec<ApiMessage> = Vec::new();
    let mut i: usize = 0;
    while i < messages.len()
        invariant
            0 <= i <= messages@.len(),
            out@.len() == i,
            forall|k: int| 0 <= k < i ==> #[trigger] out@[k]@ == api_message_spec(
                messages@[k]@,
                messages_view(messages@).take(k),
                format,
            ),
        decreases messages.len() - i,
    {
        let m = message_to_api(messages, i, format);
        out.push(m);
        i = i + 1;
    }
    out
}

/// A content block of an Anthropic message.
#[derive(Debug)]
pub enum AnthropicBlock {
    Text(String),
    /// A call, with its arguments text as the tool input.
    ToolUse { id: String, name: String, input: String },
    ToolResult { tool_use_id: Option<String>, content: String },
}

pub enum AnthropicBlockView {
    Text(Seq<char>),
    ToolUse { id: Seq<char>, name: Seq<char>, input: Seq<char> },
    ToolResult { tool_use_id: Option<Seq<char>>, content: Seq<char> },
}

impl View for AnthropicBlock {
    type V = AnthropicBlockView;

    open spec fn view(&self) -> AnthropicBlockView {
        match self {
            AnthropicBlock::Text(t) => AnthropicBlockView::Text(t@),
            AnthropicBlock::ToolUse { id, name, input } => AnthropicBlockView::ToolUse { id: id@, name: name@, input: input@ },
            AnthropicBlock::ToolResult { tool_use_id, content } => AnthropicBlockView::ToolResult {
                tool_use_id: opt_view(*tool_use_id),
                content: content@,
            },
        }
    }
}

pub open spec fn blocks_view(v: Seq<AnthropicBlock>) -> Seq<AnthropicBlockView> {
    v.map_values(|b: AnthropicBlock| b@)
}

/// The content of an Anthropic message: plain text or a list of blocks.
#[derive(Debug)]
pub enum AnthropicContent {
    Text(String),
    Blocks(Vec<AnthropicBlock>),
}

/// A message of an Anthropic request (role `user` or `assistant`).
#[derive(Debug)]
pub struct AnthropicMessage {
    pub role: Role,
    pub content: AnthropicContent,
}

pub enum AnthropicMessageView {
    Text(Role, Seq<char>),
    Blocks(Role, Seq<AnthropicBlockView>),
}

impl View for AnthropicMessage {
    type V = AnthropicMessageView;

    open spec fn view(&self) -> AnthropicMessageView {
        match self.content {
            AnthropicContent::Text(t) => AnthropicMessageView::Text(self.role, t@),
            AnthropicContent::Blocks(b) => AnthropicMessageView::Blocks(self.role, blocks_view(b@)),
        }
    }
}

pub open spec fn anthropic_view(v: Seq<AnthropicMessage>) -> Seq<AnthropicMessageView> {
    v.map_values(|m: AnthropicMessage| m@)
}

/// The `input` of a `tool_use` block: the call's argument text where it is JSON, else
/// the empty object `{}`.
pub open spec fn tool_use_input_spec(arguments: Seq<char>) -> Seq<char> {
    if json_valid(arguments) {
        arguments
    } else {
        "{}"@
    }
}

/// The `input` of a `tool_use` block, given whether the argument text is JSON.
pub fn tool_use_input_from(arguments: &str, is_json: bool) -> (r: String)
    ensures
        r@ == (if is_json {
            arguments@
        } else {
            "{}"@
        }),
{
    if is_json {
        copy_string(arguments)
    } else {
        copy_string("{}")
    }
}

/// The `input` of the `tool_use` block sent for a call with argument text `arguments`.
pub fn tool_use_input(arguments: &str) -> (r: String)
    ensures
        r@ == tool_use_input_spec(arguments@),
{
    let ok = is_json(arguments);
    tool_use_input_from(arguments, ok)
}

pub open spec fn tool_use_blocks(calls: Seq<ToolCallView>) -> Seq<AnthropicBlockView>
    decreases calls.len(),
{
    if calls.len() == 0 {
        seq![]
    } else {
        let c = calls.last();
        tool_use_blocks(calls.drop_last()).push(
            AnthropicBlockView::ToolUse { id: c.id, name: c.name, input: tool_use_input_spec(c.arguments) },
        )
    }
}

/// How a non-system message is sent to Anthropic: user text as it is; an assistant
/// message as its non-empty text block followed by a `tool_use` block per call; a
/// tool result as a `tool_result` block of a user message.
pub open spec fn anthropic_message_spec(m: MessageView) -> Seq<AnthropicMessageView> {
    if m.role == Role::User {
        seq![AnthropicMessageView::Text(Role::User, text_or_empty(m.content))]
    } else if m.role == Role::Assistant {
        seq![AnthropicMessageView::Blocks(
            Role::Assistant,
            (match m.content {
                Some(t) => if t.len() > 0 { seq![AnthropicBlockView::Text(t)] } else { seq![] },
                None => seq![],
            }) + match m.tool_calls {
                Some(calls) => tool_use_blocks(calls),
                None => seq![],
            },
        )]
    } else if m.role == Role::Tool {
        seq![AnthropicMessageView::Blocks(
            Role::User,
            seq![AnthropicBlockView::ToolResult { tool_use_id: m.tool_call_id, content: text_or_empty(m.content) }],
        )]
    } else {
        seq![]
    }
}

/// The `tool_use` block sent for a call: the call's id and name, and its argument text
/// as input when that is JSON, else `{}`.
pub open spec fn tool_use_block(c: ToolCallView) -> AnthropicBlockView {
    AnthropicBlockView::ToolUse {
        id: c.id,
        name: c.name,
        input: if json_valid(c.arguments) {
            c.arguments
        } else {
            "{}"@
        },
    }
}

/// The role an Anthropic message is sent with.
pub open spec fn anthropic_role(m: AnthropicMessageView) -> Role {
    match m {
        AnthropicMessageView::Text(r, _) => r,
        AnthropicMessageView::Blocks(r, _) => r,
    }
}

/// The blocks of an Anthropic message (none for a plain text message).
pub open spec fn anthropic_blocks(m: AnthropicMessageView) -> Seq<AnthropicBlockView> {
    match m {
        AnthropicMessageView::Text(_, _) => seq![],
        AnthropicMessageView::Blocks(_, b) => b,
    }
}

/// The call id a block refers to: a `tool_use` block's own id, a `tool_result`'s
/// `tool_use_id`.
pub open spec fn block_call_id(b: AnthropicBlockView) -> Option<Seq<char>> {
    match b {
        AnthropicBlockView::Text(_) => None,
        AnthropicBlockView::ToolUse { id, .. } => Some(id),
        AnthropicBlockView::ToolResult { tool_use_id, .. } => tool_use_id,
    }
}

proof fn lemma_tool_use_blocks(calls: Seq<ToolCallView>)
    ensures
        tool_use_blocks(calls) == Seq::new(calls.len(), |k: int| tool_use_block(calls[k])),
    decreases calls.len(),
{
    if calls.len() > 0 {
        lemma_tool_use_blocks(calls.drop_last());
        assert(tool_use_blocks(calls) =~= Seq::new(calls.len(), |k: int| tool_use_block(calls[k])));
    } else {
        assert(tool_use_blocks(calls) =~= Seq::new(calls.len(), |k: int| tool_use_block(calls[k])));
    }
}

/// An assistant message with tool calls is sent as one assistant message whose blocks
/// are its text, when that is non-empty, followed by one `tool_use` block per call, in
/// call order, each carrying that call's id and name.
pub proof fn lemma_anthropic_tool_use(m: MessageView, calls: Seq<ToolCallView>)
    requires
        m.role == Role::Assistant,
        m.tool_calls == Some(calls),
    ensures
        anthropic_message_spec(m).len() == 1,
        anthropic_role(anthropic_message_spec(m)[0]) == Role::Assistant,
        anthropic_blocks(anthropic_message_spec(m)[0]).len() == calls.len() + (if text_or_empty(
            m.content,
        ).len() > 0 {
            1int
        } else {
            0int
        }),
        forall|k: int|
            0 <= k < calls.len() ==> #[trigger] anthropic_blocks(anthropic_message_spec(m)[0])[k
                + anthropic_blocks(anthropic_message_spec(m)[0]).len() - calls.len()]
                == tool_use_block(calls[k]),
{
    lemma_tool_use_blocks(calls);
}

/// A user message is sent as user text (empty when it has none); a system message is
/// not sent among the messages (its text goes to the system field).
pub proof fn lemma_anthropic_user_and_system(m: MessageView)
    ensures
        m.role == Role::User ==> anthropic_message_spec(m) == seq![
            AnthropicMessageView::Text(
                Role::User,
                match m.content {
                    Some(c) => c,
                    None => Seq::<char>::empty(),
                },
            ),
        ],
        m.role == Role::System ==> anthropic_message_spec(m).len() == 0,
        m.role == Role::System && m.content is Some ==> system_parts(seq![m]) == seq![m.content->0],
        m.role != Role::System ==> system_parts(seq![m]).len() == 0,
{
    assert(seq![m].drop_last() =~= Seq::<MessageView>::empty());
    assert(system_parts(Seq::<MessageView>::empty()) =~= Seq::<Seq<char>>::empty());
    if m.role == Role::System && m.content is Some {
        assert(system_parts(seq![m]) =~= seq![m.content->0]);
    } else {
        assert(system_parts(seq![m]) =~= Seq::<Seq<char>>::empty());
    }
}

/// A tool result is sent as a user message holding one `tool_result` block that refers
/// to the call it answers and carries the result text.
pub proof fn lemma_anthropic_tool_result(m: MessageView)
    requires
        m.role == Role::Tool,
    ensures
        anthropic_message_spec(m).len() == 1,
        anthropic_role(anthropic_message_spec(m)[0]) == Role::User,
        anthropic_blocks(anthropic_message_spec(m)[0]).len() == 1,
        block_call_id(anthropic_blocks(anthropic_message_spec(m)[0])[0]) == m.tool_call_id,
        anthropic_blocks(anthropic_message_spec(m)[0])[0] is ToolResult,
{
}

/// Sent after the assistant message that asked for it, a tool result refers to the same
/// id as the `tool_use` block of the call it answers.
pub proof fn lemma_anthropic_result_matches_use(a: MessageView, t: MessageView, calls: Seq<ToolCallView>, j: int)
    requires
        a.role == Role::Assistant,
        a.tool_calls == Some(calls),
        t.role == Role::Tool,
        0 <= j < calls.len(),
        t.tool_call_id == Some(calls[j].id),
    ensures
        ({
            let sent = anthropic_messages_spec(seq![a, t]);
            let uses = anthropic_blocks(sent[0]);
            &&& sent.len() == 2
            &&& block_call_id(uses[uses.len() - calls.len() + j]) == block_call_id(
                anthropic_blocks(sent[1])[0],
            )
            &&& uses[uses.len() - calls.len() + j] is ToolUse
        }),
{
    lemma_anthropic_tool_use(a, calls);
    lemma_anthropic_tool_result(t);
    let ms = seq![a, t];
    assert(ms.drop_last() =~= seq![a]);
    assert(seq![a].drop_last() =~= Seq::<MessageView>::empty());
    assert(seq![a].last() == a);
    assert(anthropic_messages_spec(Seq::<MessageView>::empty()) =~= Seq::<AnthropicMessageView>::empty());
    assert(anthropic_messages_spec(seq![a]) =~= Seq::<AnthropicMessageView>::empty()
        + anthropic_message_spec(a));
    let sent = anthropic_messages_spec(ms);
    assert(anthropic_messages_spec(seq![a]) =~= anthropic_message_spec(a));
    assert(sent =~= anthropic_message_spec(a) + anthropic_message_spec(t));
    let uses = anthropic_blocks(sent[0]);
    assert(uses[j + uses.len() - calls.len()] == tool_use_block(calls[j]));
}

pub open spec fn anthropic_messages_spec(ms: Seq<MessageView>) -> Seq<AnthropicMessageView>
    decreases ms.len(),
{
    if ms.len() == 0 {
        seq![]
    } else {
        anthropic_messages_spec(ms.drop_last()) + anthropic_message_spec(ms.last())
    }
}

/// The texts of the system messages, in order.
pub open spec fn system_parts(ms: Seq<MessageView>) -> Seq<Seq<char>>
    decreases ms.len(),
{
    if ms.len() == 0 {
        seq![]
    } else {
        let m = ms.last();
        system_parts(ms.drop_last()) + if m.role == Role::System && m.content is Some {
            seq![m.content.unwrap()]
        } else {
            seq![]
        }
    }
}

fn anthropic_message(m: &Message, out: &mut Vec<AnthropicMessage>)
    ensures
        anthropic_view(final(out)@) == anthropic_view(old(out)@) + anthropic_message_spec(m@),
{
    let ghost before = out@;
    match m.role {
        Role::System => {
            assert(anthropic_view(out@) =~= anthropic_view(before));
        },
        Role::User => {
            let content = match &m.content {
                Some(c) => c.clone(),
                None => String::new(),
            };
            let am = AnthropicMessage { role: Role::User, content: AnthropicContent::Text(content) };
            out.push(am);
            assert(anthropic_view(out@) =~= anthropic_view(before).push(am@));
        },
        Role::Assistant => {
            let mut blocks: Vec<AnthropicBlock> = Vec::new();
            if let Some(t) = &m.content {
                if !t.as_str().is_empty() {
                    blocks.push(AnthropicBlock::Text(t.clone()));
                }
            }
            let ghost first = blocks_view(blocks@);
            assert(first =~= (match m@.content {
                Some(t) => if t.len() > 0 { seq![AnthropicBlockView::Text(t)] } else { seq![] },
                None => seq![],
            }));
            if let Some(calls) = &m.tool_calls {
                let ghost cv = calls_view(calls@);
                let mut i: usize = 0;
                assert(cv.take(0) =~= Seq::<ToolCallView>::empty());
                assert(first + tool_use_blocks(cv.take(0)) =~= first);
                while i < calls.len()
                    invariant
                        0 <= i <= calls.len(),
                        cv == calls_view(calls@),
                        blocks_view(blocks@) == first + tool_use_blocks(cv.take(i as int)),
                    decreases calls.len() - i,
                {
                    let b = AnthropicBlock::ToolUse {
                        id: calls[i].id.clone(),
                        name: calls[i].name.clone(),
                        input: tool_use_input(calls[i].arguments.as_str()),
                    };
                    let ghost prev = blocks@;
                    blocks.push(b);
                    assert(blocks_view(blocks@) =~= blocks_view(prev).push(b@));
                    assert(cv.take(i + 1).drop_last() =~= cv.take(i as int));
                    i = i + 1;
                }
                assert(cv.take(calls.len() as int) =~= cv);
            } else {
                assert(blocks_view(blocks@) =~= first + Seq::<AnthropicBlockView>::empty());
            }
            let ghost bv = blocks_view(blocks@);
            let am = AnthropicMessage { role: Role::Assistant, content: AnthropicContent::Blocks(blocks) };
            assert(am@ == AnthropicMessageView::Blocks(Role::Assistant, bv));
            out.push(am);
            assert(anthropic_view(out@) =~= anthropic_view(before).push(am@));
        },
        Role::Tool => {
            let content = match &m.content {
                Some(c) => c.clone(),
                None => String::new(),
            };
            let id = match &m.tool_call_id {
                Some(c) => Some(c.clone()),
                None => None,
            };
            let b = AnthropicBlock::ToolResult { tool_use_id: id, content };
            let mut blocks: Vec<AnthropicBlock> = Vec::new();
            blocks.push(b);
            assert(blocks_view(blocks@) =~= seq![b@]);
            let am = AnthropicMessage { role: Role::User, content: AnthropicContent::Blocks(blocks) };
            out.push(am);
            assert(anthropic_view(out@) =~= anthropic_view(before).push(am@));
        },
    }
    assert(anthropic_view(out@) =~= anthropic_view(before) + anthropic_message_spec(m@));
}

/// Splits a conversation for the Anthropic API: the system texts joined by a blank
/// line (or nothing when there are none), and the other messages converted in order.
pub fn split_messages(messages: Vec<Message>) -> (r: (Option<String>, Vec<AnthropicMessage>))
    ensures
        opt_view(r.0) == (if system_parts(messages_view(messages@)).len() == 0 {
            None
        } else {
            Some(join(system_parts(messages_view(messages@)), "\n\n"@))
        }),
        anthropic_view(r.1@) == anthropic_messages_spec(messages_view(messages@)),
{
    let ghost mv = messages_view(messages@);
    let mut parts: Vec<Vec<char>> = Vec::new();
    let mut out: Vec<AnthropicMessage> = Vec::new();
    let mut i: usize = 0;
    assert(mv.take(0) =~= Seq::<MessageView>::empty());
    while i < messages.len()
        invariant
            0 <= i <= messages@.len(),
            mv == messages_view(messages@),
            views(parts@) == system_parts(mv.take(i as int)),
            anthropic_view(out@) == anthropic_messages_spec(mv.take(i as int)),
        decreases messages.len() - i,
    {
        let m = &messages[i];
        assert(mv.take(i + 1).drop_last() =~= mv.take(i as int));
        assert(mv.take(i + 1).last() == m@);
        let ghost prev = parts@;
        if m.role == Role::System {
            if let Some(t) = &m.content {
                parts.push(chars_of(t.as_str()));
                assert(views(parts@) =~= views(prev).push(t@));
            }
        }
        assert(views(parts@) =~= system_parts(mv.take(i + 1)));
        anthropic_message(m, &mut out);
        i = i + 1;
    }
    assert(mv.take(messages.len() as int) =~= mv);
    let system = if parts.len() == 0 {
        None
    } else {
        let sep = chars_of("\n\n");
        let joined = join_from(&parts, 0, &sep);
        assert(views(parts@).skip(0) =~= views(parts@));
        Some(string_from(joined.as_slice()))
    };
    (system, out)
}

} // verus!
