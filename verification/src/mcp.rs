//! Model Context Protocol: tool-call results and the names under which server tools
//! are registered.
use vstd::prelude::*;

use crate::text::{append_chars, append_str, chars_of, is_ascii_alnum, is_ascii_alphanumeric, join, join_from, starts_with, string_from, views};

verus! {

/// One content block of a `tools/call` result.
#[derive(Debug, Clone)]
pub struct McpContentBlock {
    pub kind: String,
    pub text: String,
}

/// Result of `tools/call`.
#[derive(Debug, Clone)]
pub struct McpToolCallResult {
    pub content: Vec<McpContentBlock>,
    pub is_error: bool,
}

/// Blocks that count as text: kind `text`, or no kind at all.
pub open spec fn is_text_block(b: McpContentBlock) -> bool {
    b.kind@ == "text"@ || b.kind@.len() == 0
}

/// The texts of the text blocks, in order.
pub open spec fn text_blocks(bs: Seq<McpContentBlock>) -> Seq<Seq<char>>
    decreases bs.len(),
{
    if bs.len() == 0 {
        seq![]
    } else {
        text_blocks(bs.drop_last()) + if is_text_block(bs.last()) {
            seq![bs.last().text@]
        } else {
            seq![]
        }
    }
}

impl McpToolCallResult {
    /// The text blocks joined by newlines.
    pub fn text(&self) -> (r: String)
        ensures
            r@ == join(text_blocks(self.content@), seq!['\n']),
    {
        let mut parts: Vec<Vec<char>> = Vec::new();
        let mut i: usize = 0;
        assert(self.content@.take(0) =~= Seq::<McpContentBlock>::empty());
        while i < self.content.len()
            invariant
                0 <= i <= self.content.len(),
                views(parts@) == text_blocks(self.content@.take(i as int)),
            decreases self.content.len() - i,
        {
            let b = &self.content[i];
            let kind = chars_of(b.kind.as_str());
            let ghost prev = parts@;
            assert(self.content@.take(i + 1).drop_last() =~= self.content@.take(i as int));
            if crate::text::eq_str(&kind, "text") || kind.len() == 0 {
                let t = chars_of(b.text.as_str());
                parts.push(t);
                assert(views(parts@) =~= views(prev).push(t@));
            }
            assert(views(parts@) =~= text_blocks(self.content@.take(i + 1)));
            i = i + 1;
        }
        assert(self.content@.take(self.content.len() as int) =~= self.content@);
        let sep: Vec<char> = vec!['\n'];
        let r = join_from(&parts, 0, &sep);
        assert(views(parts@).skip(0) =~= views(parts@));
        assert(sep@ =~= seq!['\n']);
        string_from(r.as_slice())
    }
}

/// A server name made safe for tool names: every character other than an ASCII
/// letter, digit or `_` becomes `_`.
pub open spec fn sanitize(name: Seq<char>) -> Seq<char> {
    name.map_values(|c: char| if is_ascii_alnum(c) || c == '_' { c } else { '_' })
}

pub fn sanitize_name(name: &str) -> (r: String)
    ensures
        r@ == sanitize(name@),
{
    let v = chars_of(name);
    let mut out: Vec<char> = Vec::new();
    let mut i: usize = 0;
    while i < v.len()
        invariant
            0 <= i <= v.len(),
            v@ == name@,
            out@ == sanitize(v@.take(i as int)),
        decreases v.len() - i,
    {
        let c = v[i];
        let d = if is_ascii_alphanumeric(c) || c == '_' {
            c
        } else {
            '_'
        };
        out.push(d);
        assert(sanitize(v@.take(i + 1)) =~= sanitize(v@.take(i as int)).push(d));
        i = i + 1;
    }
    assert(v@.take(v.len() as int) =~= v@);
    string_from(out.as_slice())
}

/// The prefix of every tool registered for a server: `mcp_{server}_`.
pub open spec fn tool_prefix(server: Seq<char>) -> Seq<char> {
    "mcp_"@ + sanitize(server) + "_"@
}

/// The name under which a server's tool is registered: `mcp_{server}_{tool}`.
pub open spec fn registered_name(server: Seq<char>, tool: Seq<char>) -> Seq<char> {
    tool_prefix(server) + tool
}

fn tool_prefix_exec(server: &str) -> (r: Vec<char>)
    ensures
        r@ == tool_prefix(server@),
{
    let mut v = chars_of("mcp_");
    let s = sanitize_name(server);
    append_str(&mut v, s.as_str());
    append_str(&mut v, "_");
    v
}

/// Builds the stable tool name `mcp_{server}_{tool}` for the LLM registry.
pub fn registered_tool_name(server_name: &str, tool_name: &str) -> (r: String)
    ensures
        r@ == registered_name(server_name@, tool_name@),
{
    let mut v = tool_prefix_exec(server_name);
    append_str(&mut v, tool_name);
    string_from(v.as_slice())
}

/// The first server (in connection order) whose tool prefix starts `registered`.
pub open spec fn first_matching_server(servers: Seq<Seq<char>>, registered: Seq<char>, from: int) -> Option<int>
    decreases servers.len() - from,
{
    if from >= servers.len() || from < 0 {
        None
    } else if starts_with(registered, tool_prefix(servers[from])) {
        Some(from)
    } else {
        first_matching_server(servers, registered, from + 1)
    }
}

pub open spec fn string_views(v: Seq<String>) -> Seq<Seq<char>> {
    v.map_values(|s: String| s@)
}

/// Resolves a registered tool name back to the server (its position among `servers`,
/// in connection order) and the server's own tool name: the first server whose
/// prefix `mcp_{server}_` starts the name wins, and the tool name is what follows.
pub fn resolve_tool(servers: &Vec<String>, registered_name: &str) -> (r: Option<(usize, String)>)
    ensures
        match first_matching_server(string_views(servers@), registered_name@, 0) {
            Some(i) => r matches Some(p) && p.0 == i && p.1@ == registered_name@.skip(
                tool_prefix(servers@[i]@).len() as int,
            ),
            None => r is None,
        },
{
    let name = chars_of(registered_name);
    let ghost sv = string_views(servers@);
    let mut i: usize = 0;
    while i < servers.len()
        invariant
            0 <= i <= servers.len(),
            sv == string_views(servers@),
            name@ == registered_name@,
            first_matching_server(sv, name@, 0) == first_matching_server(sv, name@, i as int),
        decreases servers.len() - i,
    {
        let prefix = tool_prefix_exec(servers[i].as_str());
        assert(sv[i as int] == servers@[i as int]@);
        if prefix.len() <= name.len() {
            let head = crate::text::slice_chars(&name, 0, prefix.len());
            if crate::text::eq_chars(&head, &prefix) {
                assert(name@.take(prefix.len() as int) =~= head@);
                let tool = crate::text::slice_chars(&name, prefix.len(), name.len());
                assert(tool@ =~= name@.skip(prefix.len() as int));
                return Some((i, string_from(tool.as_slice())));
            }
            assert(name@.take(prefix.len() as int) =~= head@);
        }
        i = i + 1;
    }
    None
}

/// Resolving a registered name gives back the server and the tool it was built
/// from, provided no server before it has a prefix that also starts the name.
pub proof fn lemma_resolve_registered(servers: Seq<Seq<char>>, i: int, tool: Seq<char>)
    requires
        0 <= i < servers.len(),
        forall|j: int| 0 <= j < i ==> !starts_with(registered_name(servers[i], tool), #[trigger] tool_prefix(servers[j])),
    ensures
        first_matching_server(servers, registered_name(servers[i], tool), 0) == Some(i),
        registered_name(servers[i], tool).skip(tool_prefix(servers[i]).len() as int) == tool,
{
    let name = registered_name(servers[i], tool);
    assert(starts_with(name, tool_prefix(servers[i]))) by {
        assert(name.take(tool_prefix(servers[i]).len() as int) =~= tool_prefix(servers[i]));
    }
    lemma_first_matching_from(servers, name, 0, i);
    assert(name.skip(tool_prefix(servers[i]).len() as int) =~= tool);
}

proof fn lemma_first_matching_from(servers: Seq<Seq<char>>, name: Seq<char>, from: int, i: int)
    requires
        0 <= from <= i < servers.len(),
        starts_with(name, tool_prefix(servers[i])),
        forall|j: int| from <= j < i ==> !starts_with(name, #[trigger] tool_prefix(servers[j])),
    ensures
        first_matching_server(servers, name, from) == Some(i),
    decreases i - from,
{
    if from < i {
        lemma_first_matching_from(servers, name, from + 1, i);
    }
}

// ---------------------------------------------------------------------------
// JSON-RPC responses over stdio
// ---------------------------------------------------------------------------

/// What a line read from a server says, as far as waiting for a response goes.
#[derive(Debug, Clone)]
pub struct RpcFrame {
    /// The message has a `method` member.
    pub has_method: bool,
    /// The message has an `id` member.
    pub has_id: bool,
    /// The `id` member, when it is an unsigned integer.
    pub id: Option<u64>,
    /// `Some` when the message has an `error` member: its `message`, when that is a string.
    pub error: Option<Option<String>>,
    /// The `result` member, as JSON text.
    pub result: Option<String>,
}

/// The mathematical value of an [`RpcFrame`].
pub struct RpcFrameView {
    pub has_method: bool,
    pub has_id: bool,
    pub id: Option<u64>,
    pub error: Option<Option<Seq<char>>>,
    pub result: Option<Seq<char>>,
}

pub open spec fn frame_view(f: Option<RpcFrame>) -> Option<RpcFrameView> {
    match f {
        Some(f) => Some(
            RpcFrameView {
                has_method: f.has_method,
                has_id: f.has_id,
                id: f.id,
                error: match f.error {
                    Some(m) => Some(crate::llm::opt_view(m)),
                    None => None,
                },
                result: crate::llm::opt_view(f.result),
            },
        ),
        None => None,
    }
}

/// The frame of a line of JSON, `None` when the line is not valid JSON; determined by
/// the line's text.
pub uninterp spec fn rpc_frame(line: Seq<char>) -> Option<RpcFrameView>;

/// Parses a line as JSON (`serde_json::from_str` into a `serde_json::Value`) and reads
/// the members that matter while waiting for a response.
#[verifier::external_body]
fn parse_rpc_line(line: &str) -> (r: Option<RpcFrame>)
    ensures
        frame_view(r) == rpc_frame(line@),
{
    let value: serde_json::Value = serde_json::from_str(line).ok()?;
    Some(RpcFrame {
        has_method: value.get("method").is_some(),
        has_id: value.get("id").is_some(),
        id: value.get("id").and_then(|v| v.as_u64()),
        error: value.get("error").map(|e| e.get("message").and_then(|m| m.as_str()).map(|m| m.to_string())),
        result: value.get("result").map(|v| v.to_string()),
    })
}

/// What to do with a line while waiting for the response to request `expected_id`.
#[derive(Debug, Clone)]
pub enum RpcStep {
    /// Not the awaited response (blank, a notification, another request's id): read on.
    Skip,
    /// The line is not JSON.
    Invalid,
    /// The server answered with an error; its message.
    Failed { message: String },
    /// The awaited result, as JSON text.
    Result { json: String },
}

/// The mathematical value of an [`RpcStep`].
pub enum RpcStepView {
    Skip,
    Invalid,
    Failed { message: Seq<char> },
    Result { json: Seq<char> },
}

impl View for RpcStep {
    type V = RpcStepView;

    open spec fn view(&self) -> RpcStepView {
        match self {
            RpcStep::Skip => RpcStepView::Skip,
            RpcStep::Invalid => RpcStepView::Invalid,
            RpcStep::Failed { message } => RpcStepView::Failed { message: message@ },
            RpcStep::Result { json } => RpcStepView::Result { json: json@ },
        }
    }
}

/// The step for a parsed line: notifications and responses to other requests are
/// skipped; the awaited response yields its error message (`unknown error` when it has
/// none) or its result (`null` when it has none).
pub open spec fn rpc_step_spec(expected_id: u64, frame: Option<RpcFrameView>) -> RpcStepView {
    match frame {
        None => RpcStepView::Invalid,
        Some(f) => if f.has_method && !f.has_id {
            RpcStepView::Skip
        } else if f.id != Some(expected_id) {
            RpcStepView::Skip
        } else {
            match f.error {
                Some(m) => RpcStepView::Failed {
                    message: match m {
                        Some(t) => t,
                        None => "unknown error"@,
                    },
                },
                None => RpcStepView::Result {
                    json: match f.result {
                        Some(t) => t,
                        None => "null"@,
                    },
                },
            }
        },
    }
}

/// Decides what a parsed line means for the awaited response.
pub fn rpc_step(expected_id: u64, frame: Option<RpcFrame>) -> (r: RpcStep)
    ensures
        r@ == rpc_step_spec(expected_id, frame_view(frame)),
{
    match frame {
        None => RpcStep::Invalid,
        Some(f) => {
            if f.has_method && !f.has_id {
                RpcStep::Skip
            } else if f.id != Some(expected_id) {
                RpcStep::Skip
            } else {
                match f.error {
                    Some(m) => RpcStep::Failed {
                        message: match m {
                            Some(t) => t,
                            None => string_from(chars_of("unknown error").as_slice()),
                        },
                    },
                    None => RpcStep::Result {
                        json: match f.result {
                            Some(t) => t,
                            None => string_from(chars_of("null").as_slice()),
                        },
                    },
                }
            }
        },
    }
}

/// What a line read from the server means while waiting for the response to request
/// `expected_id`: blank lines are skipped, anything else is parsed and judged.
pub fn response_for_line(expected_id: u64, line: &str) -> (r: RpcStep)
    ensures
        crate::text::trim(line@).len() == 0 ==> r@ == RpcStepView::Skip,
        crate::text::trim(line@).len() > 0 ==> r@ == rpc_step_spec(expected_id, rpc_frame(line@)),
{
    let t = crate::text::trim_chars(&chars_of(line));
    if t.len() == 0 {
        return RpcStep::Skip;
    }
    rpc_step(expected_id, parse_rpc_line(line))
}

} // verus!
