//! The web server's logic: how a stored session is shown, how a chat request is
//! checked, and the errors it answers with.
use vstd::prelude::*;

use crate::llm::{calls_view, messages_view, opt_view, Message, MessageView, Role, ToolCall,
    ToolCallView};
use crate::text::{append_str, chars_of, eq_chars, string_from, trim, trim_chars};

verus! {

/// The name a role has in the web API.
pub open spec fn role_name_spec(role: Role) -> Seq<char> {
    match role {
        Role::System => "system"@,
        Role::User => "user"@,
        Role::Assistant => "assistant"@,
        Role::Tool => "tool"@,
    }
}

/// The name of a role in the web API.
pub fn role_name(role: Role) -> (r: &'static str)
    ensures
        r@ == role_name_spec(role),
{
    match role {
        Role::System => "system",
        Role::User => "user",
        Role::Assistant => "assistant",
        Role::Tool => "tool",
    }
}

/// A message as the web UI shows it.
#[derive(Debug, Clone)]
pub struct ChatMessage {
    pub role: String,
    pub content: String,
    /// For a tool result, the name of the tool that produced it.
    pub tool_name: Option<String>,
}

/// The mathematical value of a [`ChatMessage`].
pub struct ChatMessageView {
    pub role: Seq<char>,
    pub content: Seq<char>,
    pub tool_name: Option<Seq<char>>,
}

impl View for ChatMessage {
    type V = ChatMessageView;

    open spec fn view(&self) -> ChatMessageView {
        ChatMessageView { role: self.role@, content: self.content@, tool_name: opt_view(self.tool_name) }
    }
}

pub open spec fn chat_views(v: Seq<ChatMessage>) -> Seq<ChatMessageView> {
    v.map_values(|m: ChatMessage| m@)
}

/// The name of the last call with id `id` in a list of calls.
pub open spec fn last_call_name(calls: Seq<ToolCallView>, id: Seq<char>) -> Option<Seq<char>>
    decreases calls.len(),
{
    if calls.len() == 0 {
        None
    } else if calls.last().id == id {
        Some(calls.last().name)
    } else {
        last_call_name(calls.drop_last(), id)
    }
}

/// The name of the tool called with id `id`: the last call with that id in the
/// session, in message order.
pub open spec fn session_tool_name(messages: Seq<MessageView>, id: Seq<char>) -> Option<Seq<char>>
    decreases messages.len(),
{
    if messages.len() == 0 {
        None
    } else {
        match messages.last().tool_calls {
            Some(calls) => match last_call_name(calls, id) {
                Some(n) => Some(n),
                None => session_tool_name(messages.drop_last(), id),
            },
            None => session_tool_name(messages.drop_last(), id),
        }
    }
}

/// How a stored message is shown, if at all: messages without text and assistant
/// messages with blank text are left out; a tool result carries its tool's name.
pub open spec fn chat_entry(m: MessageView, all: Seq<MessageView>) -> Option<ChatMessageView> {
    match m.content {
        None => None,
        Some(t) => if m.role == Role::Assistant && trim(t).len() == 0 {
            None
        } else {
            Some(
                ChatMessageView {
                    role: role_name_spec(m.role),
                    content: t,
                    tool_name: match m.tool_call_id {
                        Some(id) => session_tool_name(all, id),
                        None => None,
                    },
                },
            )
        },
    }
}

/// The shown messages of `ms`, in order.
pub open spec fn chat_view(ms: Seq<MessageView>, all: Seq<MessageView>) -> Seq<ChatMessageView>
    decreases ms.len(),
{
    if ms.len() == 0 {
        Seq::empty()
    } else {
        match chat_entry(ms.last(), all) {
            Some(c) => chat_view(ms.drop_last(), all).push(c),
            None => chat_view(ms.drop_last(), all),
        }
    }
}

fn last_call_name_exec(calls: &Vec<ToolCall>, id: &Vec<char>) -> (r: Option<String>)
    ensures
        opt_view(r) == last_call_name(calls_view(calls@), id@),
{
    let ghost cv = calls_view(calls@);
    let mut k = calls.len();
    assert(cv.take(k as int) =~= cv);
    while k > 0
        invariant
            k <= calls.len(),
            cv == calls_view(calls@),
            last_call_name(cv, id@) == last_call_name(cv.take(k as int), id@),
        decreases k,
    {
        assert(cv.take(k as int).last() == calls@[k - 1]@);
        assert(cv.take(k as int).drop_last() =~= cv.take(k - 1));
        if eq_chars(&chars_of(calls[k - 1].id.as_str()), id) {
            return Some(calls[k - 1].name.clone());
        }
        k = k - 1;
    }
    None
}

fn session_tool_name_exec(messages: &Vec<Message>, id: &Vec<char>) -> (r: Option<String>)
    ensures
        opt_view(r) == session_tool_name(messages_view(messages@), id@),
{
    let ghost mv = messages_view(messages@);
    let mut k = messages.len();
    assert(mv.take(k as int) =~= mv);
    while k > 0
        invariant
            k <= messages.len(),
            mv == messages_view(messages@),
            session_tool_name(mv, id@) == session_tool_name(mv.take(k as int), id@),
        decreases k,
    {
        let m = &messages[k - 1];
        assert(mv.take(k as int).last() == m@);
        assert(mv.take(k as int).drop_last() =~= mv.take(k - 1));
        match &m.tool_calls {
            Some(calls) => {
                let found = last_call_name_exec(calls, id);
                if found.is_some() {
                    return found;
                }
            },
            None => {},
        }
        k = k - 1;
    }
    None
}

/// The messages of a stored session as the web UI shows them.
pub fn chat_messages(messages: &Vec<Message>) -> (r: Vec<ChatMessage>)
    ensures
        chat_views(r@) == chat_view(messages_view(messages@), messages_view(messages@)),
{
    let ghost mv = messages_view(messages@);
    let mut out: Vec<ChatMessage> = Vec::new();
    let mut i: usize = 0;
    assert(mv.take(0) =~= Seq::<MessageView>::empty());
    while i < messages.len()
        invariant
            0 <= i <= messages.len(),
            mv == messages_view(messages@),
            chat_views(out@) == chat_view(mv.take(i as int), mv),
        decreases messages.len() - i,
    {
        let m = &messages[i];
        assert(mv.take(i + 1).last() == m@);
        assert(mv.take(i + 1).drop_last() =~= mv.take(i as int));
        if let Some(text) = &m.content {
            let blank = trim_chars(&chars_of(text.as_str())).len() == 0;
            if !(m.role == Role::Assistant && blank) {
                let tool_name = match &m.tool_call_id {
                    Some(id) => session_tool_name_exec(messages, &chars_of(id.as_str())),
                    None => None,
                };
                let role = role_name(m.role);
                let entry = ChatMessage {
                    role: string_from(chars_of(role).as_slice()),
                    content: text.clone(),
                    tool_name,
                };
                out.push(entry);
                assert(chat_views(out@) =~= chat_view(mv.take(i as int), mv).push(entry@));
            }
        }
        i = i + 1;
    }
    assert(mv.take(messages.len() as int) =~= mv);
    out
}

/// An error answer of the web API: an HTTP status and a message.
#[derive(Debug, Clone)]
pub struct ApiError {
    pub status: u16,
    pub message: String,
}

impl ApiError {
    /// 400 with the given message.
    pub fn bad_request(message: &str) -> (r: Self)
        ensures
            r.status == 400,
            r.message@ == message@,
    {
        ApiError { status: 400, message: string_from(chars_of(message).as_slice()) }
    }

    /// 404 saying that `resource` was not found.
    pub fn not_found(resource: &str) -> (r: Self)
        ensures
            r.status == 404,
            r.message@ == resource@ + " not found"@,
    {
        let mut v: Vec<char> = Vec::new();
        append_str(&mut v, resource);
        append_str(&mut v, " not found");
        ApiError { status: 404, message: string_from(v.as_slice()) }
    }

    /// 500 for a failure of the session store, with its message.
    pub fn storage(message: &str) -> (r: Self)
        ensures
            r.status == 500,
            r.message@ == message@,
    {
        ApiError { status: 500, message: string_from(chars_of(message).as_slice()) }
    }
}

/// The text of a chat request: the message trimmed, which must not be empty.
pub fn chat_message_text(message: &str) -> (r: Result<String, ApiError>)
    ensures
        trim(message@).len() > 0 ==> (r matches Ok(t) && t@ == trim(message@)),
        trim(message@).len() == 0 ==> (r matches Err(e) && e.status == 400 && e.message@
            == "message cannot be empty"@),
{
    let t = trim_chars(&chars_of(message));
    if t.len() == 0 {
        Err(ApiError::bad_request("message cannot be empty"))
    } else {
        Ok(string_from(t.as_slice()))
    }
}

/// The log filter of the web server when none is set in the environment.
pub fn server_log_filter(verbose: bool) -> (r: &'static str)
    ensures
        verbose ==> r@ == "codei_server=info,codei_agent=debug,codei_llm=debug"@,
        !verbose ==> r@ == "codei_server=info"@,
{
    if verbose {
        "codei_server=info,codei_agent=debug,codei_llm=debug"
    } else {
        "codei_server=info"
    }
}

} // verus!
