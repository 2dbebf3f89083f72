//! The conversation data exchanged with the cognition service (Ollama's
//! `/api/chat`): chat messages, the tool calls a model may request, and the
//! reply of one chat call.
use vstd::prelude::*;
use crate::text::{trim, trim_trailing_slashes, without_trailing_slashes};
use vstd::string::StringExecFns;

verus! {

/// A value inside a tool call's argument object: a JSON string, or any other
/// JSON value kept as its JSON text.
#[derive(Debug)]
pub enum JsonArgument {
    Text(String),
    Other(String),
}

/// The view of an argument value.
pub enum JsonArgumentView {
    Text(Seq<char>),
    Other(Seq<char>),
}

impl View for JsonArgument {
    type V = JsonArgumentView;

    open spec fn view(&self) -> JsonArgumentView {
        match self {
            JsonArgument::Text(s) => JsonArgumentView::Text(s@),
            JsonArgument::Other(s) => JsonArgumentView::Other(s@),
        }
    }
}

impl Clone for JsonArgument {
    fn clone(&self) -> (r: Self)
        ensures
            r@ == self@,
    {
        match self {
            JsonArgument::Text(s) => JsonArgument::Text(s.clone()),
            JsonArgument::Other(s) => JsonArgument::Other(s.clone()),
        }
    }
}

/// One `key: value` entry of a tool call's argument object.
#[derive(Debug)]
pub struct ArgumentEntry {
    pub key: String,
    pub value: JsonArgument,
}

impl View for ArgumentEntry {
    type V = (Seq<char>, JsonArgumentView);

    open spec fn view(&self) -> (Seq<char>, JsonArgumentView) {
        (self.key@, self.value@)
    }
}

impl Clone for ArgumentEntry {
    fn clone(&self) -> (r: Self)
        ensures
            r@ == self@,
    {
        ArgumentEntry { key: self.key.clone(), value: self.value.clone() }
    }
}

/// The arguments of a tool call: a JSON object (most models), a JSON string
/// (some models), or any other JSON value kept as its JSON text.
#[derive(Debug)]
pub enum ToolArguments {
    Object(Vec<ArgumentEntry>),
    Text(String),
    Other(String),
}

/// The view of tool-call arguments.
pub enum ToolArgumentsView {
    Object(Seq<(Seq<char>, JsonArgumentView)>),
    Text(Seq<char>),
    Other(Seq<char>),
}

impl View for ToolArguments {
    type V = ToolArgumentsView;

    open spec fn view(&self) -> ToolArgumentsView {
        match self {
            ToolArguments::Object(entries) => ToolArgumentsView::Object(
                entries@.map_values(|e: ArgumentEntry| e@),
            ),
            ToolArguments::Text(s) => ToolArgumentsView::Text(s@),
            ToolArguments::Other(s) => ToolArgumentsView::Other(s@),
        }
    }
}

impl Clone for ToolArguments {
    fn clone(&self) -> (r: Self)
        ensures
            r@ == self@,
    {
        match self {
            ToolArguments::Object(entries) => {
                let c = entries.clone();
                assert forall|i: int| 0 <= i < c@.len() implies c@[i]@ == entries@[i]@ by {
                    assert(cloned::<ArgumentEntry>(entries[i], c[i]));
                }
                assert(c@.map_values(|e: ArgumentEntry| e@) =~= entries@.map_values(
                    |e: ArgumentEntry| e@,
                ));
                ToolArguments::Object(c)
            },
            ToolArguments::Text(s) => ToolArguments::Text(s.clone()),
            ToolArguments::Other(s) => ToolArguments::Other(s.clone()),
        }
    }
}

/// The function part of a tool call: its name and arguments.
#[derive(Debug)]
pub struct ToolCallFunction {
    pub name: String,
    /// Arguments as a JSON object (or, from some models, a JSON string).
    pub arguments: ToolArguments,
}

/// A tool call requested by the model.
#[derive(Debug)]
pub struct ToolCall {
    pub function: ToolCallFunction,
}

/// The view of a tool call: the function's name and arguments.
pub struct ToolCallView {
    pub name: Seq<char>,
    pub arguments: ToolArgumentsView,
}

impl View for ToolCall {
    type V = ToolCallView;

    open spec fn view(&self) -> ToolCallView {
        ToolCallView { name: self.function.name@, arguments: self.function.arguments@ }
    }
}

impl Clone for ToolCallFunction {
    fn clone(&self) -> (r: Self)
        ensures
            r.name@ == self.name@,
            r.arguments@ == self.arguments@,
    {
        ToolCallFunction { name: self.name.clone(), arguments: self.arguments.clone() }
    }
}

impl Clone for ToolCall {
    fn clone(&self) -> (r: Self)
        ensures
            r@ == self@,
    {
        ToolCall { function: self.function.clone() }
    }
}

/// The views of a sequence of tool calls.
pub open spec fn calls_view(calls: Seq<ToolCall>) -> Seq<ToolCallView> {
    calls.map_values(|c: ToolCall| c@)
}

/// A single chat message in the conversation history.
#[derive(Debug)]
pub struct ChatMessage {
    pub role: String,
    pub content: String,
    /// Tool calls requested by the model (assistant messages only).
    pub tool_calls: Option<Vec<ToolCall>>,
}

/// The view of a chat message.
pub struct ChatMessageView {
    pub role: Seq<char>,
    pub content: Seq<char>,
    pub tool_calls: Option<Seq<ToolCallView>>,
}

impl View for ChatMessage {
    type V = ChatMessageView;

    open spec fn view(&self) -> ChatMessageView {
        ChatMessageView {
            role: self.role@,
            content: self.content@,
            tool_calls: match self.tool_calls {
                Some(calls) => Some(calls_view(calls@)),
                None => None,
            },
        }
    }
}

impl Clone for ChatMessage {
    fn clone(&self) -> (r: Self)
        ensures
            r@ == self@,
    {
        let tool_calls = match &self.tool_calls {
            Some(calls) => {
                let c = calls.clone();
                assert forall|i: int| 0 <= i < c@.len() implies c@[i]@ == calls@[i]@ by {
                    assert(cloned::<ToolCall>(calls[i], c[i]));
                }
                assert(calls_view(c@) =~= calls_view(calls@));
                Some(c)
            },
            None => None,
        };
        ChatMessage { role: self.role.clone(), content: self.content.clone(), tool_calls }
    }
}

/// The views of a sequence of chat messages.
pub open spec fn messages_view(ms: Seq<ChatMessage>) -> Seq<ChatMessageView> {
    ms.map_values(|m: ChatMessage| m@)
}

/// A message with the given role and content and no tool calls.
pub open spec fn plain_message(role: Seq<char>, content: Seq<char>) -> ChatMessageView {
    ChatMessageView { role, content, tool_calls: None }
}

impl ChatMessage {
    pub fn user(content: &str) -> (m: Self)
        ensures
            m@ == plain_message("user"@, content@),
    {
        ChatMessage { role: "user".to_owned(), content: content.to_owned(), tool_calls: None }
    }

    pub fn assistant(content: &str) -> (m: Self)
        ensures
            m@ == plain_message("assistant"@, content@),
    {
        ChatMessage { role: "assistant".to_owned(), content: content.to_owned(), tool_calls: None }
    }

    pub fn system(content: &str) -> (m: Self)
        ensures
            m@ == plain_message("system"@, content@),
    {
        ChatMessage { role: "system".to_owned(), content: content.to_owned(), tool_calls: None }
    }

    /// A tool result message (role `tool`), carrying the tool's output.
    pub fn tool(content: &str) -> (m: Self)
        ensures
            m@ == plain_message("tool"@, content@),
    {
        ChatMessage { role: "tool".to_owned(), content: content.to_owned(), tool_calls: None }
    }

    /// An assistant message that requested tool calls (content may be empty).
    pub fn assistant_with_tool_calls(content: &str, tool_calls: Vec<ToolCall>) -> (m: Self)
        ensures
            m@ == (ChatMessageView {
                role: "assistant"@,
                content: content@,
                tool_calls: Some(calls_view(tool_calls@)),
            }),
    {
        ChatMessage {
            role: "assistant".to_owned(),
            content: content.to_owned(),
            tool_calls: Some(tool_calls),
        }
    }
}

/// The reply from a chat call: text plus any tool calls the model requested.
#[derive(Debug)]
pub struct ChatReply {
    pub content: String,
    pub tool_calls: Vec<ToolCall>,
}

/// The text of a plain chat call's reply: the content, unless it is blank
/// (empty or only whitespace), which the cognition client reports as an
/// empty reply.
pub fn nonempty_reply(content: String) -> (r: Option<String>)
    ensures
        r is None <==> trim(content@).len() == 0,
        r matches Some(s) ==> s@ == content@,
{
    crate::text::nonblank(content)
}

/// The chat endpoint of an Ollama base URL (trailing slashes dropped).
pub fn chat_endpoint(base_url: &str) -> (u: String)
    ensures
        u@ == without_trailing_slashes(base_url@) + "/api/chat"@,
{
    let mut u = trim_trailing_slashes(base_url);
    u.append("/api/chat");
    u
}

} // verus!
