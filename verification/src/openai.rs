//! Wire-level types for an OpenAI-compatible chat-completion endpoint: tool
//! calls, tool (function) descriptors, request messages and buffered
//! responses, and the client handle that carries the endpoint settings.

use vstd::prelude::*;

verus! {

/// A structured request from the LLM to invoke a named function.
#[derive(Debug, Clone)]
pub struct ToolCall {
    pub id: String,
    pub type_: ToolType,
    pub function: FunctionCall,
}

/// The kind of a tool call; only function calls exist.
#[derive(Debug, Clone, Copy, PartialEq, Eq, Structural)]
pub enum ToolType {
    Function,
}

/// The function name and JSON-encoded arguments of a tool call.
#[derive(Debug, Clone)]
pub struct FunctionCall {
    pub name: String,
    pub arguments: String,
}

/// The mathematical view of a tool call: its three strings as sequences.
pub ghost struct ToolCallView {
    pub id: Seq<char>,
    pub name: Seq<char>,
    pub arguments: Seq<char>,
}

impl View for ToolCall {
    type V = ToolCallView;

    open spec fn view(&self) -> ToolCallView {
        ToolCallView { id: self.id@, name: self.function.name@, arguments: self.function.arguments@ }
    }
}

/// The views of a sequence of tool calls.
pub open spec fn tool_call_views(s: Seq<ToolCall>) -> Seq<ToolCallView> {
    s.map_values(|t: ToolCall| t@)
}

/// The list of tool calls carried by an assistant message.
#[derive(Debug, Clone)]
pub struct ToolCalls(pub Vec<ToolCall>);

impl ToolCalls {
    /// An empty tool-call list.
    pub fn new() -> (r: ToolCalls)
        ensures
            r.0@.len() == 0,
    {
        ToolCalls(Vec::new())
    }

    pub fn len(&self) -> (r: usize)
        ensures
            r == self.0@.len(),
    {
        self.0.len()
    }

    pub fn is_empty(&self) -> (r: bool)
        ensures
            r == (self.0@.len() == 0),
    {
        self.0.len() == 0
    }
}

/// A function descriptor offered to the LLM.
#[derive(Debug)]
pub struct Tool {
    pub type_: String,
    pub function: Function,
}

/// A callable function: name, description and parameter schema.
#[derive(Debug)]
pub struct Function {
    pub name: String,
    pub description: Option<String>,
    pub parameters: Option<FunctionParameters>,
}

/// A JSON-schema-shaped object describing a function's parameters.
#[derive(Debug)]
pub struct FunctionParameters {
    pub type_: String,
    pub properties: Vec<(String, FunctionPropertyValue)>,
}

/// One property of a function-parameter schema.
#[derive(Debug)]
pub struct FunctionPropertyValue {
    pub type_: String,
    pub description: String,
    pub items: Option<FunctionParameters>,
}

/// Token accounting of a buffered completion response.
#[derive(Debug, Clone, Copy, PartialEq, Eq, Structural)]
pub struct Usage {
    pub completion_tokens: u32,
    pub prompt_tokens: u32,
    pub total_tokens: u32,
}

/// A chat message in wire form, tagged by role.
#[derive(Debug, Clone)]
pub enum WireMessage {
    System { content: String, name: Option<String> },
    User { content: String, name: Option<String> },
    Assistant { content: Option<String>, name: Option<String>, tool_calls: Vec<ToolCall> },
    Tool { content: String, tool_call_id: String },
}

impl WireMessage {
    /// Whether this is an assistant message.
    pub open spec fn is_assistant(&self) -> bool {
        self is Assistant
    }

    /// The tool calls of an assistant message; other roles carry none.
    pub open spec fn spec_tool_calls(&self) -> Seq<ToolCall> {
        match self {
            WireMessage::Assistant { tool_calls, .. } => tool_calls@,
            _ => Seq::<ToolCall>::empty(),
        }
    }

    /// The tool calls of an assistant message; any other role carries none.
    pub fn tool_calls(&self) -> (r: Option<&Vec<ToolCall>>)
        ensures
            match r {
                Some(v) => self.is_assistant() && v@ == self.spec_tool_calls(),
                None => !self.is_assistant(),
            },
    {
        match self {
            WireMessage::Assistant { tool_calls, .. } => Some(tool_calls),
            _ => None,
        }
    }
}

/// A choice of a buffered completion response.
#[derive(Debug, Clone)]
pub struct Choice {
    pub finish_reason: String,
    pub index: u32,
    pub message: WireMessage,
}

/// A buffered chat-completion response.
#[derive(Debug, Clone)]
pub struct ChatCompletion {
    pub created: u32,
    pub id: String,
    pub model: String,
    pub object: String,
    pub choices: Vec<Choice>,
    pub usage: Usage,
}

/// The endpoint settings a chat-completion call needs.
#[derive(Debug, Clone)]
pub struct Client {
    pub api_key: String,
    pub api_url: String,
    pub user_agent: String,
}

impl Client {
    /// Builds a client handle from the key, base URL and user agent.
    pub fn new(api_key: &str, api_url: &str, user_agent: &str) -> (r: Client)
        ensures
            r.api_key@ == api_key@,
            r.api_url@ == api_url@,
            r.user_agent@ == user_agent@,
    {
        Client {
            api_key: api_key.to_owned(),
            api_url: api_url.to_owned(),
            user_agent: user_agent.to_owned(),
        }
    }
}

} // verus!
