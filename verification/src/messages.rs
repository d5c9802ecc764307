//! The persisted chat message: roles, statuses, the row type, its wire-form
//! conversion, crash-recovery of stuck statuses, and the pure checks behind
//! chat-title generation.

use vstd::prelude::*;

use crate::openai::{ToolCall, WireMessage};

verus! {

/// The role of a message within a chat.
#[derive(Debug, Clone, Copy, PartialEq, Eq, Structural)]
pub enum Role {
    System,
    User,
    Assistant,
    Tool,
    CodeInterpreter,
}

/// The lifecycle status of a message.
#[derive(Debug, Clone, Copy, PartialEq, Eq, Structural)]
pub enum Status {
    Writing,
    WaitingForToolCall,
    Completed,
    Failed,
    ToolCallDenied,
}

/// A chat message row.  Identifiers are plain integers; `tool_calls` holds
/// the already-decoded calls (empty when the message carries none).
#[derive(Debug, Clone)]
pub struct Message {
    pub id: u64,
    pub company_id: u64,
    pub chat_id: u64,
    pub agent_id: Option<u64>,
    pub user_id: Option<u64>,
    pub status: Status,
    pub role: Role,
    pub content: Option<String>,
    pub prompt_tokens: Option<i32>,
    pub completion_tokens: Option<i32>,
    pub tool_calls: Vec<ToolCall>,
    pub tool_call_id: Option<String>,
    pub is_self_reflection: bool,
    pub is_internal_tool_output: bool,
    pub created_at: u64,
    pub updated_at: u64,
}

impl Message {
    /// Only assistant messages may carry tool calls.
    pub open spec fn wf(&self) -> bool {
        self.tool_calls@.len() > 0 ==> self.role == Role::Assistant
    }

    /// The message's tool calls.
    pub fn tool_calls(&self) -> (r: &Vec<ToolCall>)
        ensures
            r@ == self.tool_calls@,
    {
        &self.tool_calls
    }
}

/// What a message status becomes on startup recovery: a row still `Writing`
/// when the process went down is closed as `Failed`; every other status is
/// kept.
pub open spec fn spec_recover_status(s: Status) -> Status {
    if s == Status::Writing {
        Status::Failed
    } else {
        s
    }
}

/// Startup recovery of one message status: afterwards no message is
/// `Writing`, and only `Writing` rows change.
pub fn recover_status(s: Status) -> (r: Status)
    ensures
        r == spec_recover_status(s),
        r != Status::Writing,
        s != Status::Writing ==> r == s,
{
    if s == Status::Writing {
        Status::Failed
    } else {
        s
    }
}

/// Whether the tool message at `i` of a chat log answers the `k`-th tool
/// call of the assistant message at `j`: the assistant message comes
/// earlier, belongs to the same chat, and the tool message carries that
/// call's id.
pub open spec fn answers_call(msgs: Seq<Message>, i: int, j: int, k: int) -> bool {
    &&& 0 <= j < i
    &&& msgs[j].role == Role::Assistant
    &&& msgs[i].chat_id == msgs[j].chat_id
    &&& 0 <= k < msgs[j].tool_calls@.len()
    &&& match msgs[i].tool_call_id {
        Some(id) => id@ == msgs[j].tool_calls@[k].id@,
        None => false,
    }
}

/// Whether every tool message of a chat log answers a tool call of an
/// earlier assistant message of the same chat: its `tool_call_id` is the id
/// of one of that assistant message's calls.
pub open spec fn tool_calls_resolve(msgs: Seq<Message>) -> bool {
    forall|i: int|
        0 <= i < msgs.len() && (#[trigger] msgs[i]).role == Role::Tool ==> exists|j: int, k: int|
            #[trigger] answers_call(msgs, i, j, k)
}

/// Builds the tool message that answers one tool call of an assistant
/// message: same chat, role `Tool`, completed, carrying the call's id and
/// the given output text as an internal tool output.
pub fn tool_output_message(
    company_id: u64,
    chat_id: u64,
    call: &crate::openai::ToolCall,
    content: String,
) -> (r: Message)
    ensures
        r.role == Role::Tool,
        r.chat_id == chat_id,
        r.company_id == company_id,
        r.status == Status::Completed,
        r.tool_call_id matches Some(id) && id@ == call.id@,
        r.content matches Some(c) && c@ == content@,
        r.is_internal_tool_output,
        !r.is_self_reflection,
        r.wf(),
{
    Message {
        id: 0,
        company_id,
        chat_id,
        agent_id: None,
        user_id: None,
        status: Status::Completed,
        role: Role::Tool,
        content: Some(content),
        prompt_tokens: None,
        completion_tokens: None,
        tool_calls: Vec::new(),
        tool_call_id: Some(call.id.clone()),
        is_self_reflection: false,
        is_internal_tool_output: true,
        created_at: 0,
        updated_at: 0,
    }
}

/// Appending the answer to a tool call keeps the chat log resolving: if
/// every tool message of `msgs` answers an earlier assistant call, and `m`
/// answers a call of the assistant message at `j` in its chat, the extended
/// log still resolves every tool message.
pub proof fn lemma_tool_output_resolves(msgs: Seq<Message>, m: Message, j: int, k: int)
    requires
        tool_calls_resolve(msgs),
        0 <= j < msgs.len(),
        msgs[j].role == Role::Assistant,
        m.chat_id == msgs[j].chat_id,
        0 <= k < msgs[j].tool_calls@.len(),
        m.role == Role::Tool,
        m.tool_call_id matches Some(id) && id@ == msgs[j].tool_calls@[k].id@,
    ensures
        tool_calls_resolve(msgs.push(m)),
{
    let ext = msgs.push(m);
    assert forall|i: int|
        0 <= i < ext.len() && (#[trigger] ext[i]).role == Role::Tool implies exists|j2: int, k2: int|
        #[trigger] answers_call(ext, i, j2, k2) by {
        if i < msgs.len() {
            assert(ext[i] == msgs[i]);
            let (j2, k2) = choose|j2: int, k2: int| #[trigger] answers_call(msgs, i, j2, k2);
            assert(ext[j2] == msgs[j2]);
            assert(answers_call(ext, i, j2, k2));
        } else {
            assert(ext[i] == m);
            assert(ext[j] == msgs[j]);
            assert(answers_call(ext, i, j, k));
        }
    }
}

/// After startup recovery no message is left `Writing`: recovery closes
/// every `Writing` row as `Failed` and keeps every other row.
pub proof fn lemma_recovery_no_writing(statuses: Seq<Status>)
    ensures
        ({
            let recovered = statuses.map_values(|s: Status| spec_recover_status(s));
            forall|i: int| 0 <= i < recovered.len() ==> #[trigger] recovered[i] != Status::Writing
        }),
{
    let recovered = statuses.map_values(|s: Status| spec_recover_status(s));
    assert forall|i: int| 0 <= i < recovered.len() implies recovered[i] != Status::Writing by {
        assert(recovered[i] == spec_recover_status(statuses[i]));
    }
}

/// Raw markdown content of a message, for rendering outside.
#[derive(Debug, Clone)]
pub struct RawContent {
    pub content: String,
}

/// Parameters of a message listing: the chat to list.
#[derive(Debug, Clone, Copy, PartialEq, Eq, Structural)]
pub struct ListParams {
    pub chat_id: u64,
}

/// Why a message cannot be put on the wire.
#[derive(Debug, Clone, Copy, PartialEq, Eq, Structural)]
pub enum WireError {
    /// The role requires text content and the message has none.
    MissingContent,
    /// A tool message has no tool-call id.
    MissingToolCallId,
}

/// Translates a stored message to wire form.  System, user and
/// code-interpreter messages require content (a code-interpreter message
/// goes out as a named user message); tool messages additionally require the
/// tool-call id; assistant messages pass content and tool calls through.
pub fn to_wire(message: Message) -> (r: Result<WireMessage, WireError>)
    ensures
        match r {
            Ok(w) => match message.role {
                Role::System => message.content is Some && (w matches WireMessage::System {
                    content,
                    name,
                } && content == message.content.unwrap() && name is None),
                Role::User => message.content is Some && (w matches WireMessage::User {
                    content,
                    name,
                } && content == message.content.unwrap() && name is None),
                Role::CodeInterpreter => message.content is Some && (w matches WireMessage::User {
                    content,
                    name,
                } && content == message.content.unwrap() && (name matches Some(n) && n@
                    == "Code-Interpreter"@)),
                Role::Assistant => (w matches WireMessage::Assistant {
                    content,
                    name,
                    tool_calls,
                } && content == message.content && tool_calls@ == message.tool_calls@ && name
                    is None),
                Role::Tool => message.content is Some && message.tool_call_id is Some && (
                w matches WireMessage::Tool { content, tool_call_id } && content
                    == message.content.unwrap() && tool_call_id == message.tool_call_id.unwrap()),
            },
            Err(WireError::MissingContent) => message.role != Role::Assistant && message.content
                is None,
            Err(WireError::MissingToolCallId) => message.role == Role::Tool && message.content
                is Some && message.tool_call_id is None,
        },
{
    match message.role {
        Role::System => match message.content {
            Some(content) => Ok(WireMessage::System { content, name: None }),
            None => Err(WireError::MissingContent),
        },
        Role::User => match message.content {
            Some(content) => Ok(WireMessage::User { content, name: None }),
            None => Err(WireError::MissingContent),
        },
        Role::CodeInterpreter => match message.content {
            Some(content) => Ok(
                WireMessage::User { content, name: Some("Code-Interpreter".to_owned()) },
            ),
            None => Err(WireError::MissingContent),
        },
        Role::Assistant => Ok(
            WireMessage::Assistant {
                content: message.content,
                name: None,
                tool_calls: message.tool_calls,
            },
        ),
        Role::Tool => match (message.content, message.tool_call_id) {
            (Some(content), Some(tool_call_id)) => Ok(WireMessage::Tool { content, tool_call_id }),
            (Some(_), None) => Err(WireError::MissingToolCallId),
            (None, _) => Err(WireError::MissingContent),
        },
    }
}

/// Why a chat cannot have a title generated for it.
#[derive(Debug, Clone, Copy, PartialEq, Eq, Structural)]
pub enum TitleError {
    /// Fewer than three messages in the chat.
    TooFewMessages,
    /// No user message, or no assistant message without tool calls.
    NoSuitableMessages,
    /// The last message is not from the assistant.
    LastMessageNotFromAssistant,
}

/// Whether some message of `msgs` is a user message.
pub open spec fn has_user_message(msgs: Seq<Message>) -> bool {
    exists|i: int| 0 <= i < msgs.len() && msgs[i].role == Role::User
}

/// Whether some message of `msgs` is an assistant message without tool calls.
pub open spec fn has_plain_assistant_message(msgs: Seq<Message>) -> bool {
    exists|i: int|
        0 <= i < msgs.len() && msgs[i].role == Role::Assistant && msgs[i].tool_calls@.len() == 0
}

/// Checks that a chat is fit for title generation: it holds at least three
/// messages, among them a user message and an assistant message without tool
/// calls, and it ends with an assistant message.  Exactly the failing check
/// is reported, in this order.
pub fn check_title_messages(msgs: &Vec<Message>) -> (r: Result<(), TitleError>)
    ensures
        match r {
            Ok(()) => msgs@.len() >= 3 && has_user_message(msgs@) && has_plain_assistant_message(
                msgs@,
            ) && msgs@.last().role == Role::Assistant,
            Err(TitleError::TooFewMessages) => msgs@.len() < 3,
            Err(TitleError::NoSuitableMessages) => msgs@.len() >= 3 && !(has_user_message(msgs@)
                && has_plain_assistant_message(msgs@)),
            Err(TitleError::LastMessageNotFromAssistant) => msgs@.len() >= 3 && has_user_message(
                msgs@,
            ) && has_plain_assistant_message(msgs@) && msgs@.last().role != Role::Assistant,
        },
{
    if msgs.len() < 3 {
        return Err(TitleError::TooFewMessages);
    }
    let mut found_user: bool = false;
    let mut found_assistant: bool = false;
    let mut i: usize = 0;
    while i < msgs.len()
        invariant
            0 <= i <= msgs@.len(),
            found_user == has_user_message(msgs@.subrange(0, i as int)),
            found_assistant == has_plain_assistant_message(msgs@.subrange(0, i as int)),
        decreases msgs@.len() - i,
    {
        let ghost pre = msgs@.subrange(0, i as int);
        if msgs[i].role == Role::User {
            found_user = true;
        }
        if msgs[i].role == Role::Assistant && msgs[i].tool_calls.len() == 0 {
            found_assistant = true;
        }
        i = i + 1;
        proof {
            let cur = msgs@.subrange(0, i as int);
            assert(cur.drop_last() =~= pre);
            assert(cur.last() == msgs@[i - 1]);
            assert(found_user == has_user_message(cur)) by {
                if found_user {
                    if msgs@[i - 1].role == Role::User {
                        assert(cur[i - 1].role == Role::User);
                    } else {
                        let j = choose|j: int| 0 <= j < pre.len() && pre[j].role == Role::User;
                        assert(cur[j].role == Role::User);
                    }
                } else {
                    if has_user_message(cur) {
                        let j = choose|j: int| 0 <= j < cur.len() && cur[j].role == Role::User;
                        if j < i - 1 {
                            assert(pre[j].role == Role::User);
                        }
                    }
                }
            }
            assert(found_assistant == has_plain_assistant_message(cur)) by {
                if found_assistant {
                    if !has_plain_assistant_message(pre) {
                        assert(cur[i - 1].role == Role::Assistant && cur[i - 1].tool_calls@.len()
                            == 0);
                    } else {
                        let j = choose|j: int|
                            0 <= j < pre.len() && pre[j].role == Role::Assistant
                                && pre[j].tool_calls@.len() == 0;
                        assert(cur[j].role == Role::Assistant && cur[j].tool_calls@.len() == 0);
                    }
                } else {
                    if has_plain_assistant_message(cur) {
                        let j = choose|j: int|
                            0 <= j < cur.len() && cur[j].role == Role::Assistant
                                && cur[j].tool_calls@.len() == 0;
                        if j < i - 1 {
                            assert(pre[j].role == Role::Assistant && pre[j].tool_calls@.len() == 0);
                        }
                    }
                }
            }
        }
    }
    proof {
        assert(msgs@.subrange(0, msgs@.len() as int) =~= msgs@);
    }
    if !found_user || !found_assistant {
        return Err(TitleError::NoSuitableMessages);
    }
    if msgs[msgs.len() - 1].role != Role::Assistant {
        return Err(TitleError::LastMessageNotFromAssistant);
    }
    Ok(())
}

/// Whether a title-generation prompt keeps this message: user and system
/// messages are kept, and assistant messages without tool calls.
pub open spec fn spec_keeps_for_title(m: Message) -> bool {
    m.role == Role::User || m.role == Role::System || (m.role == Role::Assistant
        && m.tool_calls@.len() == 0)
}

/// Whether a title-generation prompt keeps this message.
pub fn keeps_for_title(m: &Message) -> (r: bool)
    ensures
        r == spec_keeps_for_title(*m),
{
    m.role == Role::User || m.role == Role::System || (m.role == Role::Assistant
        && m.tool_calls.len() == 0)
}

/// The title with one pair of surrounding double quotes removed; a title
/// quoted on one side only is kept as it is.
pub open spec fn spec_strip_title_quotes(s: Seq<char>) -> Seq<char> {
    if s.len() >= 2 && s[0] == '"' && s[s.len() - 1] == '"' {
        s.subrange(1, s.len() - 1)
    } else {
        s
    }
}

/// Removes the surrounding double quotes a model sometimes puts around a
/// generated chat title.
pub fn strip_title_quotes(title: &str) -> (r: String)
    ensures
        r@ == spec_strip_title_quotes(title@),
{
    let chars = crate::strutil::str_to_chars(title);
    if chars.len() >= 2 && chars[0] == '"' && chars[chars.len() - 1] == '"' {
        let mut out: Vec<char> = Vec::new();
        let mut i: usize = 1;
        while i < chars.len() - 1
            invariant
                1 <= i <= chars@.len() - 1,
                chars@.len() >= 2,
                out@ == chars@.subrange(1, i as int),
            decreases chars@.len() - i,
        {
            out.push(chars[i]);
            i = i + 1;
            proof {
                assert(out@ =~= chars@.subrange(1, i as int));
            }
        }
        crate::strutil::chars_to_string(&out)
    } else {
        title.to_owned()
    }
}

} // verus!
