//! The chat entity: an ordered sequence of messages of one of three kinds.

use vstd::prelude::*;

verus! {

/// What a chat is for: user-to-agent, orchestrator-to-user control, or the
/// executor's per-task execution dialog.
#[derive(Debug, Clone, Copy, PartialEq, Eq, Structural)]
pub enum Kind {
    Direct,
    Control,
    Execution,
}

/// A chat row.
#[derive(Debug, Clone)]
pub struct Chat {
    pub id: u64,
    pub company_id: u64,
    pub model_id: Option<u64>,
    pub title: String,
    pub is_pinned: bool,
    pub kind: Kind,
    pub created_at: u64,
    pub updated_at: u64,
}

impl Chat {
    /// Whether the executor may drive a task through this chat.
    pub fn is_execution(&self) -> (r: bool)
        ensures
            r == (self.kind == Kind::Execution),
    {
        self.kind == Kind::Execution
    }
}

} // verus!
