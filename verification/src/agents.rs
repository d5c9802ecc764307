//! The agent entity: an LLM-driven persona with a system prompt and flags.

use vstd::prelude::*;

verus! {

/// An agent row.
#[derive(Debug, Clone)]
pub struct Agent {
    pub id: u64,
    pub company_id: u64,
    pub name: String,
    pub description: String,
    pub system_message: String,
    pub is_enabled: bool,
    pub is_code_interpreter_enabled: bool,
    pub is_web_browser_enabled: bool,
    /// A per-agent cap on execution steps; absent means the tenant default.
    pub execution_steps_limit: Option<i64>,
    pub created_at: u64,
    pub updated_at: u64,
}

} // verus!
