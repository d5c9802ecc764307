//! Results an agent records for a task.

use vstd::prelude::*;

verus! {

/// What shape a task result takes.
#[derive(Debug, Clone, Copy, PartialEq, Eq, Structural)]
pub enum Kind {
    Text,
    Url,
}

/// A task result row.
#[derive(Debug, Clone)]
pub struct TaskResult {
    pub id: u64,
    pub company_id: u64,
    pub agent_id: u64,
    pub task_id: u64,
    pub kind: Kind,
    pub data: String,
    pub created_at: u64,
    pub updated_at: u64,
}

/// Builds the text result an agent records for a task: kind `Text`, the
/// given data, bound to the agent and the task.
pub fn text_task_result(company_id: u64, agent_id: u64, task_id: u64, data: String) -> (r:
    TaskResult)
    ensures
        r.kind == Kind::Text,
        r.company_id == company_id,
        r.agent_id == agent_id,
        r.task_id == task_id,
        r.data == data,
        r.id == 0,
{
    TaskResult {
        id: 0,
        company_id,
        agent_id,
        task_id,
        kind: Kind::Text,
        data,
        created_at: 0,
        updated_at: 0,
    }
}

} // verus!
