//! The task planner's decision rules.
//!
//! Planning asks the LLM to either assign a task to an agent or decompose
//! it into sub-tasks, through exactly two function tools.  The reply's tool
//! calls are folded into an execution plan; the plan then either assigns
//! the agent, stops at the depth ceiling, or yields the draft children to
//! insert one level below the task.

use vstd::prelude::*;

use crate::agents::Agent;
use crate::executor::{spec_verb_of, verb_of, ToolVerb};
use crate::openai::{
    tool_call_views, ChatCompletion, Function, FunctionParameters, FunctionPropertyValue,
    ToolCallView,
};
use crate::strutil::dec_str;
use crate::tasks::{Status, Task};

verus! {

/// One planned sub-task.
#[derive(Debug, Clone)]
pub struct ExecutionPlanTask {
    pub title: String,
    pub summary: String,
    pub agent_id: u64,
}

/// The view of a planned sub-task.
pub ghost struct ExecutionPlanTaskView {
    pub title: Seq<char>,
    pub summary: Seq<char>,
    pub agent_id: u64,
}

impl View for ExecutionPlanTask {
    type V = ExecutionPlanTaskView;

    open spec fn view(&self) -> ExecutionPlanTaskView {
        ExecutionPlanTaskView {
            title: self.title@,
            summary: self.summary@,
            agent_id: self.agent_id,
        }
    }
}

/// A plan: the sub-tasks the LLM proposed.
#[derive(Debug, Clone)]
pub struct ExecutionPlan {
    pub tasks: Vec<ExecutionPlanTask>,
}

impl View for ExecutionPlan {
    type V = Seq<ExecutionPlanTaskView>;

    open spec fn view(&self) -> Seq<ExecutionPlanTaskView> {
        self.tasks@.map_values(|t: ExecutionPlanTask| t@)
    }
}

/// The plan a `sfai_plan_task_execution` argument string decodes to, or
/// nothing when it is not a well-formed plan.  The decoding is a function
/// of the text alone.
pub uninterp spec fn execution_plan_of(s: Seq<char>) -> Option<Seq<ExecutionPlanTaskView>>;

/// Relies on `serde_json::from_str` and `serde_json::Value::{get, as_array,
/// as_str, as_u64}`: decodes `{"tasks": [{title, summary, agent_id}, ...]}`,
/// returning nothing when the text is not valid JSON or an entry lacks a
/// field; the result depends on the text alone.
#[verifier::external_body]
fn parse_execution_plan(s: &str) -> (r: Option<ExecutionPlan>)
    ensures
        match r {
            Some(p) => execution_plan_of(s@) == Some(p@),
            None => execution_plan_of(s@) is None,
        },
{
    let v: serde_json::Value = serde_json::from_str(s).ok()?;
    let arr = v.get("tasks")?.as_array()?;
    let mut tasks = Vec::new();
    for t in arr {
        tasks.push(ExecutionPlanTask {
            title: t.get("title")?.as_str()?.to_owned(),
            summary: t.get("summary")?.as_str()?.to_owned(),
            agent_id: t.get("agent_id")?.as_u64()?,
        });
    }
    Some(ExecutionPlan { tasks })
}

/// The agent id a `sfai_assign_to_agent` argument string decodes to, or
/// nothing when it holds none.  The decoding is a function of the text
/// alone.
pub uninterp spec fn assign_agent_of(s: Seq<char>) -> Option<u64>;

/// Relies on `serde_json::from_str` and `serde_json::Value::{get, as_u64}`:
/// decodes `{"agent_id": n}`, returning nothing when the text is not valid
/// JSON or lacks the field; the result depends on the text alone.
#[verifier::external_body]
fn parse_assign_args(s: &str) -> (r: Option<u64>)
    ensures
        match r {
            Some(a) => assign_agent_of(s@) == Some(a),
            None => assign_agent_of(s@) is None,
        },
{
    let v: serde_json::Value = serde_json::from_str(s).ok()?;
    v.get("agent_id")?.as_u64()
}

/// Why planning failed.
#[derive(Debug, Clone)]
pub enum PlannerError {
    /// The task's status admits no planning.
    PlanningUnavailable(Status),
    /// The LLM reply carried no planning tool call.
    NoToolCallReceived,
    /// The LLM reply was not an assistant message.
    NonAssistantMessage,
    /// The configured default model is not in the store.
    CannotLoadModel(String),
    /// The LLM returned a plan with no tasks.
    EmptyPlan,
    /// A planning tool call carried undecodable arguments.
    BadToolCallArguments,
}

/// Whether a task's status admits planning: drafts, tasks waiting for the
/// user and failed tasks may be planned; queued and running tasks may not.
pub fn check_plannable(status: Status) -> (r: Result<(), PlannerError>)
    ensures
        status == Status::ToDo || status == Status::InProgress ==> (
        r matches Err(PlannerError::PlanningUnavailable(s)) && s == status),
        !(status == Status::ToDo || status == Status::InProgress) ==> r is Ok,
{
    if status == Status::ToDo || status == Status::InProgress {
        Err(PlannerError::PlanningUnavailable(status))
    } else {
        Ok(())
    }
}

/// How one tool call of the reply changes the accumulated plan: a planning
/// call replaces it with its decoded plan, an assignment call with a
/// single-task plan carrying the task's own title and summary, any other
/// call leaves it; undecodable arguments fail.
pub open spec fn spec_plan_step(
    acc: Option<Seq<ExecutionPlanTaskView>>,
    tc: ToolCallView,
    title: Seq<char>,
    summary: Seq<char>,
) -> Result<Option<Seq<ExecutionPlanTaskView>>, PlannerError> {
    if spec_verb_of(tc.name) == ToolVerb::PlanTaskExecution {
        match execution_plan_of(tc.arguments) {
            None => Err(PlannerError::BadToolCallArguments),
            Some(p) => Ok(Some(p)),
        }
    } else if spec_verb_of(tc.name) == ToolVerb::AssignToAgent {
        match assign_agent_of(tc.arguments) {
            None => Err(PlannerError::BadToolCallArguments),
            Some(a) => Ok(
                Some(seq![ExecutionPlanTaskView { title: title, summary: summary, agent_id: a }]),
            ),
        }
    } else {
        Ok(acc)
    }
}

/// The plan the reply's tool calls fold to, in order; the last planning
/// call wins.
pub open spec fn spec_plan_from_calls(
    calls: Seq<ToolCallView>,
    acc: Option<Seq<ExecutionPlanTaskView>>,
    title: Seq<char>,
    summary: Seq<char>,
) -> Result<Option<Seq<ExecutionPlanTaskView>>, PlannerError>
    decreases calls.len(),
{
    if calls.len() == 0 {
        Ok(acc)
    } else {
        match spec_plan_step(acc, calls.first(), title, summary) {
            Err(e) => Err(e),
            Ok(acc2) => spec_plan_from_calls(calls.drop_first(), acc2, title, summary),
        }
    }
}

/// The view of an optional plan.
pub open spec fn opt_plan_view(o: Option<ExecutionPlan>) -> Option<Seq<ExecutionPlanTaskView>> {
    match o {
        Some(p) => Some(p@),
        None => None,
    }
}

/// Reads the execution plan out of a buffered LLM reply: the reply must be
/// an assistant message, and its planning and assignment tool calls are
/// folded in order.  `None` means the reply carried no planning call.
#[verifier::loop_isolation(false)]
pub fn plan_from_response(response: &ChatCompletion, task: &Task) -> (r: Result<
    Option<ExecutionPlan>,
    PlannerError,
>)
    requires
        response.choices@.len() > 0,
    ensures
        ({
            let m = response.choices@[0].message;
            if m is Assistant {
                match (r, spec_plan_from_calls(
                    tool_call_views(m.spec_tool_calls()),
                    None,
                    task.title@,
                    task.summary@,
                )) {
                    (Ok(p), Ok(q)) => opt_plan_view(p) == q,
                    (Err(e1), Err(e2)) => e1 == e2,
                    _ => false,
                }
            } else {
                r matches Err(PlannerError::NonAssistantMessage)
            }
        }),
{
    let message = &response.choices[0].message;
    let calls = match message.tool_calls() {
        Some(calls) => calls,
        None => {
            return Err(PlannerError::NonAssistantMessage);
        },
    };
    let ghost cvs = tool_call_views(calls@);
    let mut acc: Option<ExecutionPlan> = None;
    let mut i: usize = 0;
    proof {
        assert(cvs.subrange(0, cvs.len() as int) =~= cvs);
    }
    while i < calls.len()
        invariant
            0 <= i <= calls@.len(),
            cvs == tool_call_views(calls@),
            spec_plan_from_calls(cvs, None, task.title@, task.summary@) == spec_plan_from_calls(
                cvs.subrange(i as int, cvs.len() as int),
                opt_plan_view(acc),
                task.title@,
                task.summary@,
            ),
        decreases calls@.len() - i,
    {
        let ghost rest = cvs.subrange(i as int, cvs.len() as int);
        proof {
            assert(rest.first() == cvs[i as int]);
            assert(cvs[i as int] == calls@[i as int]@);
            assert(rest.drop_first() =~= cvs.subrange(i + 1, cvs.len() as int));
        }
        let tc = &calls[i];
        match verb_of(tc.function.name.as_str()) {
            ToolVerb::PlanTaskExecution => {
                match parse_execution_plan(tc.function.arguments.as_str()) {
                    Some(p) => {
                        acc = Some(p);
                    },
                    None => {
                        proof {
                            assert(execution_plan_of(rest.first().arguments) is None);
                            assert(spec_plan_step(
                                opt_plan_view(acc),
                                rest.first(),
                                task.title@,
                                task.summary@,
                            ) == Err::<Option<Seq<ExecutionPlanTaskView>>, PlannerError>(
                                PlannerError::BadToolCallArguments,
                            ));
                            assert(spec_plan_from_calls(rest, opt_plan_view(acc), task.title@, task.summary@)
                                == Err::<Option<Seq<ExecutionPlanTaskView>>, PlannerError>(
                                PlannerError::BadToolCallArguments,
                            ));
                        }
                        return Err(PlannerError::BadToolCallArguments);
                    },
                }
            },
            ToolVerb::AssignToAgent => {
                match parse_assign_args(tc.function.arguments.as_str()) {
                    Some(a) => {
                        let single = ExecutionPlanTask {
                            title: task.title.clone(),
                            summary: task.summary.clone(),
                            agent_id: a,
                        };
                        let mut ts: Vec<ExecutionPlanTask> = Vec::new();
                        ts.push(single);
                        let plan = ExecutionPlan { tasks: ts };
                        proof {
                            assert(plan@ =~= seq![
                                ExecutionPlanTaskView {
                                    title: task.title@,
                                    summary: task.summary@,
                                    agent_id: a,
                                },
                            ]);
                        }
                        acc = Some(plan);
                    },
                    None => {
                        proof {
                            assert(assign_agent_of(rest.first().arguments) is None);
                            assert(spec_plan_from_calls(rest, opt_plan_view(acc), task.title@, task.summary@)
                                == Err::<Option<Seq<ExecutionPlanTaskView>>, PlannerError>(
                                PlannerError::BadToolCallArguments,
                            ));
                        }
                        return Err(PlannerError::BadToolCallArguments);
                    },
                }
            },
            _ => {},
        }
        i = i + 1;
    }
    Ok(acc)
}

/// What a plan asks the planner to do with the task.
#[derive(Debug)]
pub enum PlanAction {
    /// Assign the task to this agent; no children are created.
    Assign(u64),
    /// The depth ceiling is reached: keep the task as it is.
    StopDepth,
    /// Insert these draft children one level below the task.
    CreateChildren(Vec<Task>),
}

/// Whether a draft child realizes a planned sub-task of a parent: same
/// title, summary and agent, status `Draft`, and an ancestry that extends
/// the parent's own path by the parent — so the child stands exactly one
/// level below.
pub open spec fn child_matches(c: Task, p: ExecutionPlanTaskView, parent: Task) -> bool {
    &&& c.title@ == p.title
    &&& c.summary@ == p.summary
    &&& c.agent_id == p.agent_id
    &&& c.status == Status::Draft
    &&& c.company_id == parent.company_id
    &&& c.ancestry@ == parent.spec_children_ancestry()
    &&& c.ancestry@.len() == parent.ancestry@.len() + 1
}

/// Decides what a plan does to the task.  An empty plan fails; a single
/// sub-task is an assignment; several sub-tasks become draft children one
/// level below the task, but only while the task's level is below the
/// depth ceiling — at or above it, nothing is created.
pub fn plan_decision(task: &Task, plan: &ExecutionPlan, depth_limit: u8) -> (r: Result<
    PlanAction,
    PlannerError,
>)
    ensures
        plan@.len() == 0 ==> r matches Err(PlannerError::EmptyPlan),
        plan@.len() == 1 ==> (r matches Ok(PlanAction::Assign(a)) && a == plan@[0].agent_id),
        plan@.len() > 1 && task.ancestry@.len() >= depth_limit ==> r matches Ok(
            PlanAction::StopDepth,
        ),
        plan@.len() > 1 && task.ancestry@.len() < depth_limit ==> (r matches Ok(
            PlanAction::CreateChildren(cs),
        ) && cs@.len() == plan@.len() && (forall|i: int|
            0 <= i < cs@.len() ==> child_matches(#[trigger] cs@[i], plan@[i], *task))),
{
    if plan.tasks.len() == 0 {
        return Err(PlannerError::EmptyPlan);
    }
    if plan.tasks.len() == 1 {
        return Ok(PlanAction::Assign(plan.tasks[0].agent_id));
    }
    if task.ancestry.len() >= depth_limit as usize {
        return Ok(PlanAction::StopDepth);
    }
    let mut children: Vec<Task> = Vec::new();
    let mut i: usize = 0;
    while i < plan.tasks.len()
        invariant
            0 <= i <= plan.tasks@.len(),
            children@.len() == i,
            forall|k: int| 0 <= k < i ==> child_matches(#[trigger] children@[k], plan@[k], *task),
        decreases plan.tasks@.len() - i,
    {
        let p = &plan.tasks[i];
        let mut ancestry: Vec<u64> = Vec::new();
        let mut k: usize = 0;
        while k < task.ancestry.len()
            invariant
                0 <= k <= task.ancestry@.len(),
                ancestry@ == task.ancestry@.subrange(0, k as int),
            decreases task.ancestry@.len() - k,
        {
            ancestry.push(task.ancestry[k]);
            k = k + 1;
            proof {
                assert(ancestry@ =~= task.ancestry@.subrange(0, k as int));
            }
        }
        ancestry.push(task.id);
        proof {
            assert(task.ancestry@.subrange(0, task.ancestry@.len() as int) =~= task.ancestry@);
            assert(ancestry@ =~= task.spec_children_ancestry());
        }
        let child = Task {
            id: 0,
            company_id: task.company_id,
            user_id: task.user_id,
            agent_id: p.agent_id,
            origin_chat_id: None,
            control_chat_id: None,
            execution_chat_id: None,
            title: p.title.clone(),
            summary: p.summary.clone(),
            status: Status::Draft,
            ancestry,
            created_at: 0,
            updated_at: 0,
        };
        children.push(child);
        i = i + 1;
    }
    Ok(PlanAction::CreateChildren(children))
}

/// The two function tools the planner offers the LLM: assign the task to
/// an agent, or plan its execution as a list of sub-tasks.
pub fn planner_abilities() -> (r: Vec<crate::abilities::Ability>)
    ensures
        r@.len() == 2,
        r@[0].function.name@ == "sfai_assign_to_agent"@,
        r@[0].description@ == "No plan required. Assign task to an agent"@,
        (r@[0].function.parameters matches Some(p) && p.type_@ == "object"@ && p.properties@.len()
            == 1 && p.properties@[0].0@ == "agent_id"@ && p.properties@[0].1.type_@
            == "integer"@),
        r@[1].function.name@ == "sfai_plan_task_execution"@,
        r@[1].description@ == "Plan task execution"@,
        (r@[1].function.parameters matches Some(p) && p.type_@ == "object"@ && p.properties@.len()
            == 1 && p.properties@[0].0@ == "tasks"@ && p.properties@[0].1.type_@ == "array"@ && (
        p.properties@[0].1.items matches Some(it) && it.type_@ == "object"@ && it.properties@.len()
            == 3 && it.properties@[0].0@ == "title"@ && it.properties@[0].1.type_@ == "string"@
            && it.properties@[1].0@ == "summary"@ && it.properties@[1].1.type_@ == "string"@
            && it.properties@[2].0@ == "agent_id"@ && it.properties@[2].1.type_@ == "integer"@)),
{
    let mut assign_props: Vec<(String, FunctionPropertyValue)> = Vec::new();
    assign_props.push(
        (
            "agent_id".to_owned(),
            FunctionPropertyValue {
                type_: "integer".to_owned(),
                description: "ID of the agent to assign the task to".to_owned(),
                items: None,
            },
        ),
    );
    let mut item_props: Vec<(String, FunctionPropertyValue)> = Vec::new();
    item_props.push(
        (
            "title".to_owned(),
            FunctionPropertyValue {
                type_: "string".to_owned(),
                description: "Task title".to_owned(),
                items: None,
            },
        ),
    );
    item_props.push(
        (
            "summary".to_owned(),
            FunctionPropertyValue {
                type_: "string".to_owned(),
                description: "Task summary".to_owned(),
                items: None,
            },
        ),
    );
    item_props.push(
        (
            "agent_id".to_owned(),
            FunctionPropertyValue {
                type_: "integer".to_owned(),
                description: "ID of the agent to assign the task to".to_owned(),
                items: None,
            },
        ),
    );
    let mut plan_props: Vec<(String, FunctionPropertyValue)> = Vec::new();
    plan_props.push(
        (
            "tasks".to_owned(),
            FunctionPropertyValue {
                type_: "array".to_owned(),
                description: "List of planned sub-tasks".to_owned(),
                items: Some(
                    FunctionParameters { type_: "object".to_owned(), properties: item_props },
                ),
            },
        ),
    );
    let mut r: Vec<crate::abilities::Ability> = Vec::new();
    r.push(
        crate::abilities::Ability::for_fn(
            "No plan required. Assign task to an agent",
            Function {
                name: "sfai_assign_to_agent".to_owned(),
                description: None,
                parameters: Some(
                    FunctionParameters { type_: "object".to_owned(), properties: assign_props },
                ),
            },
        ),
    );
    r.push(
        crate::abilities::Ability::for_fn(
            "Plan task execution",
            Function {
                name: "sfai_plan_task_execution".to_owned(),
                description: None,
                parameters: Some(
                    FunctionParameters { type_: "object".to_owned(), properties: plan_props },
                ),
            },
        ),
    );
    r
}

/// The line an available agent contributes to the planning prompt.
pub open spec fn spec_agent_line(a: Agent) -> Seq<char> {
    "- ID: "@ + dec_str(a.id as nat) + ". "@ + a.name@ + ": "@ + a.description@
}

/// The agents listing of the planning prompt: one line per agent, or a
/// fixed line when none is available.
pub open spec fn spec_agents_listing(agents: Seq<Agent>) -> Seq<char>
    decreases agents.len(),
{
    if agents.len() == 0 {
        "No agents available"@
    } else if agents.len() == 1 {
        spec_agent_line(agents[0])
    } else {
        spec_agents_listing(agents.drop_last()) + "\n"@ + spec_agent_line(agents.last())
    }
}

/// The user message of the planning prompt: the available agents, the task
/// title with its summary when it has one, and the attachments section.
pub open spec fn spec_planner_user_message(agents: Seq<Agent>, task: Task) -> Seq<char> {
    "## Available Agents\n\n"@ + spec_agents_listing(agents) + "\n\n## Task: "@ + task.title@ + (
    if task.summary@.len() == 0 {
        Seq::<char>::empty()
    } else {
        "\n\n"@ + task.summary@
    }) + "\n\n## Attachments\n\nNo attachments provided."@
}

/// Builds the planning prompt's user message for a task and the enabled
/// agents.
pub fn planner_user_message(agents: &Vec<Agent>, task: &Task) -> (r: String)
    ensures
        r@ == spec_planner_user_message(agents@, *task),
{
    let mut out = "## Available Agents\n\n".to_owned();
    if agents.len() == 0 {
        out.append("No agents available");
    } else {
        let mut i: usize = 0;
        while i < agents.len()
            invariant
                0 <= i <= agents@.len(),
                agents@.len() > 0,
                i > 0 ==> out@ == "## Available Agents\n\n"@ + spec_agents_listing(
                    agents@.subrange(0, i as int),
                ),
                i == 0 ==> out@ == "## Available Agents\n\n"@,
            decreases agents@.len() - i,
        {
            let ghost pre = agents@.subrange(0, i as int);
            if i > 0 {
                out.append("\n");
            }
            out.append("- ID: ");
            let digits = crate::strutil::u64_to_string(agents[i].id);
            out.append(digits.as_str());
            out.append(". ");
            out.append(agents[i].name.as_str());
            out.append(": ");
            out.append(agents[i].description.as_str());
            i = i + 1;
            proof {
                let cur = agents@.subrange(0, i as int);
                assert(cur.drop_last() =~= pre);
                assert(cur.last() == agents@[i - 1]);
                assert(out@ =~= "## Available Agents\n\n"@ + spec_agents_listing(cur));
            }
        }
        proof {
            assert(agents@.subrange(0, agents@.len() as int) =~= agents@);
        }
    }
    out.append("\n\n## Task: ");
    out.append(task.title.as_str());
    if task.summary.as_str().unicode_len() > 0 {
        out.append("\n\n");
        out.append(task.summary.as_str());
    }
    out.append("\n\n## Attachments\n\nNo attachments provided.");
    proof {
        assert(out@ =~= spec_planner_user_message(agents@, *task));
    }
    out
}

} // verus!
