//! The task executor's decision rules.
//!
//! The executor walks the task tree and drives each task through an agent
//! dialog.  Everything it decides — which task to run next, what a dialog
//! turn does with the last message, which tool calls are terminal, when a
//! parent rolls up to done — is computed here from plain values; the
//! surrounding loop performs the I/O and hands results back.

use vstd::prelude::*;

use crate::codeblocks::{spec_parse_code_blocks, parse_code_blocks, CodeBlock, CodeBlockAction, Language};
use crate::messages::{Message, Role};
use crate::openai::{tool_call_views, ToolCall, ToolCallView};
use crate::strutil::str_eq;
use crate::tasks::{Status, Task};

verus! {

/// Arguments of the text-result tool: the text to record, and whether the
/// task is thereby done.
#[derive(Debug, Clone)]
pub struct ProvideTextResultArgs {
    pub text: String,
    pub is_done: bool,
}

/// The view of the text-result arguments.
pub ghost struct ProvideTextResultArgsView {
    pub text: Seq<char>,
    pub is_done: bool,
}

impl View for ProvideTextResultArgs {
    type V = ProvideTextResultArgsView;

    open spec fn view(&self) -> ProvideTextResultArgsView {
        ProvideTextResultArgsView { text: self.text@, is_done: self.is_done }
    }
}

impl Default for ProvideTextResultArgs {
    fn default() -> (r: ProvideTextResultArgs)
        ensures
            r.text@.len() == 0,
            !r.is_done,
    {
        ProvideTextResultArgs { text: String::new(), is_done: false }
    }
}

/// The arguments a `sfai_provide_text_result` argument string decodes to,
/// or nothing when it holds no text.  The decoding is a function of the
/// text alone.
pub uninterp spec fn provide_text_result_args_of(s: Seq<char>) -> Option<ProvideTextResultArgsView>;

/// Relies on `serde_json::from_str` and `serde_json::Value::{get, as_str,
/// as_bool}`: decodes `{"text": ..., "is_done": ...}`, the `is_done` flag
/// reading false when absent; returns nothing when the text is not valid
/// JSON or lacks the `text` field; the result depends on the text alone.
#[verifier::external_body]
fn parse_provide_text_result_args(s: &str) -> (r: Option<ProvideTextResultArgs>)
    ensures
        match r {
            Some(a) => provide_text_result_args_of(s@) == Some(a@),
            None => provide_text_result_args_of(s@) is None,
        },
{
    let v: serde_json::Value = serde_json::from_str(s).ok()?;
    Some(ProvideTextResultArgs {
        text: v.get("text")?.as_str()?.to_owned(),
        is_done: v.get("is_done").and_then(|b| b.as_bool()).unwrap_or(false),
    })
}

/// The decoded arguments of a text-result tool call, or nothing when the
/// call's arguments do not decode.
pub fn text_result_of_call(call: &ToolCall) -> (r: Option<ProvideTextResultArgs>)
    ensures
        match r {
            Some(a) => provide_text_result_args_of(call.function.arguments@) == Some(a@),
            None => provide_text_result_args_of(call.function.arguments@) is None,
        },
{
    parse_provide_text_result_args(call.function.arguments.as_str())
}

/// Whether the child picker may select a task: drafts, queued tasks and
/// tasks back from a wait or a failure are eligible; running and finished
/// ones never are.
pub open spec fn pickable(s: Status) -> bool {
    s == Status::Draft || s == Status::ToDo || s == Status::WaitingForUser || s == Status::Failed
}

/// A task with the subtrees below it, children ordered by creation time.
#[derive(Debug)]
pub struct TaskTree {
    pub root: Task,
    pub children: Vec<TaskTree>,
}

/// The execution candidate of a tree: depth-first, children before their
/// parent's own eligibility, first eligible task wins.
pub open spec fn spec_candidate(tree: TaskTree) -> Option<Task>
    decreases tree, tree.children@.len() + 1,
{
    spec_candidate_from(tree, 0)
}

/// The execution candidate of `tree`, starting the child scan at `i`.
pub open spec fn spec_candidate_from(tree: TaskTree, i: int) -> Option<Task>
    decreases tree, tree.children@.len() - i,
{
    if i < 0 || i >= tree.children@.len() {
        if pickable(tree.root.status) {
            Some(tree.root)
        } else {
            None
        }
    } else {
        match spec_candidate(tree.children@[i]) {
            Some(t) => Some(t),
            None => spec_candidate_from(tree, i + 1),
        }
    }
}

/// Picks the next task to execute from a subtree: the first eligible task
/// in depth-first order, children before the root.  A task that is
/// `InProgress` or `Done` is never returned.
pub fn find_execution_candidate(tree: &TaskTree) -> (r: Option<&Task>)
    ensures
        match r {
            Some(t) => spec_candidate(*tree) == Some(*t) && pickable(t.status),
            None => spec_candidate(*tree) is None,
        },
    decreases *tree,
{
    let mut i: usize = 0;
    while i < tree.children.len()
        invariant
            0 <= i <= tree.children@.len(),
            spec_candidate(*tree) == spec_candidate_from(*tree, i as int),
        decreases tree.children@.len() - i,
    {
        match find_execution_candidate(&tree.children[i]) {
            Some(t) => {
                return Some(t);
            },
            None => {},
        }
        i = i + 1;
    }
    if matches!(tree.root.status, Status::Draft | Status::ToDo | Status::WaitingForUser
        | Status::Failed) {
        Some(&tree.root)
    } else {
        None
    }
}

/// The tasks a subtree holds: the root, then each child subtree's tasks in
/// order.
pub open spec fn tree_tasks(tree: TaskTree) -> Seq<Task>
    decreases tree, tree.children@.len() + 1,
{
    seq![tree.root] + tree_tasks_from(tree, 0)
}

/// The tasks of the child subtrees from index `i` on.
pub open spec fn tree_tasks_from(tree: TaskTree, i: int) -> Seq<Task>
    decreases tree, tree.children@.len() - i,
{
    if i < 0 || i >= tree.children@.len() {
        Seq::<Task>::empty()
    } else {
        tree_tasks(tree.children@[i]) + tree_tasks_from(tree, i + 1)
    }
}

/// Whether every node of the tree stands under its parent: each child's
/// task names the parent's id as the last entry of its ancestry, down the
/// whole tree.
pub open spec fn tree_linked(tree: TaskTree) -> bool
    decreases tree, tree.children@.len() + 1,
{
    tree_linked_from(tree, 0)
}

/// Whether the child subtrees from index `i` on are linked under `tree`.
pub open spec fn tree_linked_from(tree: TaskTree, i: int) -> bool
    decreases tree, tree.children@.len() - i,
{
    if i < 0 || i >= tree.children@.len() {
        true
    } else {
        let c = tree.children@[i];
        c.root.ancestry@.len() > 0 && c.root.ancestry@.last() == tree.root.id && tree_linked(c)
            && tree_linked_from(tree, i + 1)
    }
}

proof fn lemma_tree_tasks_from_push(t1: TaskTree, t2: TaskTree, s: TaskTree, i: int)
    requires
        t2.children@ == t1.children@.push(s),
        0 <= i <= t1.children@.len(),
    ensures
        tree_tasks_from(t2, i) == tree_tasks_from(t1, i) + tree_tasks(s),
    decreases t1.children@.len() - i,
{
    if i == t1.children@.len() {
        assert(t2.children@[i] == s);
        assert(tree_tasks_from(t2, i + 1) == Seq::<Task>::empty());
        assert(tree_tasks_from(t2, i) =~= tree_tasks_from(t1, i) + tree_tasks(s));
    } else {
        assert(t2.children@[i] == t1.children@[i]);
        lemma_tree_tasks_from_push(t1, t2, s, i + 1);
        assert(tree_tasks_from(t2, i) =~= tree_tasks_from(t1, i) + tree_tasks(s));
    }
}

proof fn lemma_tree_linked_from_push(t1: TaskTree, t2: TaskTree, s: TaskTree, i: int)
    requires
        t2.children@ == t1.children@.push(s),
        t2.root == t1.root,
        0 <= i <= t1.children@.len(),
        tree_linked_from(t1, i),
        s.root.ancestry@.len() > 0,
        s.root.ancestry@.last() == t1.root.id,
        tree_linked(s),
    ensures
        tree_linked_from(t2, i),
    decreases t1.children@.len() - i,
{
    if i == t1.children@.len() {
        assert(t2.children@[i] == s);
        assert(tree_linked_from(t2, i + 1));
    } else {
        assert(t2.children@[i] == t1.children@[i]);
        lemma_tree_linked_from_push(t1, t2, s, i + 1);
    }
}

/// Builds the subtree below `root` from the flat task list, consuming the
/// tasks it places: a task whose parent id is `root.id` becomes a child, in
/// list order, and its own children are collected below it.  The tree holds
/// the root plus exactly the consumed tasks, each standing under its
/// parent.
#[verifier::loop_isolation(false)]
pub fn build_subtree(root: Task, tasks: &mut Vec<Task>) -> (r: TaskTree)
    ensures
        r.root == root,
        final(tasks)@.len() <= old(tasks)@.len(),
        final(tasks)@.to_multiset().add(tree_tasks(r).to_multiset()) == old(
            tasks,
        )@.to_multiset().insert(root),
        tree_linked(r),
    decreases old(tasks)@.len(),
{
    broadcast use vstd::seq_lib::group_to_multiset_ensures;

    let root_id = root.id;
    let mut direct: Vec<Task> = Vec::new();
    let mut j: usize = 0;
    while j < tasks.len()
        invariant
            0 <= j <= tasks@.len(),
            tasks@.len() + direct@.len() == old(tasks)@.len(),
            tasks@.to_multiset().add(direct@.to_multiset()) == old(tasks)@.to_multiset(),
            forall|k: int|
                0 <= k < direct@.len() ==> (#[trigger] direct@[k]).ancestry@.len() > 0
                    && direct@[k].ancestry@.last() == root.id,
        decreases tasks@.len() - j,
    {
        let is_child = match tasks[j].parent_id() {
            Some(p) => p == root_id,
            None => false,
        };
        if is_child {
            let ghost pre_tasks = tasks@;
            let ghost pre_direct = direct@;
            let child = tasks.remove(j);
            direct.push(child);
            proof {
                assert(pre_tasks.to_multiset().count(child) > 0) by {
                    assert(pre_tasks.contains(child));
                }
                assert(tasks@.to_multiset() =~= pre_tasks.to_multiset().remove(child));
                assert(direct@.to_multiset() =~= pre_direct.to_multiset().insert(child));
                assert(tasks@.to_multiset().add(direct@.to_multiset()) =~= pre_tasks.to_multiset().add(
                    pre_direct.to_multiset(),
                ));
            }
        } else {
            j = j + 1;
        }
    }
    let mut children: Vec<TaskTree> = Vec::new();
    while direct.len() > 0
        invariant
            tasks@.len() + direct@.len() <= old(tasks)@.len(),
            tasks@.to_multiset().add(direct@.to_multiset()).add(
                tree_tasks_from(TaskTree { root: root, children: children }, 0).to_multiset(),
            ) == old(tasks)@.to_multiset(),
            tree_linked_from(TaskTree { root: root, children: children }, 0),
            forall|k: int|
                0 <= k < direct@.len() ==> (#[trigger] direct@[k]).ancestry@.len() > 0
                    && direct@[k].ancestry@.last() == root.id,
        decreases direct@.len(),
    {
        let ghost pre_tree = TaskTree { root: root, children: children };
        let ghost pre_direct = direct@;
        let ghost pre_tasks = tasks@;
        let child = direct.remove(0);
        let ghost mid_tasks = tasks@;
        proof {
            assert(child == pre_direct[0]);
            assert(forall|k: int|
                0 <= k < direct@.len() ==> #[trigger] direct@[k] == pre_direct[k + 1]);
        }
        let subtree = build_subtree(child, tasks);
        proof {
            assert(subtree.root == child);
        }
        children.push(subtree);
        proof {
            let cur_tree = TaskTree { root: root, children: children };
            assert(cur_tree.children@ == pre_tree.children@.push(subtree));
            lemma_tree_tasks_from_push(pre_tree, cur_tree, subtree, 0);
            lemma_tree_linked_from_push(pre_tree, cur_tree, subtree, 0);
            vstd::seq_lib::lemma_multiset_commutative(
                tree_tasks_from(pre_tree, 0),
                tree_tasks(subtree),
            );
            assert(pre_direct.to_multiset().count(child) > 0) by {
                assert(pre_direct.contains(child));
            }
            assert(direct@.to_multiset() =~= pre_direct.to_multiset().remove(child));
            assert(tree_tasks_from(cur_tree, 0).to_multiset() =~= tree_tasks_from(
                pre_tree,
                0,
            ).to_multiset().add(tree_tasks(subtree).to_multiset()));
            // the recursive call moved `child` plus some of `tasks` into the
            // subtree
            let t2 = tasks@.to_multiset();
            let s = tree_tasks(subtree).to_multiset();
            let t1 = pre_tasks.to_multiset();
            let d1 = pre_direct.to_multiset();
            let f1 = tree_tasks_from(pre_tree, 0).to_multiset();
            assert(t2.add(s) == t1.insert(child));
            assert(tasks@.to_multiset().add(direct@.to_multiset()).add(
                tree_tasks_from(cur_tree, 0).to_multiset(),
            ) =~= t2.add(s).add(d1.remove(child)).add(f1));
            assert(t2.add(s).add(d1.remove(child)).add(f1) =~= t1.insert(child).add(
                d1.remove(child),
            ).add(f1));
            assert(t1.insert(child).add(d1.remove(child)) =~= t1.add(d1));
            assert(tasks@.to_multiset().add(direct@.to_multiset()).add(
                tree_tasks_from(cur_tree, 0).to_multiset(),
            ) =~= t1.add(d1).add(f1));
        }
    }
    let r = TaskTree { root, children };
    proof {
        assert(direct@.to_multiset() =~= Seq::<Task>::empty().to_multiset());
        assert(tree_tasks(r) == seq![r.root] + tree_tasks_from(r, 0));
        vstd::seq_lib::lemma_multiset_commutative(seq![r.root], tree_tasks_from(r, 0));
        assert(seq![r.root] =~= Seq::<Task>::empty().push(r.root));
        assert(seq![r.root].to_multiset() =~= vstd::multiset::Multiset::<Task>::empty().insert(r.root));
        assert(tree_tasks(r).to_multiset() =~= tree_tasks_from(r, 0).to_multiset().insert(
            r.root,
        ));
        assert(tasks@.to_multiset().add(tree_tasks(r).to_multiset()) =~= old(
            tasks,
        )@.to_multiset().insert(root));
    }
    r
}

/// Whether the tasks are ordered by creation time.
pub open spec fn sorted_by_created(ts: Seq<Task>) -> bool {
    forall|i: int, j: int| 0 <= i < j < ts.len() ==> ts[i].created_at <= ts[j].created_at
}

/// Sorts tasks by creation time, keeping exactly the same tasks.
pub fn sort_task_tree(tasks: &mut Vec<Task>)
    ensures
        sorted_by_created(final(tasks)@),
        final(tasks)@.to_multiset() == old(tasks)@.to_multiset(),
{
    let ghost orig = tasks@;
    let mut sorted: Vec<Task> = Vec::new();
    let mut rest: Vec<Task> = Vec::new();
    core::mem::swap(tasks, &mut rest);
    proof {
        broadcast use vstd::seq_lib::group_to_multiset_ensures;

        assert(sorted@.to_multiset().add(rest@.to_multiset()) =~= orig.to_multiset());
    }
    while rest.len() > 0
        invariant
            sorted_by_created(sorted@),
            sorted@.to_multiset().add(rest@.to_multiset()) == orig.to_multiset(),
            forall|i: int, k: int|
                0 <= i < sorted@.len() && 0 <= k < rest@.len() ==> sorted@[i].created_at
                    <= rest@[k].created_at,
        decreases rest@.len(),
    {
        // take the minimum of what is left
        let mut min_idx: usize = 0;
        let mut k: usize = 1;
        while k < rest.len()
            invariant
                0 <= min_idx < rest@.len(),
                1 <= k <= rest@.len(),
                forall|m: int| 0 <= m < k ==> rest@[min_idx as int].created_at <= rest@[m].created_at,
            decreases rest@.len() - k,
        {
            if rest[k].created_at < rest[min_idx].created_at {
                min_idx = k;
            }
            k = k + 1;
        }
        let ghost pre_sorted = sorted@;
        let ghost pre_rest = rest@;
        let t = rest.remove(min_idx);
        sorted.push(t);
        proof {
            broadcast use vstd::seq_lib::group_to_multiset_ensures;

            assert(pre_rest.contains(t));
            assert(pre_rest.to_multiset().count(t) > 0);
            assert(rest@.to_multiset() =~= pre_rest.to_multiset().remove(t));
            assert(sorted@.to_multiset() =~= pre_sorted.to_multiset().insert(t));
            assert(sorted@.to_multiset().add(rest@.to_multiset()) =~= pre_sorted.to_multiset().add(
                pre_rest.to_multiset(),
            ));
        }
    }
    proof {
        broadcast use vstd::seq_lib::group_to_multiset_ensures;

        assert(sorted@.to_multiset() =~= sorted@.to_multiset().add(rest@.to_multiset()));
    }
    core::mem::swap(tasks, &mut sorted);
}

/// What the executor does with an execution chat, given its last message.
#[derive(Debug, Clone, Copy, PartialEq, Eq, Structural)]
pub enum DialogAction {
    /// Send the execution prelude and the chat to the agent.
    SendToAgent,
    /// Dispatch the last assistant message's tool calls.
    CallTools,
    /// Route the message through the code interpreter.
    InterpretCode,
    /// Ask the agent to self-reflect with the internal control tools.
    SelfReflect,
    /// The execution-steps limit is reached: the task fails.
    StopLimitReached,
    /// A system message stands in the execution chat: fatal.
    FatalSystemMessage,
}

/// The text of a message; absent content reads as empty.
pub open spec fn spec_content_of(m: Message) -> Seq<char> {
    match m.content {
        Some(c) => c@,
        None => Seq::<char>::empty(),
    }
}

/// The executor's next dialog step, as a function of the last message of
/// the execution chat and the step budget.
pub open spec fn spec_next_dialog_action(last: Option<Message>, steps: i64, limit: i64) -> DialogAction {
    if steps >= limit {
        DialogAction::StopLimitReached
    } else {
        match last {
            None => DialogAction::SendToAgent,
            Some(m) => match m.role {
                Role::User => DialogAction::SendToAgent,
                Role::Tool => DialogAction::SendToAgent,
                Role::CodeInterpreter => DialogAction::SendToAgent,
                Role::System => DialogAction::FatalSystemMessage,
                Role::Assistant => if m.tool_calls@.len() > 0 {
                    DialogAction::CallTools
                } else if m.is_self_reflection {
                    DialogAction::SendToAgent
                } else if spec_parse_code_blocks(spec_content_of(m)).len() > 0 {
                    DialogAction::InterpretCode
                } else {
                    DialogAction::SelfReflect
                },
            },
        }
    }
}

/// Decides the next dialog step.  `steps` counts the chat's non-internal
/// assistant messages; reaching `limit` stops the dialog.  An empty chat or
/// a user, tool or code-interpreter message asks the agent; an assistant
/// message with tool calls dispatches them; a plain self-reflection answer
/// asks the agent again; a plain answer with annotated code blocks goes to
/// the code interpreter, without them to a self-reflection turn; a system
/// message is an invariant violation.
pub fn next_dialog_action(last: Option<&Message>, steps: i64, limit: i64) -> (r: DialogAction)
    ensures
        r == spec_next_dialog_action(
            match last {
                Some(m) => Some(*m),
                None => None,
            },
            steps,
            limit,
        ),
{
    if steps >= limit {
        return DialogAction::StopLimitReached;
    }
    match last {
        None => DialogAction::SendToAgent,
        Some(m) => match m.role {
            Role::User => DialogAction::SendToAgent,
            Role::Tool => DialogAction::SendToAgent,
            Role::CodeInterpreter => DialogAction::SendToAgent,
            Role::System => DialogAction::FatalSystemMessage,
            Role::Assistant => {
                if m.tool_calls.len() > 0 {
                    DialogAction::CallTools
                } else if m.is_self_reflection {
                    DialogAction::SendToAgent
                } else {
                    let blocks = match m.content {
                        Some(ref c) => parse_code_blocks(c.as_str()),
                        None => parse_code_blocks(""),
                    };
                    proof {
                        if m.content is None {
                            reveal_strlit("");
                            assert(""@ =~= Seq::<char>::empty());
                        }
                    }
                    if blocks.len() > 0 {
                        DialogAction::InterpretCode
                    } else {
                        DialogAction::SelfReflect
                    }
                }
            },
        },
    }
}

/// The built-in tool a tool-call name addresses.
#[derive(Debug, Clone, Copy, PartialEq, Eq, Structural)]
pub enum ToolVerb {
    Done,
    Fail,
    WaitForUser,
    CodeInterpreter,
    ProvideTextResult,
    PlanTaskExecution,
    AssignToAgent,
    /// Not a built-in: a user-defined ability.
    Ability,
}

/// The verb a tool-call name resolves to.
pub open spec fn spec_verb_of(name: Seq<char>) -> ToolVerb {
    if name == "sfai_done"@ {
        ToolVerb::Done
    } else if name == "sfai_fail"@ {
        ToolVerb::Fail
    } else if name == "sfai_wait_for_user"@ {
        ToolVerb::WaitForUser
    } else if name == "sfai_code_interpreter"@ {
        ToolVerb::CodeInterpreter
    } else if name == "sfai_provide_text_result"@ {
        ToolVerb::ProvideTextResult
    } else if name == "sfai_plan_task_execution"@ {
        ToolVerb::PlanTaskExecution
    } else if name == "sfai_assign_to_agent"@ {
        ToolVerb::AssignToAgent
    } else {
        ToolVerb::Ability
    }
}

/// Resolves a tool-call name to its built-in verb, or to a user ability.
pub fn verb_of(name: &str) -> (r: ToolVerb)
    ensures
        r == spec_verb_of(name@),
{
    if str_eq(name, "sfai_done") {
        ToolVerb::Done
    } else if str_eq(name, "sfai_fail") {
        ToolVerb::Fail
    } else if str_eq(name, "sfai_wait_for_user") {
        ToolVerb::WaitForUser
    } else if str_eq(name, "sfai_code_interpreter") {
        ToolVerb::CodeInterpreter
    } else if str_eq(name, "sfai_provide_text_result") {
        ToolVerb::ProvideTextResult
    } else if str_eq(name, "sfai_plan_task_execution") {
        ToolVerb::PlanTaskExecution
    } else if str_eq(name, "sfai_assign_to_agent") {
        ToolVerb::AssignToAgent
    } else {
        ToolVerb::Ability
    }
}

/// The task status a terminal control verb sets; other verbs set none.
pub open spec fn spec_terminal_status(v: ToolVerb) -> Option<Status> {
    match v {
        ToolVerb::Done => Some(Status::Done),
        ToolVerb::Fail => Some(Status::Failed),
        ToolVerb::WaitForUser => Some(Status::WaitingForUser),
        _ => None,
    }
}

/// The task status a terminal control verb sets.
pub fn terminal_status(v: ToolVerb) -> (r: Option<Status>)
    ensures
        r == spec_terminal_status(v),
{
    match v {
        ToolVerb::Done => Some(Status::Done),
        ToolVerb::Fail => Some(Status::Failed),
        ToolVerb::WaitForUser => Some(Status::WaitingForUser),
        _ => None,
    }
}

/// The task status one dispatched tool call sets: the three control verbs
/// set their status, a text-result call with a decoded `is_done` flag sets
/// `Done`, and every other call sets none.
pub open spec fn spec_call_status(c: ToolCallView) -> Option<Status> {
    if spec_verb_of(c.name) == ToolVerb::ProvideTextResult {
        match provide_text_result_args_of(c.arguments) {
            Some(a) => if a.is_done {
                Some(Status::Done)
            } else {
                None
            },
            None => None,
        }
    } else {
        spec_terminal_status(spec_verb_of(c.name))
    }
}

/// The task status one dispatched tool call sets.
pub fn call_status(call: &ToolCall) -> (r: Option<Status>)
    ensures
        r == spec_call_status(call@),
{
    match verb_of(call.function.name.as_str()) {
        ToolVerb::ProvideTextResult => match text_result_of_call(call) {
            Some(a) => if a.is_done {
                Some(Status::Done)
            } else {
                None
            },
            None => None,
        },
        v => terminal_status(v),
    }
}

/// The task status after dispatching a list of tool calls: the status of
/// the last status-setting call among them, if any.
pub open spec fn spec_status_after_calls(calls: Seq<ToolCallView>) -> Option<Status>
    decreases calls.len(),
{
    if calls.len() == 0 {
        None
    } else {
        match spec_call_status(calls.last()) {
            Some(s) => Some(s),
            None => spec_status_after_calls(calls.drop_last()),
        }
    }
}

/// The task status that dispatching these tool calls leaves: the last
/// status-setting call wins — a terminal control verb, or a text-result
/// call whose arguments carry `is_done`; none of them leaves the status
/// alone.
pub fn status_after_calls(calls: &Vec<ToolCall>) -> (r: Option<Status>)
    ensures
        r == spec_status_after_calls(tool_call_views(calls@)),
{
    let mut r: Option<Status> = None;
    let mut i: usize = 0;
    while i < calls.len()
        invariant
            0 <= i <= calls@.len(),
            r == spec_status_after_calls(tool_call_views(calls@).subrange(0, i as int)),
        decreases calls@.len() - i,
    {
        let ghost pre = tool_call_views(calls@).subrange(0, i as int);
        match call_status(&calls[i]) {
            Some(s) => {
                r = Some(s);
            },
            None => {},
        }
        i = i + 1;
        proof {
            let cur = tool_call_views(calls@).subrange(0, i as int);
            assert(cur.drop_last() =~= pre);
            assert(cur.last() == tool_call_views(calls@)[i - 1]);
            assert(tool_call_views(calls@)[i - 1] == calls@[i - 1]@);
        }
    }
    proof {
        assert(tool_call_views(calls@).subrange(0, calls@.len() as int) =~= tool_call_views(
            calls@,
        ));
    }
    r
}

/// The tool-output text recorded when a task is marked done.
pub fn done_tool_output() -> (r: String)
    ensures
        r@ == "```\nTask has been marked as done\n```"@,
{
    "```\nTask has been marked as done\n```".to_owned()
}

/// The tool-output text recorded when a task is marked failed.
pub fn fail_tool_output() -> (r: String)
    ensures
        r@ == "```\nTask has been marked as failed\n```"@,
{
    "```\nTask has been marked as failed\n```".to_owned()
}

/// The tool-output text recorded when a task waits for the user.
pub fn wait_for_user_tool_output() -> (r: String)
    ensures
        r@ == "```\nWaiting for user input\n```"@,
{
    "```\nWaiting for user input\n```".to_owned()
}

/// The internal control abilities offered on a self-reflection turn: mark
/// the task done, mark it failed, or wait for the user.
pub fn internal_task_abilities() -> (r: Vec<crate::abilities::Ability>)
    ensures
        r@.len() == 3,
        r@[0].function.name@ == "sfai_done"@,
        r@[0].description@ == "Mark current task as done"@,
        r@[0].function.parameters is None,
        r@[1].function.name@ == "sfai_fail"@,
        r@[1].description@ == "Mark current task as failed"@,
        r@[1].function.parameters is None,
        r@[2].function.name@ == "sfai_wait_for_user"@,
        r@[2].description@ == "Wait for additional user input"@,
        r@[2].function.parameters is None,
{
    let mut r: Vec<crate::abilities::Ability> = Vec::new();
    r.push(
        crate::abilities::Ability::for_fn(
            "Mark current task as done",
            crate::openai::Function {
                name: "sfai_done".to_owned(),
                description: None,
                parameters: None,
            },
        ),
    );
    r.push(
        crate::abilities::Ability::for_fn(
            "Mark current task as failed",
            crate::openai::Function {
                name: "sfai_fail".to_owned(),
                description: None,
                parameters: None,
            },
        ),
    );
    r.push(
        crate::abilities::Ability::for_fn(
            "Wait for additional user input",
            crate::openai::Function {
                name: "sfai_wait_for_user".to_owned(),
                description: None,
                parameters: None,
            },
        ),
    );
    r
}

/// Whether a finished child completes its parent: a parent rolls up to
/// `Done` exactly when every direct child is `Done`.
pub fn should_complete_parent(children: &Vec<Task>) -> (r: bool)
    ensures
        r == (forall|i: int| 0 <= i < children@.len() ==> children@[i].status == Status::Done),
{
    let mut i: usize = 0;
    while i < children.len()
        invariant
            0 <= i <= children@.len(),
            forall|k: int| 0 <= k < i ==> children@[k].status == Status::Done,
        decreases children@.len() - i,
    {
        if !(children[i].status == Status::Done) {
            return false;
        }
        i = i + 1;
    }
    true
}

/// Whether a root task just fetched may actually start: only a `ToDo` root
/// is taken into progress.
pub fn accept_root_for_execution(task: &Task) -> (r: bool)
    ensures
        r == (task.status == Status::ToDo),
{
    task.status == Status::ToDo
}

/// How one extracted code block is acted on.
#[derive(Debug)]
pub enum CodeBlockStep {
    /// Run the code as a shell command in the task workdir.
    RunShell(String),
    /// Run the code as Python in the task workdir.
    RunPython(String),
    /// The language cannot be executed.
    Unsupported(Language),
    /// Write the code to the named file in the task workdir.
    SaveFile { filename: String, code: String },
}

/// Decides what to do with one extracted code block: blocks without a file
/// name run (shell and Python only), blocks with one are saved.
pub fn code_block_step(block: CodeBlock) -> (r: CodeBlockStep)
    ensures
        match block.filename {
            None => match r {
                CodeBlockStep::RunShell(c) => block.language == Language::Shell && c == block.code,
                CodeBlockStep::RunPython(c) => block.language == Language::Python && c
                    == block.code,
                CodeBlockStep::Unsupported(l) => l == block.language && block.language
                    != Language::Shell && block.language != Language::Python,
                CodeBlockStep::SaveFile { .. } => false,
            },
            Some(f) => (r matches CodeBlockStep::SaveFile { filename, code } && filename == f
                && code == block.code),
        },
{
    let CodeBlock { code, language, filename, .. } = block;
    match filename {
        None => match language {
            Language::Shell => CodeBlockStep::RunShell(code),
            Language::Python => CodeBlockStep::RunPython(code),
            _ => CodeBlockStep::Unsupported(language),
        },
        Some(f) => CodeBlockStep::SaveFile { filename: f, code },
    }
}

/// Wraps a sandbox result as a fenced code block, as the code interpreter
/// records it.
pub fn fenced_output(result: &str) -> (r: String)
    ensures
        r@ == "```\n"@ + result@ + "\n```"@,
{
    let mut out = "```\n".to_owned();
    out.append(result);
    out.append("\n```");
    out
}

/// The human-readable name of a language.
pub fn language_label(l: Language) -> (r: &'static str)
    ensures
        match l {
            Language::Unknown => r@ == "Unknown"@,
            Language::Shell => r@ == "Shell"@,
            Language::Markdown => r@ == "Markdown"@,
            Language::Python => r@ == "Python"@,
            Language::Other => r@ == "Other"@,
        },
{
    match l {
        Language::Unknown => "Unknown",
        Language::Shell => "Shell",
        Language::Markdown => "Markdown",
        Language::Python => "Python",
        Language::Other => "Other",
    }
}

/// The error line recorded for a block whose language cannot run.
pub fn unsupported_language_line(l: Language) -> (r: String)
    ensures
        r@ == "Error: language `"@ + (match l {
            Language::Unknown => "Unknown"@,
            Language::Shell => "Shell"@,
            Language::Markdown => "Markdown"@,
            Language::Python => "Python"@,
            Language::Other => "Other"@,
        }) + "` is not supported for code execution"@,
{
    let mut out = "Error: language `".to_owned();
    out.append(language_label(l));
    out.append("` is not supported for code execution");
    out
}

/// The confirmation line recorded after a file was saved.
pub fn file_saved_line(filename: &str) -> (r: String)
    ensures
        r@ == "```\nFile `"@ + filename@ + "` has been saved\n```"@,
{
    let mut out = "```\nFile `".to_owned();
    out.append(filename);
    out.append("` has been saved\n```");
    out
}

/// The error line recorded when saving a file failed.
pub fn file_save_failed_line(filename: &str, err: &str) -> (r: String)
    ensures
        r@ == "```\nFailed to save file `"@ + filename@ + "`: "@ + err@ + "\n```"@,
{
    let mut out = "```\nFailed to save file `".to_owned();
    out.append(filename);
    out.append("`: ");
    out.append(err);
    out.append("\n```");
    out
}

} // verus!
