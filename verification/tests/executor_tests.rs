use bridge_core::codeblocks::Language;
use bridge_core::executor::{
    accept_root_for_execution, build_subtree, code_block_step, done_tool_output,
    fail_tool_output, fenced_output, file_saved_line, find_execution_candidate,
    internal_task_abilities, next_dialog_action, should_complete_parent, sort_task_tree,
    status_after_calls, terminal_status, unsupported_language_line, verb_of,
    wait_for_user_tool_output, CodeBlockStep, DialogAction, TaskTree, ToolVerb,
};
use bridge_core::messages::{Message, Role, Status as MessageStatus};
use bridge_core::openai::{FunctionCall, ToolCall, ToolType};
use bridge_core::tasks::{Status, Task};

fn task(id: u64, ancestry: Vec<u64>, status: Status, created_at: u64) -> Task {
    Task {
        id,
        company_id: 1,
        user_id: 1,
        agent_id: 1,
        origin_chat_id: None,
        control_chat_id: None,
        execution_chat_id: None,
        title: String::new(),
        summary: String::new(),
        status,
        ancestry,
        created_at,
        updated_at: 0,
    }
}

fn message(role: Role, content: Option<&str>, tool_calls: Vec<ToolCall>, self_reflection: bool) -> Message {
    Message {
        id: 1,
        company_id: 1,
        chat_id: 1,
        agent_id: Some(1),
        user_id: None,
        status: MessageStatus::Completed,
        role,
        content: content.map(str::to_string),
        prompt_tokens: None,
        completion_tokens: None,
        tool_calls,
        tool_call_id: None,
        is_self_reflection: self_reflection,
        is_internal_tool_output: false,
        created_at: 0,
        updated_at: 0,
    }
}

fn call(name: &str, arguments: &str) -> ToolCall {
    ToolCall {
        id: "c1".to_string(),
        type_: ToolType::Function,
        function: FunctionCall {
            name: name.to_string(),
            arguments: arguments.to_string(),
        },
    }
}

#[test]
fn picker_skips_in_progress_and_done() {
    let tree = TaskTree {
        root: task(1, vec![], Status::InProgress, 0),
        children: vec![
            TaskTree { root: task(2, vec![1], Status::Done, 1), children: vec![] },
            TaskTree { root: task(3, vec![1], Status::InProgress, 2), children: vec![] },
        ],
    };
    assert!(find_execution_candidate(&tree).is_none());
}

#[test]
fn picker_is_depth_first_and_children_first() {
    let tree = TaskTree {
        root: task(1, vec![], Status::ToDo, 0),
        children: vec![
            TaskTree {
                root: task(2, vec![1], Status::Done, 1),
                children: vec![TaskTree {
                    root: task(4, vec![1, 2], Status::ToDo, 3),
                    children: vec![],
                }],
            },
            TaskTree { root: task(3, vec![1], Status::Draft, 2), children: vec![] },
        ],
    };
    let picked = find_execution_candidate(&tree).expect("a candidate exists");
    assert_eq!(picked.id, 4);
    assert!(matches!(
        picked.status,
        Status::Draft | Status::ToDo | Status::WaitingForUser | Status::Failed
    ));
}

#[test]
fn build_subtree_groups_children_under_their_parents() {
    let root = task(1, vec![], Status::ToDo, 0);
    let mut flat = vec![
        task(2, vec![1], Status::Draft, 1),
        task(4, vec![1, 2], Status::Draft, 3),
        task(3, vec![1], Status::Draft, 2),
    ];
    let tree = build_subtree(root, &mut flat);
    assert!(flat.is_empty());
    assert_eq!(tree.root.id, 1);
    assert_eq!(tree.children.len(), 2);
    assert_eq!(tree.children[0].root.id, 2);
    assert_eq!(tree.children[0].children.len(), 1);
    assert_eq!(tree.children[0].children[0].root.id, 4);
    assert_eq!(tree.children[1].root.id, 3);
}

#[test]
fn sort_orders_by_creation_time() {
    let mut tasks = vec![
        task(1, vec![], Status::Draft, 30),
        task(2, vec![], Status::Draft, 10),
        task(3, vec![], Status::Draft, 20),
    ];
    sort_task_tree(&mut tasks);
    let ids: Vec<u64> = tasks.iter().map(|t| t.id).collect();
    assert_eq!(ids, vec![2, 3, 1]);
}

#[test]
fn rollup_requires_every_child_done() {
    let all_done = vec![
        task(1, vec![9], Status::Done, 0),
        task(2, vec![9], Status::Done, 1),
    ];
    assert!(should_complete_parent(&all_done));

    let one_pending = vec![
        task(1, vec![9], Status::Done, 0),
        task(2, vec![9], Status::ToDo, 1),
    ];
    assert!(!should_complete_parent(&one_pending));

    let none: Vec<Task> = vec![];
    assert!(should_complete_parent(&none));
}

#[test]
fn dialog_terminal_control() {
    // chat ends with an assistant message holding a single sfai_done call
    let m = message(Role::Assistant, None, vec![call("sfai_done", "{}")], false);
    assert_eq!(next_dialog_action(Some(&m), 0, 12), DialogAction::CallTools);
    assert_eq!(status_after_calls(&m.tool_calls), Some(Status::Done));
    assert!(done_tool_output().contains("Task has been marked as done"));
}

#[test]
fn dialog_routes_annotated_code_to_interpreter() {
    let content = "> execute\n```python\nprint(\"hi\")\n```\n";
    let m = message(Role::Assistant, Some(content), vec![], false);
    assert_eq!(
        next_dialog_action(Some(&m), 0, 12),
        DialogAction::InterpretCode
    );

    let blocks = bridge_core::codeblocks::parse_code_blocks(content);
    assert_eq!(blocks.len(), 1);
    assert_eq!(blocks[0].language, Language::Python);
    let step = code_block_step(blocks.into_iter().next().unwrap());
    match step {
        CodeBlockStep::RunPython(code) => assert_eq!(code, "print(\"hi\")"),
        _ => panic!("expected a python run"),
    }
    // the captured sandbox output is recorded fenced
    assert_eq!(fenced_output("hi"), "```\nhi\n```");
}

#[test]
fn dialog_plain_answer_reflects() {
    let m = message(Role::Assistant, Some("just text"), vec![], false);
    assert_eq!(next_dialog_action(Some(&m), 0, 12), DialogAction::SelfReflect);

    let reflected = message(Role::Assistant, Some("done now"), vec![], true);
    assert_eq!(
        next_dialog_action(Some(&reflected), 0, 12),
        DialogAction::SendToAgent
    );
}

#[test]
fn dialog_prelude_and_fatal_cases() {
    assert_eq!(next_dialog_action(None, 0, 12), DialogAction::SendToAgent);
    let user = message(Role::User, Some("hi"), vec![], false);
    assert_eq!(next_dialog_action(Some(&user), 0, 12), DialogAction::SendToAgent);
    let tool = message(Role::Tool, Some("out"), vec![], false);
    assert_eq!(next_dialog_action(Some(&tool), 0, 12), DialogAction::SendToAgent);
    let system = message(Role::System, Some("nope"), vec![], false);
    assert_eq!(
        next_dialog_action(Some(&system), 0, 12),
        DialogAction::FatalSystemMessage
    );
}

#[test]
fn dialog_stops_at_steps_limit() {
    let m = message(Role::Assistant, Some("text"), vec![], false);
    assert_eq!(
        next_dialog_action(Some(&m), 12, 12),
        DialogAction::StopLimitReached
    );
}

#[test]
fn tool_verbs_and_terminal_statuses() {
    assert_eq!(verb_of("sfai_done"), ToolVerb::Done);
    assert_eq!(verb_of("sfai_fail"), ToolVerb::Fail);
    assert_eq!(verb_of("sfai_wait_for_user"), ToolVerb::WaitForUser);
    assert_eq!(verb_of("sfai_code_interpreter"), ToolVerb::CodeInterpreter);
    assert_eq!(verb_of("sfai_provide_text_result"), ToolVerb::ProvideTextResult);
    assert_eq!(verb_of("my_custom_tool"), ToolVerb::Ability);

    assert_eq!(terminal_status(ToolVerb::Done), Some(Status::Done));
    assert_eq!(terminal_status(ToolVerb::Fail), Some(Status::Failed));
    assert_eq!(
        terminal_status(ToolVerb::WaitForUser),
        Some(Status::WaitingForUser)
    );
    assert_eq!(terminal_status(ToolVerb::CodeInterpreter), None);

    assert!(fail_tool_output().contains("Task has been marked as failed"));
    assert!(wait_for_user_tool_output().contains("Waiting for user input"));
}

#[test]
fn last_terminal_verb_wins() {
    let calls = vec![call("sfai_fail", "{}"), call("sfai_done", "{}")];
    assert_eq!(status_after_calls(&calls), Some(Status::Done));
    let none = vec![call("sfai_code_interpreter", "{}"), call("other", "{}")];
    assert_eq!(status_after_calls(&none), None);
}

#[test]
fn root_acceptance_and_recovery() {
    assert!(accept_root_for_execution(&task(1, vec![], Status::ToDo, 0)));
    assert!(!accept_root_for_execution(&task(1, vec![], Status::Draft, 0)));

    // crash recovery: a Writing message fails, an InProgress task re-queues
    assert_eq!(
        bridge_core::messages::recover_status(MessageStatus::Writing),
        MessageStatus::Failed
    );
    assert_eq!(
        bridge_core::tasks::recover_status(Status::InProgress),
        Status::ToDo
    );
    assert_eq!(
        bridge_core::messages::recover_status(MessageStatus::Completed),
        MessageStatus::Completed
    );
}

#[test]
fn unsupported_language_and_save_lines() {
    assert_eq!(
        unsupported_language_line(Language::Markdown),
        "Error: language `Markdown` is not supported for code execution"
    );
    assert_eq!(
        file_saved_line("notes.txt"),
        "```\nFile `notes.txt` has been saved\n```"
    );
}

#[test]
fn internal_abilities_are_the_three_control_verbs() {
    let abilities = internal_task_abilities();
    let names: Vec<&str> = abilities.iter().map(|a| a.function.name.as_str()).collect();
    assert_eq!(names, vec!["sfai_done", "sfai_fail", "sfai_wait_for_user"]);
}

#[test]
fn tool_output_answers_the_call() {
    let call = call("sfai_done", "{}");
    let out = bridge_core::messages::tool_output_message(1, 7, &call, done_tool_output());
    assert_eq!(out.role, Role::Tool);
    assert_eq!(out.chat_id, 7);
    assert_eq!(out.tool_call_id.as_deref(), Some("c1"));
    assert!(out.is_internal_tool_output);
    assert_eq!(out.status, MessageStatus::Completed);
    assert_eq!(
        out.content.as_deref(),
        Some("```\nTask has been marked as done\n```")
    );
}

#[test]
fn provide_text_result_is_terminal_when_done() {
    let done_call = call(
        "sfai_provide_text_result",
        "{\"text\": \"the answer\", \"is_done\": true}",
    );
    assert_eq!(status_after_calls(&vec![done_call.clone()]), Some(Status::Done));
    let args = bridge_core::executor::text_result_of_call(&done_call).unwrap();
    assert_eq!(args.text, "the answer");
    assert!(args.is_done);

    let open_call = call("sfai_provide_text_result", "{\"text\": \"notes\"}");
    assert_eq!(status_after_calls(&vec![open_call.clone()]), None);
    let args = bridge_core::executor::text_result_of_call(&open_call).unwrap();
    assert_eq!(args.text, "notes");
    assert!(!args.is_done);

    let broken_call = call("sfai_provide_text_result", "not json");
    assert!(bridge_core::executor::text_result_of_call(&broken_call).is_none());
    assert_eq!(status_after_calls(&vec![broken_call]), None);
}

#[test]
fn text_task_results_carry_their_binding() {
    let r = bridge_core::task_results::text_task_result(1, 5, 9, "answer".to_string());
    assert_eq!(r.kind, bridge_core::task_results::Kind::Text);
    assert_eq!(r.agent_id, 5);
    assert_eq!(r.task_id, 9);
    assert_eq!(r.data, "answer");
}

#[test]
fn ability_driver_script_embeds_code_and_call() {
    let codes = vec!["def add(a, b):\n    return a + b".to_string()];
    let joined = bridge_core::abilities::join_ability_codes(&codes);
    let script = bridge_core::abilities::ability_driver_script(&joined, "add", "{\"a\": 1, \"b\": 2}");
    assert_eq!(
        script,
        "def add(a, b):\n    return a + b\n\nimport json\n_call_args = json.loads(\"{\\\"a\\\": 1, \\\"b\\\": 2}\")\nprint(add(**_call_args))\n"
    );
    let two = vec!["x = 1".to_string(), "y = 2".to_string()];
    assert_eq!(bridge_core::abilities::join_ability_codes(&two), "x = 1\n\ny = 2");
}
