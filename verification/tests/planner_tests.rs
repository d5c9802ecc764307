use bridge_core::agents::Agent;
use bridge_core::openai::{
    ChatCompletion, Choice, FunctionCall, ToolCall, ToolType, Usage, WireMessage,
};
use bridge_core::planner::{
    check_plannable, plan_decision, plan_from_response, planner_abilities, planner_user_message,
    ExecutionPlan, ExecutionPlanTask, PlanAction, PlannerError,
};
use bridge_core::tasks::{Status, Task};

fn task(id: u64, ancestry: Vec<u64>, status: Status, title: &str, summary: &str) -> Task {
    Task {
        id,
        company_id: 1,
        user_id: 1,
        agent_id: 0,
        origin_chat_id: None,
        control_chat_id: None,
        execution_chat_id: None,
        title: title.to_string(),
        summary: summary.to_string(),
        status,
        ancestry,
        created_at: 0,
        updated_at: 0,
    }
}

fn assistant_reply(calls: Vec<ToolCall>) -> ChatCompletion {
    ChatCompletion {
        created: 0,
        id: "r1".to_string(),
        model: "m".to_string(),
        object: "chat.completion".to_string(),
        choices: vec![Choice {
            finish_reason: "tool_calls".to_string(),
            index: 0,
            message: WireMessage::Assistant {
                content: None,
                name: None,
                tool_calls: calls,
            },
        }],
        usage: Usage { completion_tokens: 0, prompt_tokens: 0, total_tokens: 0 },
    }
}

fn call(name: &str, arguments: &str) -> ToolCall {
    ToolCall {
        id: "c1".to_string(),
        type_: ToolType::Function,
        function: FunctionCall {
            name: name.to_string(),
            arguments: arguments.to_string(),
        },
    }
}

#[test]
fn planning_unavailable_for_todo_and_in_progress() {
    assert!(matches!(
        check_plannable(Status::ToDo),
        Err(PlannerError::PlanningUnavailable(Status::ToDo))
    ));
    assert!(matches!(
        check_plannable(Status::InProgress),
        Err(PlannerError::PlanningUnavailable(Status::InProgress))
    ));
    assert!(check_plannable(Status::Draft).is_ok());
    assert!(check_plannable(Status::WaitingForUser).is_ok());
    assert!(check_plannable(Status::Failed).is_ok());
}

#[test]
fn plan_then_assign() {
    // one enabled agent; the LLM assigns the task to it
    let t0 = task(10, vec![], Status::Draft, "Summarize Ruby on Rails", "");
    let reply = assistant_reply(vec![call("sfai_assign_to_agent", "{\"agent_id\": 5}")]);
    let plan = plan_from_response(&reply, &t0)
        .expect("planning succeeds")
        .expect("a plan was returned");
    assert_eq!(plan.tasks.len(), 1);
    assert_eq!(plan.tasks[0].agent_id, 5);
    assert_eq!(plan.tasks[0].title, "Summarize Ruby on Rails");
    match plan_decision(&t0, &plan, 5).unwrap() {
        PlanAction::Assign(agent) => assert_eq!(agent, 5),
        _ => panic!("a single sub-task assigns the agent; no children are created"),
    }
}

#[test]
fn plan_decomposition_with_depth_limit() {
    // planning-depth-limit = 1; a level-0 draft decomposes into two children
    let t0 = task(10, vec![], Status::Draft, "root", "");
    let reply = assistant_reply(vec![call(
        "sfai_plan_task_execution",
        "{\"tasks\":[{\"title\":\"a\",\"summary\":\"\",\"agent_id\":1},{\"title\":\"b\",\"summary\":\"\",\"agent_id\":1}]}",
    )]);
    let plan = plan_from_response(&reply, &t0).unwrap().unwrap();
    assert_eq!(plan.tasks.len(), 2);
    match plan_decision(&t0, &plan, 1).unwrap() {
        PlanAction::CreateChildren(children) => {
            assert_eq!(children.len(), 2);
            for (child, wanted) in children.iter().zip(["a", "b"]) {
                assert_eq!(child.title, wanted);
                assert_eq!(child.status, Status::Draft);
                assert_eq!(child.ancestry, vec![10]);
                assert_eq!(child.ancestry_level(), t0.ancestry_level() + 1);
            }
            // recursive planning of a child must not create grandchildren:
            // the children stand at the limit
            let c = task(11, vec![10], Status::Draft, "a", "");
            let sub_plan = ExecutionPlan {
                tasks: vec![
                    ExecutionPlanTask { title: "x".into(), summary: String::new(), agent_id: 1 },
                    ExecutionPlanTask { title: "y".into(), summary: String::new(), agent_id: 1 },
                ],
            };
            assert!(matches!(
                plan_decision(&c, &sub_plan, 1).unwrap(),
                PlanAction::StopDepth
            ));
        }
        _ => panic!("two sub-tasks become children"),
    }
}

#[test]
fn empty_plan_is_an_error() {
    let t0 = task(10, vec![], Status::Draft, "root", "");
    let plan = ExecutionPlan { tasks: vec![] };
    assert!(matches!(
        plan_decision(&t0, &plan, 5),
        Err(PlannerError::EmptyPlan)
    ));
}

#[test]
fn bad_arguments_are_an_error() {
    let t0 = task(10, vec![], Status::Draft, "root", "");
    let reply = assistant_reply(vec![call("sfai_plan_task_execution", "not json")]);
    assert!(matches!(
        plan_from_response(&reply, &t0),
        Err(PlannerError::BadToolCallArguments)
    ));
    let reply2 = assistant_reply(vec![call("sfai_assign_to_agent", "{\"other\": 1}")]);
    assert!(matches!(
        plan_from_response(&reply2, &t0),
        Err(PlannerError::BadToolCallArguments)
    ));
}

#[test]
fn non_assistant_reply_is_an_error() {
    let t0 = task(10, vec![], Status::Draft, "root", "");
    let mut reply = assistant_reply(vec![]);
    reply.choices[0].message = WireMessage::User { content: "hi".to_string(), name: None };
    assert!(matches!(
        plan_from_response(&reply, &t0),
        Err(PlannerError::NonAssistantMessage)
    ));
}

#[test]
fn reply_without_planning_call_yields_no_plan() {
    let t0 = task(10, vec![], Status::Draft, "root", "");
    let reply = assistant_reply(vec![call("something_else", "{}")]);
    assert!(plan_from_response(&reply, &t0).unwrap().is_none());
}

#[test]
fn planner_offers_exactly_two_tools() {
    let abilities = planner_abilities();
    assert_eq!(abilities.len(), 2);
    assert_eq!(abilities[0].function.name, "sfai_assign_to_agent");
    assert_eq!(abilities[1].function.name, "sfai_plan_task_execution");
}

#[test]
fn planner_user_message_lists_agents_and_task() {
    let agents = vec![Agent {
        id: 5,
        company_id: 1,
        name: "Researcher".to_string(),
        description: "Looks things up".to_string(),
        system_message: String::new(),
        is_enabled: true,
        is_code_interpreter_enabled: false,
        is_web_browser_enabled: false,
        execution_steps_limit: None,
        created_at: 0,
        updated_at: 0,
    }];
    let t = task(10, vec![], Status::Draft, "Summarize", "All the details");
    let msg = planner_user_message(&agents, &t);
    assert_eq!(
        msg,
        "## Available Agents\n\n- ID: 5. Researcher: Looks things up\n\n## Task: Summarize\n\nAll the details\n\n## Attachments\n\nNo attachments provided."
    );

    let no_agents: Vec<Agent> = vec![];
    let msg2 = planner_user_message(&no_agents, &task(10, vec![], Status::Draft, "T", ""));
    assert_eq!(
        msg2,
        "## Available Agents\n\nNo agents available\n\n## Task: T\n\n## Attachments\n\nNo attachments provided."
    );
}
