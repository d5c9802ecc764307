use bridge_core::abilities::{construct_tools, preprocess_code, Ability};
use bridge_core::browser::BrowserBuilder;
use bridge_core::chats::Kind;
use bridge_core::messages::{
    check_title_messages, keeps_for_title, recover_status, strip_title_quotes, to_wire, Message,
    Role, Status, TitleError, WireError,
};
use bridge_core::models::{Model, Provider};
use bridge_core::openai::{Client, Function, ToolCalls, WireMessage};
use bridge_core::pagination::{list_offset, Pagination, PaginationError};
use bridge_core::sandbox::{
    binds_for, chat_workdir_name, container_workdir, default_chromedriver_image,
    default_python_image, tool_call_script_name,
};
use bridge_core::settings::{
    default_embeddings_model, default_execution_steps_limit, default_model,
    default_planning_depth_limit, Settings,
};
use bridge_core::webtools::{
    browsing_verb_of, notebook_append, reflection_verb_of, still_active_after, BrowsingVerb,
    ReflectionVerb,
};

fn message(role: Role, content: Option<&str>) -> Message {
    Message {
        id: 1,
        company_id: 1,
        chat_id: 1,
        agent_id: None,
        user_id: None,
        status: Status::Completed,
        role,
        content: content.map(str::to_string),
        prompt_tokens: None,
        completion_tokens: None,
        tool_calls: vec![],
        tool_call_id: None,
        is_self_reflection: false,
        is_internal_tool_output: false,
        created_at: 0,
        updated_at: 0,
    }
}

#[test]
fn preprocess_trims_lines_and_edges() {
    assert_eq!(preprocess_code("  x = 1  \ny = 2\t\n"), "x = 1\ny = 2");
    assert_eq!(preprocess_code("\n\n  a  \n\n"), "a");
    assert_eq!(preprocess_code(""), "");
    assert_eq!(preprocess_code("one"), "one");
}

#[test]
fn title_checks_report_the_failing_rule() {
    let too_few = vec![message(Role::User, Some("a"))];
    assert_eq!(check_title_messages(&too_few), Err(TitleError::TooFewMessages));

    let unsuitable = vec![
        message(Role::System, Some("s")),
        message(Role::System, Some("s")),
        message(Role::System, Some("s")),
    ];
    assert_eq!(
        check_title_messages(&unsuitable),
        Err(TitleError::NoSuitableMessages)
    );

    let wrong_tail = vec![
        message(Role::User, Some("q")),
        message(Role::Assistant, Some("a")),
        message(Role::User, Some("again")),
    ];
    assert_eq!(
        check_title_messages(&wrong_tail),
        Err(TitleError::LastMessageNotFromAssistant)
    );

    let fine = vec![
        message(Role::User, Some("q")),
        message(Role::User, Some("more")),
        message(Role::Assistant, Some("a")),
    ];
    assert!(check_title_messages(&fine).is_ok());
    assert!(keeps_for_title(&message(Role::User, Some("q"))));
    assert!(!keeps_for_title(&message(Role::Tool, Some("t"))));
}

#[test]
fn title_quotes_are_stripped_once() {
    assert_eq!(strip_title_quotes("\"A Title\""), "A Title");
    assert_eq!(strip_title_quotes("No quotes"), "No quotes");
    assert_eq!(strip_title_quotes("\"Unbalanced"), "\"Unbalanced");
    assert_eq!(strip_title_quotes("\"\""), "");
}

#[test]
fn wire_conversion_by_role() {
    let sys = to_wire(message(Role::System, Some("be helpful"))).unwrap();
    assert!(matches!(sys, WireMessage::System { ref content, .. } if content == "be helpful"));

    let ci = to_wire(message(Role::CodeInterpreter, Some("out"))).unwrap();
    match ci {
        WireMessage::User { content, name } => {
            assert_eq!(content, "out");
            assert_eq!(name.as_deref(), Some("Code-Interpreter"));
        }
        _ => panic!("code interpreter goes out as a named user message"),
    }

    assert!(matches!(
        to_wire(message(Role::User, None)),
        Err(WireError::MissingContent)
    ));
    let mut tool = message(Role::Tool, Some("result"));
    assert!(matches!(
        to_wire(tool.clone()),
        Err(WireError::MissingToolCallId)
    ));
    tool.tool_call_id = Some("c9".to_string());
    let wire = to_wire(tool).unwrap();
    assert!(
        matches!(wire, WireMessage::Tool { ref tool_call_id, .. } if tool_call_id == "c9")
    );
}

#[test]
fn message_recovery_leaves_no_writing() {
    assert_eq!(recover_status(Status::Writing), Status::Failed);
    assert_eq!(recover_status(Status::Completed), Status::Completed);
    assert_eq!(
        recover_status(Status::WaitingForToolCall),
        Status::WaitingForToolCall
    );
}

#[test]
fn provider_urls_default_correctly() {
    let mut m = Model {
        id: 1,
        company_id: 1,
        provider: Provider::OpenAI,
        name: "gpt-4-turbo".to_string(),
        context_length: 128000,
        max_tokens: 4096,
        text_in: true,
        text_out: true,
        image_in: false,
        image_out: false,
        audio_in: false,
        audio_out: false,
        function_calling: true,
        api_url: None,
        api_key: None,
        created_at: 0,
        updated_at: 0,
    };
    assert_eq!(m.api_url_or_default(), "https://api.openai.com/v1/");
    m.provider = Provider::Groq;
    assert_eq!(m.api_url_or_default(), "https://api.groq.com/openai/v1/");
    m.api_url = Some("http://localhost:9000/".to_string());
    assert_eq!(m.api_url_or_default(), "http://localhost:9000/");
}

#[test]
fn settings_defaults_match_the_documented_values() {
    let s = Settings::default();
    assert_eq!(s.default_model, "OpenAI/gpt-4-turbo");
    assert_eq!(s.agents.execution_steps_limit, 12);
    assert_eq!(s.tasks.execution_concurrency, 1);
    assert_eq!(s.tasks.planning_depth_limit, 5);
    assert_eq!(s.embeddings.model, "sentence-transformers/all-MiniLM-L6-v2");
    assert_eq!(default_model(), "OpenAI/gpt-4-turbo");
    assert_eq!(default_embeddings_model(), "sentence-transformers/all-MiniLM-L6-v2");
    assert_eq!(default_execution_steps_limit(), 12);
    assert_eq!(default_planning_depth_limit(), 5);
    assert!(s.api_key_for(Provider::OpenAI).is_none());
}

#[test]
fn settings_api_keys_look_up_by_provider() {
    let mut s = Settings::default();
    s.api_keys.push((Provider::Groq, "SECRET-REDACTED".to_string()));
    assert!(s.api_key_for(Provider::OpenAI).is_none());
    assert_eq!(s.api_key_for(Provider::Groq).map(String::as_str), Some("SECRET-REDACTED"));
}

#[test]
fn pagination_offsets_and_errors() {
    assert_eq!(
        list_offset(Pagination { page: 0, per_page: 10 }),
        Err(PaginationError::PageTooSmall)
    );
    assert_eq!(
        list_offset(Pagination { page: 1, per_page: 0 }),
        Err(PaginationError::PerPageTooSmall)
    );
    assert_eq!(list_offset(Pagination { page: 1, per_page: 10 }), Ok(0));
    assert_eq!(list_offset(Pagination { page: 3, per_page: 25 }), Ok(50));
}

#[test]
fn sandbox_names_and_binds() {
    assert_eq!(container_workdir(), "/bridge");
    assert_eq!(default_python_image(), "python:slim");
    assert_eq!(
        default_chromedriver_image(),
        "zenika/alpine-chrome:with-chromedriver"
    );
    assert_eq!(chat_workdir_name(17), "wd-17");
    assert_eq!(tool_call_script_name(4, "call_a"), "tc-4-call_a.py");
    assert_eq!(binds_for(None), None);
    assert_eq!(
        binds_for(Some("/data/wd-3")),
        Some(vec!["/data/wd-3:/bridge".to_string()])
    );
}

#[test]
fn client_and_browser_builders_keep_their_inputs() {
    let c = Client::new("key", "https://api.example/v1/", "agent/1.0");
    assert_eq!(c.api_key, "key");
    assert_eq!(c.api_url, "https://api.example/v1/");
    assert_eq!(c.user_agent, "agent/1.0");

    let b = BrowserBuilder::new("/tmp/shots");
    assert_eq!(b.workdir, "/tmp/shots");

    assert_eq!(Kind::Execution, Kind::Execution);
    assert!(ToolCalls::new().is_empty());
}

#[test]
fn construct_tools_wraps_each_ability() {
    assert!(construct_tools(vec![]).is_none());
    let ability = Ability::for_fn(
        "Does a thing",
        Function {
            name: "do_thing".to_string(),
            description: None,
            parameters: None,
        },
    );
    let tools = construct_tools(vec![ability]).unwrap();
    assert_eq!(tools.len(), 1);
    assert_eq!(tools[0].type_, "function");
    assert_eq!(tools[0].function.name, "do_thing");
    assert_eq!(tools[0].function.description.as_deref(), Some("Does a thing"));
}

#[test]
fn browsing_verbs_resolve_by_name() {
    assert_eq!(browsing_verb_of("scroll_down"), BrowsingVerb::ScrollDown);
    assert_eq!(browsing_verb_of("goto"), BrowsingVerb::Goto);
    assert_eq!(browsing_verb_of("send_keys"), BrowsingVerb::SendKeys);
    assert_eq!(browsing_verb_of("click"), BrowsingVerb::Click);
    assert_eq!(browsing_verb_of("append_notebook"), BrowsingVerb::AppendNotebook);
    assert_eq!(browsing_verb_of("clear_notebook"), BrowsingVerb::ClearNotebook);
    assert_eq!(browsing_verb_of("whatever"), BrowsingVerb::Unknown);

    assert_eq!(reflection_verb_of("done"), ReflectionVerb::Done);
    assert_eq!(reflection_verb_of("fail"), ReflectionVerb::Fail);
    assert!(!still_active_after(ReflectionVerb::Done));
    assert!(!still_active_after(ReflectionVerb::Fail));
    assert!(still_active_after(ReflectionVerb::Unknown));
}

#[test]
fn notebook_appends_with_separator_and_source() {
    let mut notebook = String::new();
    notebook_append(&mut notebook, "https://site.test/page", "a useful note");
    assert_eq!(
        notebook,
        "\n\n---\n\nhttps://site.test/page\n\na useful note"
    );
}

#[test]
fn browsing_ability_sets_match_the_tools() {
    let abilities = bridge_core::webtools::browsing_abilities();
    let names: Vec<&str> = abilities.iter().map(|a| a.function.name.as_str()).collect();
    assert_eq!(
        names,
        vec!["scroll_down", "goto", "send_keys", "click", "append_notebook", "clear_notebook"]
    );
    let verdicts = bridge_core::webtools::browsing_reflection_abilities();
    let names: Vec<&str> = verdicts.iter().map(|a| a.function.name.as_str()).collect();
    assert_eq!(names, vec!["done", "fail"]);
}
