use bridge_core::tasks::{Status, Task};

fn task(id: u64, ancestry: Vec<u64>, status: Status) -> Task {
    Task {
        id,
        company_id: 1,
        user_id: 1,
        agent_id: 1,
        origin_chat_id: None,
        control_chat_id: None,
        execution_chat_id: None,
        title: String::new(),
        summary: String::new(),
        status,
        ancestry,
        created_at: 0,
        updated_at: 0,
    }
}

#[test]
fn root_task_has_no_parent() {
    let t = task(7, vec![], Status::Draft);
    assert_eq!(t.parent_id(), None);
    assert_eq!(t.parent_ids(), None);
    assert_eq!(t.ancestry_string(), None);
    assert_eq!(t.ancestry_level(), 0);
}

#[test]
fn children_ancestry_extends_the_path() {
    let root = task(3, vec![], Status::Draft);
    assert_eq!(root.children_ancestry(), "3");

    let child = task(12, vec![3], Status::Draft);
    assert_eq!(child.children_ancestry(), "3/12");
    assert_eq!(child.ancestry_string().as_deref(), Some("3"));
    assert_eq!(child.parent_id(), Some(3));
    assert_eq!(child.ancestry_level(), 1);

    let grandchild = task(25, vec![3, 12], Status::Draft);
    assert_eq!(grandchild.children_ancestry(), "3/12/25");
    assert_eq!(grandchild.ancestry_string().as_deref(), Some("3/12"));
    assert_eq!(grandchild.parent_id(), Some(12));
    assert_eq!(grandchild.parent_ids().map(|v| v.clone()), Some(vec![3, 12]));
}

#[test]
fn ancestry_level_counts_segments() {
    let t = task(9, vec![100, 200, 300], Status::ToDo);
    let s = t.ancestry_string().unwrap();
    assert_eq!(s, "100/200/300");
    assert_eq!(s.split('/').count(), t.ancestry_level());
}

#[test]
fn workdir_is_named_after_the_root_ancestor() {
    let root = task(42, vec![], Status::Draft);
    assert_eq!(root.workdir_id(), 42);
    assert_eq!(root.workdir("/tmp/x"), "/tmp/x/wd-task-42");

    let deep = task(9, vec![42, 7], Status::Draft);
    assert_eq!(deep.workdir_id(), 42);
    assert_eq!(deep.workdir("/tmp/x"), "/tmp/x/wd-task-42");
}

#[test]
fn recovery_puts_in_progress_back_to_todo() {
    assert_eq!(
        bridge_core::tasks::recover_status(Status::InProgress),
        Status::ToDo
    );
    assert_eq!(bridge_core::tasks::recover_status(Status::Done), Status::Done);
    assert_eq!(
        bridge_core::tasks::recover_status(Status::Draft),
        Status::Draft
    );
}
