use a2a_rs::domain::{A2AError, AgentCard, Message, Task, TaskPushNotificationConfig, PushNotificationConfig};
use a2a_rs::ontology::{OntologyState, StateBounds};

fn task(id: &str, ctx: &str) -> Task {
    Task::new(id.to_string(), ctx.to_string())
}

fn agent(name: &str) -> AgentCard {
    AgentCard {
        name: name.to_string(),
        description: "d".to_string(),
        url: "http://x".to_string(),
        version: "1".to_string(),
    }
}

#[test]
fn test_new_state_is_empty() {
    let state = OntologyState::new();
    assert!(state.is_empty());
    assert_eq!(state.task_count(), 0);
    assert_eq!(state.agent_count(), 0);
}

#[test]
fn test_put_and_get_task() {
    let mut state = OntologyState::new();
    let task = task("task-1", "ctx-1");

    state.put_task(task.clone()).unwrap();
    assert_eq!(state.task_count(), 1);

    let retrieved = state.get_task("task-1").unwrap();
    assert_eq!(retrieved.id, "task-1");
}

#[test]
fn test_task_context_index() {
    let mut state = OntologyState::new();
    state.put_task(task("task-1", "ctx-1")).unwrap();
    state.put_task(task("task-2", "ctx-1")).unwrap();

    let tasks = state.get_tasks_by_context("ctx-1");
    assert_eq!(tasks.len(), 2);
}

#[test]
fn test_add_message_enforces_bounds() {
    let bounds = StateBounds { max_tasks: 100, max_messages_per_task: 3, max_agents: 100 };
    let mut state = OntologyState::with_bounds(bounds);
    state.put_task(task("task-1", "ctx-1")).unwrap();

    for i in 0..4 {
        let msg = Message::user_text(format!("Message {}", i), format!("msg-{}", i));
        state.add_message("task-1", msg).unwrap();
    }

    assert_eq!(state.message_count("task-1"), 3);
    let messages = state.get_messages("task-1").unwrap();
    assert_eq!(messages[0].message_id, "msg-1");
}

#[test]
fn test_remove_task_cleans_up_indices() {
    let mut state = OntologyState::new();
    state.put_task(task("task-1", "ctx-1")).unwrap();

    let msg = Message::user_text("Test".to_string(), "msg-1".to_string());
    state.add_message("task-1", msg).unwrap();

    let removed = state.remove_task("task-1");
    assert!(removed.is_some());
    assert_eq!(state.task_count(), 0);
    assert_eq!(state.message_count("task-1"), 0);
    assert!(state.get_tasks_by_context("ctx-1").is_empty());
}

#[test]
fn test_deterministic_iteration_order() {
    let mut state = OntologyState::new();
    for id in ["task-c", "task-a", "task-b"] {
        state.put_task(task(id, "ctx-1")).unwrap();
    }
    let tasks = state.get_all_tasks();
    let ids: Vec<&str> = tasks.iter().map(|t| t.id.as_str()).collect();
    assert_eq!(ids, vec!["task-a", "task-b", "task-c"]);
}

#[test]
fn task_limit_refuses_only_new_tasks() {
    let bounds = StateBounds { max_tasks: 1, max_messages_per_task: 2, max_agents: 1 };
    let mut state = OntologyState::with_bounds(bounds);
    state.put_task(task("a", "c")).unwrap();
    match state.put_task(task("b", "c")) {
        Err(A2AError::Internal(msg)) => assert_eq!(msg, "Task limit exceeded: cannot add task b, max is 1"),
        other => panic!("unexpected {:?}", other),
    }
    // Replacing an existing task is still allowed, and does not list it twice.
    state.put_task(task("a", "c")).unwrap();
    assert_eq!(state.task_count(), 1);
    assert_eq!(state.get_tasks_by_context("c").len(), 1);
}

#[test]
fn agents_are_bounded_and_sorted() {
    let bounds = StateBounds { max_tasks: 5, max_messages_per_task: 2, max_agents: 2 };
    let mut state = OntologyState::with_bounds(bounds);
    state.put_agent(agent("zeta")).unwrap();
    state.put_agent(agent("alpha")).unwrap();
    match state.put_agent(agent("mid")) {
        Err(A2AError::Internal(msg)) => assert_eq!(msg, "Agent limit exceeded: cannot add agent mid, max is 2"),
        other => panic!("unexpected {:?}", other),
    }
    let names: Vec<&str> = state.get_all_agents().iter().map(|a| a.name.as_str()).collect();
    assert_eq!(names, vec!["alpha", "zeta"]);
    assert_eq!(state.get_agent("zeta").unwrap().url, "http://x");
    assert!(state.remove_agent("zeta").is_some());
    assert!(state.get_agent("zeta").is_none());
    assert_eq!(state.agent_count(), 1);
}

#[test]
fn notification_configs_need_a_task() {
    let mut state = OntologyState::new();
    let cfg = |t: &str| TaskPushNotificationConfig {
        task_id: t.to_string(),
        push_notification_config: PushNotificationConfig { id: None, url: "http://hook".to_string(), token: None },
    };
    match state.put_notification_config("t1", cfg("t1")) {
        Err(A2AError::TaskNotFound(id)) => assert_eq!(id, "t1"),
        other => panic!("unexpected {:?}", other),
    }
    state.put_task(task("t1", "c")).unwrap();
    state.put_task(task("t0", "c")).unwrap();
    state.put_notification_config("t1", cfg("t1")).unwrap();
    state.put_notification_config("t0", cfg("t0")).unwrap();
    let all = state.get_all_notification_configs();
    assert_eq!(all.len(), 2);
    assert_eq!(all[0].0, "t0");
    assert_eq!(state.notification_config_count(), 2);
    assert!(state.remove_notification_config("t0").is_some());
    assert!(state.get_notification_config("t0").is_none());
    // Removing a task drops its configuration too.
    state.remove_task("t1");
    assert_eq!(state.notification_config_count(), 0);
    assert_eq!(state.task_count(), 1);
    assert!(!state.is_empty());
}

#[test]
fn message_for_missing_task_is_refused() {
    let mut state = OntologyState::new();
    let msg = Message::user_text("x".to_string(), "m".to_string());
    match state.add_message("nope", msg) {
        Err(A2AError::TaskNotFound(id)) => assert_eq!(id, "nope"),
        other => panic!("unexpected {:?}", other),
    }
}

#[test]
fn stats_and_clear() {
    let mut state = OntologyState::new();
    state.put_task(task("a", "c1")).unwrap();
    state.put_task(task("b", "c2")).unwrap();
    state.add_message("a", Message::user_text("1".to_string(), "m1".to_string())).unwrap();
    state.add_message("a", Message::user_text("2".to_string(), "m2".to_string())).unwrap();
    state.add_message("b", Message::user_text("3".to_string(), "m3".to_string())).unwrap();
    state.put_agent(agent("x")).unwrap();
    let s = state.stats();
    assert_eq!(s.task_count, 2);
    assert_eq!(s.agent_count, 1);
    assert_eq!(s.context_count, 2);
    assert_eq!(s.total_messages, 3);
    assert_eq!(s.notification_config_count, 0);
    state.clear();
    assert!(state.is_empty());
    assert_eq!(state.stats().total_messages, 0);
    assert_eq!(state.bounds().max_tasks, 10_000);
}

#[test]
fn removing_one_task_keeps_the_context_of_others() {
    let mut state = OntologyState::new();
    state.put_task(task("a", "c")).unwrap();
    state.put_task(task("b", "c")).unwrap();
    state.remove_task("a");
    let left = state.get_tasks_by_context("c");
    assert_eq!(left.len(), 1);
    assert_eq!(left[0].id, "b");
    assert!(state.remove_task("a").is_none());
}
