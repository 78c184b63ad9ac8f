use a2a_rs::coordination::graph::{CoordinationError, TaskGraph};
use a2a_rs::coordination::visualizer::{escape_dot, state_color, DotOptions, TaskGraphVisualizer};
use a2a_rs::domain::{Artifact, Task, TaskState};

fn create_test_task(id: &str, state: TaskState) -> Task {
    let mut task = Task::new(id.to_string(), "ctx-1".to_string());
    task.status.state = state;
    task
}

fn set_state(graph: &mut TaskGraph, id: &str, state: TaskState) {
    let mut task = graph.get_task(id).unwrap().clone();
    task.status.state = state;
    graph.update_task(task).unwrap();
}

fn artifact(id: &str) -> Artifact {
    Artifact {
        artifact_id: id.to_string(),
        name: Some("result.json".to_string()),
        description: None,
        parts: vec![],
    }
}

fn chain() -> TaskGraph {
    let mut graph = TaskGraph::new();
    graph.add_task(create_test_task("task-a", TaskState::Submitted)).unwrap();
    graph.add_task(create_test_task("task-b", TaskState::Submitted)).unwrap();
    graph.add_task(create_test_task("task-c", TaskState::Submitted)).unwrap();
    graph.add_dependency("task-b", "task-a").unwrap();
    graph.add_dependency("task-c", "task-b").unwrap();
    graph
}

#[test]
fn test_new_graph() {
    let graph = TaskGraph::new();
    assert_eq!(graph.task_count(), 0);
    assert_eq!(graph.edge_count(), 0);
    assert!(graph.is_terminated());
}

#[test]
fn test_add_task() {
    let mut graph = TaskGraph::new();
    let task = create_test_task("task-1", TaskState::Submitted);

    assert!(graph.add_task(task.clone()).is_ok());
    assert_eq!(graph.task_count(), 1);
    assert!(graph.get_task("task-1").is_some());

    // Adding duplicate should fail
    assert!(graph.add_task(task).is_err());
}

#[test]
fn test_add_dependency() {
    let mut graph = TaskGraph::new();
    graph.add_task(create_test_task("task-a", TaskState::Submitted)).unwrap();
    graph.add_task(create_test_task("task-b", TaskState::Submitted)).unwrap();

    assert!(graph.add_dependency("task-b", "task-a").is_ok());
    assert_eq!(graph.edge_count(), 1);

    // Adding duplicate dependency should fail
    assert!(graph.add_dependency("task-b", "task-a").is_err());
}

#[test]
fn test_cycle_detection() {
    let mut graph = chain();
    // Creating a cycle should fail
    assert!(graph.add_dependency("task-a", "task-c").is_err());
}

#[test]
fn test_prerequisites_met() {
    let mut graph = TaskGraph::new();
    graph.add_task(create_test_task("task-a", TaskState::Completed)).unwrap();
    graph.add_task(create_test_task("task-b", TaskState::Submitted)).unwrap();

    graph.add_dependency("task-b", "task-a").unwrap();

    // Prerequisites should be met since task-a is completed
    assert!(graph.prerequisites_met("task-b").unwrap());

    // Change task-a to working
    set_state(&mut graph, "task-a", TaskState::Working);

    // Prerequisites should not be met
    assert!(!graph.prerequisites_met("task-b").unwrap());
}

#[test]
fn failed_or_canceled_prerequisite_is_met() {
    let mut graph = TaskGraph::new();
    graph.add_task(create_test_task("task-a", TaskState::Failed)).unwrap();
    graph.add_task(create_test_task("task-b", TaskState::Submitted)).unwrap();
    graph.add_dependency("task-b", "task-a").unwrap();
    assert!(graph.prerequisites_met("task-b").unwrap());
    set_state(&mut graph, "task-a", TaskState::Canceled);
    assert!(graph.prerequisites_met("task-b").unwrap());
    set_state(&mut graph, "task-a", TaskState::Rejected);
    assert!(!graph.prerequisites_met("task-b").unwrap());
    assert!(graph.prerequisites_met("task-z").is_err());
}

#[test]
fn test_join_semantics() {
    let mut graph = TaskGraph::new();
    graph.add_task(create_test_task("task-a", TaskState::Completed)).unwrap();
    graph.add_task(create_test_task("task-b", TaskState::Completed)).unwrap();
    graph.add_task(create_test_task("task-c", TaskState::Submitted)).unwrap();

    // Task C depends on both A and B (join)
    graph.add_dependency("task-c", "task-a").unwrap();
    graph.add_dependency("task-c", "task-b").unwrap();

    assert!(graph.prerequisites_met("task-c").unwrap());

    set_state(&mut graph, "task-b", TaskState::Working);

    // Prerequisites should not be met (join requires all)
    assert!(!graph.prerequisites_met("task-c").unwrap());
}

#[test]
fn test_ready_tasks() {
    let mut graph = chain();

    // Only task-a should be ready (no prerequisites)
    let ready = graph.ready_tasks();
    assert_eq!(ready.len(), 1);
    assert!(ready.contains(&"task-a".to_string()));

    set_state(&mut graph, "task-a", TaskState::Completed);

    // Now task-b should be ready
    let ready = graph.ready_tasks();
    assert_eq!(ready.len(), 1);
    assert!(ready.contains(&"task-b".to_string()));
}

#[test]
fn test_cancellation_propagation() {
    let mut graph = TaskGraph::new();
    graph.add_task(create_test_task("task-a", TaskState::Working)).unwrap();
    graph.add_task(create_test_task("task-b", TaskState::Submitted)).unwrap();
    graph.add_task(create_test_task("task-c", TaskState::Submitted)).unwrap();

    graph.add_dependency("task-b", "task-a").unwrap();
    graph.add_dependency("task-c", "task-b").unwrap();

    let canceled = graph.propagate_cancellation("task-a").unwrap();

    // All three tasks should be canceled
    assert_eq!(canceled.len(), 3);
    assert!(canceled.contains(&"task-a".to_string()));
    assert!(canceled.contains(&"task-b".to_string()));
    assert!(canceled.contains(&"task-c".to_string()));

    assert_eq!(graph.get_task("task-a").unwrap().status.state, TaskState::Canceled);
    assert_eq!(graph.get_task("task-b").unwrap().status.state, TaskState::Canceled);
    assert_eq!(graph.get_task("task-c").unwrap().status.state, TaskState::Canceled);
}

#[test]
fn test_termination_detection() {
    let mut graph = TaskGraph::new();
    graph.add_task(create_test_task("task-a", TaskState::Completed)).unwrap();
    graph.add_task(create_test_task("task-b", TaskState::Failed)).unwrap();
    graph.add_task(create_test_task("task-c", TaskState::Canceled)).unwrap();

    assert!(graph.is_terminated());

    graph.add_task(create_test_task("task-d", TaskState::Working)).unwrap();

    assert!(!graph.is_terminated());
}

#[test]
fn test_topological_sort() {
    let graph = chain();

    let sorted = graph.topological_sort().unwrap();
    assert_eq!(sorted.len(), 3);

    let pos_a = sorted.iter().position(|id| id == "task-a").unwrap();
    let pos_b = sorted.iter().position(|id| id == "task-b").unwrap();
    let pos_c = sorted.iter().position(|id| id == "task-c").unwrap();

    assert!(pos_a < pos_b);
    assert!(pos_b < pos_c);
}

#[test]
fn test_root_and_leaf_tasks() {
    let graph = chain();

    let roots = graph.root_tasks();
    assert_eq!(roots.len(), 1);
    assert!(roots.contains(&"task-a".to_string()));

    let leaves = graph.leaf_tasks();
    assert_eq!(leaves.len(), 1);
    assert!(leaves.contains(&"task-c".to_string()));
}

#[test]
fn test_artifact_requirements() {
    let build = |required: &str| {
        let mut graph = TaskGraph::new();
        let mut task_a = create_test_task("task-a", TaskState::Completed);
        task_a.artifacts = Some(vec![artifact("art-1")]);
        graph.add_task(task_a).unwrap();
        graph.add_task(create_test_task("task-b", TaskState::Submitted)).unwrap();
        graph
            .add_dependency_with_artifacts("task-b", "task-a", Some(vec![required.to_string()]))
            .unwrap();
        graph
    };

    // Task B requires a specific artifact from Task A, which it has
    assert!(build("art-1").prerequisites_met("task-b").unwrap());

    // A required artifact that is not available
    assert!(!build("art-2").prerequisites_met("task-b").unwrap());
}

#[test]
fn test_get_prerequisite_artifacts() {
    let mut graph = TaskGraph::new();

    let mut task_a = create_test_task("task-a", TaskState::Completed);
    task_a.artifacts = Some(vec![artifact("art-1")]);

    graph.add_task(task_a).unwrap();
    graph.add_task(create_test_task("task-b", TaskState::Submitted)).unwrap();
    graph.add_dependency("task-b", "task-a").unwrap();

    let artifacts = graph.get_prerequisite_artifacts("task-b", "task-a").unwrap();
    assert_eq!(artifacts.len(), 1);
    assert_eq!(artifacts[0].artifact_id, "art-1");
}

#[test]
fn dependency_errors_name_the_tasks() {
    let mut graph = chain();
    match graph.add_dependency("task-x", "task-a").unwrap_err() {
        CoordinationError::TaskNotFound { task_id } => assert_eq!(task_id, "task-x"),
        other => panic!("unexpected {:?}", other),
    }
    match graph.add_dependency("task-a", "task-y").unwrap_err() {
        CoordinationError::TaskNotFound { task_id } => assert_eq!(task_id, "task-y"),
        other => panic!("unexpected {:?}", other),
    }
    let dup = graph.add_dependency("task-b", "task-a").unwrap_err();
    assert_eq!(dup.message(), "Dependency already exists: task-a -> task-b");
    let cycle = graph.add_dependency("task-a", "task-c").unwrap_err();
    assert_eq!(cycle.message(), "Cyclic dependency detected: task-c -> task-a");
    // A task cannot wait for itself.
    assert!(matches!(
        graph.add_dependency("task-a", "task-a").unwrap_err(),
        CoordinationError::CyclicDependency { .. }
    ));
    assert_eq!(graph.edge_count(), 2);
    assert!(matches!(
        graph.add_task(create_test_task("task-a", TaskState::Submitted)).unwrap_err(),
        CoordinationError::TaskAlreadyExists { .. }
    ));
    assert!(graph.update_task(create_test_task("nope", TaskState::Working)).is_err());
    assert!(graph.prerequisites_met("nope").is_err());
    assert!(graph.propagate_cancellation("nope").is_err());
    assert!(graph.dependencies("nope").is_none());
    let missing = CoordinationError::PrerequisitesNotMet {
        task_id: "t".to_string(),
        missing: vec!["a".to_string(), "b".to_string()],
    };
    assert_eq!(missing.message(), "Prerequisites not met for task t: missing [\"a\", \"b\"]");
    let invalid = CoordinationError::InvalidState { task_id: "t".to_string(), state: TaskState::InputRequired };
    assert_eq!(invalid.message(), "Invalid state for operation: task t is in state InputRequired");
}

#[test]
fn cancellation_stops_at_finished_tasks() {
    let mut graph = TaskGraph::new();
    graph.add_task(create_test_task("a", TaskState::Working)).unwrap();
    graph.add_task(create_test_task("b", TaskState::Completed)).unwrap();
    graph.add_task(create_test_task("c", TaskState::Submitted)).unwrap();
    graph.add_task(create_test_task("d", TaskState::InputRequired)).unwrap();
    graph.add_dependency("b", "a").unwrap();
    graph.add_dependency("c", "b").unwrap();
    graph.add_dependency("d", "a").unwrap();
    let mut canceled = graph.propagate_cancellation("a").unwrap();
    canceled.sort();
    assert_eq!(canceled, vec!["a".to_string(), "d".to_string()]);
    assert_eq!(graph.get_task("b").unwrap().status.state, TaskState::Completed);
    assert_eq!(graph.get_task("c").unwrap().status.state, TaskState::Submitted);
    // Canceling a finished task changes nothing.
    assert!(graph.propagate_cancellation("b").unwrap().is_empty());
}

#[test]
fn unmet_and_collected_prerequisites() {
    let mut graph = TaskGraph::new();
    let mut a = create_test_task("a", TaskState::Completed);
    a.artifacts = Some(vec![artifact("x1"), artifact("x2")]);
    let mut b = create_test_task("b", TaskState::Working);
    b.artifacts = Some(vec![artifact("y1")]);
    graph.add_task(a).unwrap();
    graph.add_task(b).unwrap();
    graph.add_task(create_test_task("c", TaskState::Submitted)).unwrap();
    graph.add_dependency("c", "a").unwrap();
    graph.add_dependency("c", "b").unwrap();
    assert_eq!(graph.unmet_prerequisites("c").unwrap(), vec!["b".to_string()]);
    let all = graph.get_all_prerequisite_artifacts("c").unwrap();
    let ids: Vec<&str> = all.iter().map(|a| a.artifact_id.as_str()).collect();
    assert_eq!(ids, vec!["x1", "x2", "y1"]);
    let mut deps = graph.dependencies("c").unwrap();
    deps.sort();
    assert_eq!(deps, vec!["a".to_string(), "b".to_string()]);
    assert_eq!(graph.dependents("a").unwrap(), vec!["c".to_string()]);
    assert_eq!(graph.task_ids(), vec!["a".to_string(), "b".to_string(), "c".to_string()]);
    let mut terminal = graph.terminal_tasks();
    terminal.sort();
    assert_eq!(terminal, vec!["a".to_string()]);
    assert!(graph.get_prerequisite_artifacts("c", "zz").is_err());
    let diamond = TaskGraph::default();
    assert_eq!(diamond.topological_sort().unwrap().len(), 0);
}

#[test]
fn test_empty_graph_dot() {
    let graph = TaskGraph::new();
    let dot = graph.to_dot();

    assert!(dot.contains("digraph TaskGraph"));
    assert!(dot.contains("rankdir=LR"));
    assert!(dot.contains("Legend"));
}

#[test]
fn test_single_task_dot() {
    let mut graph = TaskGraph::new();
    graph.add_task(create_test_task("task-1", TaskState::Completed)).unwrap();

    let dot = graph.to_dot();

    assert!(dot.contains("\"task-1\""));
    assert!(dot.contains("Completed"));
    assert!(dot.contains("lightgreen"));
}

#[test]
fn test_dependency_edges() {
    let mut graph = TaskGraph::new();
    graph.add_task(create_test_task("task-a", TaskState::Completed)).unwrap();
    graph.add_task(create_test_task("task-b", TaskState::Working)).unwrap();
    graph.add_dependency("task-b", "task-a").unwrap();

    let dot = graph.to_dot();

    assert!(dot.contains("\"task-a\""));
    assert!(dot.contains("\"task-b\""));
    assert!(dot.contains("\"task-a\" -> \"task-b\""));
}

#[test]
fn test_blocked_task_highlighting() {
    let mut graph = TaskGraph::new();
    graph.add_task(create_test_task("task-a", TaskState::Working)).unwrap();
    graph.add_task(create_test_task("task-b", TaskState::Submitted)).unwrap();
    graph.add_dependency("task-b", "task-a").unwrap();

    let dot = graph.to_dot();

    assert!(dot.contains("\"task-b\""));
    assert!(dot.contains("color=red"));
    assert!(dot.contains("penwidth=2.0"));
}

#[test]
fn test_state_colors() {
    assert_eq!(state_color(&TaskState::Submitted), ("lightblue", "black"));
    assert_eq!(state_color(&TaskState::Working), ("yellow", "black"));
    assert_eq!(state_color(&TaskState::Completed), ("lightgreen", "black"));
    assert_eq!(state_color(&TaskState::Failed), ("red", "white"));
    assert_eq!(state_color(&TaskState::Canceled), ("gray", "white"));
}

#[test]
fn test_escape_dot() {
    assert_eq!(escape_dot("simple"), "simple");
    assert_eq!(escape_dot("with\"quotes"), "with\\\"quotes");
    assert_eq!(escape_dot("with\\backslash"), "with\\\\backslash");
    assert_eq!(escape_dot("with\nwline"), "with\\nwline");
}

#[test]
fn test_dot_options() {
    let mut graph = TaskGraph::new();
    graph.add_task(create_test_task("task-1", TaskState::Completed)).unwrap();

    let options = DotOptions {
        show_state: false,
        show_artifacts: false,
        highlight_blocked: false,
        horizontal: false,
        show_timestamps: false,
    };

    let dot = graph.to_dot_with_options(&options);

    assert!(dot.contains("digraph TaskGraph"));
    assert!(!dot.contains("rankdir=LR"));
    assert!(!dot.contains("Completed"));
}

#[test]
fn test_complex_graph() {
    let mut graph = TaskGraph::new();

    graph.add_task(create_test_task("root", TaskState::Completed)).unwrap();
    graph.add_task(create_test_task("left", TaskState::Completed)).unwrap();
    graph.add_task(create_test_task("right", TaskState::Working)).unwrap();
    graph.add_task(create_test_task("join", TaskState::Submitted)).unwrap();

    graph.add_dependency("left", "root").unwrap();
    graph.add_dependency("right", "root").unwrap();
    graph.add_dependency("join", "left").unwrap();
    graph.add_dependency("join", "right").unwrap();

    let dot = graph.to_dot();

    assert!(dot.contains("\"root\""));
    assert!(dot.contains("\"left\""));
    assert!(dot.contains("\"right\""));
    assert!(dot.contains("\"join\""));

    assert!(dot.contains("\"root\" -> \"left\""));
    assert!(dot.contains("\"root\" -> \"right\""));
    assert!(dot.contains("\"left\" -> \"join\""));
    assert!(dot.contains("\"right\" -> \"join\""));

    assert!(dot.contains("color=red"));
}

#[test]
fn test_topological_order_in_output() {
    let mut graph = TaskGraph::new();
    graph.add_task(create_test_task("c", TaskState::Submitted)).unwrap();
    graph.add_task(create_test_task("a", TaskState::Submitted)).unwrap();
    graph.add_task(create_test_task("b", TaskState::Submitted)).unwrap();

    graph.add_dependency("b", "a").unwrap();
    graph.add_dependency("c", "b").unwrap();

    let dot = graph.to_dot();

    let a_pos = dot.find("\"a\"").unwrap();
    let b_pos = dot.find("\"b\"").unwrap();
    let c_pos = dot.find("\"c\"").unwrap();

    assert!(a_pos < b_pos);
    assert!(b_pos < c_pos);
}

#[test]
fn dot_text_of_one_task() {
    let mut graph = TaskGraph::new();
    graph.add_task(create_test_task("x\"y", TaskState::Working)).unwrap();
    let options = DotOptions {
        show_state: true,
        show_artifacts: false,
        highlight_blocked: false,
        horizontal: false,
        show_timestamps: false,
    };
    let expected = "digraph TaskGraph {\n  node [shape=box];\n\n  \"x\\\"y\" [label=\"x\\\"y\\nWorking\" fillcolor=yellow fontcolor=black style=filled color=black penwidth=1.0];\n\n\n  // Legend\n  subgraph cluster_legend {\n    label=\"Task States\";\n    style=filled;\n    color=lightgrey;\n    node [shape=box style=filled];\n    legend_Submitted [label=\"Submitted\" fillcolor=lightblue fontcolor=black];\n    legend_Working [label=\"Working\" fillcolor=yellow fontcolor=black];\n    legend_InputRequired [label=\"InputRequired\" fillcolor=orange fontcolor=black];\n    legend_Completed [label=\"Completed\" fillcolor=lightgreen fontcolor=black];\n    legend_Failed [label=\"Failed\" fillcolor=red fontcolor=white];\n    legend_Canceled [label=\"Canceled\" fillcolor=gray fontcolor=white];\n  }\n}\n";
    assert_eq!(graph.to_dot_with_options(&options), expected);
    assert_eq!(state_color(&TaskState::AuthRequired), ("purple", "white"));
}
