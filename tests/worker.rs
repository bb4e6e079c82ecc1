use arroyo_state::worker::{LocalRunner, LogicalEdge, Program};

#[test]
fn local_runner_completes_when_all_tasks_finish() {
    let mut runner = LocalRunner::new(Program { name: "p".to_string(), total_nodes: 2 });
    assert!(!runner.task_finished("a".to_string(), 0));
    assert!(!runner.task_finished("a".to_string(), 0));
    assert!(runner.task_finished("b".to_string(), 0));
}

#[test]
fn logical_edges_print_as_arrows() {
    assert_eq!(LogicalEdge::Forward.to_string(), "→");
    assert_eq!(LogicalEdge::Shuffle.to_string(), "⤨");
    assert_eq!(LogicalEdge::ShuffleJoin(0).to_string(), "0⤨");
    assert_eq!(LogicalEdge::ShuffleJoin(12).to_string(), "12⤨");
    assert_eq!(LogicalEdge::ShuffleJoin(907).to_string(), "907⤨");
}
