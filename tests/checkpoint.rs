use arroyo_state::flusher::{
    BackendFlusher, ControlResp, FlusherAction, FlusherEvent, FlusherPhase, StateMessage, TaskInfo,
};
use arroyo_state::record::Record;
use arroyo_state::table::{StateError, TableConfig, TableKind, ViewType};
use arroyo_state::table_manager::{CheckpointBarrier, OperatorCheckpointMetadata, TableManager};

fn task() -> TaskInfo {
    TaskInfo::new("op".to_string(), 0)
}

fn int_view() -> ViewType {
    ViewType::new("String".to_string(), "i64".to_string())
}

fn global(name: &str) -> TableConfig {
    TableConfig::new(name.to_string(), TableKind::GlobalKeyValue)
}

fn expiring(name: &str, retention: u64) -> TableConfig {
    TableConfig::new(name.to_string(), TableKind::ExpiringKeyedTimeTable { retention })
}

fn barrier(epoch: u32, then_stop: bool) -> CheckpointBarrier {
    CheckpointBarrier { epoch, timestamp: 100 * epoch as u64, then_stop }
}

/// Sends everything the manager enqueued to the flusher, persisting each checkpoint at
/// once; returns the control events reported.
fn pump(tm: &mut TableManager, fl: &mut BackendFlusher) -> Vec<ControlResp> {
    let mut out = vec![];
    for m in tm.writer.take_pending() {
        match fl.step(FlusherEvent::Message(m)) {
            FlusherAction::Persist => match fl.step(FlusherEvent::Persisted { finish_time: 7 }) {
                FlusherAction::Report(r) | FlusherAction::ReportAndFinish(r) => out.push(r),
                other => panic!("unexpected action {:?}", other),
            },
            FlusherAction::Continue | FlusherAction::NotTaken(_) => {}
            other => panic!("unexpected action {:?}", other),
        }
    }
    out
}

fn completed(r: &ControlResp) -> &arroyo_state::flusher::CheckpointCompleted {
    match r {
        ControlResp::CheckpointCompleted(c) => c,
        other => panic!("not a completion: {:?}", other),
    }
}

fn records_of(c: &arroyo_state::flusher::CheckpointCompleted, table: &str) -> Option<Vec<(String, u64, i64)>> {
    c.subtask_metadata
        .table_metadata
        .iter()
        .find(|m| m.table_name == table)
        .map(|m| m.records.iter().map(|r| (r.key.clone(), r.time, r.value)).collect())
}

#[test]
fn scenario_two_checkpoints_then_stop() {
    let (mut tm, mut fl) = TableManager::new(task(), vec![global("state")], None).unwrap();
    let name = "state".to_string();
    tm.put_global(&name, &int_view(), "x".to_string(), 1).unwrap();
    tm.checkpoint(barrier(1, false), None);
    let events = pump(&mut tm, &mut fl);
    assert_eq!(events.len(), 1);
    let c = completed(&events[0]);
    assert_eq!(c.checkpoint_epoch, 1);
    assert_eq!(c.operator_id, "op");
    assert!(c.subtask_metadata.has_state);
    assert_eq!(records_of(c, "state"), Some(vec![("x".to_string(), 0, 1)]));

    tm.put_global(&name, &int_view(), "x".to_string(), 2).unwrap();
    tm.checkpoint(barrier(2, true), None);
    assert!(tm.writer.stopping);
    let events = pump(&mut tm, &mut fl);
    assert_eq!(events.len(), 1);
    assert_eq!(completed(&events[0]).checkpoint_epoch, 2);
    assert!(matches!(fl.phase, FlusherPhase::Terminated));
}

#[test]
fn restore_reads_checkpointed_value() {
    let (mut tm, mut fl) = TableManager::new(task(), vec![global("state")], None).unwrap();
    let name = "state".to_string();
    tm.put_global(&name, &int_view(), "x".to_string(), 1).unwrap();
    tm.checkpoint(barrier(1, false), None);
    let events = pump(&mut tm, &mut fl);
    let c = completed(&events[0]);
    assert_eq!(c.checkpoint_epoch, 1);
    let restored = OperatorCheckpointMetadata::from_subtask(c.checkpoint_epoch, &c.subtask_metadata);

    let (mut tm2, fl2) = TableManager::new(task(), vec![global("state")], Some(restored)).unwrap();
    assert_eq!(tm2.epoch, 2);
    assert_eq!(tm2.min_epoch, 1);
    assert_eq!(fl2.current_epoch, 2);
    assert_eq!(fl2.last_epoch_checkpoints.len(), 1);
    let seed = &fl2.last_epoch_checkpoints[0];
    assert_eq!(seed.table_name, "state");
    assert_eq!(seed.epoch, 1);
    assert_eq!(seed.delta_start, 1);
    assert_eq!(tm2.get_global(&name, &int_view(), &"x".to_string()), Ok(Some(1)));
    assert_eq!(tm2.get_global(&name, &int_view(), &"y".to_string()), Ok(None));
}

#[test]
fn restored_state_carries_into_next_checkpoint() {
    let (mut tm, mut fl) = TableManager::new(task(), vec![global("state")], None).unwrap();
    let name = "state".to_string();
    tm.put_global(&name, &int_view(), "x".to_string(), 1).unwrap();
    tm.checkpoint(barrier(1, false), None);
    let events = pump(&mut tm, &mut fl);
    let restored = OperatorCheckpointMetadata::from_subtask(1, &completed(&events[0]).subtask_metadata);

    let (mut tm2, mut fl2) = TableManager::new(task(), vec![global("state")], Some(restored)).unwrap();
    tm2.put_global(&name, &int_view(), "y".to_string(), 5).unwrap();
    tm2.checkpoint(barrier(2, false), None);
    let events = pump(&mut tm2, &mut fl2);
    assert_eq!(
        records_of(completed(&events[0]), "state"),
        Some(vec![("x".to_string(), 0, 1), ("y".to_string(), 0, 5)])
    );
}

#[test]
fn expired_key_reads_absent() {
    let t0 = 1_000;
    let ttl = 50;
    let (mut tm, _fl) = TableManager::new(task(), vec![expiring("recent", ttl)], None).unwrap();
    let name = "recent".to_string();
    tm.insert_expiring(&name, Some(t0), "k".to_string(), t0, 9).unwrap();
    assert_eq!(tm.get_expiring(&name, Some(t0 + ttl), &"k".to_string()), Ok(Some(9)));
    assert_eq!(tm.get_expiring(&name, Some(t0 + ttl + 1), &"k".to_string()), Ok(None));
    // The watermark never moves back.
    assert_eq!(tm.get_expiring(&name, Some(t0), &"k".to_string()), Ok(None));
}

#[test]
fn writes_after_marker_belong_to_next_epoch() {
    let (mut tm, mut fl) =
        TableManager::new(task(), vec![global("a"), global("b")], None).unwrap();
    let a = "a".to_string();
    let b = "b".to_string();
    tm.put_global(&a, &int_view(), "k1".to_string(), 1).unwrap();
    tm.put_global(&b, &int_view(), "k2".to_string(), 2).unwrap();
    tm.checkpoint(barrier(1, false), None);
    tm.put_global(&a, &int_view(), "k3".to_string(), 3).unwrap();

    let mut pending = tm.writer.take_pending().into_iter();
    for _ in 0..2 {
        assert!(matches!(fl.step(FlusherEvent::Message(pending.next().unwrap())), FlusherAction::Continue));
    }
    assert!(matches!(fl.step(FlusherEvent::Message(pending.next().unwrap())), FlusherAction::Persist));
    let late = pending.next().unwrap();
    // While the checkpoint is being persisted, a message is not taken in: it is handed back.
    match fl.step(FlusherEvent::Message(late)) {
        FlusherAction::NotTaken(FlusherEvent::Message(StateMessage::TableData { table, data })) => {
            assert_eq!(table, "a");
            assert_eq!((data.key.as_str(), data.value), ("k3", 3));
        }
        other => panic!("unexpected {:?}", other),
    }
    let c = match fl.step(FlusherEvent::Persisted { finish_time: 1 }) {
        FlusherAction::Report(r) => r,
        other => panic!("unexpected {:?}", other),
    };
    let c = completed(&c);
    assert_eq!(records_of(c, "a"), Some(vec![("k1".to_string(), 0, 1)]));
    assert_eq!(records_of(c, "b"), Some(vec![("k2".to_string(), 0, 2)]));
    assert_eq!(c.subtask_metadata.finish_time, 1);
    assert_eq!(c.subtask_metadata.start_time, 100);
}

#[test]
fn epochs_increase_by_one() {
    let (mut tm, mut fl) = TableManager::new(task(), vec![global("s")], None).unwrap();
    assert_eq!(fl.current_epoch, 1);
    let s = "s".to_string();
    for e in 1..=3u32 {
        tm.put_global(&s, &int_view(), "k".to_string(), e as i64).unwrap();
        tm.checkpoint(barrier(e, false), None);
        let events = pump(&mut tm, &mut fl);
        let c = completed(&events[0]);
        assert_eq!(c.checkpoint_epoch, e);
        assert!(c.subtask_metadata.table_metadata.iter().all(|m| m.epoch == e));
        assert_eq!(fl.current_epoch, e + 1);
    }
}

#[test]
fn checkpoint_without_writes_repeats_previous_state() {
    let (mut tm, mut fl) =
        TableManager::new(task(), vec![global("g"), expiring("e", 10)], None).unwrap();
    tm.put_global(&"g".to_string(), &int_view(), "k".to_string(), 4).unwrap();
    tm.insert_expiring(&"e".to_string(), None, "t".to_string(), 100, 6).unwrap();
    tm.checkpoint(barrier(1, false), Some(95));
    let first = pump(&mut tm, &mut fl);
    tm.checkpoint(barrier(2, false), Some(95));
    let second = pump(&mut tm, &mut fl);
    let (c1, c2) = (completed(&first[0]), completed(&second[0]));
    for t in ["g", "e"] {
        assert_eq!(records_of(c1, t), records_of(c2, t));
        let m = c2.subtask_metadata.table_metadata.iter().find(|m| m.table_name == t).unwrap();
        assert_eq!(m.delta_start, m.records.len());
    }
}

#[test]
fn checkpoint_drops_expired_entries() {
    let (mut tm, mut fl) = TableManager::new(task(), vec![expiring("e", 10)], None).unwrap();
    let e = "e".to_string();
    tm.insert_expiring(&e, None, "old".to_string(), 5, 1).unwrap();
    tm.insert_expiring(&e, None, "new".to_string(), 50, 2).unwrap();
    tm.checkpoint(barrier(1, false), Some(40));
    let events = pump(&mut tm, &mut fl);
    assert_eq!(records_of(completed(&events[0]), "e"), Some(vec![("new".to_string(), 50, 2)]));
}

#[test]
fn empty_tables_are_left_out() {
    let (mut tm, mut fl) = TableManager::new(task(), vec![global("g")], None).unwrap();
    tm.checkpoint(barrier(1, false), None);
    let events = pump(&mut tm, &mut fl);
    let c = completed(&events[0]);
    assert!(!c.subtask_metadata.has_state);
    assert!(c.subtask_metadata.table_metadata.is_empty());
}

#[test]
fn terminated_flusher_ignores_later_messages() {
    let (mut tm, mut fl) = TableManager::new(task(), vec![global("g")], None).unwrap();
    tm.checkpoint(barrier(1, true), None);
    let events = pump(&mut tm, &mut fl);
    assert_eq!(events.len(), 1);
    tm.put_global(&"g".to_string(), &int_view(), "k".to_string(), 1).unwrap();
    tm.checkpoint(barrier(2, false), None);
    assert!(pump(&mut tm, &mut fl).is_empty());
    assert!(fl.checkpointers[0].writes.is_empty());
    assert!(matches!(fl.step(FlusherEvent::Closed), FlusherAction::NotTaken(FlusherEvent::Closed)));
}

#[test]
fn channel_close_ends_flusher() {
    let (_tm, mut fl) = TableManager::new(task(), vec![global("g")], None).unwrap();
    assert!(matches!(fl.step(FlusherEvent::Closed), FlusherAction::Exit));
    assert!(matches!(fl.phase, FlusherPhase::Terminated));
}

#[test]
fn persist_failure_is_reported() {
    let (mut tm, mut fl) = TableManager::new(task(), vec![global("g")], None).unwrap();
    tm.checkpoint(barrier(1, false), None);
    let m = tm.writer.take_pending().pop().unwrap();
    assert!(matches!(fl.step(FlusherEvent::Message(m)), FlusherAction::Persist));
    match fl.step(FlusherEvent::PersistFailed { error: "disk full".to_string() }) {
        FlusherAction::Fail(ControlResp::TaskFailed { operator_id, task_index, error }) => {
            assert_eq!(operator_id, "op");
            assert_eq!(task_index, 0);
            assert_eq!(error, "disk full");
        }
        other => panic!("unexpected {:?}", other),
    }
    assert!(matches!(fl.phase, FlusherPhase::Terminated));
}

#[test]
fn write_for_undeclared_table_fails_task() {
    let (_tm, mut fl) = TableManager::new(task(), vec![global("g")], None).unwrap();
    let m = StateMessage::TableData { table: "nope".to_string(), data: Record::new("k".to_string(), 0, 1) };
    assert!(matches!(fl.step(FlusherEvent::Message(m)), FlusherAction::Fail(ControlResp::TaskFailed { .. })));
}

#[test]
fn construction_errors() {
    let missing = TableConfig::new("m".to_string(), TableKind::MissingTableType);
    assert_eq!(
        TableManager::new(task(), vec![missing], None).err(),
        Some(StateError::MissingTableType("m".to_string()))
    );
    assert_eq!(
        TableManager::new(task(), vec![global("d"), global("d")], None).err(),
        Some(StateError::DuplicateTable("d".to_string()))
    );
    let (mut tm, mut fl) = TableManager::new(task(), vec![global("g")], None).unwrap();
    tm.put_global(&"g".to_string(), &int_view(), "k".to_string(), 1).unwrap();
    tm.checkpoint(barrier(1, false), None);
    let events = pump(&mut tm, &mut fl);
    let restored = OperatorCheckpointMetadata::from_subtask(1, &completed(&events[0]).subtask_metadata);
    assert_eq!(
        TableManager::new(task(), vec![global("other")], Some(restored)).err(),
        Some(StateError::UnknownTable("g".to_string()))
    );
}

#[test]
fn view_errors() {
    let (mut tm, _fl) =
        TableManager::new(task(), vec![global("g"), expiring("e", 5)], None).unwrap();
    let g = "g".to_string();
    let e = "e".to_string();
    assert_eq!(
        tm.get_global(&"zz".to_string(), &int_view(), &"k".to_string()),
        Err(StateError::UnknownTable("zz".to_string()))
    );
    assert_eq!(
        tm.get_global(&e, &int_view(), &"k".to_string()),
        Err(StateError::WrongTableType("e".to_string()))
    );
    assert_eq!(
        tm.get_expiring(&g, None, &"k".to_string()),
        Err(StateError::WrongTableType("g".to_string()))
    );
    assert_eq!(tm.get_global_keyed_state(&g, &int_view()), Ok(0));
    let other = ViewType::new("String".to_string(), "String".to_string());
    assert_eq!(
        tm.put_global(&g, &other, "k".to_string(), 1),
        Err(StateError::TypeMismatch("g".to_string()))
    );
    assert!(tm.writer.pending.is_empty());
}

#[test]
fn last_write_wins_in_global_view() {
    let (mut tm, _fl) = TableManager::new(task(), vec![global("g")], None).unwrap();
    let g = "g".to_string();
    tm.put_global(&g, &int_view(), "k".to_string(), 1).unwrap();
    tm.put_global(&g, &int_view(), "j".to_string(), 2).unwrap();
    tm.put_global(&g, &int_view(), "k".to_string(), 3).unwrap();
    assert_eq!(tm.get_global(&g, &int_view(), &"k".to_string()), Ok(Some(3)));
    assert_eq!(tm.get_global(&g, &int_view(), &"j".to_string()), Ok(Some(2)));
    assert_eq!(tm.writer.pending.len(), 3);
}

#[test]
fn completion_carries_the_barrier_epoch() {
    let (mut tm, mut fl) = TableManager::new(task(), vec![global("s")], None).unwrap();
    tm.checkpoint(barrier(1, false), None);
    let events = pump(&mut tm, &mut fl);
    assert_eq!(completed(&events[0]).checkpoint_epoch, 1);
    tm.checkpoint(barrier(2, true), None);
    let events = pump(&mut tm, &mut fl);
    assert_eq!(events.len(), 1);
    assert_eq!(completed(&events[0]).checkpoint_epoch, 2);
}

#[test]
fn barrier_out_of_epoch_order_fails_task() {
    let (mut tm, mut fl) = TableManager::new(task(), vec![global("s")], None).unwrap();
    tm.checkpoint(barrier(5, true), None);
    let m = tm.writer.take_pending().pop().unwrap();
    match fl.step(FlusherEvent::Message(m)) {
        FlusherAction::Fail(ControlResp::TaskFailed { operator_id, .. }) => assert_eq!(operator_id, "op"),
        other => panic!("unexpected {:?}", other),
    }
    assert!(matches!(fl.phase, FlusherPhase::Terminated));
    assert_eq!(fl.current_epoch, 1);
}

#[test]
fn restore_seeds_only_tables_with_state() {
    let (mut tm, mut fl) =
        TableManager::new(task(), vec![global("full"), global("empty")], None).unwrap();
    tm.put_global(&"full".to_string(), &int_view(), "k".to_string(), 1).unwrap();
    tm.checkpoint(barrier(1, false), None);
    let events = pump(&mut tm, &mut fl);
    let restored = OperatorCheckpointMetadata::from_subtask(1, &completed(&events[0]).subtask_metadata);
    let (_tm2, fl2) =
        TableManager::new(task(), vec![global("full"), global("empty")], Some(restored)).unwrap();
    let names: Vec<&str> = fl2.last_epoch_checkpoints.iter().map(|m| m.table_name.as_str()).collect();
    assert_eq!(names, vec!["full"]);
}

#[test]
fn failed_persist_keeps_epoch() {
    let (mut tm, mut fl) = TableManager::new(task(), vec![global("g")], None).unwrap();
    tm.checkpoint(barrier(1, false), None);
    let m = tm.writer.take_pending().pop().unwrap();
    assert!(matches!(fl.step(FlusherEvent::Message(m)), FlusherAction::Persist));
    assert!(matches!(fl.step(FlusherEvent::PersistFailed { error: "e".to_string() }), FlusherAction::Fail(_)));
    assert_eq!(fl.current_epoch, 1);
}

#[test]
fn cached_view_keeps_its_type_after_writes() {
    let (mut tm, _fl) = TableManager::new(task(), vec![global("g")], None).unwrap();
    let g = "g".to_string();
    tm.put_global(&g, &int_view(), "k".to_string(), 1).unwrap();
    assert_eq!(tm.get_global_keyed_state(&g, &int_view()), Ok(0));
    assert_eq!(tm.get_global(&g, &int_view(), &"k".to_string()), Ok(Some(1)));
}
