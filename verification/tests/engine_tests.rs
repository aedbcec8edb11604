use task_engine::engine::{EngineError, TaskEngine};
use task_engine::queue::QUEUE_CAPACITY;
use task_engine::task::{CreateTaskRequest, TaskStatus};

#[test]
fn submit_then_query_is_pending() {
    // Submit {name: "a", priority: 1}, receive an identity, query it at
    // once: the status must be Pending — no transition happens inside
    // submit — and the name must round-trip.
    let mut engine = TaskEngine::new();
    let id = engine.submit("a".to_string(), 1).unwrap();
    let task = engine.get_status(id).expect("submitted task must be present");
    assert!(matches!(task.status, TaskStatus::Pending));
    assert_eq!(task.name, "a");
    assert_eq!(task.priority, 1);
}

#[test]
fn submitted_task_completes_after_dispatch() {
    // After the dispatch loop has run, the same identity reads Completed,
    // with the name unchanged.
    let mut engine = TaskEngine::new();
    let id = engine.submit("a".to_string(), 1).unwrap();
    engine.drain();
    let task = engine.get_status(id).expect("submitted task must be present");
    assert!(matches!(task.status, TaskStatus::Completed));
    assert_eq!(task.name, "a");
}

#[test]
fn unknown_identity_reads_as_absence() {
    // An identity never submitted is absence: not an error, not a default
    // record.
    let engine = TaskEngine::new();
    assert!(engine.get_status(42).is_none());
}

#[test]
fn unknown_identity_absent_beside_real_tasks() {
    let mut engine = TaskEngine::new();
    engine.submit_with_id(1, "a".to_string(), 1).unwrap();
    engine.submit_with_id(2, "b".to_string(), 2).unwrap();
    assert!(engine.get_status(3).is_none());
    assert!(engine.get_status(1).is_some());
    assert!(engine.get_status(2).is_some());
}

#[test]
fn batch_returns_ids_in_order() {
    // Submit 3 tasks via batch with names ["x","y","z"]: 3 identities come
    // back in input order, each independently retrievable.
    let mut engine = TaskEngine::new();
    let names = ["x", "y", "z"];
    let items: Vec<CreateTaskRequest> = names
        .iter()
        .enumerate()
        .map(|(i, n)| CreateTaskRequest { name: n.to_string(), priority: i as i32 })
        .collect();
    let ids = engine.batch_submit(items);
    assert_eq!(ids.len(), 3);
    for (i, id) in ids.iter().enumerate() {
        let task = engine.get_status(*id).expect("batch task must be present");
        assert_eq!(task.name, names[i]);
        assert_eq!(task.priority, i as i32);
        assert!(matches!(task.status, TaskStatus::Pending));
    }
    engine.drain();
    for (i, id) in ids.iter().enumerate() {
        let task = engine.get_status(*id).expect("batch task must be present");
        assert!(matches!(task.status, TaskStatus::Completed));
        assert_eq!(task.name, names[i]);
    }
}

#[test]
fn batch_identities_are_distinct() {
    let mut engine = TaskEngine::new();
    let items: Vec<CreateTaskRequest> = (0..20)
        .map(|i| CreateTaskRequest { name: format!("task-{}", i), priority: i })
        .collect();
    let ids = engine.batch_submit(items);
    assert_eq!(ids.len(), 20);
    for a in 0..ids.len() {
        for b in (a + 1)..ids.len() {
            assert_ne!(ids[a], ids[b]);
        }
    }
}

#[test]
fn fifty_tasks_all_reach_terminal_state() {
    // Fifty submissions, one dispatch run: every task ends terminal and
    // every record's final name matches what was submitted for its
    // identity.
    let mut engine = TaskEngine::new();
    let mut ids = Vec::new();
    for i in 0..50 {
        let id = engine.submit(format!("job-{}", i), i).unwrap();
        ids.push(id);
    }
    engine.drain();
    for (i, id) in ids.iter().enumerate() {
        let task = engine.get_status(*id).expect("task must be present");
        assert!(matches!(task.status, TaskStatus::Completed | TaskStatus::Failed(_)));
        assert_eq!(task.name, format!("job-{}", i));
        assert_eq!(task.priority, i as i32);
    }
}

#[test]
fn queue_at_capacity_refuses_submission() {
    let mut engine = TaskEngine::new();
    for i in 0..QUEUE_CAPACITY {
        engine.submit(format!("fill-{}", i), 0).unwrap();
    }
    let refused = engine.submit("overflow".to_string(), 0);
    assert_eq!(refused, Err(EngineError::QueueSaturated));
    // After a dispatch run the queue has room again.
    engine.drain();
    assert!(engine.submit("after".to_string(), 0).is_ok());
}

#[test]
fn batch_stops_returning_ids_at_capacity() {
    let mut engine = TaskEngine::new();
    let items: Vec<CreateTaskRequest> = (0..(QUEUE_CAPACITY + 10))
        .map(|i| CreateTaskRequest { name: format!("bulk-{}", i), priority: i as i32 })
        .collect();
    let ids = engine.batch_submit(items);
    assert_eq!(ids.len(), QUEUE_CAPACITY);
}

#[test]
fn empty_batch_returns_no_ids() {
    let mut engine = TaskEngine::new();
    let ids = engine.batch_submit(Vec::new());
    assert!(ids.is_empty());
    assert_eq!(engine.pending_count(), 0);
}

#[test]
fn lifecycle_never_skips_processing() {
    // Walk one task by hand through the dispatch steps: Pending after
    // submission, Processing after the worker picks it up, Completed at the
    // end — and no step can be skipped: completing a task that is still
    // Pending is refused.
    let mut engine = TaskEngine::new();
    engine.submit_with_id(7, "stepwise".to_string(), 0).unwrap();
    assert!(!engine.complete_task(7), "a Pending task cannot complete directly");
    let task = engine.get_status(7).unwrap();
    assert!(matches!(task.status, TaskStatus::Pending));

    let next = engine.dequeue().unwrap();
    assert_eq!(next, 7);
    assert!(engine.begin_processing(next));
    let task = engine.get_status(7).unwrap();
    assert!(matches!(task.status, TaskStatus::Processing));

    assert!(engine.complete_task(next));
    let task = engine.get_status(7).unwrap();
    assert!(matches!(task.status, TaskStatus::Completed));
}

#[test]
fn terminal_status_never_changes() {
    let mut engine = TaskEngine::new();
    engine.submit_with_id(9, "once".to_string(), 0).unwrap();
    engine.drain();
    assert!(matches!(engine.get_status(9).unwrap().status, TaskStatus::Completed));
    // No transition applies to a terminal record.
    assert!(!engine.begin_processing(9));
    assert!(!engine.complete_task(9));
    assert!(!engine.fail_task(9, "late".to_string()));
    assert!(matches!(engine.get_status(9).unwrap().status, TaskStatus::Completed));
}

#[test]
fn failure_is_recorded_with_its_reason() {
    let mut engine = TaskEngine::new();
    engine.submit_with_id(11, "doomed".to_string(), 0).unwrap();
    let id = engine.dequeue().unwrap();
    assert!(engine.begin_processing(id));
    assert!(engine.fail_task(id, "exploded".to_string()));
    match engine.get_status(11).unwrap().status {
        TaskStatus::Failed(reason) => assert_eq!(reason, "exploded"),
        other => panic!("expected Failed, got {:?}", other),
    }
    // The failure is terminal and touches no other task.
    assert!(!engine.complete_task(11));
    engine.submit_with_id(12, "fine".to_string(), 0).unwrap();
    engine.drain();
    assert!(matches!(engine.get_status(12).unwrap().status, TaskStatus::Completed));
    assert!(matches!(engine.get_status(11).unwrap().status, TaskStatus::Failed(_)));
}

#[test]
fn dequeue_is_first_in_first_out() {
    let mut engine = TaskEngine::new();
    engine.submit_with_id(1, "first".to_string(), 0).unwrap();
    engine.submit_with_id(2, "second".to_string(), 0).unwrap();
    engine.submit_with_id(3, "third".to_string(), 0).unwrap();
    assert_eq!(engine.pending_count(), 3);
    assert_eq!(engine.dequeue(), Some(1));
    assert_eq!(engine.dequeue(), Some(2));
    assert_eq!(engine.dequeue(), Some(3));
    assert_eq!(engine.dequeue(), None);
    assert_eq!(engine.pending_count(), 0);
}
