use redis_task_queue::queue::{
    delete_task, enqueue_at, insert_task, limit_pops, pop_task, process_delay_tasks, promote_one,
    queue_len, EnqueueError, PopAction, PopEvent, Route, MAX_POPS,
};
use redis_task_queue::task::{queue_key, PoptaskParam, Task};

fn params(delay: i64, ttl: i64, tries: i32) -> Task {
    Task {
        project: None,
        msg: None,
        queue: None,
        task_id: None,
        delay,
        ttl,
        tries,
        data: None,
    }
}

fn enqueue(delay: i64, ttl: i64, tries: i32, now: i64) -> (Task, Route, Task) {
    let e = enqueue_at(
        &params(delay, ttl, tries),
        "p".to_string(),
        "q".to_string(),
        "job-1".to_string(),
        "aGVsbG8=".to_string(),
        now,
    )
    .unwrap();
    (e.record, e.route, e.reply)
}

fn deliver(action: PopAction) -> (Task, Option<(Task, Route)>) {
    match action {
        PopAction::Deliver { reply, reschedule } => (reply, reschedule),
        other => panic!("expected a delivery, got {:?}", other),
    }
}

#[test]
fn key_joins_project_and_queue() {
    assert_eq!(queue_key("p", "q"), "p|q");
    assert_eq!(queue_key("", ""), "|");
}

#[test]
fn enqueue_without_delay_goes_to_ready_queue() {
    let (record, route, reply) = enqueue(0, 60, 2, 1000);
    assert_eq!(record.delay, 1000);
    assert_eq!(record.ttl, 1060);
    assert_eq!(record.tries, 2);
    assert_eq!(record.msg.as_deref(), Some("new task"));
    assert_eq!(record.task_id.as_deref(), Some("job-1"));
    assert!(matches!(route, Route::Ready(ref k) if k == "p|q"));
    assert_eq!((reply.delay, reply.ttl, reply.tries), (0, 60, 2));
}

#[test]
fn enqueue_with_delay_goes_to_delay_index() {
    let (_record, route, reply) = enqueue(10, 60, 0, 1000);
    assert!(matches!(route, Route::Delayed(1010)));
    assert_eq!((reply.delay, reply.ttl), (10, 60));
}

#[test]
fn enqueue_rejects_bad_inputs() {
    let at = |d, t, n, now| {
        enqueue_at(&params(d, t, n), "p".into(), "q".into(), "i".into(), "".into(), now)
            .err()
    };
    assert_eq!(at(-1, 60, 0, 1000), Some(EnqueueError::NegativeDelay));
    assert_eq!(at(0, 0, 0, 1000), Some(EnqueueError::NonPositiveTtl));
    assert_eq!(at(0, 60, -1, 1000), Some(EnqueueError::NegativeTries));
    assert_eq!(at(0, i64::MAX, 0, 1000), Some(EnqueueError::ClockOutOfRange));
    assert_eq!(at(0, 60, 0, -5), Some(EnqueueError::ClockOutOfRange));
    assert_eq!(at(0, 1, 0, 1000), None);
}

#[test]
fn insert_task_encodes_payload_and_echoes_offsets() {
    let e = insert_task(&params(0, 60, 2), "p".into(), "q".into(), &b"hello".to_vec()).unwrap();
    assert_eq!(e.record.data.as_deref(), Some("aGVsbG8="));
    assert_eq!(e.record.task_id.as_ref().map(|s| s.len()), Some(36));
    assert_eq!(e.record.ttl - e.record.delay, 60);
    assert_eq!((e.reply.delay, e.reply.ttl, e.reply.tries), (0, 60, 2));
    assert!(matches!(e.route, Route::Ready(ref k) if k == "p|q"));
    let err = insert_task(&params(0, 0, 2), "p".into(), "q".into(), &Vec::new()).err();
    assert_eq!(err, Some(EnqueueError::NonPositiveTtl));
}

#[test]
fn insert_task_gives_fresh_identifiers() {
    let a = insert_task(&params(0, 60, 0), "p".into(), "q".into(), &Vec::new()).unwrap();
    let b = insert_task(&params(0, 60, 0), "p".into(), "q".into(), &Vec::new()).unwrap();
    assert_ne!(a.record.task_id, b.record.task_id);
    assert_eq!(a.record.data.as_deref(), Some(""));
}

#[test]
fn pop_steps_on_store_replies() {
    let lease = PoptaskParam { ttr: 5 };
    assert!(matches!(pop_task(PopEvent::Popped(None), &lease, 1000), PopAction::NotFound));
    assert!(matches!(
        pop_task(PopEvent::Popped(Some("job-1".into())), &lease, 1000),
        PopAction::Load(ref id) if id == "job-1"
    ));
    assert!(matches!(pop_task(PopEvent::Loaded(None), &lease, 1000), PopAction::Pop));
}

#[test]
fn scenario_lease_and_redelivery() {
    let (record, _, _) = enqueue(0, 60, 2, 1000);
    let lease = PoptaskParam { ttr: 5 };
    let (reply, reschedule) = deliver(pop_task(PopEvent::Loaded(Some(record)), &lease, 1000));
    assert_eq!(reply.data.as_deref(), Some("aGVsbG8="));
    assert_eq!((reply.tries, reply.delay, reply.ttl), (1, 5, 60));
    let (stored, route) = reschedule.unwrap();
    assert_eq!((stored.tries, stored.delay, stored.ttl), (1, 1005, 1060));
    assert!(matches!(route, Route::Delayed(1005)));
    // before the lease ends the queue is empty
    assert!(matches!(pop_task(PopEvent::Popped(None), &lease, 1003), PopAction::NotFound));
    // the promoter puts it back, and the next dequeue sees one try less
    let pushes = process_delay_tasks(&vec![Some(stored.copy())]);
    assert_eq!(pushes, vec![("p|q".to_string(), "job-1".to_string())]);
    let (again, reschedule) = deliver(pop_task(PopEvent::Loaded(Some(stored)), &lease, 1005));
    assert_eq!(again.tries, 0);
    assert_eq!(reschedule.unwrap().0.tries, 0);
}

#[test]
fn last_try_is_not_rescheduled() {
    let (record, _, _) = enqueue(0, 60, 0, 1000);
    let (reply, reschedule) = deliver(pop_task(PopEvent::Loaded(Some(record)), &PoptaskParam { ttr: 5 }, 1010));
    assert!(reschedule.is_none());
    assert_eq!((reply.tries, reply.delay, reply.ttl), (0, -10, 50));
}

#[test]
fn scenario_expired_job_is_dropped() {
    let (record, _, _) = enqueue(0, 1, 2, 1000);
    let lease = PoptaskParam { ttr: 5 };
    assert!(matches!(pop_task(PopEvent::Loaded(Some(record.copy())), &lease, 1002), PopAction::Pop));
    assert!(matches!(pop_task(PopEvent::Popped(None), &lease, 1002), PopAction::NotFound));
    // at the expiry second itself it is still delivered
    assert!(matches!(pop_task(PopEvent::Loaded(Some(record)), &lease, 1001), PopAction::Deliver { .. }));
}

#[test]
fn scenario_delayed_job_becomes_visible() {
    let (record, route, _) = enqueue(10, 60, 0, 1000);
    assert!(matches!(route, Route::Delayed(1010)));
    let lease = PoptaskParam { ttr: 5 };
    assert!(matches!(pop_task(PopEvent::Popped(None), &lease, 1000), PopAction::NotFound));
    let pushes = process_delay_tasks(&vec![Some(record.copy())]);
    assert_eq!(pushes, vec![("p|q".to_string(), "job-1".to_string())]);
    let (reply, _) = deliver(pop_task(PopEvent::Loaded(Some(record)), &lease, 1011));
    assert_eq!((reply.delay, reply.ttl), (-1, 49));
}

#[test]
fn scenario_two_consumers_one_job() {
    let lease = PoptaskParam { ttr: 5 };
    let (record, _, _) = enqueue(0, 60, 0, 1000);
    // the store pops atomically: one consumer gets the identifier, the other nothing
    let first = pop_task(PopEvent::Popped(Some("job-1".into())), &lease, 1000);
    let second = pop_task(PopEvent::Popped(None), &lease, 1000);
    assert!(matches!(first, PopAction::Load(_)));
    assert!(matches!(second, PopAction::NotFound));
    assert!(matches!(pop_task(PopEvent::Loaded(Some(record)), &lease, 1000), PopAction::Deliver { .. }));
}

#[test]
fn malformed_record_is_skipped() {
    let lease = PoptaskParam { ttr: 5 };
    let mut record = enqueue(0, 60, 1, 1000).0;
    record.queue = None;
    assert!(matches!(pop_task(PopEvent::Loaded(Some(record.copy())), &lease, 1000), PopAction::Pop));
    assert!(process_delay_tasks(&vec![Some(record)]).is_empty());
}

#[test]
fn lease_saturates_and_non_positive_lease_is_immediate() {
    let (record, _, _) = enqueue(0, 60, 3, 1000);
    let (_, r) = deliver(pop_task(PopEvent::Loaded(Some(record.copy())), &PoptaskParam { ttr: 0 }, 1000));
    assert!(matches!(r.unwrap().1, Route::Ready(ref k) if k == "p|q"));
    let (_, r) = deliver(pop_task(PopEvent::Loaded(Some(record.copy())), &PoptaskParam { ttr: -7 }, 1000));
    assert_eq!(r.unwrap().0.delay, 1000);
    let (_, r) = deliver(pop_task(PopEvent::Loaded(Some(record)), &PoptaskParam { ttr: i64::MAX }, 1000));
    assert!(matches!(r.unwrap().1, Route::Delayed(i64::MAX)));
}

#[test]
fn promotion_keeps_order_and_skips_missing() {
    let mut a = enqueue(5, 60, 0, 1000).0;
    a.task_id = Some("a".into());
    let mut b = enqueue(7, 60, 0, 1000).0;
    b.task_id = Some("b".into());
    b.queue = Some("other".into());
    let pushes = process_delay_tasks(&vec![Some(a), None, Some(b)]);
    assert_eq!(
        pushes,
        vec![("p|q".to_string(), "a".to_string()), ("p|other".to_string(), "b".to_string())]
    );
    assert!(process_delay_tasks(&Vec::new()).is_empty());
}

#[test]
fn delete_reports_whether_a_record_existed() {
    assert!(delete_task(Some(1)));
    assert!(!delete_task(Some(0)));
    assert!(!delete_task(None));
    // deleting again finds nothing
    assert!(!delete_task(Some(0)));
}

#[test]
fn length_reads_store_reply() {
    assert_eq!(queue_len(Some(3)), 3);
    assert_eq!(queue_len(Some(0)), 0);
    assert_eq!(queue_len(None), 0);
}

#[test]
fn dequeue_gives_up_after_its_pop_budget() {
    assert!(matches!(limit_pops(PopAction::Pop, MAX_POPS), PopAction::NotFound));
    assert!(matches!(limit_pops(PopAction::Pop, MAX_POPS - 1), PopAction::Pop));
    assert!(matches!(limit_pops(PopAction::Load("x".into()), MAX_POPS + 5), PopAction::Load(ref id) if id == "x"));
    assert!(matches!(limit_pops(PopAction::NotFound, 0), PopAction::NotFound));
}

#[test]
fn promote_one_pushes_live_records_only() {
    let (record, _, _) = enqueue(10, 60, 0, 1000);
    assert_eq!(promote_one(&Some(record)), Some(("p|q".to_string(), "job-1".to_string())));
    assert_eq!(promote_one(&None), None);
}

#[test]
fn valid_enqueue_succeeds_now() {
    let e = insert_task(&params(10, 60, 1), "p".into(), "q".into(), &b"x".to_vec());
    let e = e.unwrap();
    assert!(matches!(e.route, Route::Delayed(d) if d == e.record.delay));
    assert_eq!(e.record.data.as_deref(), Some("eA=="));
}
