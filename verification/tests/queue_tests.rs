use sharder::queue::{queue_task_step, IdentifyQueue, QueueStep, QUEUE_WAIT_MS};

#[test]
fn cold_start_two_shards_paced_seven_seconds() {
    let mut q = IdentifyQueue::new();
    q.up(0);
    q.up(1);
    assert!(q.ready(0));
    assert_eq!(q.dispense(0), 0);
    assert!(!q.ready(0));
    assert!(!q.ready(QUEUE_WAIT_MS - 1));
    assert!(q.ready(QUEUE_WAIT_MS));
    assert_eq!(q.dispense(QUEUE_WAIT_MS), 1);
    assert!(!q.ready(2 * QUEUE_WAIT_MS));
}

#[test]
fn same_id_twice_gives_two_paced_fulfilments() {
    let mut q = IdentifyQueue::new();
    q.up(3);
    q.up(3);
    assert_eq!(q.dispense(100), 3);
    assert!(!q.ready(100 + QUEUE_WAIT_MS - 1));
    assert!(q.ready(100 + QUEUE_WAIT_MS));
    assert_eq!(q.dispense(100 + QUEUE_WAIT_MS), 3);
}

#[test]
fn requests_are_served_in_fifo_order() {
    let mut q = IdentifyQueue::new();
    q.up(2);
    q.up(0);
    q.up(1);
    assert_eq!(q.dispense(0), 2);
    assert_eq!(q.dispense(QUEUE_WAIT_MS), 0);
    assert_eq!(q.dispense(2 * QUEUE_WAIT_MS), 1);
    assert!(!q.ready(u64::MAX));
}

#[test]
fn empty_queue_is_never_ready() {
    let q = IdentifyQueue::new();
    assert!(!q.ready(0));
    assert!(!q.ready(u64::MAX));
}

#[test]
fn task_stops_exactly_when_channel_ends() {
    assert!(matches!(queue_task_step(None), QueueStep::Stop));
    assert!(matches!(queue_task_step(Some(4)), QueueStep::Dispense(4)));
}
