//! The bounded jump-event queue.
use flappyboi::input::{EventQueue, JumpEvent, EVENT_QUEUE_CAP};

#[test]
fn queue_drains_fully_and_exactly_once() {
    let mut q = EventQueue::new();
    q.push(JumpEvent);
    q.push(JumpEvent);
    let drained = q.drain_all();
    assert_eq!(drained.len(), 2);
    assert_eq!(q.drain_all().len(), 0);
}

#[test]
fn full_queue_drops_further_events() {
    let mut q = EventQueue::new();
    for _ in 0..EVENT_QUEUE_CAP + 5 {
        q.push(JumpEvent);
    }
    assert_eq!(q.drain_all().len(), EVENT_QUEUE_CAP);
}
