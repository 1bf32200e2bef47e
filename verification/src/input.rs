//! Discrete input events.  Jump impulses arriving between steps are
//! buffered in a bounded queue and drained exactly once per step; the
//! step treats their presence as a boolean.
use vstd::prelude::*;

verus! {

/// A single discrete jump impulse.
#[derive(Clone, Copy, Debug, PartialEq, Eq, Structural)]
pub struct JumpEvent;

/// Capacity of the event queue; events arriving while it is full are
/// dropped.
pub const EVENT_QUEUE_CAP: usize = 1024;

/// A bounded queue of jump events, drained in full once per step.
#[derive(Debug)]
pub struct EventQueue {
    /// The buffered events, oldest first.
    pub events: Vec<JumpEvent>,
}

impl EventQueue {
    /// The number of buffered events.
    pub open spec fn count(self) -> nat {
        self.events@.len()
    }

    /// An empty queue.
    pub fn new() -> (q: EventQueue)
        ensures
            q.count() == 0,
    {
        EventQueue { events: Vec::new() }
    }

    /// Buffers one event; a full queue drops it.
    pub fn push(&mut self, ev: JumpEvent)
        ensures
            final(self).count() == if old(self).count() < EVENT_QUEUE_CAP {
                old(self).count() + 1
            } else {
                old(self).count()
            },
    {
        if self.events.len() < EVENT_QUEUE_CAP {
            self.events.push(ev);
        }
    }

    /// Hands out everything buffered and leaves the queue empty.
    pub fn drain_all(&mut self) -> (drained: Vec<JumpEvent>)
        ensures
            final(self).count() == 0,
            drained@.len() == old(self).count(),
    {
        let mut out: Vec<JumpEvent> = Vec::new();
        core::mem::swap(&mut out, &mut self.events);
        out
    }
}

} // verus!
