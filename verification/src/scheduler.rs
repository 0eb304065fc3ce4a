//! The ready queues consumed by pollers.
//!
//! The scheduler owns no fsm: it holds only identities, so the ownership
//! cycle between mailboxes (which must notify the scheduler) and pollers
//! (which must reach mailboxes) is broken at this point.  The control fsm
//! has a separate always-checked-first slot instead of a queue position, so
//! administrative work is never starved by normal traffic.

use vstd::prelude::*;

use crate::fsm::Priority;

verus! {

/// What a scheduler looks like in contracts.
#[verifier::ext_equal]
pub struct SchedulerView {
    /// Ready normal-priority fsm ids, oldest first.
    pub normal: Seq<u64>,
    /// Ready low-priority fsm ids, oldest first.
    pub low: Seq<u64>,
    /// The distinguished control slot: true when the control fsm is ready.
    pub control_ready: bool,
    /// Once set, pollers pull no further batches.
    pub shutdown: bool,
}

impl SchedulerView {
    /// The ready queue that serves fsms of the given priority.
    pub open spec fn queue(self, priority: Priority) -> Seq<u64> {
        match priority {
            Priority::Normal => self.normal,
            Priority::Low => self.low,
        }
    }
}

/// The hand-off point between mailboxes and pollers: multi-producer ready
/// queues of fsm identities, one per poller pool, plus the control slot and
/// the pool-wide stop flag.
pub struct Scheduler {
    normal: Vec<u64>,
    low: Vec<u64>,
    control_ready: bool,
    shutdown: bool,
}

impl View for Scheduler {
    type V = SchedulerView;

    closed spec fn view(&self) -> SchedulerView {
        SchedulerView {
            normal: self.normal@,
            low: self.low@,
            control_ready: self.control_ready,
            shutdown: self.shutdown,
        }
    }
}

impl Scheduler {
    pub fn new() -> (s: Scheduler)
        ensures
            s@.normal == Seq::<u64>::empty(),
            s@.low == Seq::<u64>::empty(),
            !s@.control_ready,
            !s@.shutdown,
    {
        Scheduler { normal: Vec::new(), low: Vec::new(), control_ready: false, shutdown: false }
    }

    /// Enqueues a normal fsm's identity on the ready queue of its pool.
    pub fn schedule(&mut self, id: u64, priority: Priority)
        ensures
            final(self)@.queue(priority) == old(self)@.queue(priority).push(id),
            final(self)@.queue(other(priority)) == old(self)@.queue(other(priority)),
            final(self)@.control_ready == old(self)@.control_ready,
            final(self)@.shutdown == old(self)@.shutdown,
    {
        match priority {
            Priority::Normal => self.normal.push(id),
            Priority::Low => self.low.push(id),
        }
    }

    /// Marks the control fsm ready.  The slot coalesces: it is a flag, not a
    /// queue, so repeated notifications collapse into one.
    pub fn schedule_control(&mut self)
        ensures
            final(self)@ == (SchedulerView { control_ready: true, ..old(self)@ }),
    {
        self.control_ready = true;
    }

    /// Whether the control slot is raised.
    pub fn is_control_ready(&self) -> (r: bool)
        ensures
            r == self@.control_ready,
    {
        self.control_ready
    }

    /// Consumes the control slot; returns whether the control fsm was ready.
    pub fn take_control(&mut self) -> (r: bool)
        ensures
            r == old(self)@.control_ready,
            final(self)@ == (SchedulerView { control_ready: false, ..old(self)@ }),
    {
        let r = self.control_ready;
        self.control_ready = false;
        r
    }

    /// Pops the oldest ready id of the given pool, if any.
    pub fn pop_ready(&mut self, priority: Priority) -> (r: Option<u64>)
        ensures
            old(self)@.queue(priority).len() == 0 ==> r is None && final(self)@ == old(self)@,
            old(self)@.queue(priority).len() > 0 ==> {
                &&& r == Some(old(self)@.queue(priority)[0])
                &&& final(self)@.queue(priority) == old(self)@.queue(priority).skip(1)
                &&& final(self)@.queue(other(priority)) == old(self)@.queue(other(priority))
                &&& final(self)@.control_ready == old(self)@.control_ready
                &&& final(self)@.shutdown == old(self)@.shutdown
            },
    {
        let q: &mut Vec<u64> = match priority {
            Priority::Normal => &mut self.normal,
            Priority::Low => &mut self.low,
        };
        if q.len() == 0 {
            None
        } else {
            let id = q.remove(0);
            Some(id)
        }
    }

    /// Raises the pool-wide stop signal.
    pub fn set_shutdown(&mut self)
        ensures
            final(self)@ == (SchedulerView { shutdown: true, ..old(self)@ }),
    {
        self.shutdown = true;
    }

    pub fn is_shutdown(&self) -> (r: bool)
        ensures
            r == self@.shutdown,
    {
        self.shutdown
    }

    /// How many fsm ids wait in the ready queue of the given pool.
    pub fn ready_len(&self, priority: Priority) -> (n: usize)
        ensures
            n == self@.queue(priority).len(),
    {
        match priority {
            Priority::Normal => self.normal.len(),
            Priority::Low => self.low.len(),
        }
    }
}

/// The other pool's priority tag.
pub open spec fn other(priority: Priority) -> Priority {
    match priority {
        Priority::Normal => Priority::Low,
        Priority::Low => Priority::Normal,
    }
}

} // verus!
