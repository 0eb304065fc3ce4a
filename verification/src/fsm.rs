//! The unit of scheduling: a finite state machine with an identity, a
//! priority tag and a stopped flag that is set at most once and never
//! cleared.

use vstd::prelude::*;

verus! {

/// Which pool of pollers serves an fsm.  `Low` tagged fsms are pulled only by
/// low-priority pollers, so heavy background work cannot starve
/// latency-sensitive fsms.
#[derive(Clone, Copy, Debug, PartialEq, Eq, Structural)]
pub enum Priority {
    Normal,
    Low,
}

/// One schedulable actor.  While registered it is owned by its mailbox;
/// during a poll it is checked out and owned by the polling thread, then
/// returned (or dropped once stopped).
pub struct Fsm {
    id: u64,
    priority: Priority,
    stopped: bool,
}

impl Fsm {
    /// Identity, unique within one router.
    pub closed spec fn spec_id(&self) -> u64 {
        self.id
    }

    /// Which poller pool serves this fsm.
    pub closed spec fn spec_priority(&self) -> Priority {
        self.priority
    }

    /// The stopped flag: set at most once, and a stopped fsm is dropped at
    /// the next release.
    pub closed spec fn spec_stopped(&self) -> bool {
        self.stopped
    }

    pub fn new(id: u64, priority: Priority) -> (f: Fsm)
        ensures
            f.spec_id() == id,
            f.spec_priority() == priority,
            !f.spec_stopped(),
    {
        Fsm { id, priority, stopped: false }
    }

    #[verifier::when_used_as_spec(spec_id)]
    pub fn id(&self) -> (r: u64)
        ensures
            r == self.spec_id(),
    {
        self.id
    }

    #[verifier::when_used_as_spec(spec_priority)]
    pub fn priority(&self) -> (r: Priority)
        ensures
            r == self.spec_priority(),
    {
        self.priority
    }

    pub fn is_stopped(&self) -> (r: bool)
        ensures
            r == self.spec_stopped(),
    {
        self.stopped
    }

    /// Marks the fsm stopped.  There is no way back: no method of this type
    /// clears the flag.
    pub fn mark_stopped(&mut self)
        ensures
            final(self).spec_stopped(),
            final(self).spec_id() == old(self).spec_id(),
            final(self).spec_priority() == old(self).spec_priority(),
    {
        self.stopped = true;
    }

    pub fn set_priority(&mut self, priority: Priority)
        ensures
            final(self).spec_priority() == priority,
            final(self).spec_id() == old(self).spec_id(),
            final(self).spec_stopped() == old(self).spec_stopped(),
    {
        self.priority = priority;
    }
}

} // verus!
