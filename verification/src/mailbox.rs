//! The addressable message queue and exclusive-access cell bound to one fsm.
//!
//! A mailbox owns its fsm while the fsm is idle.  A poller checks the fsm out
//! of the cell for the duration of one poll and returns it afterwards; the
//! cell is the sole serialization point that makes concurrent polls of one
//! fsm impossible.  It is never a blocking lock: a send that finds the fsm
//! checked out only marks a needs-reschedule flag, and the release re-notifies
//! the scheduler, so a wakeup can never be lost.
//!
//! Besides the pending queue, a mailbox carries the complete history of the
//! messages it accepted (`sent`), handed to a handler (`handled`) and dropped
//! at close (`discarded`).  The well-formedness invariant ties the three to
//! the queue, and every operation is specified as a transition relation over
//! this model; the laws at the bottom of the module are proved from those
//! relations alone.

use vstd::prelude::*;

use crate::fsm::{Fsm, Priority};
use crate::scheduler::{Scheduler, SchedulerView};

verus! {

/// Why a send was refused.
#[derive(Clone, Copy, Debug, PartialEq, Eq, Structural)]
pub enum NotifyError {
    /// The target fsm was closed, or never registered.
    Disconnected,
    /// The bounded queue is saturated; the caller sees the backpressure and
    /// chooses its own retry or drop policy.
    Full,
}

/// What a mailbox looks like in contracts.
#[verifier::ext_equal]
pub struct MailboxView {
    /// Identity of the owning fsm.
    pub owner: u64,
    /// Pool that serves the owning fsm.
    pub priority: Priority,
    /// Whether this is the distinguished control mailbox, which is notified
    /// through the scheduler's control slot instead of a ready queue.
    pub ctrl: bool,
    /// The exclusive-access cell: the parked fsm, or `None` while a poller
    /// has it checked out (or after it was dropped).
    pub fsm: Option<Fsm>,
    /// Pending messages, oldest first.
    pub queue: Seq<u64>,
    /// Bound of the queue; `None` means unbounded.
    pub cap: Option<usize>,
    /// True while a scheduling event for this fsm is outstanding: the id sits
    /// in a ready queue or the fsm is being polled.  Further sends coalesce.
    pub notified: bool,
    /// Set when a send arrived while the fsm was checked out; the release
    /// turns it into a fresh scheduling event.
    pub recheck: bool,
    /// Set by `close`, never cleared; a closed mailbox accepts nothing.
    pub closed: bool,
    /// Every message ever accepted, in acceptance order.
    pub sent: Seq<u64>,
    /// Every message ever handed to a handler, in hand-over order.
    pub handled: Seq<u64>,
    /// Messages dropped unprocessed when the mailbox was closed.
    pub discarded: Seq<u64>,
}

impl MailboxView {
    /// The invariant every operation preserves.  The history equation says
    /// that what was accepted is exactly what was handled followed by what is
    /// still pending (or, once closed, followed by what close dropped).
    pub open spec fn wf(self) -> bool {
        &&& self.closed ==> self.fsm is None && self.queue.len() == 0 && self.sent
            == self.handled + self.discarded
        &&& !self.closed ==> self.sent == self.handled + self.queue && self.discarded.len() == 0
        &&& (self.fsm matches Some(f) ==> f.spec_id() == self.owner)
        &&& self.recheck ==> self.notified && self.fsm is None
    }

    /// Whether one more message fits.
    pub open spec fn has_room(self) -> bool {
        match self.cap {
            Option::None => true,
            Option::Some(c) => self.queue.len() < c,
        }
    }
}

/// Whether a send of one message is accepted, and with which error it is
/// refused otherwise.  A closed mailbox always answers `Disconnected`, a
/// saturated bounded mailbox `Full`.
pub open spec fn send_outcome(pre: MailboxView, msg: u64) -> Result<(), NotifyError> {
    if pre.closed {
        Err(NotifyError::Disconnected)
    } else if !pre.has_room() {
        Err(NotifyError::Full)
    } else {
        Ok(())
    }
}

/// The mailbox after a send: on success the message goes to the back of the
/// queue and of the accepted history, a scheduling event becomes outstanding,
/// and a send that found the fsm checked out raises the needs-reschedule
/// flag.  A refused send changes nothing.
pub open spec fn send_result(pre: MailboxView, msg: u64) -> MailboxView {
    if send_outcome(pre, msg) is Ok {
        MailboxView {
            queue: pre.queue.push(msg),
            sent: pre.sent.push(msg),
            notified: true,
            recheck: pre.recheck || (pre.notified && pre.fsm is None),
            ..pre
        }
    } else {
        pre
    }
}

/// The scheduler after the owning fsm was enqueued once: the control slot is
/// set for the control mailbox, otherwise the id goes to the back of the
/// ready queue of the fsm's pool.
pub open spec fn sched_after(pre: MailboxView, s: SchedulerView) -> SchedulerView {
    if pre.ctrl {
        SchedulerView { control_ready: true, ..s }
    } else {
        match pre.priority {
            Priority::Normal => SchedulerView { normal: s.normal.push(pre.owner), ..s },
            Priority::Low => SchedulerView { low: s.low.push(pre.owner), ..s },
        }
    }
}

/// The scheduler after a send: exactly one scheduling event is raised when
/// the send is accepted and none was outstanding; otherwise notifications
/// coalesce and the scheduler is untouched.
pub open spec fn send_sched_result(
    pre: MailboxView,
    spre: SchedulerView,
    msg: u64,
) -> SchedulerView {
    if send_outcome(pre, msg) is Ok && !pre.notified {
        sched_after(pre, spre)
    } else {
        spre
    }
}

/// Whether a forced send is accepted: only a closed mailbox refuses it; the
/// capacity bound is bypassed.
pub open spec fn force_send_outcome(pre: MailboxView, msg: u64) -> Result<(), NotifyError> {
    if pre.closed {
        Err(NotifyError::Disconnected)
    } else {
        Ok(())
    }
}

/// The mailbox after a forced send: as a send, but never refused for want
/// of room.
pub open spec fn force_send_result(pre: MailboxView, msg: u64) -> MailboxView {
    if pre.closed {
        pre
    } else {
        MailboxView {
            queue: pre.queue.push(msg),
            sent: pre.sent.push(msg),
            notified: true,
            recheck: pre.recheck || (pre.notified && pre.fsm is None),
            ..pre
        }
    }
}

/// The scheduler after a forced send: one scheduling event when the send
/// was accepted and none was outstanding.
pub open spec fn force_send_sched_result(
    pre: MailboxView,
    spre: SchedulerView,
    msg: u64,
) -> SchedulerView {
    if !pre.closed && !pre.notified {
        sched_after(pre, spre)
    } else {
        spre
    }
}

/// The transition relation of [`BasicMailbox::force_send`].
pub open spec fn force_send_post(
    pre: MailboxView,
    post: MailboxView,
    spre: SchedulerView,
    spost: SchedulerView,
    msg: u64,
    r: Result<(), NotifyError>,
) -> bool {
    &&& r == force_send_outcome(pre, msg)
    &&& post == force_send_result(pre, msg)
    &&& spost == force_send_sched_result(pre, spre, msg)
}

/// The transition relation of [`BasicMailbox::send`]: mailbox and scheduler
/// before and after, the message, and the result.
pub open spec fn send_post(
    pre: MailboxView,
    post: MailboxView,
    spre: SchedulerView,
    spost: SchedulerView,
    msg: u64,
    r: Result<(), NotifyError>,
) -> bool {
    &&& r == send_outcome(pre, msg)
    &&& post == send_result(pre, msg)
    &&& spost == send_sched_result(pre, spre, msg)
}

/// The transition relation of [`BasicMailbox::take_fsm`]: the cell is emptied
/// and whatever it held comes out.
pub open spec fn take_post(pre: MailboxView, post: MailboxView, r: Option<Fsm>) -> bool {
    &&& r == pre.fsm
    &&& post == (MailboxView { fsm: Option::None, ..pre })
}

/// The transition relation of [`BasicMailbox::release`].  A stopped fsm, or
/// one whose mailbox was closed while it was checked out, is dropped and the
/// mailbox retired.  Otherwise the fsm returns to the cell; if work is still
/// pending, or the needs-reschedule flag was raised meanwhile, the fsm is
/// immediately re-notified, else it parks until the next send.
pub open spec fn release_post(
    pre: MailboxView,
    post: MailboxView,
    spre: SchedulerView,
    spost: SchedulerView,
    f: Fsm,
) -> bool {
    if pre.closed || f.spec_stopped() {
        &&& post == close_result(pre)
        &&& spost == spre
    } else if pre.recheck || pre.queue.len() > 0 {
        &&& post == (MailboxView {
            fsm: Option::Some(f),
            notified: true,
            recheck: false,
            ..pre
        })
        &&& spost == sched_after(pre, spre)
    } else {
        &&& post == (MailboxView { fsm: Option::Some(f), notified: false, recheck: false, ..pre })
        &&& spost == spre
    }
}

/// The mailbox after a close: the pending queue is dropped, a parked fsm is
/// dropped with it, and no send succeeds afterwards.
pub open spec fn close_result(pre: MailboxView) -> MailboxView {
    MailboxView {
        fsm: Option::None,
        queue: Seq::<u64>::empty(),
        notified: false,
        recheck: false,
        closed: true,
        discarded: pre.discarded + pre.queue,
        ..pre
    }
}

/// The transition relation of [`BasicMailbox::close`].
pub open spec fn close_post(pre: MailboxView, post: MailboxView) -> bool {
    post == close_result(pre)
}

/// How many messages a drain with this budget moves.
pub open spec fn drain_count(pre: MailboxView, max: int) -> int {
    if pre.queue.len() <= max {
        pre.queue.len() as int
    } else {
        max
    }
}

/// The mailbox after a drain: the oldest `max` (or fewer) pending messages
/// moved from the queue to the handled history.
pub open spec fn drained_of(pre: MailboxView, max: int) -> MailboxView {
    let k = drain_count(pre, max);
    MailboxView {
        queue: pre.queue.skip(k),
        handled: pre.handled + pre.queue.take(k),
        ..pre
    }
}

/// The transition relation of [`BasicMailbox::drain`].
pub open spec fn drain_post(
    pre: MailboxView,
    post: MailboxView,
    max: int,
    r: Seq<u64>,
) -> bool {
    &&& r == pre.queue.take(drain_count(pre, max))
    &&& post == drained_of(pre, max)
}

/// The sending half of a bounded or unbounded queue, the exclusive-access
/// cell of the owning fsm, and the flags of the coalesced notification
/// protocol.
pub struct BasicMailbox {
    owner: u64,
    priority: Priority,
    ctrl: bool,
    fsm: Option<Fsm>,
    queue: Vec<u64>,
    cap: Option<usize>,
    notified: bool,
    recheck: bool,
    closed: bool,
    sent: Ghost<Seq<u64>>,
    handled: Ghost<Seq<u64>>,
    discarded: Ghost<Seq<u64>>,
}

impl View for BasicMailbox {
    type V = MailboxView;

    closed spec fn view(&self) -> MailboxView {
        MailboxView {
            owner: self.owner,
            priority: self.priority,
            ctrl: self.ctrl,
            fsm: self.fsm,
            queue: self.queue@,
            cap: self.cap,
            notified: self.notified,
            recheck: self.recheck,
            closed: self.closed,
            sent: self.sent@,
            handled: self.handled@,
            discarded: self.discarded@,
        }
    }
}

impl BasicMailbox {
    /// A fresh mailbox owning the given fsm, with an optional queue bound.
    pub fn new(f: Fsm, cap: Option<usize>) -> (m: BasicMailbox)
        ensures
            m@.wf(),
            m@ == (MailboxView {
                owner: f.spec_id(),
                priority: f.spec_priority(),
                ctrl: false,
                fsm: Option::Some(f),
                queue: Seq::<u64>::empty(),
                cap: cap,
                notified: false,
                recheck: false,
                closed: false,
                sent: Seq::<u64>::empty(),
                handled: Seq::<u64>::empty(),
                discarded: Seq::<u64>::empty(),
            }),
    {
        let owner = f.id();
        let priority = f.priority();
        BasicMailbox {
            owner,
            priority,
            ctrl: false,
            fsm: Some(f),
            queue: Vec::new(),
            cap,
            notified: false,
            recheck: false,
            closed: false,
            sent: Ghost(Seq::empty()),
            handled: Ghost(Seq::empty()),
            discarded: Ghost(Seq::empty()),
        }
    }

    /// The mailbox of the distinguished control fsm: unbounded, notified
    /// through the scheduler's control slot.
    pub fn new_control(f: Fsm) -> (m: BasicMailbox)
        ensures
            m@.wf(),
            m@ == (MailboxView {
                owner: f.spec_id(),
                priority: f.spec_priority(),
                ctrl: true,
                fsm: Option::Some(f),
                queue: Seq::<u64>::empty(),
                cap: Option::None,
                notified: false,
                recheck: false,
                closed: false,
                sent: Seq::<u64>::empty(),
                handled: Seq::<u64>::empty(),
                discarded: Seq::<u64>::empty(),
            }),
    {
        let owner = f.id();
        let priority = f.priority();
        BasicMailbox {
            owner,
            priority,
            ctrl: true,
            fsm: Some(f),
            queue: Vec::new(),
            cap: None,
            notified: false,
            recheck: false,
            closed: false,
            sent: Ghost(Seq::empty()),
            handled: Ghost(Seq::empty()),
            discarded: Ghost(Seq::empty()),
        }
    }

    pub fn owner(&self) -> (r: u64)
        ensures
            r == self@.owner,
    {
        self.owner
    }

    pub fn priority(&self) -> (r: Priority)
        ensures
            r == self@.priority,
    {
        self.priority
    }

    pub fn is_closed(&self) -> (r: bool)
        ensures
            r == self@.closed,
    {
        self.closed
    }

    /// Number of pending messages.
    pub fn len(&self) -> (n: usize)
        ensures
            n == self@.queue.len(),
    {
        self.queue.len()
    }

    /// Accepts a message and raises exactly one scheduling event for it.
    ///
    /// A send on a closed mailbox fails with `Disconnected`; on a saturated
    /// bounded mailbox with `Full`.  On success the message goes to the back
    /// of the queue.  If no scheduling event is outstanding the scheduler is
    /// notified; if one is, nothing is enqueued again (notifications
    /// coalesce), but a send that finds the fsm checked out raises the
    /// needs-reschedule flag so the release re-notifies.
    pub fn send(&mut self, msg: u64, sched: &mut Scheduler) -> (r: Result<(), NotifyError>)
        requires
            old(self)@.wf(),
        ensures
            final(self)@.wf(),
            send_post(old(self)@, final(self)@, old(sched)@, final(sched)@, msg, r),
    {
        if self.closed {
            return Err(NotifyError::Disconnected);
        }
        if let Some(c) = self.cap {
            if self.queue.len() >= c {
                return Err(NotifyError::Full);
            }
        }
        let ghost pre = self@;
        self.queue.push(msg);
        self.sent = Ghost(pre.sent.push(msg));
        if !self.notified {
            self.notified = true;
            if self.ctrl {
                sched.schedule_control();
            } else {
                sched.schedule(self.owner, self.priority);
            }
        } else if self.fsm.is_none() {
            self.recheck = true;
        }
        Ok(())
    }

    /// Accepts a message past any capacity bound — the forcing variant for
    /// messages that must not be dropped under backpressure, such as
    /// administrative commands.  Only a closed mailbox still refuses.  The
    /// owning fsm is notified exactly as by `send`.
    pub fn force_send(&mut self, msg: u64, sched: &mut Scheduler) -> (r: Result<(), NotifyError>)
        requires
            old(self)@.wf(),
        ensures
            final(self)@.wf(),
            force_send_post(old(self)@, final(self)@, old(sched)@, final(sched)@, msg, r),
    {
        if self.closed {
            return Err(NotifyError::Disconnected);
        }
        let ghost pre = self@;
        self.queue.push(msg);
        self.sent = Ghost(pre.sent.push(msg));
        if !self.notified {
            self.notified = true;
            if self.ctrl {
                sched.schedule_control();
            } else {
                sched.schedule(self.owner, self.priority);
            }
        } else if self.fsm.is_none() {
            self.recheck = true;
        }
        Ok(())
    }

    /// Checks the fsm out of the cell for exclusive use by one poller.
    /// Returns `None` when the cell is empty, that is when another poller
    /// already holds the fsm or the mailbox was retired: a second concurrent
    /// poll is structurally impossible.
    pub fn take_fsm(&mut self) -> (r: Option<Fsm>)
        ensures
            old(self)@.wf() ==> final(self)@.wf(),
            take_post(old(self)@, final(self)@, r),
    {
        self.fsm.take()
    }

    /// Returns a checked-out fsm after a poll.
    ///
    /// A stopped fsm is dropped and the mailbox retired; so is any fsm whose
    /// mailbox was closed while it was out.  Otherwise the fsm parks in the
    /// cell, unless messages are still pending or the needs-reschedule flag
    /// was raised meanwhile, in which case the fsm is re-notified at once.
    pub fn release(&mut self, f: Fsm, sched: &mut Scheduler)
        requires
            old(self)@.wf(),
            old(self)@.fsm is None,
            f.spec_id() == old(self)@.owner,
        ensures
            final(self)@.wf(),
            release_post(old(self)@, final(self)@, old(sched)@, final(sched)@, f),
    {
        let ghost pre = self@;
        if self.closed || f.is_stopped() {
            self.closed = true;
            self.discarded = Ghost(pre.discarded + pre.queue);
            self.queue.clear();
            self.notified = false;
            self.recheck = false;
        } else if self.recheck || self.queue.len() > 0 {
            self.fsm = Some(f);
            self.recheck = false;
            self.notified = true;
            if self.ctrl {
                sched.schedule_control();
            } else {
                sched.schedule(self.owner, self.priority);
            }
        } else {
            self.fsm = Some(f);
            self.notified = false;
        }
    }

    /// Closes the mailbox: pending messages are dropped, a parked fsm is
    /// dropped, and every later send fails with `Disconnected`.
    pub fn close(&mut self)
        requires
            old(self)@.wf(),
        ensures
            final(self)@.wf(),
            close_post(old(self)@, final(self)@),
    {
        let ghost pre = self@;
        self.closed = true;
        self.discarded = Ghost(pre.discarded + pre.queue);
        self.queue.clear();
        self.fsm = None;
        self.notified = false;
        self.recheck = false;
    }

    /// Moves up to `max` of the oldest pending messages out of the queue and
    /// into the handled history, preserving their order.  This is how a
    /// poller obtains the slice of messages it hands to the handler, capped
    /// by the per-fsm budget of one round.
    pub fn drain(&mut self, max: usize) -> (msgs: Vec<u64>)
        requires
            old(self)@.wf(),
        ensures
            final(self)@.wf(),
            drain_post(old(self)@, final(self)@, max as int, msgs@),
    {
        let ghost pre = self@;
        let len = self.queue.len();
        let k = if max <= len {
            max
        } else {
            len
        };
        let mut msgs = self.queue.split_off(k);
        core::mem::swap(&mut self.queue, &mut msgs);
        self.handled = Ghost(pre.handled + msgs@);
        proof {
            let ki = k as int;
            assert(msgs@ =~= pre.queue.take(ki));
            assert(self.queue@ =~= pre.queue.skip(ki));
            if !pre.closed {
                assert(self@.sent =~= self@.handled + self@.queue);
            }
        }
        msgs
    }
}

// ---------------------------------------------------------------------------
// Laws of the mailbox protocol, proved from the transition relations alone.
// ---------------------------------------------------------------------------

/// At most one concurrent poll per fsm: once a take has handed the fsm out,
/// every further take before the matching release comes back empty.  The cell
/// is the mutual-exclusion point.
pub proof fn lemma_exclusive_checkout(
    m0: MailboxView,
    m1: MailboxView,
    m2: MailboxView,
    r1: Option<Fsm>,
    r2: Option<Fsm>,
)
    requires
        take_post(m0, m1, r1),
        r1 is Some,
        take_post(m1, m2, r2),
    ensures
        r2 is None,
{
}

/// No lost wakeup: a send that succeeds while the fsm is checked out leaves
/// the message in the queue, and after the poller returns the fsm, the fsm is
/// notified again — its id stands at the back of its ready queue (for the
/// control mailbox, the control slot is set).  A later poll therefore
/// observes the message without any further send.
pub proof fn lemma_no_lost_wakeup(
    m0: MailboxView,
    m1: MailboxView,
    m2: MailboxView,
    s0: SchedulerView,
    s1: SchedulerView,
    s2: SchedulerView,
    msg: u64,
    f: Fsm,
)
    requires
        m0.wf(),
        m0.fsm is None,
        !m0.closed,
        send_post(m0, m1, s0, s1, msg, Ok(())),
        !f.spec_stopped(),
        release_post(m1, m2, s1, s2, f),
    ensures
        m2.queue == m0.queue.push(msg),
        m2.notified,
        m0.ctrl ==> s2.control_ready,
        !m0.ctrl ==> s2.queue(m0.priority).len() > 0 && s2.queue(m0.priority).last() == m0.owner,
{
    if !m0.ctrl {
        if m0.notified {
            assert(s2.queue(m0.priority) == s1.queue(m0.priority).push(m0.owner));
        } else {
            assert(s1.queue(m0.priority) == s0.queue(m0.priority).push(m0.owner));
            assert(m1.queue.len() > 0);
            assert(s2.queue(m0.priority) == s1.queue(m0.priority).push(m0.owner));
        }
    }
}

/// No lost wakeup, with the racing poll spelled out: a send that succeeds
/// while the fsm is checked out, followed by the poller's own drain and the
/// release, leaves the message either already handled (the drain caught it)
/// or still pending with the fsm notified again — never stranded in a
/// parked mailbox.
pub proof fn lemma_no_lost_wakeup_with_drain(
    m0: MailboxView,
    m1: MailboxView,
    m2: MailboxView,
    m3: MailboxView,
    s0: SchedulerView,
    s1: SchedulerView,
    s2: SchedulerView,
    budget: int,
    drained: Seq<u64>,
    msg: u64,
    f: Fsm,
)
    requires
        m0.wf(),
        m0.fsm is None,
        !m0.closed,
        budget >= 0,
        send_post(m0, m1, s0, s1, msg, Ok(())),
        drain_post(m1, m2, budget, drained),
        !f.spec_stopped(),
        release_post(m2, m3, s1, s2, f),
    ensures
        m3.handled.contains(msg) || (m3.queue.contains(msg) && m3.notified && (if m0.ctrl {
            s2.control_ready
        } else {
            s2.queue(m0.priority).len() > 0 && s2.queue(m0.priority).last() == m0.owner
        })),
{
    let kd = drain_count(m1, budget);
    assert(m1.queue == m0.queue.push(msg));
    assert(m1.queue.last() == msg);
    if kd == m1.queue.len() {
        assert(drained[m1.queue.len() - 1] == msg);
        assert(m2.handled == m1.handled + drained);
        assert(m2.handled[m1.handled.len() + m1.queue.len() - 1] == msg);
        assert(m2.handled.contains(msg));
        assert(m3.handled == m2.handled);
    } else {
        assert(m2.queue == m1.queue.skip(kd));
        assert(m2.queue.len() > 0);
        assert(m2.queue.last() == msg);
        assert(m3.queue == m2.queue);
        assert(m3.queue.contains(msg));
    }
}

/// First-in-first-out per mailbox: at every well-formed state, the messages
/// already handed to handlers are exactly a prefix of the messages accepted,
/// in acceptance order.  Handling order equals send order.
pub proof fn lemma_fifo(m: MailboxView)
    requires
        m.wf(),
    ensures
        m.handled.is_prefix_of(m.sent),
{
    assert(m.handled =~= m.sent.take(m.handled.len() as int));
}

/// Closed-mailbox rejection: after a close, every send fails with
/// `Disconnected` and changes nothing.
pub proof fn lemma_closed_rejects(
    m0: MailboxView,
    m1: MailboxView,
    m2: MailboxView,
    s1: SchedulerView,
    s2: SchedulerView,
    msg: u64,
    r: Result<(), NotifyError>,
)
    requires
        close_post(m0, m1),
        send_post(m1, m2, s1, s2, msg, r),
    ensures
        r == Err::<(), NotifyError>(NotifyError::Disconnected),
        m2 == m1,
        s2 == s1,
{
}

/// Nothing is handled after a close: the close empties the queue, so every
/// later drain hands out no message and the handled history never grows
/// again.
pub proof fn lemma_no_handling_after_close(
    m0: MailboxView,
    m1: MailboxView,
    m2: MailboxView,
    max: int,
    r: Seq<u64>,
)
    requires
        max >= 0,
        close_post(m0, m1),
        drain_post(m1, m2, max, r),
    ensures
        r == Seq::<u64>::empty(),
        m2.handled == m1.handled,
{
    assert(r =~= Seq::<u64>::empty());
    assert(m2.handled =~= m1.handled);
}

} // verus!
