//! The registry mapping numeric identities to mailboxes, plus the one
//! distinguished control mailbox: the single external-facing addressing and
//! lifecycle interface.
//!
//! Identities are unique among the registered mailboxes.  A closed entry
//! stays in the registry so that stale senders keep observing `Disconnected`;
//! only an explicit re-registration may put a new mailbox under the same id.

use vstd::prelude::*;

use crate::batch::{fetch_post, poll_control_post, poll_normal_post, taken, PollHandler};
use crate::fsm::Priority;
use crate::mailbox::{
    close_result, drained_of, force_send_outcome, force_send_result, force_send_sched_result,
    release_post, send_outcome, send_result, send_sched_result, BasicMailbox, MailboxView,
    NotifyError,
};
use crate::scheduler::{other, Scheduler, SchedulerView};

verus! {

/// Why a registration was refused.
#[derive(Clone, Copy, Debug, PartialEq, Eq, Structural)]
pub enum RegisterError {
    /// The id is already registered and still open.  Double registration is
    /// a programming error, not a condition to recover from silently.
    Conflict,
}

/// A cheap handle on a registered mailbox: the address under which the
/// router reaches it.  Many holders may send through clones of one handle;
/// dropping handles does not stop the fsm — only an explicit close does.
#[derive(Clone, Copy, Debug, PartialEq, Eq, Structural)]
pub struct Mailbox {
    addr: u64,
}

impl Mailbox {
    /// The address this handle sends to.
    pub closed spec fn spec_addr(&self) -> u64 {
        self.addr
    }

    #[verifier::when_used_as_spec(spec_addr)]
    pub fn addr(&self) -> (r: u64)
        ensures
            r == self.spec_addr(),
    {
        self.addr
    }

    /// Sends through the router to this handle's mailbox.
    pub fn send(&self, router: &mut Router, msg: u64) -> (r: Result<(), NotifyError>)
        requires
            old(router)@.wf(),
        ensures
            final(router)@.wf(),
            router_send_post(old(router)@, final(router)@, self.spec_addr(), msg, r),
    {
        router.send(self.addr, msg)
    }
}

/// What a router looks like in contracts.
#[verifier::ext_equal]
pub struct RouterView {
    /// The distinguished control mailbox.
    pub control: MailboxView,
    /// The registered normal mailboxes, in registration order.
    pub normals: Seq<MailboxView>,
    /// The ready queues shared with the pollers.
    pub scheduler: SchedulerView,
}

impl RouterView {
    /// Some registered mailbox (open or closed) carries this id.
    pub open spec fn has(self, id: u64) -> bool {
        exists|i: int| 0 <= i < self.normals.len() && self.normals[i].owner == id
    }

    /// The registry position of the id.  Meaningful only when `has(id)`
    /// holds; unique by well-formedness.
    pub open spec fn idx_of(self, id: u64) -> int {
        choose|i: int| 0 <= i < self.normals.len() && self.normals[i].owner == id
    }

    /// The registered mailbox carrying this id.
    pub open spec fn mailbox_of(self, id: u64) -> MailboxView {
        self.normals[self.idx_of(id)]
    }

    /// The invariant of the registry: every entry is well formed and only
    /// the control mailbox uses the control slot, and ids are unique.
    pub open spec fn wf(self) -> bool {
        &&& self.control.wf()
        &&& self.control.ctrl
        &&& forall|i: int|
            0 <= i < self.normals.len() ==> (#[trigger] self.normals[i]).wf()
                && !self.normals[i].ctrl
        &&& forall|i: int, j: int|
            #![trigger self.normals[i].owner, self.normals[j].owner]
            0 <= i < j < self.normals.len() ==> self.normals[i].owner != self.normals[j].owner
    }

    /// With unique ids, `idx_of` is the one position carrying the id.
    pub proof fn lemma_idx_of(self, id: u64)
        requires
            self.wf(),
            self.has(id),
        ensures
            0 <= self.idx_of(id) < self.normals.len(),
            self.normals[self.idx_of(id)].owner == id,
            forall|j: int|
                0 <= j < self.normals.len() && self.normals[j].owner == id ==> j == self.idx_of(
                    id,
                ),
    {
        let i = self.idx_of(id);
        assert(0 <= i < self.normals.len() && self.normals[i].owner == id);
        assert forall|j: int|
            0 <= j < self.normals.len() && self.normals[j].owner == id implies j == i by {
            if j < i {
                assert(self.normals[j].owner != self.normals[i].owner);
            } else if j > i {
                assert(self.normals[i].owner != self.normals[j].owner);
            }
        }
    }
}

/// The transition relation of [`Router::send`]: an unregistered id answers
/// `Disconnected` and changes nothing; a registered id takes exactly the
/// mailbox send transition at its registry position, everything else is
/// untouched.
pub open spec fn router_send_post(
    pre: RouterView,
    post: RouterView,
    addr: u64,
    msg: u64,
    r: Result<(), NotifyError>,
) -> bool {
    if !pre.has(addr) {
        &&& r == Err::<(), NotifyError>(NotifyError::Disconnected)
        &&& post == pre
    } else {
        &&& r == send_outcome(pre.mailbox_of(addr), msg)
        &&& post.normals == pre.normals.update(
            pre.idx_of(addr),
            send_result(pre.mailbox_of(addr), msg),
        )
        &&& post.scheduler == send_sched_result(pre.mailbox_of(addr), pre.scheduler, msg)
        &&& post.control == pre.control
    }
}

/// The transition relation of [`Router::force_send`], the forcing variant
/// of [`router_send_post`]: the capacity bound of the target is bypassed.
pub open spec fn router_force_send_post(
    pre: RouterView,
    post: RouterView,
    addr: u64,
    msg: u64,
    r: Result<(), NotifyError>,
) -> bool {
    if !pre.has(addr) {
        &&& r == Err::<(), NotifyError>(NotifyError::Disconnected)
        &&& post == pre
    } else {
        &&& r == force_send_outcome(pre.mailbox_of(addr), msg)
        &&& post.normals == pre.normals.update(
            pre.idx_of(addr),
            force_send_result(pre.mailbox_of(addr), msg),
        )
        &&& post.scheduler == force_send_sched_result(pre.mailbox_of(addr), pre.scheduler, msg)
        &&& post.control == pre.control
    }
}

/// The transition relation of [`Router::register`].  An id that is present
/// and still open is refused; a closed entry is replaced (explicit
/// re-registration); a fresh id is appended.
pub open spec fn register_post(
    pre: RouterView,
    post: RouterView,
    addr: u64,
    m: MailboxView,
    r: Result<Mailbox, RegisterError>,
) -> bool {
    if pre.has(addr) && !pre.mailbox_of(addr).closed {
        &&& r == Err::<Mailbox, RegisterError>(RegisterError::Conflict)
        &&& post == pre
    } else {
        &&& (r matches Ok(h) && h.spec_addr() == addr)
        &&& post.control == pre.control
        &&& post.scheduler == pre.scheduler
        &&& if pre.has(addr) {
            post.normals == pre.normals.update(pre.idx_of(addr), m)
        } else {
            post.normals == pre.normals.push(m)
        }
    }
}

/// Once every registered mailbox is closed — as after a pool shutdown — the
/// router rejects every send and nothing changes any more: no message sent
/// after the close is ever queued, let alone processed.
pub proof fn lemma_closed_router_rejects(
    r1: RouterView,
    r2: RouterView,
    addr: u64,
    msg: u64,
    res: Result<(), NotifyError>,
)
    requires
        r1.wf(),
        forall|j: int| 0 <= j < r1.normals.len() ==> (#[trigger] r1.normals[j]).closed,
        router_send_post(r1, r2, addr, msg, res),
    ensures
        res == Err::<(), NotifyError>(NotifyError::Disconnected),
        r2 == r1,
{
    if r1.has(addr) {
        r1.lemma_idx_of(addr);
        let i = r1.idx_of(addr);
        assert(r1.normals[i].closed);
        assert(send_result(r1.normals[i], msg) == r1.normals[i]);
        assert(r2.normals =~= r1.normals.update(i, r1.normals[i]));
        assert(r2.normals =~= r1.normals);
        assert(r2 =~= r1);
    }
}

/// The scheduler after every mailbox of `ms`, in order, raised the
/// scheduling event of one broadcast send.
pub open spec fn bcast_sched(ms: Seq<MailboxView>, s: SchedulerView, msg: u64) -> SchedulerView
    decreases ms.len(),
{
    if ms.len() == 0 {
        s
    } else {
        bcast_sched(ms.skip(1), send_sched_result(ms[0], s, msg), msg)
    }
}

/// Folding one more mailbox into [`bcast_sched`] from the back.
pub proof fn lemma_bcast_sched_push(
    ms: Seq<MailboxView>,
    x: MailboxView,
    s: SchedulerView,
    msg: u64,
)
    ensures
        bcast_sched(ms.push(x), s, msg) == send_sched_result(x, bcast_sched(ms, s, msg), msg),
    decreases ms.len(),
{
    if ms.len() == 0 {
        let e = ms.push(x).skip(1);
        assert(e =~= Seq::<MailboxView>::empty());
        assert(ms.push(x)[0] == x);
        assert(bcast_sched(ms.push(x), s, msg) == bcast_sched(
            e,
            send_sched_result(x, s, msg),
            msg,
        ));
        assert(bcast_sched(e, send_sched_result(x, s, msg), msg) == send_sched_result(x, s, msg));
        assert(bcast_sched(ms, s, msg) == s);
    } else {
        assert(ms.push(x)[0] == ms[0]);
        assert(ms.push(x).skip(1) =~= ms.skip(1).push(x));
        lemma_bcast_sched_push(ms.skip(1), x, send_sched_result(ms[0], s, msg), msg);
        assert(bcast_sched(ms.push(x), s, msg) == bcast_sched(
            ms.skip(1).push(x),
            send_sched_result(ms[0], s, msg),
            msg,
        ));
        assert(bcast_sched(ms, s, msg) == bcast_sched(
            ms.skip(1),
            send_sched_result(ms[0], s, msg),
            msg,
        ));
    }
}

/// The registry of normal mailboxes, the control mailbox, and the scheduler
/// they notify.
pub struct Router {
    pub(crate) control: BasicMailbox,
    pub(crate) normals: Vec<BasicMailbox>,
    pub(crate) scheduler: Scheduler,
}

impl View for Router {
    type V = RouterView;

    closed spec fn view(&self) -> RouterView {
        RouterView {
            control: self.control@,
            normals: self.normals@.map_values(|m: BasicMailbox| m@),
            scheduler: self.scheduler@,
        }
    }
}

impl Router {
    /// A router with an empty registry around the given control mailbox.
    pub fn new(control: BasicMailbox) -> (r: Router)
        requires
            control@.wf(),
            control@.ctrl,
        ensures
            r@.wf(),
            r@.control == control@,
            r@.normals == Seq::<MailboxView>::empty(),
            r@.scheduler == (SchedulerView {
                normal: Seq::<u64>::empty(),
                low: Seq::<u64>::empty(),
                control_ready: false,
                shutdown: false,
            }),
    {
        let r = Router { control, normals: Vec::new(), scheduler: Scheduler::new() };
        proof {
            assert(r@.normals =~= Seq::<MailboxView>::empty());
        }
        r
    }

    /// The registry position of an id, if present.
    pub(crate) fn find(&self, addr: u64) -> (r: Option<usize>)
        ensures
            match r {
                Option::Some(i) => i < self@.normals.len() && self@.normals[i as int].owner
                    == addr,
                Option::None => !self@.has(addr),
            },
    {
        let n = self.normals.len();
        let mut i: usize = 0;
        while i < n
            invariant
                n == self@.normals.len(),
                i <= n,
                forall|j: int| 0 <= j < i ==> self@.normals[j].owner != addr,
            decreases n - i,
        {
            if self.normals[i].owner() == addr {
                return Some(i);
            }
            i = i + 1;
        }
        None
    }

    /// Whether an id is registered and still open.
    pub fn is_open(&self, addr: u64) -> (r: bool)
        requires
            self@.wf(),
        ensures
            r == (self@.has(addr) && !self@.mailbox_of(addr).closed),
    {
        proof {
            if self@.has(addr) {
                self@.lemma_idx_of(addr);
            }
        }
        match self.find(addr) {
            Some(i) => !self.normals[i].is_closed(),
            None => false,
        }
    }

    /// A handle on a registered, open mailbox.
    pub fn mailbox(&self, addr: u64) -> (r: Option<Mailbox>)
        requires
            self@.wf(),
        ensures
            match r {
                Option::Some(h) => h.spec_addr() == addr && self@.has(addr) && !self@.mailbox_of(
                    addr,
                ).closed,
                Option::None => !self@.has(addr) || self@.mailbox_of(addr).closed,
            },
    {
        if self.is_open(addr) {
            Some(Mailbox { addr })
        } else {
            None
        }
    }

    /// Inserts a mailbox under its id and hands back a sending handle.
    /// Fails, dropping the mailbox, when the id is present and still open.
    pub fn register(&mut self, addr: u64, m: BasicMailbox) -> (r: Result<Mailbox, RegisterError>)
        requires
            old(self)@.wf(),
            m@.wf(),
            m@.owner == addr,
            !m@.ctrl,
        ensures
            final(self)@.wf(),
            register_post(old(self)@, final(self)@, addr, m@, r),
    {
        let ghost pre = self@;
        match self.find(addr) {
            Some(i) => {
                proof {
                    assert(pre.has(addr));
                    pre.lemma_idx_of(addr);
                    assert(pre.idx_of(addr) == i);
                }
                if !self.normals[i].is_closed() {
                    return Err(RegisterError::Conflict);
                }
                let slot = &mut self.normals[i];
                *slot = m;
                proof {
                    assert(self@.normals =~= pre.normals.update(i as int, m@));
                    assert forall|a: int, b: int|
                        0 <= a < b < self@.normals.len() implies self@.normals[a].owner
                        != self@.normals[b].owner by {
                        assert(pre.normals[a].owner != pre.normals[b].owner);
                    }
                }
                Ok(Mailbox { addr })
            },
            None => {
                self.normals.push(m);
                proof {
                    assert(self@.normals =~= pre.normals.push(m@));
                    assert forall|a: int, b: int|
                        0 <= a < b < self@.normals.len() implies self@.normals[a].owner
                        != self@.normals[b].owner by {
                        if b < pre.normals.len() {
                            assert(pre.normals[a].owner != pre.normals[b].owner);
                        } else {
                            assert(self@.normals[b] == m@);
                            assert(pre.normals[a].owner != addr);
                        }
                    }
                }
                Ok(Mailbox { addr })
            },
        }
    }

    /// Looks the id up and forwards the message: `Disconnected` for an
    /// unregistered or closed id, `Full` for saturated backpressure,
    /// otherwise the message is queued and the fsm notified.
    pub fn send(&mut self, addr: u64, msg: u64) -> (r: Result<(), NotifyError>)
        requires
            old(self)@.wf(),
        ensures
            final(self)@.wf(),
            router_send_post(old(self)@, final(self)@, addr, msg, r),
    {
        let ghost pre = self@;
        match self.find(addr) {
            None => Err(NotifyError::Disconnected),
            Some(i) => {
                proof {
                    assert(pre.has(addr));
                    pre.lemma_idx_of(addr);
                    assert(pre.idx_of(addr) == i);
                }
                let mb = &mut self.normals[i];
                let r = mb.send(msg, &mut self.scheduler);
                proof {
                    assert(self@.normals =~= pre.normals.update(
                        i as int,
                        send_result(pre.normals[i as int], msg),
                    ));
                    assert forall|a: int, b: int|
                        0 <= a < b < self@.normals.len() implies self@.normals[a].owner
                        != self@.normals[b].owner by {
                        assert(pre.normals[a].owner != pre.normals[b].owner);
                    }
                }
                r
            },
        }
    }

    /// Looks the id up and forwards the message past any capacity bound:
    /// the delivery path for messages that must not be dropped under
    /// backpressure.  Only an unregistered or closed id still refuses.
    pub fn force_send(&mut self, addr: u64, msg: u64) -> (r: Result<(), NotifyError>)
        requires
            old(self)@.wf(),
        ensures
            final(self)@.wf(),
            router_force_send_post(old(self)@, final(self)@, addr, msg, r),
    {
        let ghost pre = self@;
        match self.find(addr) {
            None => Err(NotifyError::Disconnected),
            Some(i) => {
                proof {
                    assert(pre.has(addr));
                    pre.lemma_idx_of(addr);
                    assert(pre.idx_of(addr) == i);
                }
                let mb = &mut self.normals[i];
                let r = mb.force_send(msg, &mut self.scheduler);
                proof {
                    assert(self@.normals =~= pre.normals.update(
                        i as int,
                        force_send_result(pre.normals[i as int], msg),
                    ));
                    assert forall|a: int, b: int|
                        0 <= a < b < self@.normals.len() implies self@.normals[a].owner
                        != self@.normals[b].owner by {
                        assert(pre.normals[a].owner != pre.normals[b].owner);
                    }
                }
                r
            },
        }
    }

    /// Sends to the distinguished control fsm, which is notified through the
    /// always-checked-first control slot.
    pub fn send_control(&mut self, msg: u64) -> (r: Result<(), NotifyError>)
        requires
            old(self)@.wf(),
        ensures
            final(self)@.wf(),
            r == send_outcome(old(self)@.control, msg),
            final(self)@.control == send_result(old(self)@.control, msg),
            final(self)@.scheduler == send_sched_result(
                old(self)@.control,
                old(self)@.scheduler,
                msg,
            ),
            final(self)@.normals == old(self)@.normals,
    {
        self.control.send(msg, &mut self.scheduler)
    }

    /// Deregisters an id: the entry is closed (pending messages dropped, a
    /// parked fsm dropped, later sends refused), but stays in the registry
    /// so stale senders observe `Disconnected` rather than silent reuse.
    /// A poller still holding the fsm drops it at the next release.
    pub fn close(&mut self, addr: u64)
        requires
            old(self)@.wf(),
        ensures
            final(self)@.wf(),
            !old(self)@.has(addr) ==> final(self)@ == old(self)@,
            old(self)@.has(addr) ==> {
                &&& final(self)@.normals == old(self)@.normals.update(
                    old(self)@.idx_of(addr),
                    close_result(old(self)@.mailbox_of(addr)),
                )
                &&& final(self)@.control == old(self)@.control
                &&& final(self)@.scheduler == old(self)@.scheduler
            },
    {
        let ghost pre = self@;
        match self.find(addr) {
            None => {},
            Some(i) => {
                proof {
                    assert(pre.has(addr));
                    pre.lemma_idx_of(addr);
                    assert(pre.idx_of(addr) == i);
                }
                let mb = &mut self.normals[i];
                mb.close();
                proof {
                    assert(self@.normals =~= pre.normals.update(
                        i as int,
                        close_result(pre.normals[i as int]),
                    ));
                    assert forall|a: int, b: int|
                        0 <= a < b < self@.normals.len() implies self@.normals[a].owner
                        != self@.normals[b].owner by {
                        assert(pre.normals[a].owner != pre.normals[b].owner);
                    }
                }
            },
        }
    }

    /// Closes the control mailbox and every registered mailbox.  Used by the
    /// pool shutdown.
    pub fn close_all(&mut self)
        requires
            old(self)@.wf(),
        ensures
            final(self)@.wf(),
            final(self)@.control == close_result(old(self)@.control),
            final(self)@.normals.len() == old(self)@.normals.len(),
            forall|j: int|
                0 <= j < old(self)@.normals.len() ==> final(self)@.normals[j] == close_result(
                    old(self)@.normals[j],
                ),
            final(self)@.scheduler == old(self)@.scheduler,
    {
        let ghost pre = self@;
        self.control.close();
        let n = self.normals.len();
        let mut i: usize = 0;
        while i < n
            invariant
                pre.wf(),
                n == self@.normals.len(),
                self@.normals.len() == pre.normals.len(),
                i <= n,
                self@.control == close_result(pre.control),
                self@.scheduler == pre.scheduler,
                forall|j: int| 0 <= j < i ==> self@.normals[j] == close_result(pre.normals[j]),
                forall|j: int| i <= j < n ==> self@.normals[j] == pre.normals[j],
            decreases n - i,
        {
            let ghost snap = self@;
            let mb = &mut self.normals[i];
            mb.close();
            proof {
                assert(self@.normals =~= snap.normals.update(
                    i as int,
                    close_result(snap.normals[i as int]),
                ));
            }
            i = i + 1;
        }
        proof {
            assert forall|a: int, b: int|
                0 <= a < b < self@.normals.len() implies self@.normals[a].owner
                != self@.normals[b].owner by {
                assert(pre.normals[a].owner != pre.normals[b].owner);
            }
        }
    }

    /// Delivers one message to every registered normal mailbox, in registry
    /// order: administrative fan-out.  Closed entries refuse it, saturated
    /// entries drop it, every other entry queues it and is notified once.
    pub fn broadcast_normals(&mut self, msg: u64)
        requires
            old(self)@.wf(),
        ensures
            final(self)@.wf(),
            final(self)@.control == old(self)@.control,
            final(self)@.normals.len() == old(self)@.normals.len(),
            forall|j: int|
                0 <= j < old(self)@.normals.len() ==> final(self)@.normals[j] == send_result(
                    old(self)@.normals[j],
                    msg,
                ),
            final(self)@.scheduler == bcast_sched(old(self)@.normals, old(self)@.scheduler, msg),
    {
        let ghost pre = self@;
        let n = self.normals.len();
        let mut i: usize = 0;
        while i < n
            invariant
                pre.wf(),
                n == self@.normals.len(),
                self@.normals.len() == pre.normals.len(),
                i <= n,
                self@.control == pre.control,
                self@.scheduler == bcast_sched(pre.normals.take(i as int), pre.scheduler, msg),
                forall|j: int|
                    0 <= j < i ==> self@.normals[j] == send_result(pre.normals[j], msg),
                forall|j: int| i <= j < n ==> self@.normals[j] == pre.normals[j],
                forall|j: int| 0 <= j < n ==> (#[trigger] self@.normals[j]).wf(),
            decreases n - i,
        {
            let ghost snap = self@;
            let mb = &mut self.normals[i];
            let _ = mb.send(msg, &mut self.scheduler);
            proof {
                assert(self@.normals =~= snap.normals.update(
                    i as int,
                    send_result(snap.normals[i as int], msg),
                ));
                lemma_bcast_sched_push(pre.normals.take(i as int), pre.normals[i as int],
                    pre.scheduler, msg);
                assert(pre.normals.take(i as int).push(pre.normals[i as int]) =~= pre.normals.take(
                    i as int + 1,
                ));
            }
            i = i + 1;
        }
        proof {
            assert(pre.normals.take(n as int) =~= pre.normals);
            assert forall|a: int, b: int|
                0 <= a < b < self@.normals.len() implies self@.normals[a].owner
                != self@.normals[b].owner by {
                assert(pre.normals[a].owner != pre.normals[b].owner);
            }
        }
    }

    /// Whether the pool-wide stop signal is raised.
    pub fn sched_is_shutdown(&self) -> (r: bool)
        ensures
            r == self@.scheduler.shutdown,
    {
        self.scheduler.is_shutdown()
    }

    /// Raises the pool-wide stop signal: pollers pull no further batches.
    pub fn sched_shutdown(&mut self)
        ensures
            final(self)@ == (RouterView {
                scheduler: (SchedulerView { shutdown: true, ..old(self)@.scheduler }),
                ..old(self)@
            }),
    {
        self.scheduler.set_shutdown();
    }

    /// How many fsm ids wait in the ready queue of the given pool.
    pub fn ready_len(&self, priority: Priority) -> (n: usize)
        ensures
            n == self@.scheduler.queue(priority).len(),
    {
        self.scheduler.ready_len(priority)
    }

    /// Whether the control slot is raised.
    pub fn control_ready(&self) -> (r: bool)
        ensures
            r == self@.scheduler.control_ready,
    {
        self.scheduler.is_control_ready()
    }

    /// The id of the control fsm.
    pub fn control_owner(&self) -> (r: u64)
        ensures
            r == self@.control.owner,
    {
        self.control.owner()
    }

    /// Pending message count of a registered mailbox.
    pub fn pending(&self, addr: u64) -> (r: Option<usize>)
        requires
            self@.wf(),
        ensures
            match r {
                Option::Some(n) => self@.has(addr) && n == self@.mailbox_of(addr).queue.len(),
                Option::None => !self@.has(addr),
            },
    {
        match self.find(addr) {
            Some(i) => {
                proof {
                    assert(self@.has(addr));
                    self@.lemma_idx_of(addr);
                }
                Some(self.normals[i].len())
            },
            None => None,
        }
    }

    /// Pulls one batch for a poller of the given priority: nothing under
    /// shutdown; otherwise the control flag (normal pool only) and up to
    /// `batch_size` ready ids, oldest first.
    pub fn fetch_batch(&mut self, priority: Priority, batch_size: usize) -> (ret: (
        bool,
        Vec<u64>,
    ))
        requires
            old(self)@.wf(),
        ensures
            final(self)@.wf(),
            fetch_post(priority, batch_size as int, old(self)@, final(self)@, ret.0, ret.1@),
    {
        let ghost pre = self@;
        if self.scheduler.is_shutdown() {
            let empty: Vec<u64> = Vec::new();
            proof {
                assert(empty@ =~= Seq::<u64>::empty());
            }
            return (false, empty);
        }
        let ctrl = match priority {
            Priority::Normal => self.scheduler.take_control(),
            Priority::Low => false,
        };
        let ghost q0 = pre.scheduler.queue(priority);
        let mut ids: Vec<u64> = Vec::new();
        proof {
            assert(ids@ =~= q0.take(0));
            assert(q0.skip(0) =~= q0);
        }
        while ids.len() < batch_size && self.scheduler.ready_len(priority) > 0
            invariant
                ids@.len() <= batch_size,
                ids@.len() <= q0.len(),
                ids@ == q0.take(ids@.len() as int),
                self@.scheduler.queue(priority) == q0.skip(ids@.len() as int),
                self@.scheduler.queue(other(priority)) == pre.scheduler.queue(other(priority)),
                self@.scheduler.control_ready == (pre.scheduler.control_ready && !(priority
                    is Normal)),
                self@.scheduler.shutdown == pre.scheduler.shutdown,
                self@.control == pre.control,
                self@.normals == pre.normals,
            decreases q0.len() - ids@.len(),
        {
            proof {
                assert(q0.skip(ids@.len() as int).len() > 0);
            }
            let id_opt = self.scheduler.pop_ready(priority);
            match id_opt {
                Some(id) => {
                    proof {
                        let n0 = ids@.len() as int;
                        assert(id == q0.skip(n0)[0]);
                        assert(q0.skip(n0)[0] == q0[n0]);
                    }
                    ids.push(id);
                    proof {
                        let n = ids@.len() as int;
                        assert(ids@ =~= q0.take(n));
                        assert(q0.skip(n - 1).skip(1) =~= q0.skip(n));
                    }
                },
                None => {
                    proof {
                        assert(false);
                    }
                },
            }
        }
        (ctrl, ids)
    }

    /// Polls the control fsm once: checks it out, hands the handler up to
    /// `budget` of its messages, and releases it.  An empty cell re-raises
    /// the consumed control signal instead of losing it; a stopped control
    /// fsm is dropped and its mailbox retired.
    pub fn poll_control<H: PollHandler>(&mut self, budget: usize, handler: &mut H) -> (polled:
        bool)
        requires
            old(self)@.wf(),
        ensures
            final(self)@.wf(),
            poll_control_post(old(self)@, final(self)@, budget as int, polled),
    {
        let ghost pre = self@;
        let fsm_opt = self.control.take_fsm();
        match fsm_opt {
            None => {
                self.scheduler.schedule_control();
                proof {
                    assert(self@.control =~= pre.control);
                    assert(self@.scheduler =~= (SchedulerView {
                        control_ready: true,
                        ..pre.scheduler
                    }));
                }
                false
            },
            Some(f) => {
                if f.is_stopped() {
                    self.control.release(f, &mut self.scheduler);
                    proof {
                        assert(self@.control =~= close_result(pre.control));
                    }
                    false
                } else {
                    let msgs = self.control.drain(budget);
                    let mut f2 = f;
                    handler.handle_control(&mut f2, &msgs);
                    let ghost fg = f2;
                    self.control.release(f2, &mut self.scheduler);
                    proof {
                        assert(drained_of(taken(pre.control), budget as int) == drained_of(
                            (MailboxView { fsm: Option::None, ..pre.control }),
                            budget as int,
                        ));
                        assert(fg.spec_id() == pre.control.owner);
                        assert(release_post(
                            drained_of(taken(pre.control), budget as int),
                            self@.control,
                            pre.scheduler,
                            self@.scheduler,
                            fg,
                        ));
                    }
                    true
                }
            },
        }
    }

    /// Polls one normal fsm: checks it out of its mailbox, hands the handler
    /// up to `budget` of its messages, and releases it under the re-enqueue
    /// policy.  An unknown id or an already checked-out fsm is skipped; a
    /// parked fsm that was already stopped is dropped and its mailbox
    /// retired without any handler call.
    pub fn poll_normal<H: PollHandler>(&mut self, id: u64, budget: usize, handler: &mut H) -> (polled:
        bool)
        requires
            old(self)@.wf(),
        ensures
            final(self)@.wf(),
            poll_normal_post(old(self)@, final(self)@, id, budget as int, polled),
    {
        let ghost pre = self@;
        match self.find(id) {
            None => false,
            Some(i) => {
                proof {
                    assert(pre.has(id));
                    pre.lemma_idx_of(id);
                    assert(pre.idx_of(id) == i);
                }
                let mb = &mut self.normals[i];
                let fsm_opt = mb.take_fsm();
                match fsm_opt {
                    None => {
                        proof {
                            assert(self@.normals[i as int] =~= pre.normals[i as int]);
                            assert(self@.normals =~= pre.normals);
                            assert(self@ =~= pre);
                        }
                        false
                    },
                    Some(f) => {
                        if f.is_stopped() {
                            mb.release(f, &mut self.scheduler);
                            proof {
                                assert(self@.normals[i as int] =~= close_result(
                                    pre.normals[i as int],
                                ));
                                assert(self@.normals =~= pre.normals.update(
                                    i as int,
                                    close_result(pre.normals[i as int]),
                                ));
                                assert forall|a: int, b: int|
                                    0 <= a < b < self@.normals.len() implies self@.normals[a].owner
                                    != self@.normals[b].owner by {
                                    assert(pre.normals[a].owner != pre.normals[b].owner);
                                }
                            }
                            false
                        } else {
                            let msgs = mb.drain(budget);
                            let mut f2 = f;
                            handler.handle_normal(&mut f2, &msgs);
                            let ghost fg = f2;
                            mb.release(f2, &mut self.scheduler);
                            proof {
                                assert(self@.normals =~= pre.normals.update(
                                    i as int,
                                    self@.normals[i as int],
                                ));
                                assert(drained_of(taken(pre.normals[i as int]), budget as int)
                                    == drained_of(
                                    (MailboxView { fsm: Option::None, ..pre.normals[i as int] }),
                                    budget as int,
                                ));
                                assert(fg.spec_id() == id);
                                assert(release_post(
                                    drained_of(taken(pre.mailbox_of(id)), budget as int),
                                    self@.normals[pre.idx_of(id)],
                                    pre.scheduler,
                                    self@.scheduler,
                                    fg,
                                ));
                                assert forall|a: int, b: int|
                                    0 <= a < b < self@.normals.len() implies self@.normals[a].owner
                                    != self@.normals[b].owner by {
                                    assert(pre.normals[a].owner != pre.normals[b].owner);
                                }
                            }
                            true
                        }
                    },
                }
            },
        }
    }
}

} // verus!
