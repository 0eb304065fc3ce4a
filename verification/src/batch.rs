//! The poller loop and the pool lifecycle.
//!
//! A poller repeatedly pulls a batch of ready fsm identities from the
//! scheduler — the control fsm, when pending, always comes first — checks
//! each fsm out of its mailbox, hands a budgeted slice of its messages to the
//! caller-supplied handler, and returns the fsm according to the re-enqueue
//! policy: dropped once stopped, re-notified at once while work is pending,
//! parked otherwise.  The batch system owns the pools of pollers and drives
//! orderly startup and shutdown.

use vstd::prelude::*;

use crate::common::Stop;
use crate::config::Config;
use crate::fsm::{Fsm, Priority};
use crate::mailbox::{close_result, drained_of, release_post, BasicMailbox, MailboxView};
use crate::router::{Router, RouterView};
use crate::scheduler::{other, SchedulerView};

verus! {

/// The handler's verdict on its own load, reported at the end of a round.
#[derive(Clone, Copy, Debug, PartialEq, Eq, Structural)]
pub enum BatchAdjust {
    /// The round was comfortable; keep the batch size.
    Steady,
    /// The handler is falling behind; grow the batch to trade latency for
    /// throughput.
    FallingBehind,
    /// The handler is underutilized; shrink the batch.
    Underutilized,
}

/// The per-thread strategy object a poller drives over each batch.  One
/// instance exists per poller and is never shared, so implementations need no
/// synchronization.
pub trait PollHandler {
    /// Called once per round before any fsm of the batch, with the number of
    /// fsms the batch holds.
    fn begin(&mut self, batch_count: usize);

    /// Acts on one budgeted slice of the control fsm's messages.
    fn handle_control(&mut self, control: &mut Fsm, msgs: &Vec<u64>)
        ensures
            final(control).spec_id() == old(control).spec_id(),
    ;

    /// Acts on one budgeted slice of a normal fsm's messages.
    fn handle_normal(&mut self, normal: &mut Fsm, msgs: &Vec<u64>)
        ensures
            final(normal).spec_id() == old(normal).spec_id(),
    ;

    /// Called once per round after the batch: the chance to flush batched
    /// side effects, and the adaptive-batching signal.
    fn end(&mut self) -> BatchAdjust;
}

/// Builds one [`PollHandler`] per poller thread, so per-thread state is never
/// shared.
pub trait HandlerBuilder<H: PollHandler> {
    fn build(&mut self, priority: Priority) -> H;
}

/// One poller: the event loop state of a single worker thread.  It owns its
/// handler; batch size adapts between the configured bounds.
pub struct Poller<H: PollHandler> {
    /// The strategy driven over each batch; owned, never shared.
    pub handler: H,
    priority: Priority,
    batch_size: usize,
    min_batch_size: usize,
    max_batch_size: usize,
    messages_per_tick: usize,
}

impl<H: PollHandler> Poller<H> {
    /// Which ready queue this poller serves.
    pub closed spec fn spec_priority(&self) -> Priority {
        self.priority
    }

    /// The current adaptive batch size.
    pub closed spec fn spec_batch_size(&self) -> usize {
        self.batch_size
    }

    /// Lower adaptive bound.
    pub closed spec fn spec_min_batch_size(&self) -> usize {
        self.min_batch_size
    }

    /// Upper adaptive bound.
    pub closed spec fn spec_max_batch_size(&self) -> usize {
        self.max_batch_size
    }

    /// Per-fsm message budget of one round.
    pub closed spec fn spec_budget(&self) -> usize {
        self.messages_per_tick
    }

    /// The poller's configuration stays inside its bounds.
    pub open spec fn wf(&self) -> bool {
        &&& 1 <= self.spec_min_batch_size() <= self.spec_batch_size()
            <= self.spec_max_batch_size()
        &&& self.spec_max_batch_size() < usize::MAX
        &&& self.spec_budget() >= 1
    }

    /// The batch-size bounds and budget, unchanged by a round.
    pub open spec fn same_shape(pre: &Poller<H>, post: &Poller<H>) -> bool {
        &&& post.spec_priority() == pre.spec_priority()
        &&& post.spec_min_batch_size() == pre.spec_min_batch_size()
        &&& post.spec_max_batch_size() == pre.spec_max_batch_size()
        &&& post.spec_budget() == pre.spec_budget()
    }

    /// A poller serving the given pool, starting at the largest batch size.
    pub fn new(priority: Priority, cfg: &Config, handler: H) -> (p: Poller<H>)
        requires
            cfg.valid(),
        ensures
            p.wf(),
            p.spec_priority() == priority,
            p.spec_batch_size() == cfg.max_batch_size,
            p.spec_min_batch_size() == cfg.min_batch_size,
            p.spec_max_batch_size() == cfg.max_batch_size,
            p.spec_budget() == cfg.messages_per_tick,
    {
        Poller {
            handler,
            priority,
            batch_size: cfg.max_batch_size,
            min_batch_size: cfg.min_batch_size,
            max_batch_size: cfg.max_batch_size,
            messages_per_tick: cfg.messages_per_tick,
        }
    }

    pub fn priority(&self) -> (r: Priority)
        ensures
            r == self.spec_priority(),
    {
        self.priority
    }

    pub fn batch_size(&self) -> (r: usize)
        ensures
            r == self.spec_batch_size(),
    {
        self.batch_size
    }

    /// Applies the handler's load signal with hysteresis: growth is
    /// geometric (doubling, capped at the upper bound), shrinking is linear
    /// (one step, floored at the lower bound), so the batch size converges
    /// under a steady signal instead of oscillating.
    pub fn adjust_batch_size(&mut self, signal: BatchAdjust)
        requires
            old(self).wf(),
        ensures
            final(self).wf(),
            Self::same_shape(old(self), final(self)),
            signal is Steady ==> final(self).spec_batch_size() == old(self).spec_batch_size(),
            signal is FallingBehind ==> final(self).spec_batch_size() == (if old(
                self,
            ).spec_batch_size() > old(self).spec_max_batch_size() / 2 {
                old(self).spec_max_batch_size() as int
            } else {
                2 * old(self).spec_batch_size()
            }),
            signal is Underutilized ==> final(self).spec_batch_size() == (if old(
                self,
            ).spec_batch_size() > old(self).spec_min_batch_size() {
                old(self).spec_batch_size() - 1
            } else {
                old(self).spec_min_batch_size() as int
            }),
    {
        match signal {
            BatchAdjust::Steady => {},
            BatchAdjust::FallingBehind => {
                if self.batch_size > self.max_batch_size / 2 {
                    self.batch_size = self.max_batch_size;
                } else {
                    self.batch_size = 2 * self.batch_size;
                }
            },
            BatchAdjust::Underutilized => {
                if self.batch_size > self.min_batch_size {
                    self.batch_size = self.batch_size - 1;
                }
            },
        }
    }

    /// Pulls the next batch: nothing once shutdown is signalled; otherwise
    /// the control flag (always checked first, normal pool only) and up to
    /// `batch_size` ready identities of this poller's queue, oldest first.
    pub fn fetch_batch(&self, router: &mut Router) -> (ret: (bool, Vec<u64>))
        requires
            self.wf(),
            old(router)@.wf(),
        ensures
            final(router)@.wf(),
            fetch_post(
                self.spec_priority(),
                self.spec_batch_size() as int,
                old(router)@,
                final(router)@,
                ret.0,
                ret.1@,
            ),
    {
        router.fetch_batch(self.priority, self.batch_size)
    }

    /// One full round of the poller's event loop.
    ///
    /// Under shutdown nothing is pulled and nothing changes.  Otherwise the
    /// poller fetches a batch, tells the handler it begins, polls the
    /// control fsm first when it is pending, then every fetched normal fsm
    /// in ready order, lets the handler flush at the end of the round, and
    /// adapts its batch size to the handler's signal.
    ///
    /// The ghost result is the complete trace of the round:
    /// [`RoundTrace::describes`] ties the fetched batch, the control poll
    /// and every normal poll, in order, to the router states they took the
    /// system through, and the event log to the fsms those polls actually
    /// reached.  The control fsm, when polled at all, is the first entry of
    /// the event log and its only control entry — control work is never
    /// starved by normal traffic — and every mailbox keeps its identity and
    /// accepted history while its handled history grows by exactly a prefix
    /// of its pending queue.
    pub fn poll_round(&mut self, router: &mut Router) -> (r: Ghost<RoundTrace>)
        requires
            old(self).wf(),
            old(router)@.wf(),
        ensures
            final(self).wf(),
            Self::same_shape(old(self), final(self)),
            final(router)@.wf(),
            r@.pre == old(router)@,
            r@.post == final(router)@,
            r@.describes(
                old(self).spec_priority(),
                old(self).spec_batch_size() as int,
                old(self).spec_budget() as int,
            ),
            final(router)@.normals.len() == old(router)@.normals.len(),
            forall|j: int|
                0 <= j < old(router)@.normals.len() ==> round_preserved(
                    old(router)@.normals[j],
                    final(router)@.normals[j],
                ),
            round_preserved(old(router)@.control, final(router)@.control),
            final(router)@.scheduler.shutdown == old(router)@.scheduler.shutdown,
            r@.events.len() <= old(self).spec_batch_size() + 1,
            forall|k: int| 1 <= k < r@.events.len() ==> !r@.events[k].0,
            control_polled(old(self).spec_priority(), old(router)@) ==> r@.events.len() > 0
                && r@.events[0] == (true, old(router)@.control.owner),
            !control_polled(old(self).spec_priority(), old(router)@) ==> forall|k: int|
                0 <= k < r@.events.len() ==> !r@.events[k].0,
            old(router)@.scheduler.shutdown ==> final(router)@ == old(router)@ && r@.events
                == Seq::<(bool, u64)>::empty(),
    {
        let ghost pre = router@;
        let ghost p0 = self.spec_priority();
        let ghost b0 = self.spec_budget();
        let ghost bs0 = self.spec_batch_size();
        let ghost mn0 = self.spec_min_batch_size();
        let ghost mx0 = self.spec_max_batch_size();
        if router.sched_is_shutdown() {
            proof {
                assert forall|j: int| 0 <= j < pre.normals.len() implies round_preserved(
                    pre.normals[j],
                    pre.normals[j],
                ) by {
                    lemma_round_preserved_refl(pre.normals[j]);
                }
                lemma_round_preserved_refl(pre.control);
                assert(control_head(false, pre.control.owner) + normal_events(
                    Seq::<u64>::empty(),
                    Seq::<bool>::empty(),
                ) =~= Seq::<(bool, u64)>::empty());
            }
            return Ghost(
                RoundTrace {
                    pre: pre,
                    fetched: pre,
                    post: pre,
                    ctrl: false,
                    ctrl_polled: false,
                    ids: Seq::<u64>::empty(),
                    polled: Seq::<bool>::empty(),
                    views: seq![pre],
                    events: Seq::<(bool, u64)>::empty(),
                },
            );
        }
        let (ctrl, ids) = self.fetch_batch(router);
        let ghost vfetched = router@;
        let count = if ctrl {
            ids.len() + 1
        } else {
            ids.len()
        };
        self.handler.begin(count);
        let mut events: Ghost<Seq<(bool, u64)>> = Ghost(Seq::empty());
        let ghost cpolled = control_polled(p0, pre);
        let ghost mut ctrl_polled: bool = false;
        if ctrl {
            let ghost snap = router@;
            let cid = router.control_owner();
            let polled = router.poll_control(self.messages_per_tick, &mut self.handler);
            proof {
                ctrl_polled = polled;
            }
            if polled {
                events = Ghost(events@.push((true, cid)));
            }
            proof {
                lemma_poll_control_preserves(snap, router@, b0 as int, polled);
            }
        }
        let ghost v0 = router@;
        proof {
            if !ctrl {
                lemma_round_preserved_refl(pre.control);
            }
            assert forall|j: int| 0 <= j < pre.normals.len() implies round_preserved(
                pre.normals[j],
                router@.normals[j],
            ) by {
                lemma_round_preserved_refl(pre.normals[j]);
            }
            assert(events@ =~= control_head(ctrl_polled, pre.control.owner));
        }
        let ghost mut views: Seq<RouterView> = seq![v0];
        let ghost mut polled_seq: Seq<bool> = Seq::<bool>::empty();
        let n = ids.len();
        let mut i: usize = 0;
        while i < n
            invariant
                pre.wf(),
                self.wf(),
                self.spec_priority() == p0,
                self.spec_budget() == b0,
                self.spec_batch_size() == bs0,
                self.spec_min_batch_size() == mn0,
                self.spec_max_batch_size() == mx0,
                n == ids@.len(),
                n <= bs0,
                i <= n,
                events@.len() <= 1 + i,
                router@.wf(),
                router@.normals.len() == pre.normals.len(),
                forall|j: int|
                    0 <= j < pre.normals.len() ==> round_preserved(
                        pre.normals[j],
                        router@.normals[j],
                    ),
                round_preserved(pre.control, router@.control),
                router@.scheduler.shutdown == pre.scheduler.shutdown,
                forall|k: int| 1 <= k < events@.len() ==> !events@[k].0,
                cpolled ==> events@.len() > 0 && events@[0] == (true, pre.control.owner),
                !cpolled ==> forall|k: int| 0 <= k < events@.len() ==> !events@[k].0,
                views.len() == i + 1,
                polled_seq.len() == i as int,
                views[0] == v0,
                views[i as int] == router@,
                forall|k: int|
                    0 <= k < i ==> poll_normal_post(
                        views[k],
                        #[trigger] views[k + 1],
                        ids@[k],
                        b0 as int,
                        polled_seq[k],
                    ),
                events@ == control_head(ctrl_polled, pre.control.owner) + normal_events(
                    ids@.take(i as int),
                    polled_seq,
                ),
            decreases n - i,
        {
            let id = ids[i];
            let ghost snap = router@;
            let ghost old_polled = polled_seq;
            let polled = router.poll_normal(id, self.messages_per_tick, &mut self.handler);
            proof {
                views = views.push(router@);
                polled_seq = polled_seq.push(polled);
                lemma_poll_normal_preserves(snap, router@, id, b0 as int, polled);
                assert forall|j: int| 0 <= j < pre.normals.len() implies round_preserved(
                    pre.normals[j],
                    router@.normals[j],
                ) by {
                    lemma_round_preserved_trans(
                        pre.normals[j],
                        snap.normals[j],
                        router@.normals[j],
                    );
                }
                assert(router@.control == snap.control);
            }
            if polled {
                events = Ghost(events@.push((false, id)));
            }
            proof {
                lemma_normal_events_push(ids@.take(i as int), old_polled, ids@[i as int], polled);
                assert(ids@.take(i as int).push(ids@[i as int]) =~= ids@.take(i as int + 1));
                assert(events@ =~= control_head(ctrl_polled, pre.control.owner) + normal_events(
                    ids@.take(i as int + 1),
                    polled_seq,
                ));
            }
            i = i + 1;
        }
        let ghost trace = RoundTrace {
            pre: pre,
            fetched: vfetched,
            post: router@,
            ctrl: ctrl,
            ctrl_polled: ctrl_polled,
            ids: ids@,
            polled: polled_seq,
            views: views,
            events: events@,
        };
        proof {
            assert(ids@.take(n as int) =~= ids@);
            assert(trace.describes(p0, bs0 as int, b0 as int));
        }
        let sig = self.handler.end();
        self.adjust_batch_size(sig);
        Ghost(trace)
    }
}

/// The complete ghost record of one poll round: the router states the round
/// went through, the fetched batch, and what each poll did.
pub struct RoundTrace {
    /// The router before the round.
    pub pre: RouterView,
    /// The router after the batch was fetched.
    pub fetched: RouterView,
    /// The router after the round.
    pub post: RouterView,
    /// Whether the control slot was consumed.
    pub ctrl: bool,
    /// Whether the control fsm was actually polled.
    pub ctrl_polled: bool,
    /// The fetched normal fsm ids, in ready order.
    pub ids: Seq<u64>,
    /// For each fetched id, whether its fsm was taken and handled.
    pub polled: Seq<bool>,
    /// The router states of the round: `views[0]` after the control phase,
    /// `views[i + 1]` after polling `ids[i]`.
    pub views: Seq<RouterView>,
    /// The polled fsms in handling order, each entry flagged whether it was
    /// the control fsm.
    pub events: Seq<(bool, u64)>,
}

impl RoundTrace {
    /// The round, step by step: the batch was fetched from `pre`, the
    /// control fsm was polled exactly when its slot was pending, every
    /// fetched id's mailbox took its own poll transition in ready order,
    /// the round ends in `post`, and the event log lists exactly the polls
    /// that reached an fsm.  Nothing in the batch can be skipped: each
    /// adjacent pair of views is related by the poll of its id.
    pub open spec fn describes(self, pri: Priority, batch_size: int, budget: int) -> bool {
        &&& fetch_post(pri, batch_size, self.pre, self.fetched, self.ctrl, self.ids)
        &&& self.views.len() == self.ids.len() + 1
        &&& self.polled.len() == self.ids.len()
        &&& if self.ctrl {
            poll_control_post(self.fetched, self.views[0], budget, self.ctrl_polled)
        } else {
            self.views[0] == self.fetched && !self.ctrl_polled
        }
        &&& self.views.last() == self.post
        &&& forall|i: int|
            0 <= i < self.ids.len() ==> poll_normal_post(
                self.views[i],
                #[trigger] self.views[i + 1],
                self.ids[i],
                budget,
                self.polled[i],
            )
        &&& self.events == control_head(self.ctrl_polled, self.pre.control.owner)
            + normal_events(self.ids, self.polled)
    }
}

/// The event-log head of a round: one control entry when the control fsm
/// was polled, nothing otherwise.
pub open spec fn control_head(polled: bool, owner: u64) -> Seq<(bool, u64)> {
    if polled {
        seq![(true, owner)]
    } else {
        Seq::<(bool, u64)>::empty()
    }
}

/// Which pool serves the i-th round of one tick: the first `normal_count`
/// rounds belong to the normal pool, the rest to the low-priority pool.
pub open spec fn tick_priority(i: int, normal_count: int) -> Priority {
    if i < normal_count {
        Priority::Normal
    } else {
        Priority::Low
    }
}

/// The i-th round of one tick is fully described by [`RoundTrace::describes`]
/// for its pool's priority, some batch size within the configured bounds,
/// and the configured per-fsm budget.
pub open spec fn round_described(t: RoundTrace, i: int, normal_count: int, cfg: Config) -> bool {
    exists|bs: int|
        {
            &&& cfg.min_batch_size <= bs <= cfg.max_batch_size
            &&& #[trigger] t.describes(tick_priority(i, normal_count), bs, cfg.messages_per_tick as int)
        }
}

/// The event-log entries of the normal polls: one `(false, id)` entry per
/// fetched id whose fsm was actually reached, in ready order.
pub open spec fn normal_events(ids: Seq<u64>, polled: Seq<bool>) -> Seq<(bool, u64)>
    decreases ids.len(),
{
    if ids.len() == 0 || polled.len() == 0 {
        Seq::<(bool, u64)>::empty()
    } else if polled[0] {
        seq![(false, ids[0])] + normal_events(ids.skip(1), polled.skip(1))
    } else {
        normal_events(ids.skip(1), polled.skip(1))
    }
}

/// Appending one more poll to the normal event log.
pub proof fn lemma_normal_events_push(ids: Seq<u64>, polled: Seq<bool>, id: u64, p: bool)
    requires
        ids.len() == polled.len(),
    ensures
        normal_events(ids.push(id), polled.push(p)) == normal_events(ids, polled) + (if p {
            seq![(false, id)]
        } else {
            Seq::<(bool, u64)>::empty()
        }),
    decreases ids.len(),
{
    let tail: Seq<(bool, u64)> = if p {
        seq![(false, id)]
    } else {
        Seq::<(bool, u64)>::empty()
    };
    if ids.len() == 0 {
        assert(ids.push(id)[0] == id);
        assert(polled.push(p)[0] == p);
        assert(ids.push(id).skip(1) =~= Seq::<u64>::empty());
        assert(polled.push(p).skip(1) =~= Seq::<bool>::empty());
        assert(normal_events(Seq::<u64>::empty(), Seq::<bool>::empty())
            == Seq::<(bool, u64)>::empty());
        if p {
            assert(normal_events(ids.push(id), polled.push(p)) =~= tail);
        } else {
            assert(normal_events(ids.push(id), polled.push(p)) =~= tail);
        }
        assert(normal_events(ids, polled) + tail =~= tail);
    } else {
        assert(ids.push(id)[0] == ids[0]);
        assert(polled.push(p)[0] == polled[0]);
        assert(ids.push(id).skip(1) =~= ids.skip(1).push(id));
        assert(polled.push(p).skip(1) =~= polled.skip(1).push(p));
        lemma_normal_events_push(ids.skip(1), polled.skip(1), id, p);
        if polled[0] {
            assert(normal_events(ids.push(id), polled.push(p)) =~= seq![(false, ids[0])] + (
            normal_events(ids.skip(1), polled.skip(1)) + tail));
            assert(seq![(false, ids[0])] + (normal_events(ids.skip(1), polled.skip(1)) + tail)
                =~= (seq![(false, ids[0])] + normal_events(ids.skip(1), polled.skip(1))) + tail);
        } else {
            assert(normal_events(ids.push(id), polled.push(p)) == normal_events(
                ids.skip(1).push(id),
                polled.skip(1).push(p),
            ));
        }
    }
}

/// The transition relation of [`Poller::fetch_batch`]: under shutdown the
/// poller pulls nothing; otherwise it consumes the control slot (normal pool
/// only) and the oldest ready identities up to its batch size.  Mailboxes
/// are untouched.
pub open spec fn fetch_post(
    pri: Priority,
    batch_size: int,
    pre: RouterView,
    post: RouterView,
    ctrl: bool,
    ids: Seq<u64>,
) -> bool {
    &&& post.control == pre.control
    &&& post.normals == pre.normals
    &&& if pre.scheduler.shutdown {
        &&& !ctrl
        &&& ids == Seq::<u64>::empty()
        &&& post == pre
    } else {
        let q = pre.scheduler.queue(pri);
        let k = if q.len() <= batch_size {
            q.len() as int
        } else {
            batch_size
        };
        &&& ctrl == (pre.scheduler.control_ready && pri is Normal)
        &&& ids == q.take(k)
        &&& post.scheduler.queue(pri) == q.skip(k)
        &&& post.scheduler.queue(other(pri)) == pre.scheduler.queue(other(pri))
        &&& post.scheduler.control_ready == (pre.scheduler.control_ready && !(pri is Normal))
        &&& post.scheduler.shutdown == pre.scheduler.shutdown
    }
}

/// The transition relation of [`Router::poll_normal`]: one fsm is checked
/// out, handed a budgeted slice of its messages, and returned under the
/// re-enqueue policy.
///
/// An unknown id, or a cell already empty (the fsm is checked out
/// elsewhere), changes nothing — the needs-reschedule protocol of the
/// mailbox guarantees the concurrent holder re-notifies.  A parked fsm that
/// was already stopped is dropped and its mailbox retired without any
/// handler call.  Otherwise the handler ran once over the drained slice, and
/// the mailbox took exactly the release transition for the fsm the handler
/// left behind: retired if the handler stopped it, re-notified while work
/// is pending, parked otherwise.
pub open spec fn poll_normal_post(
    pre: RouterView,
    post: RouterView,
    id: u64,
    budget: int,
    polled: bool,
) -> bool {
    if !pre.has(id) || pre.mailbox_of(id).fsm is None {
        &&& !polled
        &&& post == pre
    } else if pre.mailbox_of(id).fsm matches Some(f) && f.spec_stopped() {
        &&& !polled
        &&& post.normals == pre.normals.update(
            pre.idx_of(id),
            close_result(pre.mailbox_of(id)),
        )
        &&& post.control == pre.control
        &&& post.scheduler == pre.scheduler
    } else {
        &&& polled
        &&& post.control == pre.control
        &&& post.normals.len() == pre.normals.len()
        &&& forall|j: int|
            0 <= j < pre.normals.len() && j != pre.idx_of(id) ==> post.normals[j]
                == pre.normals[j]
        &&& exists|f2: Fsm|
            f2.spec_id() == id && release_post(
                drained_of(taken(pre.mailbox_of(id)), budget),
                post.normals[pre.idx_of(id)],
                pre.scheduler,
                post.scheduler,
                f2,
            )
    }
}

/// The transition relation of [`Router::poll_control`], the control-fsm
/// counterpart of [`poll_normal_post`].  When the control cell is empty the
/// consumed control signal is re-raised instead of lost.
pub open spec fn poll_control_post(
    pre: RouterView,
    post: RouterView,
    budget: int,
    polled: bool,
) -> bool {
    &&& post.normals == pre.normals
    &&& if pre.control.fsm is None {
        &&& !polled
        &&& post.control == pre.control
        &&& post.scheduler == (SchedulerView { control_ready: true, ..pre.scheduler })
    } else if pre.control.fsm matches Some(f) && f.spec_stopped() {
        &&& !polled
        &&& post.control == close_result(pre.control)
        &&& post.scheduler == pre.scheduler
    } else {
        &&& polled
        &&& exists|f2: Fsm|
            f2.spec_id() == pre.control.owner && release_post(
                drained_of(taken(pre.control), budget),
                post.control,
                pre.scheduler,
                post.scheduler,
                f2,
            )
    }
}

/// A mailbox right after its fsm was checked out.
pub open spec fn taken(m: MailboxView) -> MailboxView {
    MailboxView { fsm: Option::None, ..m }
}

/// Whether a round of a poller with this priority polls the control fsm:
/// the pool is live, the poller serves the normal pool, the control slot is
/// raised, and the control fsm is parked and not stopped.
pub open spec fn control_polled(pri: Priority, pre: RouterView) -> bool {
    &&& !pre.scheduler.shutdown
    &&& pri is Normal
    &&& pre.scheduler.control_ready
    &&& pre.control.fsm matches Some(f) && !f.spec_stopped()
}

/// What one poll round leaves intact of a mailbox: its identity, bound and
/// accepted history never change, a closed mailbox never reopens, and the
/// handled history grows by exactly a prefix of the pending queue — the
/// first-in-first-out guarantee, round by round.
pub open spec fn round_preserved(pre: MailboxView, post: MailboxView) -> bool {
    &&& post.owner == pre.owner
    &&& post.priority == pre.priority
    &&& post.ctrl == pre.ctrl
    &&& post.cap == pre.cap
    &&& post.sent == pre.sent
    &&& (pre.closed ==> post.closed)
    &&& (post.closed ==> post.queue.len() == 0)
    &&& exists|k: int|
        {
            &&& 0 <= k <= pre.queue.len()
            &&& post.handled == pre.handled + #[trigger] pre.queue.take(k)
            &&& (!post.closed ==> post.queue == pre.queue.skip(k))
        }
}

/// A well-formed mailbox is round-preserved by doing nothing.
pub proof fn lemma_round_preserved_refl(m: MailboxView)
    requires
        m.closed ==> m.queue.len() == 0,
    ensures
        round_preserved(m, m),
{
    assert(m.queue.take(0) =~= Seq::<u64>::empty());
    assert(m.handled + m.queue.take(0) =~= m.handled);
    assert(m.queue.skip(0) =~= m.queue);
}

/// Round preservation composes across successive rounds.
pub proof fn lemma_round_preserved_trans(a: MailboxView, b: MailboxView, c: MailboxView)
    requires
        round_preserved(a, b),
        round_preserved(b, c),
    ensures
        round_preserved(a, c),
{
    let k1 = choose|k: int|
        {
            &&& 0 <= k <= a.queue.len()
            &&& b.handled == a.handled + #[trigger] a.queue.take(k)
            &&& (!b.closed ==> b.queue == a.queue.skip(k))
        };
    let k2 = choose|k: int|
        {
            &&& 0 <= k <= b.queue.len()
            &&& c.handled == b.handled + #[trigger] b.queue.take(k)
            &&& (!c.closed ==> c.queue == b.queue.skip(k))
        };
    if b.closed {
        assert(b.queue.take(k2) =~= Seq::<u64>::empty());
        assert(c.handled =~= a.handled + a.queue.take(k1));
    } else {
        assert(b.queue == a.queue.skip(k1));
        assert(a.queue.take(k1) + a.queue.skip(k1).take(k2) =~= a.queue.take(k1 + k2));
        assert(c.handled =~= a.handled + a.queue.take(k1 + k2));
        if !c.closed {
            assert(a.queue.skip(k1).skip(k2) =~= a.queue.skip(k1 + k2));
        }
    }
}

/// Everything [`poll_normal_post`] allows is round-preserving, leaves the
/// control mailbox alone and keeps the stop signal.
pub proof fn lemma_poll_normal_preserves(
    pre: RouterView,
    post: RouterView,
    id: u64,
    budget: int,
    polled: bool,
)
    requires
        pre.wf(),
        budget >= 0,
        poll_normal_post(pre, post, id, budget, polled),
    ensures
        post.normals.len() == pre.normals.len(),
        forall|j: int|
            0 <= j < pre.normals.len() ==> round_preserved(
                pre.normals[j],
                post.normals[j],
            ),
        post.control == pre.control,
        post.scheduler.shutdown == pre.scheduler.shutdown,
{
    if !pre.has(id) || pre.mailbox_of(id).fsm is None {
        assert forall|j: int| 0 <= j < pre.normals.len() implies round_preserved(
            pre.normals[j],
            post.normals[j],
        ) by {
            lemma_round_preserved_refl(pre.normals[j]);
        }
    } else {
        pre.lemma_idx_of(id);
        let i = pre.idx_of(id);
        let m = pre.mailbox_of(id);
        if m.fsm matches Some(f) && f.spec_stopped() {
            assert forall|j: int| 0 <= j < pre.normals.len() implies round_preserved(
                pre.normals[j],
                post.normals[j],
            ) by {
                if j == i {
                    assert(m.queue.take(0) =~= Seq::<u64>::empty());
                    assert(m.handled + m.queue.take(0) =~= m.handled);
                } else {
                    lemma_round_preserved_refl(pre.normals[j]);
                }
            }
        } else {
            let f2 = choose|f2: Fsm|
                f2.spec_id() == id && release_post(
                    drained_of(taken(m), budget),
                    post.normals[i],
                    pre.scheduler,
                    post.scheduler,
                    f2,
                );
            let kd = if m.queue.len() <= budget {
                m.queue.len() as int
            } else {
                budget
            };
            assert forall|j: int| 0 <= j < pre.normals.len() implies round_preserved(
                pre.normals[j],
                post.normals[j],
            ) by {
                if j == i {
                    assert(0 <= kd <= m.queue.len());
                    assert(post.normals[i].handled == m.handled + m.queue.take(kd));
                } else {
                    lemma_round_preserved_refl(pre.normals[j]);
                }
            }
        }
    }
}

/// The shared lifecycle state of one pool of pollers: how many are alive,
/// and whether the pool-wide stop was requested.  A single writer (the
/// batch system) performs the resize and shutdown transitions.
pub struct PoolState {
    alive: usize,
    shutdown: bool,
}

impl PoolState {
    /// Number of live pollers.
    pub closed spec fn spec_alive(&self) -> usize {
        self.alive
    }

    /// Whether the pool was stopped.
    pub closed spec fn spec_shutdown(&self) -> bool {
        self.shutdown
    }

    pub fn alive(&self) -> (r: usize)
        ensures
            r == self.spec_alive(),
    {
        self.alive
    }

    pub fn is_shutdown(&self) -> (r: bool)
        ensures
            r == self.spec_shutdown(),
    {
        self.shutdown
    }
}

/// The pool of pollers — a normal pool and an optional low-priority pool —
/// and its orderly startup and shutdown.
pub struct BatchSystem<H: PollHandler> {
    name: String,
    cfg: Config,
    pool: Vec<Poller<H>>,
    low_pool: Vec<Poller<H>>,
    state: PoolState,
}

impl<H: PollHandler> BatchSystem<H> {
    /// The configuration the system was created with.
    pub closed spec fn spec_cfg(&self) -> Config {
        self.cfg
    }

    /// Number of pollers in the normal pool.
    pub closed spec fn spec_pool_len(&self) -> usize {
        self.pool.len()
    }

    /// Number of pollers in the low-priority pool.
    pub closed spec fn spec_low_pool_len(&self) -> usize {
        self.low_pool.len()
    }

    /// Number of live pollers.
    pub closed spec fn spec_alive(&self) -> usize {
        self.state.alive
    }

    /// Whether the pool was stopped.
    pub closed spec fn spec_shutdown(&self) -> bool {
        self.state.shutdown
    }

    /// A poller as one pool slot must hold it: well formed, serving the
    /// given priority, with the configured budget and batch-size bounds.
    pub open spec fn poller_shaped(p: Poller<H>, cfg: Config, pri: Priority) -> bool {
        &&& p.wf()
        &&& p.spec_priority() == pri
        &&& p.spec_budget() == cfg.messages_per_tick
        &&& p.spec_min_batch_size() == cfg.min_batch_size
        &&& p.spec_max_batch_size() == cfg.max_batch_size
    }

    /// The system's internal consistency: a valid configuration, the alive
    /// count equal to the pollers actually held, and every poller shaped by
    /// the configuration and serving its own pool's priority.
    pub closed spec fn wf(&self) -> bool {
        &&& self.cfg.valid()
        &&& self.state.alive == self.pool.len() + self.low_pool.len()
        &&& forall|i: int|
            0 <= i < self.pool.len() ==> Self::poller_shaped(
                #[trigger] self.pool[i],
                self.cfg,
                Priority::Normal,
            )
        &&& forall|i: int|
            0 <= i < self.low_pool.len() ==> Self::poller_shaped(
                #[trigger] self.low_pool[i],
                self.cfg,
                Priority::Low,
            )
    }

    pub fn name(&self) -> &String {
        &self.name
    }

    pub fn alive(&self) -> (r: usize)
        ensures
            r == self.spec_alive(),
    {
        self.state.alive
    }

    pub fn is_shutdown(&self) -> (r: bool)
        ensures
            r == self.spec_shutdown(),
    {
        self.state.shutdown
    }

    pub fn poller_count(&self) -> (r: usize)
        ensures
            r == self.spec_pool_len(),
    {
        self.pool.len()
    }

    pub fn low_poller_count(&self) -> (r: usize)
        ensures
            r == self.spec_low_pool_len(),
    {
        self.low_pool.len()
    }

    /// A poller of the normal pool, for inspection.
    pub fn poller(&self, i: usize) -> (r: &Poller<H>)
        requires
            i < self.spec_pool_len(),
    {
        &self.pool[i]
    }

    /// A poller of the low-priority pool, for inspection.
    pub fn low_poller(&self, i: usize) -> (r: &Poller<H>)
        requires
            i < self.spec_low_pool_len(),
    {
        &self.low_pool[i]
    }

    /// Builds one poller per configured thread, each with its own handler
    /// from the builder, so per-thread state is never shared.
    pub fn spawn<B: HandlerBuilder<H>>(&mut self, name: String, builder: &mut B)
        requires
            old(self).wf(),
            old(self).spec_alive() == 0,
            old(self).spec_pool_len() == 0,
            old(self).spec_low_pool_len() == 0,
        ensures
            final(self).wf(),
            final(self).spec_cfg() == old(self).spec_cfg(),
            final(self).spec_pool_len() == old(self).spec_cfg().pool_size,
            final(self).spec_low_pool_len() == old(self).spec_cfg().low_priority_pool_size,
            final(self).spec_alive() == old(self).spec_cfg().pool_size + old(
                self,
            ).spec_cfg().low_priority_pool_size,
            final(self).spec_shutdown() == old(self).spec_shutdown(),
    {
        self.name = name;
        let cfg = self.cfg;
        let mut i: usize = 0;
        while i < cfg.pool_size
            invariant
                cfg.valid(),
                cfg == self.cfg,
                i <= cfg.pool_size,
                self.pool.len() == i,
                self.low_pool.len() == 0,
                self.state.alive == 0,
                self.state.shutdown == old(self).spec_shutdown(),
                forall|j: int|
                    0 <= j < self.pool.len() ==> Self::poller_shaped(
                        #[trigger] self.pool[j],
                        cfg,
                        Priority::Normal,
                    ),
            decreases cfg.pool_size - i,
        {
            let h = builder.build(Priority::Normal);
            let p = Poller::new(Priority::Normal, &cfg, h);
            self.pool.push(p);
            i = i + 1;
        }
        let mut j: usize = 0;
        while j < cfg.low_priority_pool_size
            invariant
                cfg.valid(),
                cfg == self.cfg,
                j <= cfg.low_priority_pool_size,
                self.pool.len() == cfg.pool_size,
                self.low_pool.len() == j,
                self.state.alive == 0,
                self.state.shutdown == old(self).spec_shutdown(),
                forall|k: int|
                    0 <= k < self.pool.len() ==> Self::poller_shaped(
                        #[trigger] self.pool[k],
                        cfg,
                        Priority::Normal,
                    ),
                forall|k: int|
                    0 <= k < self.low_pool.len() ==> Self::poller_shaped(
                        #[trigger] self.low_pool[k],
                        cfg,
                        Priority::Low,
                    ),
            decreases cfg.low_priority_pool_size - j,
        {
            let h = builder.build(Priority::Low);
            let p = Poller::new(Priority::Low, &cfg, h);
            self.low_pool.push(p);
            j = j + 1;
        }
        self.state.alive = cfg.pool_size + cfg.low_priority_pool_size;
    }

    /// Drives one poll round of every poller of both pools, normal pool
    /// first: the sequential stand-in for one scheduling step of all worker
    /// threads.
    ///
    /// The ghost result holds one [`RoundTrace`] per round, in driving
    /// order.  Consecutive traces chain through the router states, every
    /// round satisfies [`RoundTrace::describes`] for its pool's priority,
    /// its poller's batch size within the configured bounds, and the
    /// configured per-fsm budget — so each round's fetched fsms took their
    /// drain-and-release transitions — and when control work is pending the
    /// very first round polls the control fsm before anything else.
    pub fn tick(&mut self, router: &mut Router) -> (r: Ghost<Seq<RoundTrace>>)
        requires
            old(self).wf(),
            old(router)@.wf(),
        ensures
            final(self).wf(),
            final(self).spec_cfg() == old(self).spec_cfg(),
            final(self).spec_alive() == old(self).spec_alive(),
            final(self).spec_shutdown() == old(self).spec_shutdown(),
            final(self).spec_pool_len() == old(self).spec_pool_len(),
            final(self).spec_low_pool_len() == old(self).spec_low_pool_len(),
            final(router)@.wf(),
            final(router)@.normals.len() == old(router)@.normals.len(),
            forall|j: int|
                0 <= j < old(router)@.normals.len() ==> round_preserved(
                    old(router)@.normals[j],
                    final(router)@.normals[j],
                ),
            round_preserved(old(router)@.control, final(router)@.control),
            final(router)@.scheduler.shutdown == old(router)@.scheduler.shutdown,
            r@.len() == old(self).spec_pool_len() + old(self).spec_low_pool_len(),
            r@.len() == 0 ==> final(router)@ == old(router)@,
            r@.len() > 0 ==> r@[0].pre == old(router)@
                && r@[r@.len() - 1].post == final(router)@,
            forall|i: int| 0 <= i < r@.len() - 1 ==> (#[trigger] r@[i + 1]).pre == r@[i].post,
            forall|i: int|
                0 <= i < r@.len() ==> round_described(
                    #[trigger] r@[i],
                    i,
                    old(self).spec_pool_len() as int,
                    old(self).spec_cfg(),
                ),
            old(self).spec_pool_len() > 0 && control_polled(Priority::Normal, old(router)@)
                ==> r@[0].events.len() > 0 && r@[0].events[0] == (true, old(
                router,
            )@.control.owner),
    {
        let ghost pre = router@;
        let ghost mut traces: Seq<RoundTrace> = Seq::<RoundTrace>::empty();
        proof {
            assert forall|j: int| 0 <= j < pre.normals.len() implies round_preserved(
                pre.normals[j],
                router@.normals[j],
            ) by {
                lemma_round_preserved_refl(pre.normals[j]);
            }
            lemma_round_preserved_refl(pre.control);
        }
        let n = self.pool.len();
        let mut i: usize = 0;
        while i < n
            invariant
                n == self.pool.len(),
                i <= n,
                self.cfg == old(self).spec_cfg(),
                self.cfg.valid(),
                self.state.alive == old(self).spec_alive(),
                self.state.shutdown == old(self).spec_shutdown(),
                self.low_pool@ == old(self).low_pool@,
                self.state.alive == self.pool.len() + self.low_pool.len(),
                forall|k: int|
                    0 <= k < self.pool.len() ==> Self::poller_shaped(
                        #[trigger] self.pool[k],
                        self.cfg,
                        Priority::Normal,
                    ),
                forall|k: int|
                    0 <= k < self.low_pool.len() ==> Self::poller_shaped(
                        #[trigger] self.low_pool[k],
                        self.cfg,
                        Priority::Low,
                    ),
                router@.wf(),
                router@.normals.len() == pre.normals.len(),
                pre.wf(),
                forall|j: int|
                    0 <= j < pre.normals.len() ==> round_preserved(
                        pre.normals[j],
                        router@.normals[j],
                    ),
                round_preserved(pre.control, router@.control),
                router@.scheduler.shutdown == pre.scheduler.shutdown,
                traces.len() == i as int,
                traces.len() == 0 ==> router@ == pre,
                traces.len() > 0 ==> traces[0].pre == pre && traces[traces.len() - 1].post
                    == router@,
                forall|k: int|
                    0 <= k < traces.len() - 1 ==> (#[trigger] traces[k + 1]).pre
                        == traces[k].post,
                forall|k: int|
                    0 <= k < traces.len() ==> round_described(
                        #[trigger] traces[k],
                        k,
                        n as int,
                        self.cfg,
                    ),
                n > 0 && control_polled(Priority::Normal, pre) && traces.len() > 0
                    ==> traces[0].events.len() > 0 && traces[0].events[0] == (
                true,
                pre.control.owner,
                ),
            decreases n - i,
        {
            let ghost snap = router@;
            let ghost pp = self.pool@[i as int];
            proof {
                assert(Self::poller_shaped(self.pool[i as int], self.cfg, Priority::Normal));
            }
            let p = &mut self.pool[i];
            let t = p.poll_round(router);
            proof {
                traces = traces.push(t@);
                assert(traces[i as int] == t@);
                assert(t@.describes(
                    tick_priority(i as int, n as int),
                    pp.spec_batch_size() as int,
                    self.cfg.messages_per_tick as int,
                ));
                assert(round_described(t@, i as int, n as int, self.cfg));
                assert forall|j: int| 0 <= j < pre.normals.len() implies round_preserved(
                    pre.normals[j],
                    router@.normals[j],
                ) by {
                    lemma_round_preserved_trans(
                        pre.normals[j],
                        snap.normals[j],
                        router@.normals[j],
                    );
                }
                lemma_round_preserved_trans(pre.control, snap.control, router@.control);
            }
            i = i + 1;
        }
        let m = self.low_pool.len();
        let mut j: usize = 0;
        while j < m
            invariant
                m == self.low_pool.len(),
                j <= m,
                self.cfg == old(self).spec_cfg(),
                self.cfg.valid(),
                self.state.alive == old(self).spec_alive(),
                self.state.shutdown == old(self).spec_shutdown(),
                self.pool.len() == n,
                n == old(self).spec_pool_len(),
                self.state.alive == self.pool.len() + self.low_pool.len(),
                forall|k: int|
                    0 <= k < self.pool.len() ==> Self::poller_shaped(
                        #[trigger] self.pool[k],
                        self.cfg,
                        Priority::Normal,
                    ),
                forall|k: int|
                    0 <= k < self.low_pool.len() ==> Self::poller_shaped(
                        #[trigger] self.low_pool[k],
                        self.cfg,
                        Priority::Low,
                    ),
                router@.wf(),
                router@.normals.len() == pre.normals.len(),
                pre.wf(),
                forall|jj: int|
                    0 <= jj < pre.normals.len() ==> round_preserved(
                        pre.normals[jj],
                        router@.normals[jj],
                    ),
                round_preserved(pre.control, router@.control),
                router@.scheduler.shutdown == pre.scheduler.shutdown,
                traces.len() == n as int + j as int,
                traces.len() == 0 ==> router@ == pre,
                traces.len() > 0 ==> traces[0].pre == pre && traces[traces.len() - 1].post
                    == router@,
                forall|k: int|
                    0 <= k < traces.len() - 1 ==> (#[trigger] traces[k + 1]).pre
                        == traces[k].post,
                forall|k: int|
                    0 <= k < traces.len() ==> round_described(
                        #[trigger] traces[k],
                        k,
                        n as int,
                        self.cfg,
                    ),
                n > 0 && control_polled(Priority::Normal, pre) && traces.len() > 0
                    ==> traces[0].events.len() > 0 && traces[0].events[0] == (
                true,
                pre.control.owner,
                ),
            decreases m - j,
        {
            let ghost snap = router@;
            let ghost pp = self.low_pool@[j as int];
            proof {
                assert(Self::poller_shaped(self.low_pool[j as int], self.cfg, Priority::Low));
            }
            let p = &mut self.low_pool[j];
            let t = p.poll_round(router);
            proof {
                traces = traces.push(t@);
                assert(traces[n as int + j as int] == t@);
                assert(t@.describes(
                    tick_priority(n as int + j as int, n as int),
                    pp.spec_batch_size() as int,
                    self.cfg.messages_per_tick as int,
                ));
                assert(round_described(t@, n as int + j as int, n as int, self.cfg));
                assert forall|jj: int| 0 <= jj < pre.normals.len() implies round_preserved(
                    pre.normals[jj],
                    router@.normals[jj],
                ) by {
                    lemma_round_preserved_trans(
                        pre.normals[jj],
                        snap.normals[jj],
                        router@.normals[jj],
                    );
                }
                lemma_round_preserved_trans(pre.control, snap.control, router@.control);
            }
            j = j + 1;
        }
        Ghost(traces)
    }

    /// Graceful shutdown: raises the stop signal so no poller pulls another
    /// batch, closes the control mailbox and every registered mailbox, and
    /// joins the pollers.  When it returns, no poller is alive.  Polling is
    /// atomic in this model, so no fsm is ever abandoned mid-batch.
    pub fn shutdown(&mut self, router: &mut Router)
        requires
            old(self).wf(),
            old(router)@.wf(),
        ensures
            final(self).wf(),
            final(self).spec_shutdown(),
            final(self).spec_alive() == 0,
            final(self).spec_pool_len() == 0,
            final(self).spec_low_pool_len() == 0,
            final(router)@.wf(),
            final(router)@.scheduler == (SchedulerView {
                shutdown: true,
                ..old(router)@.scheduler
            }),
            final(router)@.control == close_result(old(router)@.control),
            final(router)@.normals.len() == old(router)@.normals.len(),
            forall|j: int|
                0 <= j < old(router)@.normals.len() ==> final(router)@.normals[j]
                    == close_result(old(router)@.normals[j]),
    {
        router.sched_shutdown();
        router.close_all();
        self.pool = Vec::new();
        self.low_pool = Vec::new();
        self.state.alive = 0;
        self.state.shutdown = true;
    }
}

impl<H: PollHandler> Stop for BatchSystem<H> {
    /// Stopping a batch system drops its pollers and marks the pool stopped.
    /// Unlike [`BatchSystem::shutdown`] it reaches no router, so mailboxes
    /// stay as they are.
    fn stop(&mut self) {
        self.pool = Vec::new();
        self.low_pool = Vec::new();
        self.state.alive = 0;
        self.state.shutdown = true;
    }
}

/// Builds a router and an empty batch system around the given control fsm;
/// `spawn` then fills the pools.
pub fn create_system<H: PollHandler>(cfg: &Config, control: Fsm) -> (ret: (
    Router,
    BatchSystem<H>,
))
    requires
        cfg.valid(),
    ensures
        ret.0@.wf(),
        ret.0@.control.owner == control.spec_id(),
        ret.0@.control.fsm == Some(control),
        ret.0@.control.queue == Seq::<u64>::empty(),
        !ret.0@.control.closed,
        ret.0@.normals == Seq::<MailboxView>::empty(),
        !ret.0@.scheduler.shutdown,
        !ret.0@.scheduler.control_ready,
        ret.0@.scheduler.normal == Seq::<u64>::empty(),
        ret.0@.scheduler.low == Seq::<u64>::empty(),
        ret.1.wf(),
        ret.1.spec_cfg() == *cfg,
        ret.1.spec_alive() == 0,
        !ret.1.spec_shutdown(),
        ret.1.spec_pool_len() == 0,
        ret.1.spec_low_pool_len() == 0,
{
    let control_mailbox = BasicMailbox::new_control(control);
    let router = Router::new(control_mailbox);
    let system = BatchSystem {
        name: String::new(),
        cfg: *cfg,
        pool: Vec::new(),
        low_pool: Vec::new(),
        state: PoolState { alive: 0, shutdown: false },
    };
    (router, system)
}

/// A handler that records every message it is handed, in order, as pairs of
/// fsm id and message: the reference handler for tests and examples.
pub struct RecordingHandler {
    /// Every handled message, as (fsm id, message), in handling order.
    pub log: Vec<(u64, u64)>,
    /// How often a round began.
    pub rounds: u64,
    /// What `end` reports to the poller.
    pub signal: BatchAdjust,
}

impl RecordingHandler {
    pub fn new() -> (h: RecordingHandler)
        ensures
            h.log@ == Seq::<(u64, u64)>::empty(),
            h.rounds == 0,
            h.signal == BatchAdjust::Steady,
    {
        RecordingHandler { log: Vec::new(), rounds: 0, signal: BatchAdjust::Steady }
    }
}

impl PollHandler for RecordingHandler {
    fn begin(&mut self, _batch_count: usize) {
        if self.rounds < u64::MAX {
            self.rounds = self.rounds + 1;
        }
    }

    fn handle_control(&mut self, control: &mut Fsm, msgs: &Vec<u64>) {
        let id = control.id();
        let mut i: usize = 0;
        while i < msgs.len()
            invariant
                i <= msgs@.len(),
            decreases msgs@.len() - i,
        {
            self.log.push((id, msgs[i]));
            i = i + 1;
        }
    }

    fn handle_normal(&mut self, normal: &mut Fsm, msgs: &Vec<u64>) {
        let id = normal.id();
        let mut i: usize = 0;
        while i < msgs.len()
            invariant
                i <= msgs@.len(),
            decreases msgs@.len() - i,
        {
            self.log.push((id, msgs[i]));
            i = i + 1;
        }
    }

    fn end(&mut self) -> BatchAdjust {
        self.signal
    }
}

/// Hands every poller a fresh [`RecordingHandler`].
pub struct RecordingHandlerBuilder;

impl HandlerBuilder<RecordingHandler> for RecordingHandlerBuilder {
    fn build(&mut self, _priority: Priority) -> RecordingHandler {
        RecordingHandler::new()
    }
}

/// The control counterpart of [`lemma_poll_normal_preserves`].
pub proof fn lemma_poll_control_preserves(
    pre: RouterView,
    post: RouterView,
    budget: int,
    polled: bool,
)
    requires
        pre.wf(),
        budget >= 0,
        poll_control_post(pre, post, budget, polled),
    ensures
        post.normals == pre.normals,
        round_preserved(pre.control, post.control),
        post.scheduler.shutdown == pre.scheduler.shutdown,
{
    let m = pre.control;
    if m.fsm is None {
        lemma_round_preserved_refl(m);
    } else if m.fsm matches Some(f) && f.spec_stopped() {
        assert(m.queue.take(0) =~= Seq::<u64>::empty());
        assert(m.handled + m.queue.take(0) =~= m.handled);
    } else {
        let f2 = choose|f2: Fsm|
            f2.spec_id() == m.owner && release_post(
                drained_of(taken(m), budget),
                post.control,
                pre.scheduler,
                post.scheduler,
                f2,
            );
        let kd = if m.queue.len() <= budget {
            m.queue.len() as int
        } else {
            budget
        };
        assert(0 <= kd <= m.queue.len());
        assert(post.control.handled == m.handled + m.queue.take(kd));
    }
}

} // verus!
