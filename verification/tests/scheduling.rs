use batch_system::batch::{
    create_system, BatchAdjust, HandlerBuilder, Poller, RecordingHandler,
    RecordingHandlerBuilder,
};
use batch_system::config::Config;
use batch_system::fsm::{Fsm, Priority};
use batch_system::mailbox::{BasicMailbox, NotifyError};
use batch_system::router::{RegisterError, Router};
use batch_system::scheduler::Scheduler;

fn small_config(max_batch: usize, budget: usize) -> Config {
    Config::new(1, 0, 1, max_batch, budget)
}

fn fresh_router() -> Router {
    let control = Fsm::new(0, Priority::Normal);
    Router::new(BasicMailbox::new_control(control))
}

fn register_normal(router: &mut Router, id: u64) {
    let fsm = Fsm::new(id, Priority::Normal);
    let mb = BasicMailbox::new(fsm, None);
    assert!(router.register(id, mb).is_ok());
}

#[test]
fn exclusive_checkout() {
    let fsm = Fsm::new(3, Priority::Normal);
    let mut mb = BasicMailbox::new(fsm, None);
    let first = mb.take_fsm();
    assert!(first.is_some());
    let second = mb.take_fsm();
    assert!(second.is_none());
    let mut sched = Scheduler::new();
    mb.release(first.unwrap(), &mut sched);
    let third = mb.take_fsm();
    assert!(third.is_some());
}

#[test]
fn no_lost_wakeup() {
    let fsm = Fsm::new(4, Priority::Normal);
    let mut mb = BasicMailbox::new(fsm, None);
    let mut sched = Scheduler::new();
    assert_eq!(mb.send(10, &mut sched), Ok(()));
    assert_eq!(sched.ready_len(Priority::Normal), 1);
    assert_eq!(sched.pop_ready(Priority::Normal), Some(4));
    // a poller picks the fsm up and drains what was pending
    let held = mb.take_fsm().unwrap();
    let drained = mb.drain(16);
    assert_eq!(drained, vec![10]);
    // a message races with the active poll: accepted, no queue position yet
    assert_eq!(mb.send(11, &mut sched), Ok(()));
    assert_eq!(sched.ready_len(Priority::Normal), 0);
    // the release re-notifies, so the message cannot be stranded
    mb.release(held, &mut sched);
    assert_eq!(sched.ready_len(Priority::Normal), 1);
    assert_eq!(sched.pop_ready(Priority::Normal), Some(4));
    let held = mb.take_fsm().unwrap();
    assert_eq!(mb.drain(16), vec![11]);
    mb.release(held, &mut sched);
    // queue drained and no pending signal: the fsm parks
    assert_eq!(sched.ready_len(Priority::Normal), 0);
}

#[test]
fn notifications_coalesce() {
    let fsm = Fsm::new(6, Priority::Normal);
    let mut mb = BasicMailbox::new(fsm, None);
    let mut sched = Scheduler::new();
    assert_eq!(mb.send(1, &mut sched), Ok(()));
    assert_eq!(mb.send(2, &mut sched), Ok(()));
    assert_eq!(mb.send(3, &mut sched), Ok(()));
    // three sends before a poll produce exactly one scheduling event
    assert_eq!(sched.ready_len(Priority::Normal), 1);
}

#[test]
fn fifo_per_mailbox() {
    let cfg = small_config(4, 3);
    let control = Fsm::new(0, Priority::Normal);
    let (mut router, _system) = create_system::<RecordingHandler>(&cfg, control);
    register_normal(&mut router, 21);
    let sent: Vec<u64> = (100..110).collect();
    for m in &sent {
        assert_eq!(router.send(21, *m), Ok(()));
    }
    let mut poller = Poller::new(Priority::Normal, &cfg, RecordingHandler::new());
    for _ in 0..6 {
        poller.poll_round(&mut router);
    }
    let handled: Vec<u64> = poller.handler.log.iter().map(|e| e.1).collect();
    assert_eq!(handled, sent);
}

#[test]
fn per_fsm_order_survives_interleaving() {
    let cfg = small_config(2, 1);
    let control = Fsm::new(0, Priority::Normal);
    let (mut router, _system) = create_system::<RecordingHandler>(&cfg, control);
    register_normal(&mut router, 1);
    register_normal(&mut router, 2);
    let mut poller = Poller::new(Priority::Normal, &cfg, RecordingHandler::new());
    // interleave sends to two fsms with polls; per-fsm order must hold
    assert_eq!(router.send(1, 10), Ok(()));
    assert_eq!(router.send(2, 20), Ok(()));
    poller.poll_round(&mut router);
    assert_eq!(router.send(1, 11), Ok(()));
    assert_eq!(router.send(1, 12), Ok(()));
    assert_eq!(router.send(2, 21), Ok(()));
    for _ in 0..4 {
        poller.poll_round(&mut router);
    }
    let to_1: Vec<u64> =
        poller.handler.log.iter().filter(|e| e.0 == 1).map(|e| e.1).collect();
    let to_2: Vec<u64> =
        poller.handler.log.iter().filter(|e| e.0 == 2).map(|e| e.1).collect();
    assert_eq!(to_1, vec![10, 11, 12]);
    assert_eq!(to_2, vec![20, 21]);
}

#[test]
fn control_polled_before_normals() {
    let cfg = small_config(4, 16);
    let control = Fsm::new(0, Priority::Normal);
    let (mut router, _system) = create_system::<RecordingHandler>(&cfg, control);
    register_normal(&mut router, 1);
    register_normal(&mut router, 2);
    assert_eq!(router.send(1, 201), Ok(()));
    assert_eq!(router.send(2, 202), Ok(()));
    assert_eq!(router.send_control(100), Ok(()));
    assert!(router.control_ready());
    let mut poller = Poller::new(Priority::Normal, &cfg, RecordingHandler::new());
    poller.poll_round(&mut router);
    // the control fsm is handled first although its send came last
    assert_eq!(poller.handler.log, vec![(0, 100), (1, 201), (2, 202)]);
}

#[test]
fn closed_mailbox_rejects_sends() {
    let cfg = small_config(4, 16);
    let control = Fsm::new(0, Priority::Normal);
    let (mut router, _system) = create_system::<RecordingHandler>(&cfg, control);
    register_normal(&mut router, 5);
    assert_eq!(router.send(5, 1), Ok(()));
    router.close(5);
    assert_eq!(router.send(5, 2), Err(NotifyError::Disconnected));
    assert_eq!(router.send(77, 3), Err(NotifyError::Disconnected));
    assert_eq!(router.pending(5), Some(0));
}

#[test]
fn close_before_poll_reaches_no_handler() {
    let cfg = small_config(4, 16);
    let control = Fsm::new(0, Priority::Normal);
    let (mut router, _system) = create_system::<RecordingHandler>(&cfg, control);
    register_normal(&mut router, 9);
    assert_eq!(router.send(9, 41), Ok(()));
    router.close(9);
    assert_eq!(router.send(9, 42), Err(NotifyError::Disconnected));
    let mut poller = Poller::new(Priority::Normal, &cfg, RecordingHandler::new());
    poller.poll_round(&mut router);
    poller.poll_round(&mut router);
    assert!(poller.handler.log.is_empty());
}

#[test]
fn budget_splits_work_across_rounds() {
    // max_batch_size = 1, two messages per fsm per round
    let cfg = small_config(1, 2);
    let control = Fsm::new(0, Priority::Normal);
    let (mut router, _system) = create_system::<RecordingHandler>(&cfg, control);
    register_normal(&mut router, 7);
    for m in [61, 62, 63] {
        assert_eq!(router.send(7, m), Ok(()));
    }
    let mut poller = Poller::new(Priority::Normal, &cfg, RecordingHandler::new());
    poller.poll_round(&mut router);
    // round one: two messages handled, the fsm is re-enqueued
    assert_eq!(poller.handler.log, vec![(7, 61), (7, 62)]);
    assert_eq!(router.pending(7), Some(1));
    assert_eq!(router.ready_len(Priority::Normal), 1);
    poller.poll_round(&mut router);
    // round two: the third message, then the fsm parks
    assert_eq!(poller.handler.log, vec![(7, 61), (7, 62), (7, 63)]);
    assert_eq!(router.pending(7), Some(0));
    assert_eq!(router.ready_len(Priority::Normal), 0);
}

#[test]
fn bounded_mailbox_reports_backpressure() {
    let cfg = small_config(4, 16);
    let control = Fsm::new(0, Priority::Normal);
    let (mut router, _system) = create_system::<RecordingHandler>(&cfg, control);
    let fsm = Fsm::new(11, Priority::Normal);
    let mb = BasicMailbox::new(fsm, Some(2));
    assert!(router.register(11, mb).is_ok());
    assert_eq!(router.send(11, 1), Ok(()));
    assert_eq!(router.send(11, 2), Ok(()));
    assert_eq!(router.send(11, 3), Err(NotifyError::Full));
    assert_eq!(router.pending(11), Some(2));
    // the forcing path bypasses the bound; a closed target still refuses
    assert_eq!(router.force_send(11, 3), Ok(()));
    assert_eq!(router.pending(11), Some(3));
    router.close(11);
    assert_eq!(router.force_send(11, 4), Err(NotifyError::Disconnected));
}

#[test]
fn duplicate_registration_conflicts() {
    let mut router = fresh_router();
    register_normal(&mut router, 8);
    let again = BasicMailbox::new(Fsm::new(8, Priority::Normal), None);
    assert_eq!(router.register(8, again).unwrap_err(), RegisterError::Conflict);
    // after an explicit close, re-registration is allowed
    router.close(8);
    let fresh = BasicMailbox::new(Fsm::new(8, Priority::Normal), None);
    assert!(router.register(8, fresh).is_ok());
    assert_eq!(router.send(8, 9), Ok(()));
}

#[test]
fn mailbox_handles_send_and_expire() {
    let mut router = fresh_router();
    register_normal(&mut router, 13);
    let handle = router.mailbox(13).unwrap();
    assert_eq!(handle.addr(), 13);
    let copy = handle;
    assert_eq!(copy.send(&mut router, 5), Ok(()));
    assert_eq!(router.pending(13), Some(1));
    router.close(13);
    assert!(router.mailbox(13).is_none());
    assert_eq!(handle.send(&mut router, 6), Err(NotifyError::Disconnected));
}

#[test]
fn low_priority_pool_serves_low_fsms() {
    let cfg = small_config(4, 16);
    let control = Fsm::new(0, Priority::Normal);
    let (mut router, _system) = create_system::<RecordingHandler>(&cfg, control);
    let fsm = Fsm::new(30, Priority::Low);
    let mb = BasicMailbox::new(fsm, None);
    assert!(router.register(30, mb).is_ok());
    assert_eq!(router.send(30, 7), Ok(()));
    assert_eq!(router.ready_len(Priority::Low), 1);
    assert_eq!(router.ready_len(Priority::Normal), 0);
    // a normal poller never pulls the low queue
    let mut normal_poller = Poller::new(Priority::Normal, &cfg, RecordingHandler::new());
    normal_poller.poll_round(&mut router);
    assert!(normal_poller.handler.log.is_empty());
    assert_eq!(router.ready_len(Priority::Low), 1);
    // a low-priority poller does
    let mut low_poller = Poller::new(Priority::Low, &cfg, RecordingHandler::new());
    low_poller.poll_round(&mut router);
    assert_eq!(low_poller.handler.log, vec![(30, 7)]);
}

#[test]
fn broadcast_reaches_every_open_mailbox() {
    let mut router = fresh_router();
    register_normal(&mut router, 1);
    register_normal(&mut router, 2);
    register_normal(&mut router, 3);
    router.close(2);
    router.broadcast_normals(99);
    assert_eq!(router.pending(1), Some(1));
    assert_eq!(router.pending(2), Some(0));
    assert_eq!(router.pending(3), Some(1));
    assert_eq!(router.ready_len(Priority::Normal), 2);
}

#[test]
fn spawn_and_shutdown_lifecycle() {
    let cfg = Config::new(2, 1, 1, 8, 16);
    let control = Fsm::new(0, Priority::Normal);
    let (mut router, mut system) = create_system::<RecordingHandler>(&cfg, control);
    assert_eq!(system.alive(), 0);
    let mut builder = RecordingHandlerBuilder;
    system.spawn("test-pool".to_owned(), &mut builder);
    assert_eq!(system.alive(), 3);
    assert_eq!(system.poller_count(), 2);
    assert_eq!(system.low_poller_count(), 1);
    assert_eq!(system.name(), "test-pool");
    register_normal(&mut router, 17);
    assert_eq!(router.send(17, 1), Ok(()));
    system.tick(&mut router);
    assert_eq!(system.poller(0).handler.log, vec![(17, 1)]);
    // graceful shutdown: no poller alive, stop signal raised, mailboxes closed
    system.shutdown(&mut router);
    assert_eq!(system.alive(), 0);
    assert!(system.is_shutdown());
    assert!(router.sched_is_shutdown());
    assert_eq!(router.send(17, 2), Err(NotifyError::Disconnected));
    assert_eq!(router.send_control(3), Err(NotifyError::Disconnected));
    // a poller that still runs pulls nothing any more
    let mut late = Poller::new(Priority::Normal, &cfg, RecordingHandler::new());
    late.poll_round(&mut router);
    assert!(late.handler.log.is_empty());
}

#[test]
fn batch_size_adapts_with_hysteresis() {
    let cfg = Config::new(1, 0, 1, 8, 16);
    let control = Fsm::new(0, Priority::Normal);
    let (mut router, _system) = create_system::<RecordingHandler>(&cfg, control);
    register_normal(&mut router, 2);
    let mut poller = Poller::new(Priority::Normal, &cfg, RecordingHandler::new());
    assert_eq!(poller.batch_size(), 8);
    // an underutilized handler shrinks the batch one step per round
    poller.handler.signal = BatchAdjust::Underutilized;
    assert_eq!(router.send(2, 1), Ok(()));
    poller.poll_round(&mut router);
    assert_eq!(poller.batch_size(), 7);
    poller.poll_round(&mut router);
    assert_eq!(poller.batch_size(), 6);
    // a handler that falls behind doubles it, capped at the bound
    poller.handler.signal = BatchAdjust::FallingBehind;
    poller.poll_round(&mut router);
    assert_eq!(poller.batch_size(), 8);
    poller.poll_round(&mut router);
    assert_eq!(poller.batch_size(), 8);
    // shrinking never goes under the lower bound
    poller.handler.signal = BatchAdjust::Underutilized;
    for _ in 0..20 {
        poller.poll_round(&mut router);
    }
    assert_eq!(poller.batch_size(), 1);
}

#[test]
fn batch_size_doubles_when_behind() {
    let cfg = Config::new(1, 0, 1, 16, 16);
    let control = Fsm::new(0, Priority::Normal);
    let (mut router, _system) = create_system::<RecordingHandler>(&cfg, control);
    register_normal(&mut router, 2);
    let mut poller = Poller::new(Priority::Normal, &cfg, RecordingHandler::new());
    assert_eq!(poller.batch_size(), 16);
    poller.handler.signal = BatchAdjust::Underutilized;
    for _ in 0..12 {
        poller.poll_round(&mut router);
    }
    assert_eq!(poller.batch_size(), 4);
    // geometric growth: 4 doubles to 8, then hits the cap at 16
    poller.handler.signal = BatchAdjust::FallingBehind;
    poller.poll_round(&mut router);
    assert_eq!(poller.batch_size(), 8);
    poller.poll_round(&mut router);
    assert_eq!(poller.batch_size(), 16);
}

#[test]
fn stopped_fsm_is_dropped_at_release() {
    let fsm = Fsm::new(40, Priority::Normal);
    let mut mb = BasicMailbox::new(fsm, None);
    let mut sched = Scheduler::new();
    assert_eq!(mb.send(1, &mut sched), Ok(()));
    let mut held = mb.take_fsm().unwrap();
    held.mark_stopped();
    mb.release(held, &mut sched);
    // the mailbox retired: closed, queue dropped, no new work scheduled
    assert!(mb.is_closed());
    assert_eq!(mb.len(), 0);
    assert_eq!(mb.send(2, &mut sched), Err(NotifyError::Disconnected));
    assert!(mb.take_fsm().is_none());
}

#[test]
fn handler_builder_hands_out_fresh_handlers() {
    let mut builder = RecordingHandlerBuilder;
    let a = builder.build(Priority::Normal);
    let b = builder.build(Priority::Low);
    assert!(a.log.is_empty());
    assert!(b.log.is_empty());
    assert_eq!(a.rounds, 0);
    assert_eq!(b.rounds, 0);
}

#[test]
fn config_default_is_valid() {
    let cfg = Config::default();
    assert_eq!(cfg.pool_size, 2);
    assert_eq!(cfg.low_priority_pool_size, 0);
    assert_eq!(cfg.min_batch_size, 1);
    assert_eq!(cfg.max_batch_size, 256);
    assert_eq!(cfg.messages_per_tick, 4096);
}

#[test]
fn fsm_stop_flag_and_priority() {
    let mut fsm = Fsm::new(12, Priority::Normal);
    assert_eq!(fsm.id(), 12);
    assert!(!fsm.is_stopped());
    fsm.set_priority(Priority::Low);
    assert_eq!(fsm.priority(), Priority::Low);
    fsm.mark_stopped();
    assert!(fsm.is_stopped());
    assert_eq!(fsm.id(), 12);
}
