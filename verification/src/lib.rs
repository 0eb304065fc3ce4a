//! A batching actor scheduler: many finite state machines (fsms) are
//! multiplexed onto a small pool of pollers.  Each fsm owns a mailbox; a
//! router maps numeric ids to mailboxes and forwards messages; a scheduler
//! keeps the ready queues; pollers pull batches of ready fsms, always serving
//! the distinguished control fsm first, and drive a caller-supplied handler
//! over each batch.
//!
//! The state of every component is modelled exactly: each mailbox carries the
//! full history of the messages it accepted and of the messages it handed to
//! a handler, and the contracts relate those histories step by step.  The
//! scheduling protocol itself is the subject of the proofs: exclusive
//! check-out of an fsm, coalesced notification without lost wakeups,
//! first-in-first-out handling per mailbox, and control-before-normal batch
//! order.

pub mod batch;
pub mod common;
pub mod config;
pub mod fsm;
pub mod mailbox;
pub mod router;
pub mod scheduler;
