//! A race-to-first-success library.
//!
//! Three composable state machines drive an arbitrary number of fallible,
//! asynchronous operations under a first-success-wins policy:
//!
//! - [`try_all::TryAll`] — the N-ary combinator: races a fixed collection of
//!   operations and resolves with the first success, or with `None` once
//!   every operation has failed.
//! - [`try_at_most_one::TryAtMostOne`] — the binary combinator: races two
//!   operations and resolves with the first success; if both fail, the first
//!   operand's error takes priority.
//! - [`supervisor::Supervisor`] — the retry layer: respawns every failed
//!   operation under its key and halts on the first success.
//!
//! The machines hold only bookkeeping state. A driver owns the actual
//! operation handles, reports each poll round's observations as
//! [`outcome::Progress`] values, and performs the actions the machines
//! decide on.

pub mod outcome;
pub mod server;
pub mod supervisor;
pub mod try_all;
pub mod try_at_most_one;
