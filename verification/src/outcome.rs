//! The observations a driver reports and the results a combinator returns.

use vstd::prelude::*;

verus! {

/// What one operation reported during one poll round: still running,
/// finished with a value, or finished with an error.
///
/// An operation yields a result exactly once; after it has reported
/// `Success` or `Failure` it is terminated and must not be polled again.
/// A driver passes `Pending` as the placeholder for a slot it did not poll.
#[derive(Debug, Clone, PartialEq, Eq)]
pub enum Progress<T, E> {
    /// The operation has not finished yet.
    Pending,
    /// The operation finished with a value.
    Success(T),
    /// The operation finished with an error.
    Failure(E),
}

/// What one poll round of a combinator decided: keep waiting, or resolve
/// with a final answer.
#[derive(Debug, Clone, PartialEq, Eq)]
pub enum PollResult<T> {
    /// Some operation is still running and none has succeeded; poll again
    /// on the next wake-up.
    Pending,
    /// The race is over; this combinator must not be polled again.
    Ready(T),
}

} // verus!
