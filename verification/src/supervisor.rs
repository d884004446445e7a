//! The supervised retry loop's policy layer.
//!
//! [`Supervisor`] reacts to each observed task result: on a failure it
//! decides to respawn a fresh instance of the same logical operation,
//! reconstructed from the key the error carries; on the first success it
//! halts, and every remaining in-flight operation is discarded. It is the
//! only component that retries — the combinators never do — and it never
//! surfaces a failure: the sole terminal outcome is a success.
//!
//! Liveness caveat: the supervisor retries indefinitely, with no budget.
//! If every retried operation fails forever, the loop it drives never
//! terminates; stopping it then takes external cancellation. This is
//! accepted by design, not masked.

use vstd::prelude::*;

use crate::server::{ServerError, ServerName};

verus! {

/// The result of one in-flight operation, as the driver observes it.
#[derive(Debug, Clone)]
pub enum TaskOutcome<T> {
    /// The operation produced a value: the whole loop is done.
    Success(T),
    /// The operation failed; the error carries the key to retry under.
    Failure(ServerError),
}

/// What the driver must do next with the supervision set.
#[derive(Debug, Clone)]
pub enum SupervisorAction<T> {
    /// Return this value and drop every remaining in-flight operation.
    Halt(T),
    /// Admit a fresh instance of the operation with this key into the
    /// in-flight set; the failed instance has already left it.
    Respawn(ServerName),
}

/// The retry layer's bookkeeping: how many operations are in flight, and
/// whether a success has been seen.
#[derive(Debug, Clone)]
pub struct Supervisor {
    /// The number of operations currently in flight. A failure replaces
    /// its operation one-for-one, so this only changes when the loop
    /// halts.
    pub active: usize,
    /// Whether a success has been observed. A halted supervisor receives
    /// no further results: `on_task_result` requires `!halted`.
    pub halted: bool,
}

/// The whole supervised loop, result by result: the value of the first
/// observed success, or `None` if no result in the sequence is a success —
/// in which case the loop is still running after all of them, since only
/// a success can end it.
pub open spec fn supervise_result<T>(outcomes: Seq<TaskOutcome<T>>) -> Option<T>
    decreases outcomes.len(),
{
    if outcomes.len() == 0 {
        None
    } else {
        match outcomes[0] {
            TaskOutcome::Success(v) => Some(v),
            TaskOutcome::Failure(_) => supervise_result(outcomes.drop_first()),
        }
    }
}

/// The supervised loop never resolves with a failure outcome: as long as
/// every observed result is a failure, the loop does not halt at all —
/// each failure only respawns its operation. (If operations keep failing
/// forever, the loop runs forever; that liveness risk is accepted, and
/// external cancellation is the only way out.)
pub proof fn lemma_supervisor_never_halts_on_failure<T>(outcomes: Seq<TaskOutcome<T>>)
    requires
        forall|k: int| 0 <= k < outcomes.len() ==> (#[trigger] outcomes[k]) is Failure,
    ensures
        supervise_result(outcomes) is None,
    decreases outcomes.len(),
{
    if outcomes.len() > 0 {
        assert(outcomes[0] is Failure);
        assert forall|k: int|
            0 <= k < outcomes.drop_first().len() implies (#[trigger] outcomes.drop_first()[k])
            is Failure by {
            assert(outcomes.drop_first()[k] == outcomes[k + 1]);
        }
        lemma_supervisor_never_halts_on_failure(outcomes.drop_first());
    }
}

/// Whatever the supervised loop resolves with came from a success: if it
/// halts with `v`, some observed result was `Success(v)`.
pub proof fn lemma_supervisor_halts_only_on_success<T>(outcomes: Seq<TaskOutcome<T>>, v: T)
    requires
        supervise_result(outcomes) == Some(v),
    ensures
        exists|k: int|
            0 <= k < outcomes.len() && (#[trigger] outcomes[k]) == TaskOutcome::Success(v),
    decreases outcomes.len(),
{
    if outcomes[0] matches TaskOutcome::Success(w) {
        assert(outcomes[0] == TaskOutcome::Success(v));
        assert(0 <= 0 < outcomes.len());
    } else {
        lemma_supervisor_halts_only_on_success(outcomes.drop_first(), v);
        let k = choose|k: int|
            0 <= k < outcomes.drop_first().len() && (#[trigger] outcomes.drop_first()[k])
                == TaskOutcome::Success(v);
        assert(outcomes.drop_first()[k] == outcomes[k + 1]);
        assert(0 <= k + 1 < outcomes.len() && outcomes[k + 1] == TaskOutcome::Success(v));
    }
}

/// If some observed result is a success, the supervised loop halts with a
/// success — it resolves with the first one, at the latest by that
/// result.
pub proof fn lemma_supervisor_eventual_success<T>(outcomes: Seq<TaskOutcome<T>>, k: int)
    requires
        0 <= k < outcomes.len(),
        outcomes[k] is Success,
    ensures
        supervise_result(outcomes) is Some,
    decreases k,
{
    if outcomes[0] is Failure {
        assert(k >= 1);
        assert(outcomes.drop_first()[k - 1] == outcomes[k]);
        lemma_supervisor_eventual_success(outcomes.drop_first(), k - 1);
    }
}

/// Builds the supervisor for an initial set of `n` in-flight operations.
pub fn supervisor(n: usize) -> (s: Supervisor)
    ensures
        s.active == n,
        !s.halted,
{
    Supervisor { active: n, halted: false }
}

impl Supervisor {
    /// Whether a success has been observed and the loop is done.
    pub fn is_halted(&self) -> (r: bool)
        ensures
            r == self.halted,
    {
        self.halted
    }

    /// The number of operations currently in flight.
    pub fn in_flight(&self) -> (r: usize)
        ensures
            r == self.active,
    {
        self.active
    }

    /// Reacts to one observed task result.
    ///
    /// A success halts the loop at once: the driver returns the value and
    /// discards all remaining in-flight work. A failure is never fatal and
    /// never surfaces: the driver respawns the same logical operation,
    /// under exactly the key the error carries, and the in-flight count is
    /// unchanged — the set loses the failed instance and gains the fresh
    /// one.
    pub fn on_task_result<T>(&mut self, outcome: TaskOutcome<T>) -> (act: SupervisorAction<T>)
        requires
            !old(self).halted,
            old(self).active >= 1,
        ensures
            outcome matches TaskOutcome::Success(v) ==> {
                &&& act == SupervisorAction::Halt(v)
                &&& final(self).halted
                &&& final(self).active == 0
            },
            outcome matches TaskOutcome::Failure(e) ==> {
                &&& act == SupervisorAction::<T>::Respawn(e->0)
                &&& !final(self).halted
                &&& final(self).active == old(self).active
            },
    {
        match outcome {
            TaskOutcome::Success(v) => {
                self.halted = true;
                self.active = 0;
                SupervisorAction::Halt(v)
            },
            TaskOutcome::Failure(e) => {
                match e {
                    ServerError::Disconnected(name) => SupervisorAction::Respawn(name),
                }
            },
        }
    }
}

} // verus!
