//! The binary race-with-fallback combinator.
//!
//! [`TryAtMostOne`] races exactly two fallible operations and resolves with
//! the first success from either. If both ultimately fail, it resolves with
//! a deterministically chosen error: the first operand's error takes
//! priority over the second's, regardless of which operand failed first in
//! wall-clock time.

use vstd::prelude::*;

use crate::outcome::{PollResult, Progress};

verus! {

/// One operand of the binary race: still pending, or failed with its
/// recorded error. The error of operand A is recorded so it can be
/// returned even when A fails long before B does.
#[derive(Debug, Clone, PartialEq, Eq)]
pub enum OperandState<E> {
    /// The operand has not terminated; it is polled each round.
    Pending,
    /// The operand failed; its error is remembered and it is never polled
    /// again.
    Failed(E),
}

/// The binary race-with-fallback combinator: the bookkeeping state of a
/// race between exactly two fallible operations.
#[derive(Debug, Clone)]
pub struct TryAtMostOne<E> {
    /// The first operand. Its error takes priority when both fail.
    pub a: OperandState<E>,
    /// The second operand.
    pub b: OperandState<E>,
    /// Whether the race has resolved. A resolved combinator must not be
    /// polled again: `poll_pair` requires `!resolved`.
    pub resolved: bool,
}

/// An operand's state after one round: a new failure is recorded, an old
/// one is kept, and a pending operand that reported nothing stays pending.
pub open spec fn operand_after<T, E>(s: OperandState<E>, e: Progress<T, E>) -> OperandState<E> {
    match s {
        OperandState::Failed(x) => OperandState::Failed(x),
        OperandState::Pending => match e {
            Progress::Failure(x) => OperandState::Failed(x),
            _ => OperandState::Pending,
        },
    }
}

/// The operand is still live and reports a success this round.
pub open spec fn operand_succeeds<T, E>(s: OperandState<E>, e: Progress<T, E>) -> bool {
    s is Pending && e is Success
}

/// What one poll round of the binary race decides. Operand A is examined
/// first, so when both succeed in the same round A wins positionally. When
/// both operands have failed — whether now or in earlier rounds — the race
/// resolves with A's recorded error, never B's.
pub open spec fn pair_outcome<T, E>(
    a: OperandState<E>,
    b: OperandState<E>,
    ea: Progress<T, E>,
    eb: Progress<T, E>,
) -> PollResult<Result<T, E>> {
    if operand_succeeds(a, ea) {
        PollResult::Ready(Ok(ea->Success_0))
    } else if operand_succeeds(b, eb) {
        PollResult::Ready(Ok(eb->Success_0))
    } else if operand_after(a, ea) is Failed && operand_after(b, eb) is Failed {
        PollResult::Ready(Err(operand_after(a, ea)->Failed_0))
    } else {
        PollResult::Pending
    }
}

/// The whole binary race, round by round: fold [`pair_outcome`] over a
/// sequence of rounds — each round a pair of observations, operand A's
/// first — recording failures between rounds, until some round resolves.
/// `Pending` means the given rounds did not resolve the race.
pub open spec fn pair_race_outcome<T, E>(
    a: OperandState<E>,
    b: OperandState<E>,
    rounds: Seq<(Progress<T, E>, Progress<T, E>)>,
) -> PollResult<Result<T, E>>
    decreases rounds.len(),
{
    if rounds.len() == 0 {
        PollResult::Pending
    } else if pair_outcome(a, b, rounds[0].0, rounds[0].1) is Ready {
        pair_outcome(a, b, rounds[0].0, rounds[0].1)
    } else {
        pair_race_outcome(
            operand_after(a, rounds[0].0),
            operand_after(b, rounds[0].1),
            rounds.drop_first(),
        )
    }
}

/// Neither operand ever reports a success in these rounds.
pub open spec fn no_success_in<T, E>(rounds: Seq<(Progress<T, E>, Progress<T, E>)>) -> bool {
    forall|r: int|
        0 <= r < rounds.len() ==> !((#[trigger] rounds[r]).0 is Success) && !(rounds[r].1
            is Success)
}

/// The value `v` is reported as a success by one of the operands in some
/// round.
pub open spec fn pair_value_succeeds_in<T, E>(
    rounds: Seq<(Progress<T, E>, Progress<T, E>)>,
    v: T,
) -> bool {
    exists|r: int|
        0 <= r < rounds.len() && ((#[trigger] rounds[r]).0 == Progress::<T, E>::Success(v)
            || rounds[r].1 == Progress::<T, E>::Success(v))
}

/// The inductive core of the error-priority law, generalized over the
/// operands' states: once operand A's error is pinned to `ea_err` —
/// recorded already, or first reported in round `ja` — and operand B
/// fails too, the race resolves with `Err(ea_err)`.
proof fn lemma_pair_all_fail_general<T, E>(
    a: OperandState<E>,
    b: OperandState<E>,
    rounds: Seq<(Progress<T, E>, Progress<T, E>)>,
    ja: int,
    jb: int,
    ea_err: E,
)
    requires
        rounds.len() >= 1,
        no_success_in(rounds),
        match a {
            OperandState::Failed(x) => x == ea_err,
            OperandState::Pending => {
                &&& 0 <= ja < rounds.len()
                &&& rounds[ja].0 == Progress::<T, E>::Failure(ea_err)
                &&& forall|j: int| 0 <= j < ja ==> !((#[trigger] rounds[j]).0 is Failure)
            },
        },
        b is Failed || (0 <= jb < rounds.len() && rounds[jb].1 is Failure),
    ensures
        pair_race_outcome(a, b, rounds) == PollResult::<Result<T, E>>::Ready(Err(ea_err)),
    decreases rounds.len(),
{
    let ea = rounds[0].0;
    let eb = rounds[0].1;
    let a1 = operand_after(a, ea);
    let b1 = operand_after(b, eb);
    if a1 is Failed && b1 is Failed {
        if a is Pending {
            if ja != 0 {
                assert(!(rounds[0].0 is Failure));
                assert(false);
            }
        }
        assert(a1->Failed_0 == ea_err);
    } else {
        assert(rounds.len() >= 2) by {
            if rounds.len() == 1 {
                if a is Pending {
                    assert(ja == 0);
                }
                assert(a1 is Failed);
                if b is Pending {
                    assert(jb == 0);
                }
                assert(b1 is Failed);
                assert(false);
            }
        }
        let rounds1 = rounds.drop_first();
        assert(no_success_in(rounds1)) by {
            assert forall|r: int|
                0 <= r < rounds1.len() implies !((#[trigger] rounds1[r]).0 is Success) && !(
            rounds1[r].1 is Success) by {
                assert(rounds1[r] == rounds[r + 1]);
            }
        }
        let ja1: int = if ja >= 1 {
            ja - 1
        } else {
            0
        };
        if a1 is Pending {
            assert(a is Pending && !(ea is Failure));
            assert(ja >= 1) by {
                if ja == 0 {
                    assert(rounds[0].0 == Progress::<T, E>::Failure(ea_err));
                    assert(false);
                }
            }
            assert(rounds1[ja - 1] == rounds[ja]);
            assert forall|j: int| 0 <= j < ja - 1 implies !((#[trigger] rounds1[j]).0
                is Failure) by {
                assert(rounds1[j] == rounds[j + 1]);
            }
        } else {
            assert(a1 is Failed);
            if a is Pending {
                if ja != 0 {
                    assert(!(rounds[0].0 is Failure));
                    assert(false);
                }
                assert(a1->Failed_0 == ea_err);
            }
        }
        let jb1: int = if jb >= 1 {
            jb - 1
        } else {
            0
        };
        if b1 is Pending {
            assert(b is Pending && !(eb is Failure));
            assert(jb >= 1) by {
                if jb == 0 {
                    assert(rounds[0].1 is Failure);
                    assert(false);
                }
            }
            assert(rounds1[jb - 1] == rounds[jb]);
        }
        lemma_pair_all_fail_general(a1, b1, rounds1, ja1, jb1, ea_err);
    }
}

/// If both operands fail, the race resolves with the first operand's
/// error, irrespective of completion order: whether B's failure comes in
/// an earlier round than A's, a later one, or the same, the error
/// returned is the one A first reported in round `ja`.
pub proof fn lemma_pair_first_error_priority<T, E>(
    rounds: Seq<(Progress<T, E>, Progress<T, E>)>,
    ja: int,
    jb: int,
)
    requires
        no_success_in(rounds),
        0 <= ja < rounds.len(),
        rounds[ja].0 is Failure,
        forall|j: int| 0 <= j < ja ==> !((#[trigger] rounds[j]).0 is Failure),
        0 <= jb < rounds.len(),
        rounds[jb].1 is Failure,
    ensures
        pair_race_outcome(OperandState::<E>::Pending, OperandState::<E>::Pending, rounds)
            == PollResult::<Result<T, E>>::Ready(Err(rounds[ja].0->Failure_0)),
{
    let ea_err = rounds[ja].0->Failure_0;
    assert(rounds[ja].0 == Progress::<T, E>::Failure(ea_err));
    lemma_pair_all_fail_general(
        OperandState::<E>::Pending,
        OperandState::<E>::Pending,
        rounds,
        ja,
        jb,
        ea_err,
    );
}

/// The inductive core of the success law, generalized over the operands'
/// states: if one operand — A when `first`, B otherwise — is still live
/// and reports a success in round `k` without having failed earlier, the
/// race resolves with a success.
proof fn lemma_pair_success_general<T, E>(
    a: OperandState<E>,
    b: OperandState<E>,
    rounds: Seq<(Progress<T, E>, Progress<T, E>)>,
    k: int,
    first: bool,
)
    requires
        0 <= k < rounds.len(),
        first ==> a is Pending && rounds[k].0 is Success && forall|j: int|
            0 <= j < k ==> !((#[trigger] rounds[j]).0 is Failure),
        !first ==> b is Pending && rounds[k].1 is Success && forall|j: int|
            0 <= j < k ==> !((#[trigger] rounds[j]).1 is Failure),
    ensures
        pair_race_outcome(a, b, rounds) matches PollResult::Ready(Ok(_)),
    decreases k,
{
    let ea = rounds[0].0;
    let eb = rounds[0].1;
    let outcome = pair_outcome(a, b, ea, eb);
    if k == 0 {
        if first {
            assert(operand_succeeds(a, ea));
        } else {
            assert(b is Pending && eb is Success);
            if !operand_succeeds(a, ea) {
                assert(operand_succeeds(b, eb));
            }
        }
    } else if outcome is Ready {
        // a success this round: the round cannot resolve with an error,
        // because the watched operand neither fails now nor failed before
        if first {
            assert(!(rounds[0].0 is Failure));
            assert(operand_after(a, ea) is Pending);
        } else {
            assert(!(rounds[0].1 is Failure));
            assert(operand_after(b, eb) is Pending);
        }
        assert(outcome matches PollResult::Ready(Ok(_)));
    } else {
        let rounds1 = rounds.drop_first();
        assert(rounds1[k - 1] == rounds[k]);
        if first {
            assert(!(rounds[0].0 is Failure));
            assert forall|j: int| 0 <= j < k - 1 implies !((#[trigger] rounds1[j]).0
                is Failure) by {
                assert(rounds1[j] == rounds[j + 1]);
            }
        } else {
            assert(!(rounds[0].1 is Failure));
            assert forall|j: int| 0 <= j < k - 1 implies !((#[trigger] rounds1[j]).1
                is Failure) by {
                assert(rounds1[j] == rounds[j + 1]);
            }
        }
        lemma_pair_success_general(
            operand_after(a, ea),
            operand_after(b, eb),
            rounds1,
            k - 1,
            first,
        );
    }
}

/// If either operand succeeds — still live, reporting a success in round
/// `k`, not having failed earlier — the race resolves with a success,
/// regardless of the other operand's eventual outcome.
pub proof fn lemma_pair_success_resolves<T, E>(
    rounds: Seq<(Progress<T, E>, Progress<T, E>)>,
    k: int,
    first: bool,
)
    requires
        0 <= k < rounds.len(),
        first ==> rounds[k].0 is Success && forall|j: int|
            0 <= j < k ==> !((#[trigger] rounds[j]).0 is Failure),
        !first ==> rounds[k].1 is Success && forall|j: int|
            0 <= j < k ==> !((#[trigger] rounds[j]).1 is Failure),
    ensures
        pair_race_outcome(OperandState::<E>::Pending, OperandState::<E>::Pending, rounds)
            matches PollResult::Ready(Ok(_)),
{
    lemma_pair_success_general(
        OperandState::<E>::Pending,
        OperandState::<E>::Pending,
        rounds,
        k,
        first,
    );
}

/// Whatever the race resolves `Ok(v)` with came from a succeeding
/// operand: one of the two reported `Success(v)` in some round.
pub proof fn lemma_pair_value_from_success<T, E>(
    a: OperandState<E>,
    b: OperandState<E>,
    rounds: Seq<(Progress<T, E>, Progress<T, E>)>,
    v: T,
)
    requires
        pair_race_outcome(a, b, rounds) == PollResult::<Result<T, E>>::Ready(Ok(v)),
    ensures
        pair_value_succeeds_in(rounds, v),
    decreases rounds.len(),
{
    let ea = rounds[0].0;
    let eb = rounds[0].1;
    if pair_outcome(a, b, ea, eb) is Ready {
        if operand_succeeds(a, ea) {
            assert(rounds[0].0 == Progress::<T, E>::Success(v));
        } else if operand_succeeds(b, eb) {
            assert(rounds[0].1 == Progress::<T, E>::Success(v));
        } else {
            assert(false);
        }
        assert(0 <= 0 < rounds.len());
    } else {
        let rounds1 = rounds.drop_first();
        lemma_pair_value_from_success(operand_after(a, ea), operand_after(b, eb), rounds1, v);
        let r = choose|r: int|
            0 <= r < rounds1.len() && ((#[trigger] rounds1[r]).0 == Progress::<T, E>::Success(v)
                || rounds1[r].1 == Progress::<T, E>::Success(v));
        assert(rounds1[r] == rounds[r + 1]);
        assert(0 <= r + 1 < rounds.len() && (rounds[r + 1].0 == Progress::<T, E>::Success(v)
            || rounds[r + 1].1 == Progress::<T, E>::Success(v)));
    }
}

/// Builds the race state for two operations, both pending, nothing
/// resolved. The driver owns the two operation handles.
pub fn try_at_most_one<E>() -> (r: TryAtMostOne<E>)
    ensures
        r.a is Pending,
        r.b is Pending,
        !r.resolved,
{
    TryAtMostOne { a: OperandState::Pending, b: OperandState::Pending, resolved: false }
}

impl<E> TryAtMostOne<E> {
    /// Whether the race has resolved. Polling a resolved combinator is a
    /// caller error; a driver checks this first.
    pub fn is_resolved(&self) -> (r: bool)
        ensures
            r == self.resolved,
    {
        self.resolved
    }

    /// Whether operand A is still live and should be polled this round.
    pub fn a_is_pending(&self) -> (r: bool)
        ensures
            r == (self.a is Pending),
    {
        match &self.a {
            OperandState::Pending => true,
            OperandState::Failed(_) => false,
        }
    }

    /// Whether operand B is still live and should be polled this round.
    pub fn b_is_pending(&self) -> (r: bool)
        ensures
            r == (self.b is Pending),
    {
        match &self.b {
            OperandState::Pending => true,
            OperandState::Failed(_) => false,
        }
    }

    /// One poll round. `ea` and `eb` are what the two operands reported;
    /// for an operand that is already terminated (and hence was not
    /// polled) the driver passes the placeholder `Progress::Pending`,
    /// which the round ignores.
    ///
    /// The round decides exactly [`pair_outcome`]: a success from either
    /// operand resolves the race with that value (A first, positionally);
    /// once both operands have failed the race resolves with A's error;
    /// otherwise new failures are recorded and the race stays pending.
    ///
    /// Re-polling a resolved combinator is a contract violation, excluded
    /// by `requires`; a driver treats it as fatal rather than asking for a
    /// stale answer.
    pub fn poll_pair<T>(&mut self, ea: Progress<T, E>, eb: Progress<T, E>) -> (r: PollResult<
        Result<T, E>,
    >)
        requires
            !old(self).resolved,
        ensures
            r == pair_outcome(old(self).a, old(self).b, ea, eb),
            final(self).resolved == (r is Ready),
            r is Ready ==> final(self).a is Pending && final(self).b is Pending,
            !(r is Ready) ==> final(self).a == operand_after(old(self).a, ea),
            !(r is Ready) ==> final(self).b == operand_after(old(self).b, eb),
    {
        let mut a: OperandState<E> = OperandState::Pending;
        std::mem::swap(&mut a, &mut self.a);
        let mut b: OperandState<E> = OperandState::Pending;
        std::mem::swap(&mut b, &mut self.b);
        match a {
            OperandState::Pending => match ea {
                Progress::Success(v) => {
                    self.resolved = true;
                    PollResult::Ready(Ok(v))
                },
                Progress::Failure(xa) => match b {
                    OperandState::Failed(_) => {
                        self.resolved = true;
                        PollResult::Ready(Err(xa))
                    },
                    OperandState::Pending => match eb {
                        Progress::Success(v) => {
                            self.resolved = true;
                            PollResult::Ready(Ok(v))
                        },
                        Progress::Failure(_) => {
                            self.resolved = true;
                            PollResult::Ready(Err(xa))
                        },
                        Progress::Pending => {
                            self.a = OperandState::Failed(xa);
                            PollResult::Pending
                        },
                    },
                },
                Progress::Pending => match b {
                    OperandState::Failed(xb) => {
                        self.b = OperandState::Failed(xb);
                        PollResult::Pending
                    },
                    OperandState::Pending => match eb {
                        Progress::Success(v) => {
                            self.resolved = true;
                            PollResult::Ready(Ok(v))
                        },
                        Progress::Failure(xb) => {
                            self.b = OperandState::Failed(xb);
                            PollResult::Pending
                        },
                        Progress::Pending => PollResult::Pending,
                    },
                },
            },
            OperandState::Failed(xa) => match b {
                OperandState::Failed(_) => {
                    self.resolved = true;
                    PollResult::Ready(Err(xa))
                },
                OperandState::Pending => match eb {
                    Progress::Success(v) => {
                        self.resolved = true;
                        PollResult::Ready(Ok(v))
                    },
                    Progress::Failure(_) => {
                        self.resolved = true;
                        PollResult::Ready(Err(xa))
                    },
                    Progress::Pending => {
                        self.a = OperandState::Failed(xa);
                        PollResult::Pending
                    },
                },
            },
        }
    }
}

} // verus!
