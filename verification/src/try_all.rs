//! The N-ary first-success combinator.
//!
//! [`TryAll`] races a fixed collection of fallible operations: it resolves
//! with the first success observed across one or more poll rounds, or with
//! `None` once every operation has failed. A failed slot is excluded from
//! all further polling; the combinator never retries.
//!
//! The combinator holds only the bookkeeping state of the race. A driver
//! owns the operation handles; on each wake-up it polls every slot that
//! [`TryAll::slot_is_pending`] reports live, and hands the observations to
//! [`TryAll::poll_round`].

use vstd::prelude::*;

use crate::outcome::{PollResult, Progress};

verus! {

/// One slot of the race set: still pending, or terminated by failure.
/// A slot that reported success never needs a mark — the whole race
/// resolves at that moment.
#[derive(Debug, Clone, Copy, PartialEq, Eq, Structural)]
pub enum SlotState {
    /// The operation in this slot has not terminated; it is polled each
    /// round.
    Pending,
    /// The operation in this slot failed; it is never polled again and
    /// does not contribute to the final outcome.
    Failed,
}

/// The N-ary first-success combinator: the bookkeeping state of a race
/// over a fixed collection of fallible operations.
#[derive(Debug, Clone)]
pub struct TryAll {
    /// One entry per operation, in registration order.
    pub slots: Vec<SlotState>,
    /// Whether the race has resolved. A resolved combinator must not be
    /// polled again: `poll_round` requires `!resolved`.
    pub resolved: bool,
}

/// Slot `i` is still live and reports a success this round.
pub open spec fn live_success_at<T, E>(
    slots: Seq<SlotState>,
    events: Seq<Progress<T, E>>,
    i: int,
) -> bool {
    &&& 0 <= i < slots.len()
    &&& slots[i] is Pending
    &&& events[i] is Success
}

/// Some still-live slot reports a success this round.
pub open spec fn round_has_success<T, E>(
    slots: Seq<SlotState>,
    events: Seq<Progress<T, E>>,
) -> bool {
    exists|i: int| live_success_at(slots, events, i)
}

/// Slot `i` is the winner of this round: the first live slot, in
/// registration order, to report a success. Ties within a round are broken
/// positionally.
pub open spec fn round_wins_at<T, E>(
    slots: Seq<SlotState>,
    events: Seq<Progress<T, E>>,
    i: int,
) -> bool {
    &&& live_success_at(slots, events, i)
    &&& forall|j: int| 0 <= j < i ==> !live_success_at(slots, events, j)
}

/// The index of this round's winner (meaningful only when
/// `round_has_success` holds).
pub open spec fn round_winner<T, E>(
    slots: Seq<SlotState>,
    events: Seq<Progress<T, E>>,
) -> int {
    choose|i: int| round_wins_at(slots, events, i)
}

/// After this round, no operation is left: every slot had already failed
/// or fails now. Vacuously true of an empty race set.
pub open spec fn round_all_failed<T, E>(
    slots: Seq<SlotState>,
    events: Seq<Progress<T, E>>,
) -> bool {
    forall|i: int| 0 <= i < slots.len() ==> (slots[i] is Failed || events[i] is Failure)
}

/// The slot states after one round that did not resolve: failures are
/// marked terminated, everything else stays pending.
pub open spec fn step_slots<T, E>(
    slots: Seq<SlotState>,
    events: Seq<Progress<T, E>>,
) -> Seq<SlotState> {
    Seq::new(
        slots.len(),
        |i: int|
            if slots[i] is Failed || events[i] is Failure {
                SlotState::Failed
            } else {
                SlotState::Pending
            },
    )
}

/// What one poll round decides, as a function of the slot states and the
/// round's observations: the first live success wins; otherwise the race
/// resolves `None` exactly when no operation is left; otherwise it stays
/// pending.
pub open spec fn round_outcome<T, E>(
    slots: Seq<SlotState>,
    events: Seq<Progress<T, E>>,
) -> PollResult<Option<T>> {
    if round_has_success(slots, events) {
        PollResult::Ready(Some(events[round_winner(slots, events)]->Success_0))
    } else if round_all_failed(slots, events) {
        PollResult::Ready(None)
    } else {
        PollResult::Pending
    }
}

/// A winner, where one exists, is unique: it is the least live-success
/// index, so `round_winner` is pinned to it.
pub proof fn lemma_round_winner_unique<T, E>(
    slots: Seq<SlotState>,
    events: Seq<Progress<T, E>>,
    i: int,
)
    requires
        round_wins_at(slots, events, i),
    ensures
        round_has_success(slots, events),
        round_winner(slots, events) == i,
{
    assert(round_has_success(slots, events)) by {
        assert(live_success_at(slots, events, i));
    }
    let w = round_winner(slots, events);
    assert(round_wins_at(slots, events, w));
    if w < i {
        assert(live_success_at(slots, events, w));
        assert(false);
    } else if i < w {
        assert(live_success_at(slots, events, i));
        assert(false);
    }
}

/// The whole race, round by round: fold [`round_outcome`] over a sequence
/// of rounds, marking failures between rounds, until some round resolves.
/// `Pending` means the given rounds did not resolve the race.
pub open spec fn race_outcome<T, E>(
    slots: Seq<SlotState>,
    rounds: Seq<Seq<Progress<T, E>>>,
) -> PollResult<Option<T>>
    decreases rounds.len(),
{
    if rounds.len() == 0 {
        PollResult::Pending
    } else if round_outcome(slots, rounds[0]) is Ready {
        round_outcome(slots, rounds[0])
    } else {
        race_outcome(step_slots(slots, rounds[0]), rounds.drop_first())
    }
}

/// Every round reports on the same `n` slots.
pub open spec fn rounds_wf<T, E>(n: nat, rounds: Seq<Seq<Progress<T, E>>>) -> bool {
    forall|r: int| 0 <= r < rounds.len() ==> (#[trigger] rounds[r]).len() == n
}

/// The value `v` is reported as a success by some slot in some round.
pub open spec fn value_succeeds_in<T, E>(rounds: Seq<Seq<Progress<T, E>>>, v: T) -> bool {
    exists|r: int|
        0 <= r < rounds.len() && exists|j: int|
            0 <= j < (#[trigger] rounds[r]).len() && (#[trigger] rounds[r][j]) == Progress::<
                T,
                E,
            >::Success(v)
}

/// Wherever some slot reports a live success, the round has a winner, and
/// `round_winner` names it.
proof fn lemma_least_live_success<T, E>(
    slots: Seq<SlotState>,
    events: Seq<Progress<T, E>>,
    i: int,
)
    requires
        live_success_at(slots, events, i),
    ensures
        round_wins_at(slots, events, round_winner(slots, events)),
    decreases i,
{
    if forall|j: int| 0 <= j < i ==> !live_success_at(slots, events, j) {
        assert(round_wins_at(slots, events, i));
        lemma_round_winner_unique(slots, events, i);
    } else {
        let j = choose|j: int| 0 <= j < i && live_success_at(slots, events, j);
        lemma_least_live_success(slots, events, j);
    }
}

/// For N ≥ 1 operations of which at least one eventually succeeds, the
/// race resolves to `Some`, never staying pending forever: if slot `i` is
/// live and reports a success in round `k`, not having failed in any
/// earlier round, then the rounds resolve the race with a value.
pub proof fn lemma_race_resolves_some<T, E>(
    slots: Seq<SlotState>,
    rounds: Seq<Seq<Progress<T, E>>>,
    k: int,
    i: int,
)
    requires
        rounds_wf(slots.len(), rounds),
        0 <= k < rounds.len(),
        0 <= i < slots.len(),
        slots[i] is Pending,
        rounds[k][i] is Success,
        forall|j: int| 0 <= j < k ==> !((#[trigger] rounds[j])[i] is Failure),
    ensures
        race_outcome(slots, rounds) matches PollResult::Ready(Some(_)),
    decreases k,
{
    let ev = rounds[0];
    if k == 0 {
        assert(live_success_at(slots, ev, i));
        assert(round_has_success(slots, ev));
    } else if round_has_success(slots, ev) {
        // resolves with a value already in the first round
    } else {
        assert(!(rounds[0][i] is Failure));
        assert(!round_all_failed(slots, ev)) by {
            assert(!(slots[i] is Failed || ev[i] is Failure));
        }
        let slots1 = step_slots(slots, ev);
        let rounds1 = rounds.drop_first();
        assert(slots1[i] is Pending);
        assert(rounds1[k - 1] == rounds[k]);
        assert(rounds_wf(slots1.len(), rounds1)) by {
            assert forall|r: int| 0 <= r < rounds1.len() implies (#[trigger] rounds1[r]).len()
                == slots1.len() by {
                assert(rounds1[r] == rounds[r + 1]);
            }
        }
        assert forall|j: int| 0 <= j < k - 1 implies !((#[trigger] rounds1[j])[i] is Failure) by {
            assert(rounds1[j] == rounds[j + 1]);
        }
        lemma_race_resolves_some(slots1, rounds1, k - 1, i);
    }
}

/// Whatever the race resolves `Some(v)` with came from a succeeding
/// operation: some slot reported `Success(v)` in some round.
pub proof fn lemma_race_value_from_success<T, E>(
    slots: Seq<SlotState>,
    rounds: Seq<Seq<Progress<T, E>>>,
    v: T,
)
    requires
        rounds_wf(slots.len(), rounds),
        race_outcome(slots, rounds) == PollResult::<Option<T>>::Ready(Some(v)),
    ensures
        value_succeeds_in(rounds, v),
    decreases rounds.len(),
{
    let ev = rounds[0];
    if round_outcome(slots, ev) is Ready {
        assert(round_has_success(slots, ev));
        let i0 = choose|i: int| live_success_at(slots, ev, i);
        lemma_least_live_success(slots, ev, i0);
        let w = round_winner(slots, ev);
        assert(ev[w] == Progress::<T, E>::Success(v));
        assert(value_succeeds_in(rounds, v)) by {
            assert(0 <= 0 < rounds.len() && 0 <= w < rounds[0].len() && rounds[0][w]
                == Progress::<T, E>::Success(v));
        }
    } else {
        let slots1 = step_slots(slots, ev);
        let rounds1 = rounds.drop_first();
        assert(rounds_wf(slots1.len(), rounds1)) by {
            assert forall|r: int| 0 <= r < rounds1.len() implies (#[trigger] rounds1[r]).len()
                == slots1.len() by {
                assert(rounds1[r] == rounds[r + 1]);
            }
        }
        lemma_race_value_from_success(slots1, rounds1, v);
        let r = choose|r: int|
            0 <= r < rounds1.len() && exists|j: int|
                0 <= j < (#[trigger] rounds1[r]).len() && (#[trigger] rounds1[r][j]) == Progress::<
                    T,
                    E,
                >::Success(v);
        let j = choose|j: int|
            0 <= j < rounds1[r].len() && (#[trigger] rounds1[r][j]) == Progress::<T, E>::Success(
                v,
            );
        assert(rounds1[r] == rounds[r + 1]);
        assert(value_succeeds_in(rounds, v)) by {
            assert(0 <= r + 1 < rounds.len() && 0 <= j < rounds[r + 1].len() && rounds[r + 1][j]
                == Progress::<T, E>::Success(v));
        }
    }
}

/// For N ≥ 1 operations of which every one eventually fails — no round
/// ever reports a success, and every initially live slot reports a
/// failure in some round — the race resolves to `None`.
pub proof fn lemma_race_all_fail_resolves_none<T, E>(
    slots: Seq<SlotState>,
    rounds: Seq<Seq<Progress<T, E>>>,
)
    requires
        rounds_wf(slots.len(), rounds),
        rounds.len() >= 1,
        forall|r: int, j: int|
            0 <= r < rounds.len() && 0 <= j < rounds[r].len() ==> !((#[trigger] rounds[r][j])
                is Success),
        forall|i: int|
            0 <= i < slots.len() && (#[trigger] slots[i]) is Pending ==> exists|k: int|
                0 <= k < rounds.len() && (#[trigger] rounds[k][i]) is Failure,
    ensures
        race_outcome(slots, rounds) == PollResult::<Option<T>>::Ready(None),
    decreases rounds.len(),
{
    let ev = rounds[0];
    assert(!round_has_success(slots, ev)) by {
        if round_has_success(slots, ev) {
            let i = choose|i: int| live_success_at(slots, ev, i);
            assert(!(rounds[0][i] is Success));
            assert(false);
        }
    }
    if round_all_failed(slots, ev) {
        // the first round already resolves the race with `None`
    } else {
        let i = choose|i: int| 0 <= i < slots.len() && !(slots[i] is Failed || ev[i] is Failure);
        assert(slots[i] is Pending);
        let k0 = choose|k: int| 0 <= k < rounds.len() && (#[trigger] rounds[k][i]) is Failure;
        assert(rounds.len() >= 2) by {
            if rounds.len() == 1 {
                assert(rounds[k0][i] is Failure);
                assert(false);
            }
        }
        let slots1 = step_slots(slots, ev);
        let rounds1 = rounds.drop_first();
        assert(rounds_wf(slots1.len(), rounds1)) by {
            assert forall|r: int| 0 <= r < rounds1.len() implies (#[trigger] rounds1[r]).len()
                == slots1.len() by {
                assert(rounds1[r] == rounds[r + 1]);
            }
        }
        assert forall|r: int, j: int|
            0 <= r < rounds1.len() && 0 <= j < rounds1[r].len() implies !((
        #[trigger] rounds1[r][j]) is Success) by {
            assert(rounds1[r] == rounds[r + 1]);
            assert(!(rounds[r + 1][j] is Success));
        }
        assert forall|ii: int|
            0 <= ii < slots1.len() && (#[trigger] slots1[ii]) is Pending implies exists|k: int|
            0 <= k < rounds1.len() && (#[trigger] rounds1[k][ii]) is Failure by {
            assert(slots[ii] is Pending && !(ev[ii] is Failure));
            let k = choose|k: int| 0 <= k < rounds.len() && (#[trigger] rounds[k][ii]) is Failure;
            assert(k >= 1);
            assert(rounds1[k - 1] == rounds[k]);
            assert(0 <= k - 1 < rounds1.len() && rounds1[k - 1][ii] is Failure);
        }
        lemma_race_all_fail_resolves_none(slots1, rounds1);
    }
}

/// The race resolves `None` only after every operation has been observed
/// to fail, never before: if the rounds resolve the race with `None`,
/// then every initially live slot reported a failure in some round.
pub proof fn lemma_race_none_only_after_all_fail<T, E>(
    slots: Seq<SlotState>,
    rounds: Seq<Seq<Progress<T, E>>>,
    i: int,
)
    requires
        rounds_wf(slots.len(), rounds),
        race_outcome(slots, rounds) == PollResult::<Option<T>>::Ready(None),
        0 <= i < slots.len(),
        slots[i] is Pending,
    ensures
        exists|k: int| 0 <= k < rounds.len() && (#[trigger] rounds[k][i]) is Failure,
    decreases rounds.len(),
{
    let ev = rounds[0];
    if round_outcome(slots, ev) is Ready {
        assert(round_all_failed(slots, ev));
        assert(ev[i] is Failure);
        assert(0 <= 0 < rounds.len() && rounds[0][i] is Failure);
    } else if ev[i] is Failure {
        assert(0 <= 0 < rounds.len() && rounds[0][i] is Failure);
    } else {
        let slots1 = step_slots(slots, ev);
        let rounds1 = rounds.drop_first();
        assert(slots1[i] is Pending);
        assert(rounds_wf(slots1.len(), rounds1)) by {
            assert forall|r: int| 0 <= r < rounds1.len() implies (#[trigger] rounds1[r]).len()
                == slots1.len() by {
                assert(rounds1[r] == rounds[r + 1]);
            }
        }
        lemma_race_none_only_after_all_fail(slots1, rounds1, i);
        let k = choose|k: int| 0 <= k < rounds1.len() && (#[trigger] rounds1[k][i]) is Failure;
        assert(rounds1[k] == rounds[k + 1]);
        assert(0 <= k + 1 < rounds.len() && rounds[k + 1][i] is Failure);
    }
}

/// An empty race set resolves immediately: with no operation that could
/// ever succeed, the very first poll round reports `None`, whatever its
/// observations.
pub proof fn lemma_empty_race_resolves_none<T, E>(events: Seq<Progress<T, E>>)
    ensures
        round_outcome(Seq::<SlotState>::empty(), events) == PollResult::<Option<T>>::Ready(None),
{
    let slots = Seq::<SlotState>::empty();
    assert(!round_has_success(slots, events)) by {
        if round_has_success(slots, events) {
            let i = choose|i: int| live_success_at(slots, events, i);
            assert(false);
        }
    }
    assert(round_all_failed(slots, events));
}

/// Builds the race set for `n` operations: every slot pending, nothing
/// resolved. The driver registers its `n` operation handles in the same
/// order.
pub fn try_all(n: usize) -> (r: TryAll)
    ensures
        r.slots@.len() == n,
        forall|i: int| 0 <= i < n ==> r.slots@[i] is Pending,
        !r.resolved,
{
    let mut slots: Vec<SlotState> = Vec::new();
    let mut i: usize = 0;
    while i < n
        invariant
            i <= n,
            slots@.len() == i,
            forall|j: int| 0 <= j < i ==> slots@[j] is Pending,
        decreases n - i,
    {
        slots.push(SlotState::Pending);
        i = i + 1;
    }
    TryAll { slots, resolved: false }
}

impl TryAll {
    /// The number of slots in the race set.
    pub fn len(&self) -> (r: usize)
        ensures
            r == self.slots@.len(),
    {
        self.slots.len()
    }

    /// Whether the race has resolved. Polling a resolved combinator is a
    /// caller error; a driver checks this first.
    pub fn is_resolved(&self) -> (r: bool)
        ensures
            r == self.resolved,
    {
        self.resolved
    }

    /// Whether slot `i` is still live. The driver polls exactly the live
    /// slots each round, so a round costs work proportional to the number
    /// of still-pending operations, and a failed operation is never polled
    /// again.
    pub fn slot_is_pending(&self, i: usize) -> (r: bool)
        requires
            i < self.slots@.len(),
        ensures
            r == (self.slots@[i as int] is Pending),
    {
        match self.slots[i] {
            SlotState::Pending => true,
            SlotState::Failed => false,
        }
    }

    /// One poll round. `events[i]` is what the operation in slot `i`
    /// reported; for a slot that is already terminated (and hence was not
    /// polled) the driver passes the placeholder `Progress::Pending`, which
    /// the round ignores.
    ///
    /// The round decides exactly [`round_outcome`]: the first live success
    /// resolves the race with `Some(value)` and all remaining work is
    /// discarded; if every operation has now failed the race resolves with
    /// `None`; otherwise the new failures are marked terminated and the
    /// race stays pending.
    ///
    /// Re-polling a resolved combinator is a contract violation, excluded
    /// by `requires`; a driver treats it as fatal rather than asking for a
    /// stale answer.
    pub fn poll_round<T, E>(&mut self, events: Vec<Progress<T, E>>) -> (r: PollResult<
        Option<T>,
    >)
        requires
            !old(self).resolved,
            events@.len() == old(self).slots@.len(),
        ensures
            r == round_outcome(old(self).slots@, events@),
            final(self).resolved == (r is Ready),
            r is Ready ==> final(self).slots@.len() == 0,
            !(r is Ready) ==> final(self).slots@ == step_slots(old(self).slots@, events@),
    {
        let ghost slots0 = self.slots@;
        let ghost ev = events@;
        let n: usize = self.slots.len();
        let mut events = events;
        let mut i: usize = 0;
        let mut all_failed = true;
        let mut winner: Option<usize> = None;
        while i < n
            invariant
                n == slots0.len(),
                ev.len() == n,
                i <= n,
                self.slots@.len() == n,
                self.resolved == false,
                events@ == ev,
                forall|j: int| 0 <= j < i ==> self.slots@[j] == step_slots(slots0, ev)[j],
                forall|j: int| i <= j < n ==> self.slots@[j] == slots0[j],
                all_failed == forall|j: int|
                    0 <= j < i ==> (slots0[j] is Failed || ev[j] is Failure),
                winner is None ==> forall|j: int| 0 <= j < i ==> !live_success_at(slots0, ev, j),
                winner matches Some(w) ==> i < n && w == i && round_wins_at(slots0, ev, i as int),
            ensures
                self.slots@.len() == n,
                self.resolved == false,
                events@ == ev,
                winner matches Some(w) ==> w < n && round_wins_at(slots0, ev, w as int),
                winner is None ==> i == n,
                winner is None ==> forall|j: int| 0 <= j < n ==> !live_success_at(slots0, ev, j),
                winner is None ==> all_failed == forall|j: int|
                    0 <= j < n ==> (slots0[j] is Failed || ev[j] is Failure),
                winner is None ==> forall|j: int|
                    0 <= j < n ==> self.slots@[j] == step_slots(slots0, ev)[j],
            decreases n - i,
        {
            let live = self.slot_is_pending(i);
            if live {
                match &events[i] {
                    Progress::Pending => {
                        all_failed = false;
                        i = i + 1;
                    },
                    Progress::Success(_) => {
                        winner = Some(i);
                        break;
                    },
                    Progress::Failure(_) => {
                        self.slots[i] = SlotState::Failed;
                        i = i + 1;
                    },
                }
            } else {
                i = i + 1;
            }
        }
        match winner {
            Some(w) => {
                proof {
                    lemma_round_winner_unique::<T, E>(slots0, ev, w as int);
                }
                let event = events.remove(w);
                let value = match event {
                    Progress::Success(v) => v,
                    Progress::Pending => vstd::pervasive::unreached(),
                    Progress::Failure(_) => vstd::pervasive::unreached(),
                };
                self.slots = Vec::new();
                self.resolved = true;
                PollResult::Ready(Some(value))
            },
            None => {
                if all_failed {
                    self.slots = Vec::new();
                    self.resolved = true;
                    PollResult::Ready(None)
                } else {
                    proof {
                        assert(self.slots@ =~= step_slots(slots0, ev));
                    }
                    PollResult::Pending
                }
            },
        }
    }
}

} // verus!
