use first_success::outcome::{PollResult, Progress};
use first_success::server::{Binary, ServerError, ServerName};
use first_success::supervisor::{supervisor, SupervisorAction, TaskOutcome};
use first_success::try_all::try_all;
use first_success::try_at_most_one::try_at_most_one;

/// Ten operations, each failing after a different number of wake-ups: the
/// race stays pending until the last failure and then resolves `None`.
#[test]
fn test_try_all_all_fail() {
    let mut race = try_all(10);
    // The operation in slot 9 has the fewest ticks left and fails first;
    // slot 0 fails last. One failure arrives per round.
    for round in 0..10 {
        let failing = 9 - round;
        let mut events: Vec<Progress<usize, String>> = Vec::new();
        for slot in 0..10 {
            if slot == failing {
                events.push(Progress::Failure("Bad".to_string()));
            } else {
                events.push(Progress::Pending);
            }
        }
        let r = race.poll_round(events);
        if round < 9 {
            assert_eq!(r, PollResult::Pending);
            assert!(!race.is_resolved());
        } else {
            assert_eq!(r, PollResult::Ready(None));
        }
    }
}

/// Ten operations finish in the same round: nine fail and the tenth
/// succeeds, so the race resolves with its value.
#[test]
fn test_try_all_once_success() {
    let mut race = try_all(10);
    let mut events: Vec<Progress<usize, String>> = Vec::new();
    for idx in 1..=10 {
        if idx == 10 {
            events.push(Progress::Success(0));
        } else {
            events.push(Progress::Failure("Bad".to_string()));
        }
    }
    let r = race.poll_round(events);
    assert_eq!(r, PollResult::Ready(Some(0_usize)));
}

/// The four immediate outcomes of the binary race: either success wins at
/// once, and when both fail the first operand's error is returned.
#[test]
fn test_try_at_most_one() {
    let mut pair = try_at_most_one::<String>();
    let r: PollResult<Result<usize, String>> =
        pair.poll_pair(Progress::Success(0), Progress::Success(1));
    assert_eq!(r, PollResult::Ready(Ok(0)));

    let mut pair = try_at_most_one::<String>();
    let r: PollResult<Result<usize, String>> =
        pair.poll_pair(Progress::Failure("Bad".to_string()), Progress::Success(0));
    assert_eq!(r, PollResult::Ready(Ok(0)));

    let mut pair = try_at_most_one::<String>();
    let r: PollResult<Result<usize, String>> =
        pair.poll_pair(Progress::Success(0), Progress::Failure("Bad".to_string()));
    assert_eq!(r, PollResult::Ready(Ok(0)));

    let mut pair = try_at_most_one::<String>();
    let r: PollResult<Result<usize, String>> = pair.poll_pair(
        Progress::Failure("Bad".to_string()),
        Progress::Failure("Really bad".to_string()),
    );
    assert_eq!(r, PollResult::Ready(Err("Bad".to_string())));
}

/// An empty race set resolves immediately to `None` on the first poll.
#[test]
fn test_try_all_empty() {
    let mut race = try_all(0);
    let r: PollResult<Option<usize>> = race.poll_round::<usize, String>(Vec::new());
    assert_eq!(r, PollResult::Ready(None));
    assert!(race.is_resolved());
}

/// A slot that failed is excluded from later rounds, and the race keeps
/// going on the remaining slots until one succeeds.
#[test]
fn test_try_all_success_after_failures() {
    let mut race = try_all(3);
    let r = race.poll_round::<usize, String>(vec![
        Progress::Failure("Bad".to_string()),
        Progress::Pending,
        Progress::Pending,
    ]);
    assert_eq!(r, PollResult::Pending);
    assert!(!race.slot_is_pending(0));
    assert!(race.slot_is_pending(1));
    assert!(race.slot_is_pending(2));
    let r = race.poll_round::<usize, String>(vec![
        Progress::Pending,
        Progress::Pending,
        Progress::Success(42),
    ]);
    assert_eq!(r, PollResult::Ready(Some(42)));
}

/// Within one round the tie-break is positional: the first slot in
/// registration order to report a success wins.
#[test]
fn test_try_all_positional_tie_break() {
    let mut race = try_all(3);
    let r = race.poll_round::<usize, String>(vec![
        Progress::Pending,
        Progress::Success(1),
        Progress::Success(2),
    ]);
    assert_eq!(r, PollResult::Ready(Some(1)));
}

/// Operand B fails first in wall-clock order, yet once A also fails the
/// returned error is A's, by the priority rule.
#[test]
fn test_try_at_most_one_b_fails_first() {
    let mut pair = try_at_most_one::<String>();
    let r: PollResult<Result<usize, String>> = pair.poll_pair(
        Progress::Pending,
        Progress::Failure("second down".to_string()),
    );
    assert_eq!(r, PollResult::Pending);
    assert!(!pair.b_is_pending());
    assert!(pair.a_is_pending());
    let r: PollResult<Result<usize, String>> = pair.poll_pair(
        Progress::Failure("first down".to_string()),
        Progress::Pending,
    );
    assert_eq!(r, PollResult::Ready(Err("first down".to_string())));
}

/// A success from the still-live operand resolves the race even after the
/// other operand has already failed.
#[test]
fn test_try_at_most_one_late_success() {
    let mut pair = try_at_most_one::<String>();
    let r: PollResult<Result<usize, String>> =
        pair.poll_pair(Progress::Pending, Progress::Failure("Bad".to_string()));
    assert_eq!(r, PollResult::Pending);
    let r: PollResult<Result<usize, String>> =
        pair.poll_pair(Progress::Success(7), Progress::Pending);
    assert_eq!(r, PollResult::Ready(Ok(7)));
}

/// The scenario of ten download sources where only the tenth ever
/// succeeds: the race resolves with the binary fetched from "Diez".
#[test]
fn test_try_all_diez_succeeds() {
    let names = [
        "Uno", "Dos", "Tres", "Quatro", "Cinco", "Seis", "Siete", "Ocho", "Nueve", "Diez",
    ];
    let mut race = try_all(names.len());
    let mut events: Vec<Progress<Binary, ServerError>> = Vec::new();
    for (i, name) in names.iter().enumerate() {
        if i == 9 {
            events.push(Progress::Success(Binary {
                from: ServerName(name.to_string()),
            }));
        } else {
            events.push(Progress::Failure(ServerError::Disconnected(ServerName(
                name.to_string(),
            ))));
        }
    }
    match race.poll_round(events) {
        PollResult::Ready(Some(binary)) => assert_eq!(binary.from.0, "Diez"),
        _ => panic!("the race must resolve with the binary from Diez"),
    }
}

/// Every failure is respawned under exactly the key its error carries,
/// with the in-flight count unchanged; the first success halts the loop.
#[test]
fn test_supervisor_respawns_failures() {
    let mut sup = supervisor(3);
    let act = sup.on_task_result::<Binary>(TaskOutcome::Failure(ServerError::Disconnected(
        ServerName("Uno".to_string()),
    )));
    match act {
        SupervisorAction::Respawn(name) => assert_eq!(name.0, "Uno"),
        _ => panic!("a failure must be respawned, never surfaced"),
    }
    assert!(!sup.is_halted());
    assert_eq!(sup.in_flight(), 3);

    let act = sup.on_task_result::<Binary>(TaskOutcome::Failure(ServerError::Disconnected(
        ServerName("Dos".to_string()),
    )));
    match act {
        SupervisorAction::Respawn(name) => assert_eq!(name.0, "Dos"),
        _ => panic!("a failure must be respawned, never surfaced"),
    }
    assert_eq!(sup.in_flight(), 3);

    let act = sup.on_task_result(TaskOutcome::Success(Binary {
        from: ServerName("Tres".to_string()),
    }));
    match act {
        SupervisorAction::Halt(binary) => assert_eq!(binary.from.0, "Tres"),
        _ => panic!("a success must halt the loop"),
    }
    assert!(sup.is_halted());
    assert_eq!(sup.in_flight(), 0);
}

/// The error of a failed attempt carries the server's key back.
#[test]
fn test_server_error_carries_key() {
    let err = ServerError::Disconnected(ServerName("Nueve".to_string()));
    assert_eq!(err.server_name().0, "Nueve");
}

/// Once a combinator has resolved it reports so, and a driver must treat
/// polling it again as a contract violation: `poll_round` and `poll_pair`
/// require an unresolved combinator, so a driver checks `is_resolved`
/// first and fails hard instead of asking for a stale answer.
#[test]
fn test_resolved_combinator_detected() {
    let mut race = try_all(1);
    assert!(!race.is_resolved());
    let r = race.poll_round::<usize, String>(vec![Progress::Success(3)]);
    assert_eq!(r, PollResult::Ready(Some(3)));
    assert!(race.is_resolved());

    let mut pair = try_at_most_one::<String>();
    assert!(!pair.is_resolved());
    let r: PollResult<Result<usize, String>> =
        pair.poll_pair(Progress::Success(3), Progress::Pending);
    assert_eq!(r, PollResult::Ready(Ok(3)));
    assert!(pair.is_resolved());
}
