use send_modes::send_modes::error::LibError;
use send_modes::tools::{AttemptOutcome, ExecAction, RequestExecution};

/// Drives one execution against a scripted transport, the way the I/O
/// loop does, counting the sends that were started and summing the
/// sleeps the machine ordered.
fn drive(
    cloneable: bool,
    mut outcomes: Vec<AttemptOutcome>,
) -> (Result<u16, LibError>, u64, u64, u64) {
    let mut sends: u64 = 0;
    let mut slept_ms: u64 = 0;
    let mut ex = match RequestExecution::start(cloneable) {
        Ok(ex) => ex,
        Err(e) => return (Err(e), 0, 0, 0),
    };
    loop {
        match ex.next_action() {
            ExecAction::Attempt { deadline_ms } => {
                assert_eq!(deadline_ms, 500);
                sends += 1;
                let outcome = outcomes.remove(0);
                if let Some(delay) = ex.on_outcome(outcome) {
                    slept_ms += delay;
                }
            }
            ExecAction::Finish(done) => {
                return (done, sends, slept_ms, ex.elapsed_lower_ms);
            }
        }
    }
}

#[test]
fn uncloneable_request_fails_without_any_attempt() {
    let (result, sends, _, _) = drive(false, vec![]);
    assert_eq!(result, Err(LibError::InternalServerError));
    assert_eq!(sends, 0);
}

#[test]
fn four_timeouts_then_success_returns_response_with_elapsed_bound() {
    let outcomes = vec![
        AttemptOutcome::TimedOut,
        AttemptOutcome::TimedOut,
        AttemptOutcome::TimedOut,
        AttemptOutcome::TimedOut,
        AttemptOutcome::Completed { status: 200 },
    ];
    let (result, sends, slept_ms, elapsed_lower) = drive(true, outcomes);
    assert_eq!(result, Ok(200));
    assert_eq!(sends, 5);
    assert_eq!(slept_ms, 4 * 100);
    assert!(elapsed_lower >= 4 * 100 + 4 * 500);
}

#[test]
fn http_error_status_is_returned_on_first_attempt_without_retry() {
    let (result, sends, slept_ms, _) = drive(true, vec![AttemptOutcome::Completed { status: 404 }]);
    assert_eq!(result, Ok(404));
    assert_eq!(sends, 1);
    assert_eq!(slept_ms, 0);
}

#[test]
fn exhausted_timeouts_surface_the_last_transient_error() {
    let outcomes = vec![AttemptOutcome::TimedOut; 5];
    let (result, sends, _, _) = drive(true, outcomes);
    assert_eq!(result, Err(LibError::TimeOut));
    assert_eq!(sends, 5);
}

#[test]
fn exhausted_send_failures_surface_the_last_message() {
    let outcomes = vec![
        AttemptOutcome::TimedOut,
        AttemptOutcome::TimedOut,
        AttemptOutcome::TimedOut,
        AttemptOutcome::TimedOut,
        AttemptOutcome::SendFailed {
            message: "connection refused".to_owned(),
        },
    ];
    let (result, sends, _, _) = drive(true, outcomes);
    assert_eq!(result, Err(LibError::IOError("connection refused".to_owned())));
    assert_eq!(sends, 5);
}

#[test]
fn transient_failure_then_success_recovers() {
    let outcomes = vec![
        AttemptOutcome::SendFailed {
            message: "broken pipe".to_owned(),
        },
        AttemptOutcome::Completed { status: 201 },
    ];
    let (result, sends, slept_ms, _) = drive(true, outcomes);
    assert_eq!(result, Ok(201));
    assert_eq!(sends, 2);
    assert_eq!(slept_ms, 100);
}
