pub mod send_mode_client;

use vstd::prelude::*;
use crate::send_modes::error::LibError;
use crate::strutil::{seq_contains, str_contains};

verus! {

/// The fixed retry policy of the request executor: up to five attempts,
/// a fixed hundred-millisecond interval between attempts, and a hard
/// five-hundred-millisecond deadline on each attempt. The interval is
/// deliberately fixed, not exponential.
pub open spec fn spec_max_attempts() -> u64 {
    5
}

pub open spec fn spec_retry_interval_ms() -> u64 {
    100
}

pub open spec fn spec_attempt_deadline_ms() -> u64 {
    500
}

/// How one attempt ended, as the surrounding I/O loop reports it.
#[derive(Debug, Clone, PartialEq, Eq)]
pub enum AttemptOutcome {
    /// The send completed with a response carrying this HTTP status.
    /// Any completed send ends the loop, whatever the status.
    Completed { status: u16 },
    /// The per-attempt deadline was breached.
    TimedOut,
    /// A transport-level send failure, with the transport's message.
    SendFailed { message: String },
}

/// What the surrounding I/O loop must do next.
#[derive(Debug)]
pub enum ExecAction {
    /// Start one send, bounded by this deadline in milliseconds.
    Attempt { deadline_ms: u64 },
    /// The run is over: a response was accepted (`Ok`, with its status)
    /// or the attempts were exhausted (`Err`, the last transient error).
    Finish(Result<u16, LibError>),
}

/// The sequential state of one resilient request execution: the
/// decisions of the retry loop, kept apart from the I/O that carries
/// them out. The loop is strictly sequential; the only mutable per-call
/// state is here.
#[derive(Debug, Clone)]
pub struct RequestExecution {
    /// Attempts fully classified so far.
    pub attempts_done: u64,
    /// The status of the accepted response, once one send completed.
    pub accepted_status: Option<u16>,
    /// The last transient error, present as soon as one attempt failed.
    pub last_error: Option<LibError>,
    /// A lower bound, in milliseconds, on the wall time this run has
    /// spent: each timed-out attempt consumed its full deadline, and
    /// each retry waited the full interval.
    pub elapsed_lower_ms: u64,
}

impl RequestExecution {
    /// The state is consistent with the policy.
    pub open spec fn wf(self) -> bool {
        &&& self.attempts_done <= spec_max_attempts()
        &&& (self.attempts_done > 0 && self.accepted_status is None ==> self.last_error is Some)
        &&& (self.last_error matches Some(e) ==> (e is TimeOut || e is IOError))
        &&& self.elapsed_lower_ms <= self.attempts_done * (spec_attempt_deadline_ms()
            + spec_retry_interval_ms())
    }

    /// The run is still in progress: no response accepted, attempts left.
    pub open spec fn in_progress(self) -> bool {
        self.accepted_status is None && self.attempts_done < spec_max_attempts()
    }

    /// Starts one execution. A request whose body cannot be replayed is
    /// rejected up front with `InternalError`: no attempt is made and no
    /// state is created.
    pub fn start(request_cloneable: bool) -> (r: Result<RequestExecution, LibError>)
        ensures
            match r {
                Ok(e) => request_cloneable && e.attempts_done == 0 && e.accepted_status is None
                    && e.last_error is None && e.elapsed_lower_ms == 0 && e.wf(),
                Err(err) => !request_cloneable && err == LibError::InternalServerError,
            },
    {
        if request_cloneable {
            Ok(
                RequestExecution {
                    attempts_done: 0,
                    accepted_status: None,
                    last_error: None,
                    elapsed_lower_ms: 0,
                },
            )
        } else {
            Err(LibError::InternalServerError)
        }
    }

    /// What to do next: attempt a send while the run is in progress,
    /// else finish — with the accepted response's status however it
    /// ended, or with the last transient error once all five attempts
    /// are exhausted.
    pub fn next_action(&self) -> (r: ExecAction)
        requires
            self.wf(),
        ensures
            match r {
                ExecAction::Attempt { deadline_ms } => self.in_progress() && deadline_ms
                    == spec_attempt_deadline_ms(),
                ExecAction::Finish(done) => !self.in_progress() && match done {
                    Ok(status) => self.accepted_status == Some(status),
                    Err(e) => self.accepted_status is None && self.attempts_done
                        == spec_max_attempts() && self.last_error == Some(e),
                },
            },
    {
        match self.accepted_status {
            Some(status) => ExecAction::Finish(Ok(status)),
            None => {
                if self.attempts_done < 5 {
                    ExecAction::Attempt { deadline_ms: 500 }
                } else {
                    match &self.last_error {
                        Some(e) => ExecAction::Finish(Err(e.clone())),
                        None => ExecAction::Finish(Err(LibError::InternalServerError)),
                    }
                }
            },
        }
    }

    /// Classifies one attempt's outcome. A completed send is accepted at
    /// once, whatever its HTTP status: application-level errors are not
    /// retried. A deadline breach is the transient `TimeOut`; a send
    /// failure is the transient `IOError`; both are retried after the
    /// fixed interval while attempts remain. Returns the interval, in
    /// milliseconds, the loop must wait before the next attempt, or
    /// `None` when it must not wait.
    pub fn on_outcome(&mut self, outcome: AttemptOutcome) -> (r: Option<u64>)
        requires
            old(self).wf(),
            old(self).in_progress(),
        ensures
            final(self).wf(),
            final(self).attempts_done == old(self).attempts_done + 1,
            match outcome {
                AttemptOutcome::Completed { status } => {
                    &&& final(self).accepted_status == Some(status)
                    &&& final(self).last_error == old(self).last_error
                    &&& final(self).elapsed_lower_ms == old(self).elapsed_lower_ms
                    &&& r is None
                },
                AttemptOutcome::TimedOut => {
                    &&& final(self).accepted_status is None
                    &&& final(self).last_error == Some(LibError::TimeOut)
                    &&& final(self).elapsed_lower_ms == old(self).elapsed_lower_ms
                        + spec_attempt_deadline_ms() + (if old(self).attempts_done + 1
                        < spec_max_attempts() {
                        spec_retry_interval_ms() as int
                    } else {
                        0
                    })
                    &&& r == (if old(self).attempts_done + 1 < spec_max_attempts() {
                        Some(spec_retry_interval_ms())
                    } else {
                        None::<u64>
                    })
                },
                AttemptOutcome::SendFailed { message } => {
                    &&& final(self).accepted_status is None
                    &&& final(self).last_error == Some(LibError::IOError(message))
                    &&& final(self).elapsed_lower_ms == old(self).elapsed_lower_ms + (if old(
                        self,
                    ).attempts_done + 1 < spec_max_attempts() {
                        spec_retry_interval_ms() as int
                    } else {
                        0
                    })
                    &&& r == (if old(self).attempts_done + 1 < spec_max_attempts() {
                        Some(spec_retry_interval_ms())
                    } else {
                        None::<u64>
                    })
                },
            },
    {
        proof {
            let a = old(self).attempts_done as int;
            let el = old(self).elapsed_lower_ms as int;
            assert(spec_attempt_deadline_ms() + spec_retry_interval_ms() == 600);
            assert(a <= 4);
            assert(el <= a * 600);
            assert(el <= 2400) by (nonlinear_arith)
                requires
                    el <= a * 600,
                    a <= 4,
            ;
            assert((a + 1) * 600 == a * 600 + 600) by (nonlinear_arith);
        }
        self.attempts_done = self.attempts_done + 1;
        match outcome {
            AttemptOutcome::Completed { status } => {
                self.accepted_status = Some(status);
                None
            },
            AttemptOutcome::TimedOut => {
                self.last_error = Some(LibError::TimeOut);
                self.elapsed_lower_ms = self.elapsed_lower_ms + 500;
                if self.attempts_done < 5 {
                    self.elapsed_lower_ms = self.elapsed_lower_ms + 100;
                    Some(100)
                } else {
                    None
                }
            },
            AttemptOutcome::SendFailed { message } => {
                self.last_error = Some(LibError::IOError(message));
                if self.attempts_done < 5 {
                    self.elapsed_lower_ms = self.elapsed_lower_ms + 100;
                    Some(100)
                } else {
                    None
                }
            },
        }
    }
}

/// Whether an error's message looks like a connection-level failure:
/// it mentions a connection or a timeout.
pub fn is_connection_err(e: &str) -> (r: bool)
    ensures
        r == (seq_contains(e@, "connection"@) || seq_contains(e@, "broken"@) || seq_contains(
            e@,
            "time"@,
        ) || seq_contains(e@, "timed"@) || seq_contains(e@, "conn"@)),
{
    str_contains(e, "connection") || str_contains(e, "broken") || str_contains(e, "time")
        || str_contains(e, "timed") || str_contains(e, "conn")
}

} // verus!
