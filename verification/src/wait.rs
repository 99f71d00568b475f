//! Completion waiter: poll a resource's reported status on a bounded
//! interval until it reaches a terminal state or the caller's budget is
//! exhausted. The waiter holds no state between polls beyond the number
//! of attempts made and how many reads in a row have failed.

use vstd::prelude::*;
use crate::errors::WaitError;

verus! {

/// The status the remote side reports for a snapshot. `Completed` and
/// `Error` are terminal: no further transition occurs from them.
#[derive(Debug, Clone, Copy, PartialEq, Eq, Structural)]
pub enum SnapshotStatus {
    Pending,
    Completing,
    Completed,
    Error,
}

/// One status read's report: the status, and — meaningful when the
/// status is the terminal error state — the remote-reported reason.
pub struct StatusReport {
    pub status: SnapshotStatus,
    pub reason: String,
}

/// What one poll of the remote status produced.
pub enum PollResult {
    /// The read returned the resource's status.
    Report(StatusReport),
    /// The read itself failed; carries the failure's message.
    ReadFailed(String),
}

/// Caller-supplied bounds on one wait, immutable for its duration.
pub struct WaitParams {
    /// Milliseconds between two polls.
    pub interval_millis: u64,
    /// How many polls may be made in all before the wait times out.
    pub max_attempts: u64,
    /// How many consecutive failed status reads are tolerated before the
    /// wait gives up polling.
    pub max_read_retries: u64,
}

impl Default for WaitParams {
    /// Poll every 15 seconds, at most 40 times, tolerating up to 3
    /// consecutive failed reads.
    fn default() -> (r: WaitParams)
        ensures
            r.interval_millis == 15000,
            r.max_attempts == 40,
            r.max_read_retries == 3,
    {
        WaitParams { interval_millis: 15000, max_attempts: 40, max_read_retries: 3 }
    }
}

/// What the waiter remembers between polls.
#[derive(Debug, Clone, Copy, PartialEq, Eq, Structural)]
pub struct WaitState {
    pub attempts_made: u64,
    pub consecutive_read_failures: u64,
}

/// The waiter's state before any poll.
pub open spec fn spec_initial_state() -> WaitState {
    WaitState { attempts_made: 0, consecutive_read_failures: 0 }
}

/// What to do after one poll.
pub enum WaitStep {
    /// Poll again after this many milliseconds.
    Continue { next: WaitState, delay_millis: u64 },
    /// The resource completed.
    Done,
    /// The wait ended short of completion.
    Failed(WaitError),
}

/// Advance the waiter by one poll: a terminal status ends the wait at
/// once, a non-terminal status or a retriable read failure costs one
/// attempt from the budget, and a read failure past the retry bound ends
/// the wait as a poll failure.
pub fn wait_step(params: &WaitParams, state: WaitState, poll: &PollResult) -> (r: WaitStep)
    requires
        state.attempts_made < u64::MAX,
        state.consecutive_read_failures < u64::MAX,
    ensures
        poll matches PollResult::Report(rep) ==> ({
            &&& rep.status == SnapshotStatus::Completed ==> (r matches WaitStep::Done)
            &&& rep.status == SnapshotStatus::Error ==> (r matches WaitStep::Failed(e)
                && e matches WaitError::RemoteError { reason } && reason@ == rep.reason@)
            &&& (rep.status == SnapshotStatus::Pending || rep.status
                == SnapshotStatus::Completing) ==> (if state.attempts_made + 1
                >= params.max_attempts {
                r matches WaitStep::Failed(e) && e matches WaitError::Timeout
            } else {
                r matches WaitStep::Continue { next, delay_millis } && next.attempts_made
                    == state.attempts_made + 1 && next.consecutive_read_failures == 0
                    && delay_millis == params.interval_millis
            })
        }),
        poll matches PollResult::ReadFailed(msg) ==> (if state.consecutive_read_failures + 1
            > params.max_read_retries {
            r matches WaitStep::Failed(e) && e matches WaitError::PollFailed { message }
                && message@ == msg@
        } else if state.attempts_made + 1 >= params.max_attempts {
            r matches WaitStep::Failed(e) && e matches WaitError::Timeout
        } else {
            r matches WaitStep::Continue { next, delay_millis } && next.attempts_made
                == state.attempts_made + 1 && next.consecutive_read_failures
                == state.consecutive_read_failures + 1 && delay_millis == params.interval_millis
        }),
{
    match poll {
        PollResult::Report(rep) => match rep.status {
            SnapshotStatus::Completed => WaitStep::Done,
            SnapshotStatus::Error => WaitStep::Failed(
                WaitError::RemoteError { reason: rep.reason.clone() },
            ),
            _ => {
                if state.attempts_made + 1 >= params.max_attempts {
                    WaitStep::Failed(WaitError::Timeout)
                } else {
                    WaitStep::Continue {
                        next: WaitState {
                            attempts_made: state.attempts_made + 1,
                            consecutive_read_failures: 0,
                        },
                        delay_millis: params.interval_millis,
                    }
                }
            },
        },
        PollResult::ReadFailed(msg) => {
            if state.consecutive_read_failures + 1 > params.max_read_retries {
                WaitStep::Failed(WaitError::PollFailed { message: msg.clone() })
            } else if state.attempts_made + 1 >= params.max_attempts {
                WaitStep::Failed(WaitError::Timeout)
            } else {
                WaitStep::Continue {
                    next: WaitState {
                        attempts_made: state.attempts_made + 1,
                        consecutive_read_failures: state.consecutive_read_failures + 1,
                    },
                    delay_millis: params.interval_millis,
                }
            }
        },
    }
}

/// How a replayed wait ends, before any reason string is attached.
#[derive(Debug, Clone, Copy, PartialEq, Eq, Structural)]
pub enum WaitVerdict {
    Completed,
    RemoteError,
    PollFailed,
    TimedOut,
}

/// How many polls a wait over this poll sequence makes, and how it ends.
/// A sequence that runs out before a terminal status stands for a
/// resource that never progressed: the wait times out.
pub open spec fn spec_wait(params: WaitParams, polls: Seq<PollResult>, state: WaitState) -> (
    nat,
    WaitVerdict,
)
    decreases polls.len(),
{
    if polls.len() == 0 {
        (0, WaitVerdict::TimedOut)
    } else {
        match polls[0] {
            PollResult::Report(rep) => {
                if rep.status == SnapshotStatus::Completed {
                    (1, WaitVerdict::Completed)
                } else if rep.status == SnapshotStatus::Error {
                    (1, WaitVerdict::RemoteError)
                } else if state.attempts_made + 1 >= params.max_attempts {
                    (1, WaitVerdict::TimedOut)
                } else {
                    let rec = spec_wait(
                        params,
                        polls.drop_first(),
                        WaitState {
                            attempts_made: (state.attempts_made + 1) as u64,
                            consecutive_read_failures: 0,
                        },
                    );
                    (rec.0 + 1, rec.1)
                }
            },
            PollResult::ReadFailed(_) => {
                if state.consecutive_read_failures + 1 > params.max_read_retries {
                    (1, WaitVerdict::PollFailed)
                } else if state.attempts_made + 1 >= params.max_attempts {
                    (1, WaitVerdict::TimedOut)
                } else {
                    let rec = spec_wait(
                        params,
                        polls.drop_first(),
                        WaitState {
                            attempts_made: (state.attempts_made + 1) as u64,
                            consecutive_read_failures: (state.consecutive_read_failures
                                + 1) as u64,
                        },
                    );
                    (rec.0 + 1, rec.1)
                }
            },
        }
    }
}

/// The outcome of one wait: how many polls were made, and how it ended.
pub struct WaitOutcome {
    pub polls_made: usize,
    pub result: Result<(), WaitError>,
}

/// Replay a wait from poll `from` onward with the waiter in `state`.
fn wait_from(
    params: &WaitParams,
    polls: &Vec<PollResult>,
    from: usize,
    state: WaitState,
) -> (r: WaitOutcome)
    requires
        params.max_attempts < u64::MAX,
        params.max_read_retries < u64::MAX,
        from <= polls@.len(),
        state.attempts_made < u64::MAX,
        state.consecutive_read_failures < u64::MAX,
    ensures
        ({
            let w = spec_wait(*params, polls@.skip(from as int), state);
            &&& r.polls_made == w.0
            &&& from + r.polls_made <= polls@.len()
            &&& (w.1 == WaitVerdict::Completed ==> (r.result matches Ok(())))
            &&& (w.1 == WaitVerdict::TimedOut ==> (r.result matches Err(e)
                && e matches WaitError::Timeout))
            &&& (w.1 == WaitVerdict::RemoteError ==> (r.result matches Err(e)
                && e matches WaitError::RemoteError { reason }
                && polls@[from + r.polls_made - 1] matches PollResult::Report(rep)
                && reason@ == rep.reason@))
            &&& (w.1 == WaitVerdict::PollFailed ==> (r.result matches Err(e)
                && e matches WaitError::PollFailed { message }
                && polls@[from + r.polls_made - 1] matches PollResult::ReadFailed(msg)
                && message@ == msg@))
        }),
    decreases polls@.len() - from,
{
    let ghost suffix = polls@.skip(from as int);
    if from == polls.len() {
        return WaitOutcome { polls_made: 0, result: Err(WaitError::Timeout) };
    }
    proof {
        assert(suffix[0] == polls@[from as int]);
        assert(suffix.drop_first() =~= polls@.skip(from as int + 1));
    }
    let step = wait_step(params, state, &polls[from]);
    match step {
        WaitStep::Done => WaitOutcome { polls_made: 1, result: Ok(()) },
        WaitStep::Failed(e) => WaitOutcome { polls_made: 1, result: Err(e) },
        WaitStep::Continue { next, delay_millis: _ } => {
            let rest = wait_from(params, polls, from + 1, next);
            WaitOutcome { polls_made: rest.polls_made + 1, result: rest.result }
        },
    }
}

/// Poll until the resource completes, errors, a status read fails past
/// its retry bound, or the attempt budget is exhausted, taking each
/// successive poll's result from `polls` and spending one attempt per
/// poll of a non-terminal status. Returns how many polls were made and
/// the wait's outcome; a `polls` sequence that runs out before a
/// terminal status stands for a resource that never progressed, and the
/// wait times out.
pub fn wait_for_completed(params: &WaitParams, polls: &Vec<PollResult>) -> (r: WaitOutcome)
    requires
        params.max_attempts < u64::MAX,
        params.max_read_retries < u64::MAX,
    ensures
        ({
            let w = spec_wait(*params, polls@, spec_initial_state());
            &&& r.polls_made == w.0
            &&& r.polls_made <= polls@.len()
            &&& (w.1 == WaitVerdict::Completed ==> (r.result matches Ok(())))
            &&& (w.1 == WaitVerdict::TimedOut ==> (r.result matches Err(e)
                && e matches WaitError::Timeout))
            &&& (w.1 == WaitVerdict::RemoteError ==> (r.result matches Err(e)
                && e matches WaitError::RemoteError { reason }
                && polls@[r.polls_made - 1] matches PollResult::Report(rep)
                && reason@ == rep.reason@))
            &&& (w.1 == WaitVerdict::PollFailed ==> (r.result matches Err(e)
                && e matches WaitError::PollFailed { message }
                && polls@[r.polls_made - 1] matches PollResult::ReadFailed(msg)
                && message@ == msg@))
        }),
{
    proof {
        assert(polls@.skip(0) =~= polls@);
    }
    wait_from(params, polls, 0, WaitState { attempts_made: 0, consecutive_read_failures: 0 })
}

} // verus!
