//! The completion waiter replayed against recorded poll sequences, the
//! retry/backoff decisions, the error cause-chain rendering, and the tag
//! conversion.

use coldsnap::errors::{error_stack, WaitError};
use coldsnap::retry::{
    backoff_delay_millis, retry_decision, AttemptOutcome, RetryDecision, RetryPolicy,
};
use coldsnap::tag::{KeyValueRecord, TagVec};
use coldsnap::wait::{
    wait_for_completed, PollResult, SnapshotStatus, StatusReport, WaitParams,
};

fn report(status: SnapshotStatus) -> PollResult {
    PollResult::Report(StatusReport { status, reason: String::new() })
}

fn params(max_attempts: u64) -> WaitParams {
    WaitParams { interval_millis: 15000, max_attempts, max_read_retries: 3 }
}

#[test]
fn wait_succeeds_after_exactly_three_polls() {
    let polls = vec![
        report(SnapshotStatus::Pending),
        report(SnapshotStatus::Pending),
        report(SnapshotStatus::Completed),
    ];
    let outcome = wait_for_completed(&params(10), &polls);
    assert_eq!(outcome.polls_made, 3);
    assert_eq!(outcome.result, Ok(()));
}

#[test]
fn wait_times_out_when_budget_is_exceeded() {
    let polls = vec![
        report(SnapshotStatus::Pending),
        report(SnapshotStatus::Pending),
        report(SnapshotStatus::Pending),
        report(SnapshotStatus::Pending),
        report(SnapshotStatus::Pending),
    ];
    let outcome = wait_for_completed(&params(3), &polls);
    assert_eq!(outcome.polls_made, 3);
    assert_eq!(outcome.result, Err(WaitError::Timeout));
}

#[test]
fn wait_reports_remote_error_immediately_after_second_poll() {
    let polls = vec![
        report(SnapshotStatus::Pending),
        PollResult::Report(StatusReport {
            status: SnapshotStatus::Error,
            reason: String::from("snapshot failed server-side"),
        }),
    ];
    let outcome = wait_for_completed(&params(10), &polls);
    assert_eq!(outcome.polls_made, 2);
    assert_eq!(
        outcome.result,
        Err(WaitError::RemoteError { reason: String::from("snapshot failed server-side") })
    );
}

#[test]
fn wait_treats_completing_as_not_terminal() {
    let polls = vec![
        report(SnapshotStatus::Completing),
        report(SnapshotStatus::Completed),
    ];
    let outcome = wait_for_completed(&params(10), &polls);
    assert_eq!(outcome.polls_made, 2);
    assert_eq!(outcome.result, Ok(()));
}

#[test]
fn wait_retries_transient_read_failures_within_bound() {
    let polls = vec![
        PollResult::ReadFailed(String::from("connection reset")),
        report(SnapshotStatus::Completed),
    ];
    let p = WaitParams { interval_millis: 15000, max_attempts: 10, max_read_retries: 1 };
    let outcome = wait_for_completed(&p, &polls);
    assert_eq!(outcome.polls_made, 2);
    assert_eq!(outcome.result, Ok(()));
}

#[test]
fn wait_gives_up_after_persistent_read_failures() {
    let polls = vec![
        PollResult::ReadFailed(String::from("reset once")),
        PollResult::ReadFailed(String::from("reset twice")),
    ];
    let p = WaitParams { interval_millis: 15000, max_attempts: 10, max_read_retries: 1 };
    let outcome = wait_for_completed(&p, &polls);
    assert_eq!(outcome.polls_made, 2);
    assert_eq!(
        outcome.result,
        Err(WaitError::PollFailed { message: String::from("reset twice") })
    );
}

#[test]
fn backoff_doubles_and_saturates() {
    assert_eq!(backoff_delay_millis(100, 0), 100);
    assert_eq!(backoff_delay_millis(100, 1), 200);
    assert_eq!(backoff_delay_millis(100, 3), 800);
    assert_eq!(backoff_delay_millis(u64::MAX / 2 + 1, 1), u64::MAX);
    assert_eq!(backoff_delay_millis(u64::MAX / 2 + 1, 2), u64::MAX);
    assert_eq!(backoff_delay_millis(0, 10), 0);
}

#[test]
fn retry_decisions_follow_the_taxonomy() {
    let policy = RetryPolicy { max_retries: 2, base_delay_millis: 100 };
    assert_eq!(retry_decision(AttemptOutcome::Accepted, 0, &policy), RetryDecision::Proceed);
    assert_eq!(
        retry_decision(AttemptOutcome::ChecksumRejected, 0, &policy),
        RetryDecision::GiveUp
    );
    assert_eq!(retry_decision(AttemptOutcome::NotFound, 0, &policy), RetryDecision::GiveUp);
    assert_eq!(
        retry_decision(AttemptOutcome::Throttled, 0, &policy),
        RetryDecision::RetryAfter { delay_millis: 100 }
    );
    assert_eq!(
        retry_decision(AttemptOutcome::TransportFailed, 1, &policy),
        RetryDecision::RetryAfter { delay_millis: 200 }
    );
    assert_eq!(retry_decision(AttemptOutcome::Throttled, 2, &policy), RetryDecision::GiveUp);
}

#[test]
fn default_wait_params_poll_every_fifteen_seconds() {
    let p = WaitParams::default();
    assert_eq!(p.interval_millis, 15000);
    assert_eq!(p.max_attempts, 40);
    assert_eq!(p.max_read_retries, 3);
}

#[test]
fn error_stack_joins_bounded_cause_chain() {
    let messages = vec![
        String::from("download failed"),
        String::from("dispatch failure"),
        String::from("connection refused"),
    ];
    assert_eq!(error_stack(&messages, 0), "download failed");
    assert_eq!(error_stack(&messages, 1), "download failed: dispatch failure");
    assert_eq!(
        error_stack(&messages, 2),
        "download failed: dispatch failure: connection refused"
    );
    // Rendering stops at the first missing level.
    assert_eq!(
        error_stack(&messages, 10),
        "download failed: dispatch failure: connection refused"
    );
    assert_eq!(error_stack(&Vec::new(), 3), "");
}

#[test]
fn tags_convert_to_native_representation() {
    let tags = TagVec(vec![
        KeyValueRecord { key: String::from("env"), value: String::from("test") },
        KeyValueRecord { key: String::from("team"), value: String::from("storage") },
    ]);
    let ebs_tags = tags.to_ebs_tags();
    assert_eq!(ebs_tags.len(), 2);
    assert_eq!(ebs_tags[0].key(), Some("env"));
    assert_eq!(ebs_tags[0].value(), Some("test"));
    assert_eq!(ebs_tags[1].key(), Some("team"));
    assert_eq!(ebs_tags[1].value(), Some("storage"));
}

#[test]
fn progress_counters_advance_per_block() {
    let mut progress = coldsnap::progress::TransferProgress::new(2, 1024);
    assert!(!progress.is_complete());
    progress.record_block(512);
    assert_eq!(progress.blocks_done, 1);
    assert_eq!(progress.bytes_done, 512);
    assert!(!progress.is_complete());
    progress.record_block(512);
    assert_eq!(progress.blocks_done, 2);
    assert_eq!(progress.bytes_done, 1024);
    assert!(progress.is_complete());
}
