use hub::queue::{
    after_delivery_attempt, after_extraction, batch_processed_any, delivery_backoff_secs,
    delivery_must_wait, delivery_pass_step, delivery_sleep_secs, elapsed_below,
    extraction_backoff_secs, extraction_must_wait, extraction_sleep_secs, DeliveryDecision,
    ExecutionOutcome, ExtractionDecision, SendOutcome, TaskOutcome, UtcInstant,
};

fn at(secs: i64) -> UtcInstant {
    UtcInstant { secs, nanos: 0 }
}

#[test]
fn delivery_backoff_doubles_from_five_minutes_up_to_160() {
    assert_eq!(delivery_backoff_secs(0), 300);
    assert_eq!(delivery_backoff_secs(1), 600);
    assert_eq!(delivery_backoff_secs(2), 1200);
    assert_eq!(delivery_backoff_secs(4), 4800);
    assert_eq!(delivery_backoff_secs(5), 9600);
    assert_eq!(delivery_backoff_secs(40), 9600);
}

#[test]
fn a_recent_failure_keeps_the_task_waiting() {
    let now = at(10_000);
    assert!(!delivery_must_wait(1, None, now));
    assert!(delivery_must_wait(1, Some(at(10_000 - 599)), now));
    assert!(!delivery_must_wait(1, Some(at(10_000 - 600)), now));
    assert!(delivery_must_wait(0, Some(UtcInstant { secs: 10_000 - 300, nanos: 1 }), now));
}

#[test]
fn elapsed_time_counts_nanoseconds() {
    let last = UtcInstant { secs: 100, nanos: 500_000_000 };
    assert!(elapsed_below(last, UtcInstant { secs: 101, nanos: 400_000_000 }, 1));
    assert!(!elapsed_below(last, UtcInstant { secs: 101, nanos: 500_000_000 }, 1));
}

#[test]
fn invalid_addresses_are_dead_lettered_without_counting_an_attempt() {
    assert_eq!(
        after_delivery_attempt(0, SendOutcome::InvalidAddress),
        DeliveryDecision::DeadLetter { attempt_count: 0 }
    );
}

#[test]
fn failures_are_retried_until_the_fifth() {
    assert_eq!(after_delivery_attempt(0, SendOutcome::Failed), DeliveryDecision::Retry { attempt_count: 1 });
    assert_eq!(after_delivery_attempt(3, SendOutcome::Failed), DeliveryDecision::Retry { attempt_count: 4 });
    assert_eq!(
        after_delivery_attempt(4, SendOutcome::Failed),
        DeliveryDecision::DeadLetter { attempt_count: 5 }
    );
    assert_eq!(after_delivery_attempt(2, SendOutcome::Sent), DeliveryDecision::Delete);
}

#[test]
fn a_pass_ends_when_the_queue_is_empty_or_only_waiting_tasks_remain() {
    assert_eq!(delivery_pass_step(false, None), Some(ExecutionOutcome::EmptyQueue));
    assert_eq!(delivery_pass_step(true, None), Some(ExecutionOutcome::TaskCompleted));
    let waiting = [TaskOutcome::SkippedBackoff, TaskOutcome::Errored];
    assert_eq!(delivery_pass_step(true, Some(&waiting)), Some(ExecutionOutcome::TaskCompleted));
    let mixed = [TaskOutcome::Errored, TaskOutcome::Processed];
    assert_eq!(delivery_pass_step(true, Some(&mixed)), None);
    assert!(batch_processed_any(&mixed));
    assert!(!batch_processed_any(&[]));
}

#[test]
fn the_delivery_worker_sleeps_according_to_the_pass() {
    assert_eq!(delivery_sleep_secs(Some(ExecutionOutcome::EmptyQueue)), 86_400);
    assert_eq!(delivery_sleep_secs(Some(ExecutionOutcome::TaskCompleted)), 0);
    assert_eq!(delivery_sleep_secs(None), 1);
}

#[test]
fn extraction_backoff_doubles_from_thirty_seconds_up_to_an_hour() {
    assert_eq!(extraction_backoff_secs(0), 30);
    assert_eq!(extraction_backoff_secs(1), 60);
    assert_eq!(extraction_backoff_secs(6), 1920);
    assert_eq!(extraction_backoff_secs(7), 3600);
    assert_eq!(extraction_backoff_secs(-1), 3600);
    assert!(extraction_must_wait(0, Some(at(100)), at(129)));
    assert!(!extraction_must_wait(0, Some(at(100)), at(130)));
    assert!(!extraction_must_wait(3, None, at(130)));
}

#[test]
fn extraction_jobs_are_dead_lettered_after_five_failures() {
    assert_eq!(after_extraction(0, true), ExtractionDecision::Delete);
    assert_eq!(after_extraction(0, false), ExtractionDecision::Failed { attempt_count: 1 });
    assert_eq!(after_extraction(4, false), ExtractionDecision::DeadLetter { attempt_count: 5 });
    assert_eq!(extraction_sleep_secs(Some(ExecutionOutcome::EmptyQueue)), 5);
}
