//! Retry decisions of the two background queues: newsletter delivery and
//! memory extraction.  The workers perform the database and network work;
//! these functions decide, from the state of a task and what happened to
//! it, what the worker does next.

use vstd::prelude::*;

verus! {

/// Delivery attempts after which a newsletter task is dead-lettered.
pub const MAX_RETRY_ATTEMPTS: i32 = 5;
/// Base of the delivery backoff, in minutes.
pub const RETRY_BACKOFF_MINUTES: i64 = 5;
/// Number of delivery tasks dequeued per batch.
pub const CONCURRENT_TASKS: usize = 1;
/// Seconds the delivery worker sleeps once the queue is empty.
pub const DELIVERY_IDLE_SLEEP_SECS: u64 = 86_400;
/// Seconds a worker sleeps after an error.
pub const ERROR_SLEEP_SECS: u64 = 1;

/// Extraction attempts after which a memory job is dead-lettered.
pub const EXTRACTION_MAX_RETRY_ATTEMPTS: i32 = 5;
/// Base of the extraction backoff, in seconds.
pub const EXTRACTION_BACKOFF_SECS: u64 = 30;
/// Cap of the extraction backoff, in seconds.
pub const EXTRACTION_BACKOFF_CAP_SECS: u64 = 3600;
/// Seconds the extraction worker sleeps when there is nothing to do.
pub const EXTRACTION_IDLE_SLEEP_SECS: u64 = 5;

/// `2^n`.
pub open spec fn two_pow(n: nat) -> nat
    decreases n,
{
    if n == 0 {
        1
    } else {
        2 * two_pow((n - 1) as nat)
    }
}

pub open spec fn min_nat(a: nat, b: nat) -> nat {
    if a <= b {
        a
    } else {
        b
    }
}

proof fn lemma_two_pow_at_least(n: nat, m: nat)
    requires
        m <= n,
    ensures
        two_pow(m) <= two_pow(n),
    decreases n,
{
    if n > m {
        lemma_two_pow_at_least((n - 1) as nat, m);
    }
}

/// A point in time: whole seconds since the Unix epoch and the nanoseconds past them.
#[derive(Debug, Clone, Copy, PartialEq, Eq)]
pub struct UtcInstant {
    pub secs: i64,
    pub nanos: u32,
}

/// Nanoseconds since the epoch.
pub open spec fn instant_nanos(t: UtcInstant) -> int {
    t.secs * 1_000_000_000 + t.nanos
}

/// A well-formed instant has fewer than 10^9 sub-second nanoseconds.
pub open spec fn instant_ok(t: UtcInstant) -> bool {
    t.nanos < 1_000_000_000
}

/// Is less than `secs` seconds between `last` and `now`? (`now - last < secs`, exactly.)
pub fn elapsed_below(last: UtcInstant, now: UtcInstant, secs: i64) -> (b: bool)
    requires
        instant_ok(last),
        instant_ok(now),
        0 <= secs <= 1_000_000,
    ensures
        b == (instant_nanos(now) - instant_nanos(last) < secs * 1_000_000_000),
{
    let d = (now.secs as i128 - last.secs as i128) * 1_000_000_000i128 + (now.nanos as i128
        - last.nanos as i128);
    d < (secs as i128) * 1_000_000_000i128
}

/// Seconds a delivery task waits after a failed attempt: five minutes times
/// `2^attempt_count`, the factor capped at 32.
pub open spec fn delivery_backoff(attempt_count: int) -> int {
    (RETRY_BACKOFF_MINUTES as int) * 60 * min_nat(two_pow(attempt_count as nat), 32)
}

/// The delivery backoff for a task with `attempt_count` failed attempts.
/// (`2^attempt_count` is computed with `i64::pow`, which overflows from 63 on.)
pub fn delivery_backoff_secs(attempt_count: i32) -> (s: i64)
    requires
        0 <= attempt_count <= 62,
    ensures
        s == delivery_backoff(attempt_count as int),
        300 <= s <= 9600,
{
    proof {
        if attempt_count >= 5 {
            lemma_two_pow_at_least(attempt_count as nat, 5);
        }
    }
    let factor: i64 = if attempt_count >= 5 {
        32
    } else if attempt_count == 4 {
        16
    } else if attempt_count == 3 {
        8
    } else if attempt_count == 2 {
        4
    } else if attempt_count == 1 {
        2
    } else {
        1
    };
    proof {
        reveal_with_fuel(two_pow, 8);
        assert(two_pow(1) == 2);
        assert(two_pow(2) == 4);
        assert(two_pow(3) == 8);
        assert(two_pow(4) == 16);
        assert(two_pow(5) == 32);
    }
    RETRY_BACKOFF_MINUTES * 60 * factor
}

/// Whether a delivery task must still wait: it was attempted before and its
/// backoff has not yet passed.  A task never attempted is due at once.
pub fn delivery_must_wait(attempt_count: i32, last_attempted_at: Option<UtcInstant>, now: UtcInstant) -> (b: bool)
    requires
        0 <= attempt_count <= 62,
        instant_ok(now),
        last_attempted_at matches Some(l) ==> instant_ok(l),
    ensures
        b == match last_attempted_at {
            None => false,
            Some(l) => instant_nanos(now) - instant_nanos(l) < delivery_backoff(
                attempt_count as int,
            ) * 1_000_000_000,
        },
{
    match last_attempted_at {
        None => false,
        Some(last) => elapsed_below(last, now, delivery_backoff_secs(attempt_count)),
    }
}

/// What became of one delivery attempt.
#[derive(Debug, Clone, Copy, PartialEq, Eq)]
pub enum SendOutcome {
    /// The subscriber's address does not parse; sending is never attempted.
    InvalidAddress,
    /// The email provider accepted the message.
    Sent,
    /// The email provider refused the message or could not be reached.
    Failed,
}

/// What the worker does with a task after an attempt.
#[derive(Debug, Clone, Copy, PartialEq, Eq)]
pub enum DeliveryDecision {
    /// Remove the task: the issue was delivered.
    Delete,
    /// Keep the task and record the attempt count and error.
    Retry { attempt_count: i32 },
    /// Record the task in the dead letter queue with this attempt count, then remove it.
    DeadLetter { attempt_count: i32 },
}

/// The decision after an attempt on a task that had `attempt_count` failures.
pub open spec fn delivery_decision(attempt_count: int, outcome: SendOutcome) -> DeliveryDecision {
    match outcome {
        SendOutcome::InvalidAddress => DeliveryDecision::DeadLetter {
            attempt_count: attempt_count as i32,
        },
        SendOutcome::Sent => DeliveryDecision::Delete,
        SendOutcome::Failed => if attempt_count + 1 >= MAX_RETRY_ATTEMPTS {
            DeliveryDecision::DeadLetter { attempt_count: (attempt_count + 1) as i32 }
        } else {
            DeliveryDecision::Retry { attempt_count: (attempt_count + 1) as i32 }
        },
    }
}

/// Decides the fate of a task after one attempt.  An invalid address is
/// dead-lettered at once without counting an attempt; a failed send counts
/// one more attempt and is dead-lettered once five attempts have failed.
pub fn after_delivery_attempt(attempt_count: i32, outcome: SendOutcome) -> (d: DeliveryDecision)
    requires
        attempt_count < i32::MAX,
    ensures
        d == delivery_decision(attempt_count as int, outcome),
{
    match outcome {
        SendOutcome::InvalidAddress => DeliveryDecision::DeadLetter { attempt_count },
        SendOutcome::Sent => DeliveryDecision::Delete,
        SendOutcome::Failed => {
            let new_attempt_count = attempt_count + 1;
            if new_attempt_count >= MAX_RETRY_ATTEMPTS {
                DeliveryDecision::DeadLetter { attempt_count: new_attempt_count }
            } else {
                DeliveryDecision::Retry { attempt_count: new_attempt_count }
            }
        },
    }
}

/// Result of one pass of a queue worker.
#[derive(Debug, Clone, Copy, PartialEq, Eq)]
pub enum ExecutionOutcome {
    TaskCompleted,
    EmptyQueue,
}

/// How one task of a batch ended.
#[derive(Debug, Clone, Copy, PartialEq, Eq, Structural)]
pub enum TaskOutcome {
    /// The task was delivered, retried or dead-lettered.
    Processed,
    /// The task is still in its backoff period.
    SkippedBackoff,
    /// The task raised an error (or its worker could not be joined).
    Errored,
}

pub open spec fn any_processed(results: Seq<TaskOutcome>) -> bool {
    exists|i: int| 0 <= i < results.len() && results[i] == TaskOutcome::Processed
}

/// Whether some task of the batch was processed.
pub fn batch_processed_any(results: &[TaskOutcome]) -> (b: bool)
    ensures
        b == any_processed(results@),
{
    let mut i: usize = 0;
    while i < results.len()
        invariant
            i <= results.len(),
            forall|k: int| 0 <= k < i ==> results@[k] != TaskOutcome::Processed,
        decreases results.len() - i,
    {
        if results[i] == TaskOutcome::Processed {
            return true;
        }
        i = i + 1;
    }
    false
}

/// One step of the delivery pass: `batch` is `None` when the queue had no
/// task left, else the outcomes of the batch just run.  Returns the outcome
/// of the pass when it ends, or `None` to dequeue another batch.  A pass that
/// ran at least one batch reports `TaskCompleted`; only a pass that found the
/// queue empty at once reports `EmptyQueue`.  A batch in which nothing was
/// processed ends the pass (every remaining task is waiting out its backoff).
pub fn delivery_pass_step(ran_a_batch: bool, batch: Option<&[TaskOutcome]>) -> (r: Option<
    ExecutionOutcome,
>)
    ensures
        batch is None ==> r == Some(
            if ran_a_batch {
                ExecutionOutcome::TaskCompleted
            } else {
                ExecutionOutcome::EmptyQueue
            },
        ),
        batch matches Some(b) ==> r == (if any_processed(b@) {
            None::<ExecutionOutcome>
        } else {
            Some(ExecutionOutcome::TaskCompleted)
        }),
{
    match batch {
        None => {
            if ran_a_batch {
                Some(ExecutionOutcome::TaskCompleted)
            } else {
                Some(ExecutionOutcome::EmptyQueue)
            }
        },
        Some(results) => {
            if batch_processed_any(results) {
                None
            } else {
                Some(ExecutionOutcome::TaskCompleted)
            }
        },
    }
}

/// Seconds the delivery worker sleeps after a pass (`None`: the pass failed).
pub fn delivery_sleep_secs(pass: Option<ExecutionOutcome>) -> (s: u64)
    ensures
        s == match pass {
            Some(ExecutionOutcome::EmptyQueue) => 86_400u64,
            Some(ExecutionOutcome::TaskCompleted) => 0,
            None => 1,
        },
{
    match pass {
        Some(ExecutionOutcome::EmptyQueue) => DELIVERY_IDLE_SLEEP_SECS,
        Some(ExecutionOutcome::TaskCompleted) => 0,
        None => ERROR_SLEEP_SECS,
    }
}

/// Seconds an extraction job waits after a failure: `30 * 2^attempt_count`
/// capped at one hour.  (The product saturates, and a negative count is read
/// as a huge unsigned one, so both give the cap.)
pub open spec fn extraction_backoff(attempt_count: int) -> nat {
    if 0 <= attempt_count <= 6 {
        30 * two_pow(attempt_count as nat)
    } else {
        3600
    }
}

pub fn extraction_backoff_secs(attempt_count: i32) -> (s: u64)
    ensures
        s == extraction_backoff(attempt_count as int),
        30 <= s <= 3600,
{
    proof {
        reveal_with_fuel(two_pow, 8);
        assert(two_pow(1) == 2);
        assert(two_pow(2) == 4);
        assert(two_pow(3) == 8);
        assert(two_pow(4) == 16);
        assert(two_pow(5) == 32);
        assert(two_pow(6) == 64);
    }
    if attempt_count < 0 || attempt_count > 6 {
        EXTRACTION_BACKOFF_CAP_SECS
    } else if attempt_count == 6 {
        EXTRACTION_BACKOFF_SECS * 64
    } else if attempt_count == 5 {
        EXTRACTION_BACKOFF_SECS * 32
    } else if attempt_count == 4 {
        EXTRACTION_BACKOFF_SECS * 16
    } else if attempt_count == 3 {
        EXTRACTION_BACKOFF_SECS * 8
    } else if attempt_count == 2 {
        EXTRACTION_BACKOFF_SECS * 4
    } else if attempt_count == 1 {
        EXTRACTION_BACKOFF_SECS * 2
    } else {
        EXTRACTION_BACKOFF_SECS
    }
}

/// Whether an extraction job must still wait out its backoff.  A job never
/// attempted, or whose last attempt time could not be read, is due at once.
pub fn extraction_must_wait(attempt_count: i32, last_attempted_at: Option<UtcInstant>, now: UtcInstant) -> (b: bool)
    requires
        instant_ok(now),
        last_attempted_at matches Some(l) ==> instant_ok(l),
    ensures
        b == match last_attempted_at {
            None => false,
            Some(l) => instant_nanos(now) - instant_nanos(l) < extraction_backoff(
                attempt_count as int,
            ) * 1_000_000_000,
        },
{
    match last_attempted_at {
        None => false,
        Some(last) => elapsed_below(last, now, extraction_backoff_secs(attempt_count) as i64),
    }
}

/// What the extraction worker records after running a job.
#[derive(Debug, Clone, Copy, PartialEq, Eq)]
pub enum ExtractionDecision {
    /// The job succeeded: delete it.
    Delete,
    /// The job failed: store status `failed` and this attempt count.
    Failed { attempt_count: i32 },
    /// The job failed for the last time: store status `dead_letter`.
    DeadLetter { attempt_count: i32 },
}

pub open spec fn extraction_decision(attempt_count: int, succeeded: bool) -> ExtractionDecision {
    if succeeded {
        ExtractionDecision::Delete
    } else if attempt_count + 1 >= EXTRACTION_MAX_RETRY_ATTEMPTS {
        ExtractionDecision::DeadLetter { attempt_count: (attempt_count + 1) as i32 }
    } else {
        ExtractionDecision::Failed { attempt_count: (attempt_count + 1) as i32 }
    }
}

/// Decides what to record after running an extraction job.
pub fn after_extraction(attempt_count: i32, succeeded: bool) -> (d: ExtractionDecision)
    requires
        attempt_count < i32::MAX,
    ensures
        d == extraction_decision(attempt_count as int, succeeded),
{
    if succeeded {
        ExtractionDecision::Delete
    } else {
        let new_count = attempt_count + 1;
        if new_count >= EXTRACTION_MAX_RETRY_ATTEMPTS {
            ExtractionDecision::DeadLetter { attempt_count: new_count }
        } else {
            ExtractionDecision::Failed { attempt_count: new_count }
        }
    }
}

/// An extraction job must still wait out its backoff: it was attempted, at a
/// time that could be read, less than its backoff ago.
pub open spec fn extraction_waiting(attempt_count: int, last_attempted_at: Option<UtcInstant>, now: UtcInstant) -> bool {
    match last_attempted_at {
        None => false,
        Some(l) => instant_nanos(now) - instant_nanos(l) < extraction_backoff(attempt_count)
            * 1_000_000_000,
    }
}

/// What one pass of the extraction worker does with the job it dequeued.
#[derive(Debug, Clone, Copy, PartialEq, Eq)]
pub enum ExtractionPass {
    /// No job to run now (none queued, or the one found is waiting out its
    /// backoff): the pass reports `EmptyQueue`.
    Idle,
    /// Mark the job `processing` and run it; whatever the run gives (recorded
    /// by `after_extraction`), the pass reports `TaskCompleted`.
    RunJob,
}

/// The pass of the extraction worker for the job dequeued, `None` when the
/// queue holds no pending or failed job, else its attempt count and last
/// attempt time (`None` when never attempted or unreadable).
pub fn extraction_pass_step(job: Option<(i32, Option<UtcInstant>)>, now: UtcInstant) -> (r: ExtractionPass)
    requires
        instant_ok(now),
        job matches Some((_, Some(l))) ==> instant_ok(l),
    ensures
        r == match job {
            None => ExtractionPass::Idle,
            Some((a, last)) => if extraction_waiting(a as int, last, now) {
                ExtractionPass::Idle
            } else {
                ExtractionPass::RunJob
            },
        },
{
    match job {
        None => ExtractionPass::Idle,
        Some((attempt_count, last)) => if extraction_must_wait(attempt_count, last, now) {
            ExtractionPass::Idle
        } else {
            ExtractionPass::RunJob
        },
    }
}

/// The outcome a pass reports: `EmptyQueue` when idle, `TaskCompleted` when
/// it ran a job.
pub fn extraction_pass_outcome(pass: ExtractionPass) -> (r: ExecutionOutcome)
    ensures
        r == match pass {
            ExtractionPass::Idle => ExecutionOutcome::EmptyQueue,
            ExtractionPass::RunJob => ExecutionOutcome::TaskCompleted,
        },
{
    match pass {
        ExtractionPass::Idle => ExecutionOutcome::EmptyQueue,
        ExtractionPass::RunJob => ExecutionOutcome::TaskCompleted,
    }
}

/// Seconds the extraction worker sleeps after a pass (`None`: the pass failed).
pub fn extraction_sleep_secs(pass: Option<ExecutionOutcome>) -> (s: u64)
    ensures
        s == match pass {
            Some(ExecutionOutcome::EmptyQueue) => 5u64,
            Some(ExecutionOutcome::TaskCompleted) => 0,
            None => 1,
        },
{
    match pass {
        Some(ExecutionOutcome::EmptyQueue) => EXTRACTION_IDLE_SLEEP_SECS,
        Some(ExecutionOutcome::TaskCompleted) => 0,
        None => ERROR_SLEEP_SECS,
    }
}

/// Each failed delivery adds exactly one to the attempt count; the task stays
/// queued while fewer than five attempts have failed and is dead-lettered on
/// the fifth.  Delivery removes the task; an invalid address dead-letters it
/// with its count unchanged.
pub proof fn lemma_delivery_retry_accounting(attempt_count: int)
    requires
        0 <= attempt_count < i32::MAX,
    ensures
        delivery_decision(attempt_count, SendOutcome::Sent) == DeliveryDecision::Delete,
        delivery_decision(attempt_count, SendOutcome::InvalidAddress)
            == (DeliveryDecision::DeadLetter { attempt_count: attempt_count as i32 }),
        match delivery_decision(attempt_count, SendOutcome::Failed) {
            DeliveryDecision::Retry { attempt_count: n } => n == attempt_count + 1 && n < 5,
            DeliveryDecision::DeadLetter { attempt_count: n } => n == attempt_count + 1 && n >= 5,
            DeliveryDecision::Delete => false,
        },
{
}

/// The number of failed sends a fresh task survives: starting from zero
/// attempts, failures number one to four keep it queued and the fifth
/// dead-letters it.
pub proof fn lemma_delivery_gives_up_on_fifth_failure(k: int)
    requires
        0 <= k < 5,
    ensures
        k < 4 ==> delivery_decision(k, SendOutcome::Failed) == (DeliveryDecision::Retry {
            attempt_count: (k + 1) as i32,
        }),
        k == 4 ==> delivery_decision(k, SendOutcome::Failed) == (DeliveryDecision::DeadLetter {
            attempt_count: 5,
        }),
{
}

/// The delivery backoff never shrinks as failures accumulate, and lies
/// between five minutes and 160 minutes.
pub proof fn lemma_delivery_backoff_monotone(a: int, b: int)
    requires
        0 <= a <= b,
    ensures
        delivery_backoff(a) <= delivery_backoff(b),
        300 <= delivery_backoff(a) <= 9600,
{
    lemma_two_pow_at_least(b as nat, a as nat);
    lemma_two_pow_at_least(a as nat, 0);
}

/// The extraction backoff never shrinks as failures accumulate (from zero
/// failures on) and lies between 30 seconds and one hour.
pub proof fn lemma_extraction_backoff_monotone(a: int, b: int)
    requires
        0 <= a <= b,
    ensures
        extraction_backoff(a) <= extraction_backoff(b),
        30 <= extraction_backoff(a) <= 3600,
{
    reveal_with_fuel(two_pow, 8);
    lemma_two_pow_at_least(b as nat, a as nat);
    lemma_two_pow_at_least(a as nat, 0);
    if a <= 6 {
        lemma_two_pow_at_least(6, a as nat);
    }
    if b <= 6 {
        lemma_two_pow_at_least(6, b as nat);
    }
}

/// Each failed extraction adds exactly one to the attempt count; the job is
/// marked failed while fewer than five attempts have failed, dead-lettered
/// from the fifth on, and deleted when it succeeds.
pub proof fn lemma_extraction_retry_accounting(attempt_count: int)
    requires
        0 <= attempt_count < i32::MAX,
    ensures
        extraction_decision(attempt_count, true) == ExtractionDecision::Delete,
        match extraction_decision(attempt_count, false) {
            ExtractionDecision::Failed { attempt_count: n } => n == attempt_count + 1 && n < 5,
            ExtractionDecision::DeadLetter { attempt_count: n } => n == attempt_count + 1 && n >= 5,
            ExtractionDecision::Delete => false,
        },
{
}

} // verus!
