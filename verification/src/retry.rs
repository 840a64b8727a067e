//! Retry and backoff policy for individual blob-tier calls.
//!
//! Each call gets at most `MAX_RETRIES` attempts. Transient failures
//! (HTTP 429, HTTP 5xx, network errors) are retried after an exponential
//! backoff with uniform jitter; all other errors are terminal. Every retry
//! re-runs the full closure, so streams are rebuilt, never rewound.

use vstd::prelude::*;
use crate::errors::{spec_is_retryable, spec_message, TgCloudError};
use vstd::arithmetic::power2::pow2;
use vstd::string::StringExecFns;

verus! {

/// Maximum number of attempts for a transient failure.
pub const MAX_RETRIES: u32 = 5;

/// Base delay of the exponential backoff.
pub const BASE_DELAY_MS: u64 = 1_000;

/// Smallest delay ever waited.
pub const MIN_DELAY_MS: u64 = 100;

/// Base delay before attempt `attempt + 1`: `BASE_DELAY_MS * 2^attempt`.
pub open spec fn spec_base_delay(attempt: int) -> int {
    BASE_DELAY_MS * pow2(attempt as nat)
}

/// The delay with a given jitter applied, floored at `MIN_DELAY_MS`.
pub open spec fn spec_backoff(attempt: int, jitter: int) -> int {
    if spec_base_delay(attempt) + jitter < MIN_DELAY_MS {
        MIN_DELAY_MS as int
    } else {
        spec_base_delay(attempt) + jitter
    }
}

/// `BASE_DELAY_MS * 2^attempt`, for attempts within the retry budget.
fn base_delay(attempt: u32) -> (base: u64)
    requires
        attempt < MAX_RETRIES,
    ensures
        base == spec_base_delay(attempt as int),
        1_000 <= base <= 16_000,
{
    let mut base: u64 = BASE_DELAY_MS;
    let mut i: u32 = 0;
    proof {
        vstd::arithmetic::power2::lemma2_to64();
    }
    while i < attempt
        invariant
            i <= attempt < MAX_RETRIES,
            base == BASE_DELAY_MS * pow2(i as nat),
            base <= 16_000,
        decreases attempt - i,
    {
        proof {
            vstd::arithmetic::power2::lemma_pow2_unfold((i + 1) as nat);
            vstd::arithmetic::power2::lemma2_to64();
            vstd::arithmetic::power2::lemma_pow2_strictly_increases(i as nat, MAX_RETRIES as nat);
        }
        base = base * 2;
        i = i + 1;
    }
    base
}

/// Backoff delay for a known jitter: `max(MIN_DELAY_MS, base + jitter)`.
pub fn backoff_delay_with_jitter(attempt: u32, jitter: i64) -> (ms: u64)
    requires
        attempt < MAX_RETRIES,
        -spec_base_delay(attempt as int) <= jitter <= spec_base_delay(attempt as int),
    ensures
        ms == spec_backoff(attempt as int, jitter as int),
{
    let base = base_delay(attempt);
    let with_jitter: i64 = base as i64 + jitter;
    if with_jitter < MIN_DELAY_MS as i64 {
        MIN_DELAY_MS
    } else {
        with_jitter as u64
    }
}

/// Relies on `rand::random`: a value drawn from the thread-local generator.
/// Nothing is promised of it.
pub assume_specification<T>[ rand::random::<T> ]() -> (r: T)
    where
        rand::distributions::Standard: rand::distributions::Distribution<T>,
;

/// Backoff delay before attempt `attempt + 1`: the base delay with a uniform
/// jitter of up to a quarter of it either way, floored at `MIN_DELAY_MS`.
pub fn backoff_delay(attempt: u32) -> (ms: u64)
    requires
        attempt < MAX_RETRIES,
    ensures
        spec_base_delay(attempt as int) - spec_base_delay(attempt as int) / 4 <= ms
            <= spec_base_delay(attempt as int) + spec_base_delay(attempt as int) / 4,
{
    let base = base_delay(attempt);
    let range: u64 = base / 4;
    let draw: u64 = rand::random::<u64>();
    let jitter: i64 = (draw % (2 * range + 1)) as i64 - range as i64;
    backoff_delay_with_jitter(attempt, jitter)
}

/// Classify an HTTP status from the blob tier: 429 is a rate limit, 5xx a
/// server error; both are retryable and reported before the body is read.
/// Every other status passes.
pub fn check_transient_status(status: u16) -> (r: Result<(), TgCloudError>)
    ensures
        status == 429 ==> (r matches Err(e) && e matches TgCloudError::RateLimited(s) && s@
            == "HTTP 429"@),
        500 <= status <= 599 ==> (r matches Err(e) && e matches TgCloudError::ServerError(st) && st
            == status),
        status != 429 && !(500 <= status <= 599) ==> r is Ok,
{
    if status == 429 {
        Err(TgCloudError::RateLimited(String::from_str("HTTP 429")))
    } else if 500 <= status && status <= 599 {
        Err(TgCloudError::ServerError(status))
    } else {
        Ok(())
    }
}

/// Whether an error belongs to the retryable class.
pub fn is_retryable(e: &TgCloudError) -> (r: bool)
    ensures
        r == spec_is_retryable(e),
{
    match e {
        TgCloudError::TelegramError(_) => true,
        TgCloudError::RateLimited(_) => true,
        TgCloudError::ServerError(_) => true,
        _ => false,
    }
}

/// What the retry loop does after attempt `attempt` (zero-based) failed.
pub enum RetryStep {
    /// The error is terminal: surface it unchanged.
    GiveUp(TgCloudError),
    /// The error is transient and budget remains: wait this long, then run
    /// attempt `attempt + 1`.
    Backoff(u64),
    /// The budget is spent: surface `RetryExhausted`.
    Exhausted(TgCloudError),
}

/// Decide the next move of a retry loop whose attempt `attempt` failed with
/// `err`: give up on a terminal error, back off while budget remains, and
/// exhaust after `MAX_RETRIES` attempts, carrying the last error's message.
pub fn retry_step(attempt: u32, err: TgCloudError) -> (r: RetryStep)
    requires
        attempt < MAX_RETRIES,
    ensures
        !spec_is_retryable(&err) ==> (r matches RetryStep::GiveUp(e) && e == err),
        spec_is_retryable(&err) && attempt + 1 < MAX_RETRIES ==> (r matches RetryStep::Backoff(ms)
            && spec_base_delay(attempt as int) - spec_base_delay(attempt as int) / 4 <= ms
            <= spec_base_delay(attempt as int) + spec_base_delay(attempt as int) / 4),
        spec_is_retryable(&err) && attempt + 1 == MAX_RETRIES ==> (r matches RetryStep::Exhausted(e)
            && e matches TgCloudError::RetryExhausted { attempts, last_error } && attempts
            == MAX_RETRIES && last_error@ == spec_message(&err)),
{
    if !is_retryable(&err) {
        RetryStep::GiveUp(err)
    } else if attempt + 1 < MAX_RETRIES {
        RetryStep::Backoff(backoff_delay(attempt))
    } else {
        RetryStep::Exhausted(
            TgCloudError::RetryExhausted { attempts: MAX_RETRIES, last_error: err.message() },
        )
    }
}

/// The first `k` outcomes are all transient failures.
pub open spec fn all_transient_before<T>(s: Seq<Result<T, TgCloudError>>, k: int) -> bool {
    forall|j: int|
        0 <= j < k ==> ((#[trigger] s[j]) matches Err(e) && spec_is_retryable(&e))
}

/// A retry run can stop at only one index: the first outcome that is not a
/// transient failure.
proof fn lemma_stops_agree<T>(s: Seq<Result<T, TgCloudError>>, i: int, j: int)
    requires
        0 <= i < s.len(),
        0 <= j < s.len(),
        all_transient_before(s, i),
        all_transient_before(s, j),
        !(s[i] matches Err(e) && spec_is_retryable(&e)),
        !(s[j] matches Err(e) && spec_is_retryable(&e)),
    ensures
        i == j,
{
    if i < j {
        assert(s[i] matches Err(e) && spec_is_retryable(&e));
    }
    if j < i {
        assert(s[j] matches Err(e) && spec_is_retryable(&e));
    }
}

/// Run the retry policy against a fixed schedule of attempt outcomes:
/// `outcomes[k]` is what attempt `k` would return. The first success within
/// the budget is returned as is; the first terminal error short-circuits;
/// and when every attempt fails transiently the result is `RetryExhausted`
/// carrying the attempt count and the last error's message.
#[verifier::loop_isolation(false)]
pub fn run_retry<T>(outcomes: Vec<Result<T, TgCloudError>>) -> (r: Result<T, TgCloudError>)
    requires
        outcomes@.len() == MAX_RETRIES,
    ensures
        forall|k: int|
            0 <= k < MAX_RETRIES && all_transient_before(outcomes@, k) && (#[trigger] outcomes@[k])
                is Ok ==> r == outcomes@[k],
        forall|k: int|
            0 <= k < MAX_RETRIES && all_transient_before(outcomes@, k) && ((#[trigger] outcomes@[k])
                matches Err(e) && !spec_is_retryable(&e)) ==> r == outcomes@[k],
        all_transient_before(outcomes@, MAX_RETRIES as int) ==> (r matches Err(e) && e matches
            TgCloudError::RetryExhausted { attempts, last_error } && attempts == MAX_RETRIES && (
        outcomes@[MAX_RETRIES - 1] matches Err(le) ==> last_error@ == spec_message(&le))),
{
    let ghost schedule = outcomes@;
    let mut pending = outcomes;
    let mut attempt: u32 = 0;
    let mut last_message: String = String::new();
    while attempt < MAX_RETRIES
        invariant
            attempt <= MAX_RETRIES,
            pending@ == schedule.skip(attempt as int),
            schedule.len() == MAX_RETRIES,
            all_transient_before(schedule, attempt as int),
            attempt > 0 ==> (schedule[attempt - 1] matches Err(le) && last_message@ == spec_message(
                &le,
            )),
        decreases MAX_RETRIES - attempt,
    {
        let outcome = pending.remove(0);
        assert(outcome == schedule[attempt as int]);
        match outcome {
            Ok(v) => {
                let r = Ok(v);
                proof {
                    assert(r == schedule[attempt as int]);
                    assert forall|k: int|
                        0 <= k < MAX_RETRIES && all_transient_before(schedule, k) && !((
                        #[trigger] schedule[k]) matches Err(e_) && spec_is_retryable(
                            &e_,
                        )) implies k == attempt by {
                        lemma_stops_agree(schedule, k, attempt as int);
                    }
                    assert(!all_transient_before(schedule, MAX_RETRIES as int));
                }
                return r;
            },
            Err(e) => {
                if !is_retryable(&e) {
                    let r = Err(e);
                    proof {
                        assert(r == schedule[attempt as int]);
                        assert forall|k: int|
                            0 <= k < MAX_RETRIES && all_transient_before(schedule, k) && !((
                            #[trigger] schedule[k]) matches Err(e_) && spec_is_retryable(
                                &e_,
                            )) implies k == attempt by {
                            lemma_stops_agree(schedule, k, attempt as int);
                        }
                        assert(!all_transient_before(schedule, MAX_RETRIES as int));
                    }
                    return r;
                }
                last_message = e.message();
            },
        }
        assert(schedule.skip(attempt as int).skip(1) =~= schedule.skip(attempt + 1));
        attempt = attempt + 1;
    }
    Err(TgCloudError::RetryExhausted { attempts: MAX_RETRIES, last_error: last_message })
}

} // verus!
