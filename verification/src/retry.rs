//! How often and how soon a failed push is tried again.

use crate::text::decimal_text;
use std::time::Duration;
use tokio_retry::strategy::{jitter, ExponentialBackoff};
use vstd::prelude::*;
use vstd::string::*;

verus! {

/// How often an image is pushed at most, the first try among them.
pub const MAX_ATTEMPTS: usize = 3;

/// The delay before the first retry, in milliseconds, before jitter.
pub const INITIAL_BACKOFF_MS: u64 = 5_000;

/// The longest delay before a retry, in milliseconds.
pub const MAX_BACKOFF_MS: u64 = 30_000;

/// Nanoseconds in a millisecond.
pub const NANOS_PER_MILLI: u64 = 1_000_000;

/// The longest duration that is jittered, in nanoseconds: one day.
pub const MAX_JITTER_INPUT: u64 = 86_400_000_000_000;

/// The exponential back-off of `tokio_retry`, an endless source of delays.
#[verifier::external_type_specification]
#[verifier::external_body]
pub struct ExExponentialBackoff(ExponentialBackoff);

/// What an exponential back-off holds.
pub struct BackoffState {
    /// The next delay in milliseconds, before the factor and the limit apply.
    pub current: nat,
    /// What the delay is multiplied by from one delay to the next.
    pub base: nat,
    /// What each delay is multiplied by when it is handed out.
    pub factor: nat,
    /// The longest delay that is handed out, in nanoseconds.
    pub limit: Option<nat>,
}

/// What `backoff` holds: the values of its four fields.
pub uninterp spec fn backoff_state(backoff: ExponentialBackoff) -> BackoffState;

/// `n`, or the largest `u64` where `n` is larger.
pub open spec fn saturated(n: nat) -> nat {
    if n <= u64::MAX {
        n
    } else {
        u64::MAX as nat
    }
}

impl BackoffState {
    /// The next delay in nanoseconds, before the limit applies.
    pub open spec fn unlimited(self) -> nat {
        saturated(self.current * self.factor) * NANOS_PER_MILLI as nat
    }

    /// Whether the next delay is cut down to the limit.
    pub open spec fn at_limit(self) -> bool {
        self.limit matches Some(limit) && self.unlimited() > limit
    }

    /// The next delay in nanoseconds.
    pub open spec fn delay(self) -> nat {
        if self.at_limit() {
            self.limit->0
        } else {
            self.unlimited()
        }
    }

    /// The state once the next delay is handed out: the delay grows until it
    /// reaches the limit.
    pub open spec fn advanced(self) -> BackoffState {
        if self.at_limit() {
            self
        } else {
            BackoffState { current: saturated(self.current * self.base), ..self }
        }
    }
}

/// Calls `ExponentialBackoff::from_millis`: a back-off that starts at `base`
/// milliseconds, grows by the factor `base`, and has the factor 1 and no limit.
#[verifier::external_body]
fn backoff_from_millis(base: u64) -> (backoff: ExponentialBackoff)
    ensures
        backoff_state(backoff) == (BackoffState {
            current: base as nat,
            base: base as nat,
            factor: 1,
            limit: None,
        }),
{
    ExponentialBackoff::from_millis(base)
}

/// Calls `ExponentialBackoff::max_delay`: the same back-off with a limit of
/// `millis` milliseconds.
#[verifier::external_body]
fn backoff_max_delay(backoff: ExponentialBackoff, millis: u64) -> (limited: ExponentialBackoff)
    ensures
        backoff_state(limited) == (BackoffState {
            limit: Some(millis as nat * NANOS_PER_MILLI as nat),
            ..backoff_state(backoff)
        }),
{
    backoff.max_delay(Duration::from_millis(millis))
}

/// Calls `ExponentialBackoff::next`, which always has a delay: the next power
/// of the base, or the limit where that is shorter, here in nanoseconds.
#[verifier::external_body]
fn backoff_next(backoff: &mut ExponentialBackoff) -> (delay: Option<u128>)
    ensures
        delay matches Some(nanos) && nanos as nat == backoff_state(*old(backoff)).delay(),
        backoff_state(*final(backoff)) == backoff_state(*old(backoff)).advanced(),
{
    backoff.next().map(|delay| delay.as_nanos())
}

/// Calls `jitter`, which shortens a duration at random: it multiplies it by a
/// random number from 0 to below 1. All that is claimed is that the result, in
/// nanoseconds like the argument, is no longer than the argument. Over the
/// durations of up to a day no rounding can undo that.
#[verifier::external_body]
fn jittered(nanos: u64) -> (shortened: u128)
    requires
        nanos <= MAX_JITTER_INPUT,
    ensures
        shortened <= nanos,
{
    jitter(Duration::from_nanos(nanos)).as_nanos()
}

/// The longest wait, in nanoseconds, before the retry with the given number,
/// counted from 0: the initial delay before the first one, and the longest
/// delay before each one after it.
pub open spec fn longest_wait(retry: int) -> nat {
    if retry == 0 {
        INITIAL_BACKOFF_MS as nat * NANOS_PER_MILLI as nat
    } else {
        MAX_BACKOFF_MS as nat * NANOS_PER_MILLI as nat
    }
}

/// The delays before the retries of a push, in nanoseconds, before jitter: one
/// for each try after the first.
pub fn backoff_delays() -> (delays: Vec<u64>)
    ensures
        delays@.len() == MAX_ATTEMPTS - 1,
        forall|i: int| 0 <= i < delays@.len() ==> #[trigger] delays@[i] == longest_wait(i),
{
    let mut backoff = backoff_max_delay(backoff_from_millis(INITIAL_BACKOFF_MS), MAX_BACKOFF_MS);
    let mut delays: Vec<u64> = Vec::new();
    while delays.len() < MAX_ATTEMPTS - 1
        invariant
            delays@.len() <= MAX_ATTEMPTS - 1,
            forall|i: int| 0 <= i < delays@.len() ==> #[trigger] delays@[i] == longest_wait(i),
            backoff_state(backoff) == (BackoffState {
                current: if delays@.len() == 0 {
                    INITIAL_BACKOFF_MS as nat
                } else {
                    INITIAL_BACKOFF_MS as nat * INITIAL_BACKOFF_MS as nat
                },
                base: INITIAL_BACKOFF_MS as nat,
                factor: 1,
                limit: Some(MAX_BACKOFF_MS as nat * NANOS_PER_MILLI as nat),
            }),
        decreases MAX_ATTEMPTS - delays@.len(),
    {
        match backoff_next(&mut backoff) {
            Some(delay) => {
                delays.push(delay as u64);
            },
            None => {
                assert(false);
            },
        }
    }
    delays
}

/// Whether `wait` is one of the durations that jitter can make of `delay`, both
/// in nanoseconds.
pub closed spec fn drawn_for(delay: nat, wait: u64) -> bool {
    call_ensures(jittered, (delay as u64,), wait as u128)
}

/// Jitter never lengthens a delay.
pub proof fn lemma_drawn_is_no_longer(delay: nat, wait: u64)
    requires
        delay <= MAX_JITTER_INPUT,
        drawn_for(delay, wait),
    ensures
        wait <= delay,
{
}

/// How long to wait before each retry of a push, in nanoseconds: one wait for
/// each try after the first, each drawn by jitter from nothing up to its delay.
pub fn retry_strategy() -> (waits: Vec<u64>)
    ensures
        waits@.len() == MAX_ATTEMPTS - 1,
        forall|i: int| 0 <= i < waits@.len() ==> #[trigger] waits@[i] <= longest_wait(i),
        forall|i: int|
            0 <= i < waits@.len() ==> drawn_for(longest_wait(i), #[trigger] waits@[i]),
{
    let delays = backoff_delays();
    let mut waits: Vec<u64> = Vec::new();
    for i in 0..delays.len()
        invariant
            delays@.len() == MAX_ATTEMPTS - 1,
            forall|j: int| 0 <= j < delays@.len() ==> #[trigger] delays@[j] == longest_wait(j),
            waits@.len() == i,
            forall|j: int| 0 <= j < i ==> #[trigger] waits@[j] <= longest_wait(j),
            forall|j: int| 0 <= j < i ==> drawn_for(longest_wait(j), #[trigger] waits@[j]),
    {
        let wait: u128 = jittered(delays[i]);
        assert(drawn_for(longest_wait(i as int), wait as u64));
        waits.push(wait as u64);
    }
    waits
}

/// What is announced before the wait with the given number, counted from 0:
/// nothing before the first one, and before each later one its number, counted
/// from 1.
pub fn retry_notice(attempt: usize) -> (r: Option<String>)
    requires
        attempt < MAX_ATTEMPTS - 1,
    ensures
        attempt == 0 ==> r is None,
        attempt > 0 ==> (r matches Some(notice) && notice@ == "Retrying: attempt = "@
            + crate::text::decimal((attempt + 1) as nat)),
{
    if attempt == 0 {
        None
    } else {
        let mut notice = "Retrying: attempt = ".to_owned();
        notice.append(decimal_text(attempt + 1).as_str());
        Some(notice)
    }
}

/// What follows from a push to `registry` that failed for `reason`: what is
/// announced, and whether the push is tried again, as long as waits are left.
/// It is, whatever the reason.
pub fn push_failed(registry: &str, reason: &str) -> (r: (String, bool))
    ensures
        r.0@ == "Failed to push to "@ + registry@ + ": "@ + reason@,
        r.1,
{
    let mut notice = "Failed to push to ".to_owned();
    notice.append(registry);
    notice.append(": ");
    notice.append(reason);
    (notice, true)
}

/// A push is tried at most three times. Before jitter, the first retry waits
/// for five seconds and every later one for thirty.
pub proof fn lemma_waits(retry: int)
    ensures
        MAX_ATTEMPTS == 3,
        longest_wait(0) == 5_000_000_000,
        retry != 0 ==> longest_wait(retry) == 30_000_000_000,
{
}

/// The waits are what jitter makes of the delays.
proof fn lemma_drawn_by_jitter(delay: nat, wait: u64)
    ensures
        drawn_for(delay, wait) <==> call_ensures(jittered, (delay as u64,), wait as u128),
{
}

} // verus!
