//! How long to wait before an upstream request is tried again: exponential backoff with jitter.
use crate::provider::KiroProvider;
use vstd::arithmetic::power2::{lemma2_to64, pow2};
use vstd::prelude::*;

verus! {

/// Where the backoff after a transient failure starts, in milliseconds.
pub const RETRY_BASE_MS: u64 = 200;

/// Where the backoff after a transient failure ends, in milliseconds.
pub const RETRY_MAX_MS: u64 = 5_000;

/// Where the backoff after throttling starts, in milliseconds.
pub const THROTTLE_BASE_MS: u64 = 800;

/// Where the backoff after throttling ends, in milliseconds.
pub const THROTTLE_MAX_MS: u64 = 15_000;

/// How often the backoff doubles at most.
pub const MAX_DOUBLINGS: usize = 6;

/// A retry is jittered by up to this part of its backoff.
pub const RETRY_JITTER_PART: u64 = 4;

/// A retry after throttling is jittered by up to this part of its backoff.
pub const THROTTLE_JITTER_PART: u64 = 3;

/// The backoff after the attempt with the index `attempt`: `base`, doubled once for each attempt
/// before it but at most `MAX_DOUBLINGS` times, and never more than `cap`.
pub open spec fn backoff_ms(base: nat, cap: nat, attempt: nat) -> nat {
    let doublings = if attempt <= MAX_DOUBLINGS {
        attempt
    } else {
        MAX_DOUBLINGS as nat
    };
    let grown = base * pow2(doublings);
    if grown <= cap {
        grown
    } else {
        cap
    }
}

/// The most jitter that goes with a backoff of `backoff`: one `part`-th of it, and at least 1.
pub open spec fn jitter_bound(backoff: nat, part: nat) -> nat
    recommends
        part > 0,
{
    if backoff / part >= 1 {
        backoff / part
    } else {
        1
    }
}

/// The backoff after a transient failure.
pub open spec fn retry_backoff(attempt: nat) -> nat {
    backoff_ms(RETRY_BASE_MS as nat, RETRY_MAX_MS as nat, attempt)
}

/// The most jitter after a transient failure.
pub open spec fn retry_jitter(attempt: nat) -> nat {
    jitter_bound(retry_backoff(attempt), RETRY_JITTER_PART as nat)
}

/// The backoff after throttling.
pub open spec fn throttle_backoff(attempt: nat) -> nat {
    backoff_ms(THROTTLE_BASE_MS as nat, THROTTLE_MAX_MS as nat, attempt)
}

/// The most jitter after throttling.
pub open spec fn throttle_jitter(attempt: nat) -> nat {
    jitter_bound(throttle_backoff(attempt), THROTTLE_JITTER_PART as nat)
}

/// Calls `fastrand::u64` on the range from 0 to `most`, both included. The contract claims that
/// the number drawn lies in that range; which number it is, is left to chance.
#[verifier::external_body]
pub(crate) fn random_up_to(most: u64) -> (drawn: u64)
    ensures
        drawn <= most,
{
    fastrand::u64(0..=most)
}

/// Whether `drawn` was drawn at random from 0 to `most`.
pub closed spec fn is_drawn_up_to(most: u64, drawn: u64) -> bool {
    call_ensures(random_up_to, (most,), drawn)
}

/// Draws a number from 0 to `most`.
fn draw_up_to(most: u64) -> (drawn: u64)
    ensures
        drawn <= most,
        is_drawn_up_to(most, drawn),
{
    let draw = random_up_to;
    let drawn: u64 = draw(most);
    drawn
}

/// Two to the power of the number of doublings after `attempt`.
fn growth(attempt: usize) -> (factor: u64)
    ensures
        1 <= factor <= 64,
        factor == pow2(
            (if attempt <= MAX_DOUBLINGS {
                attempt
            } else {
                MAX_DOUBLINGS
            }) as nat,
        ),
{
    proof {
        lemma2_to64();
    }
    if attempt == 0 {
        1
    } else if attempt == 1 {
        2
    } else if attempt == 2 {
        4
    } else if attempt == 3 {
        8
    } else if attempt == 4 {
        16
    } else if attempt == 5 {
        32
    } else {
        64
    }
}

/// The backoff after the attempt with the index `attempt`.
fn backoff(base: u64, cap: u64, attempt: usize) -> (ms: u64)
    requires
        base <= 1_000_000,
    ensures
        ms == backoff_ms(base as nat, cap as nat, attempt as nat),
{
    let factor: u64 = growth(attempt);
    assert(base * factor <= 64_000_000) by (nonlinear_arith)
        requires
            base <= 1_000_000,
            factor <= 64,
    ;
    let grown: u64 = base * factor;
    if grown <= cap {
        grown
    } else {
        cap
    }
}

/// The most jitter that goes with a backoff.
fn most_jitter(backoff: u64, part: u64) -> (most: u64)
    requires
        part > 0,
    ensures
        most == jitter_bound(backoff as nat, part as nat),
{
    let share: u64 = backoff / part;
    if share >= 1 {
        share
    } else {
        1
    }
}

impl KiroProvider {
    /// How many milliseconds to wait after the attempt with the index `attempt` failed for a
    /// passing reason: an exponential backoff with a little jitter.
    pub fn retry_delay(attempt: usize) -> (ms: u64)
        ensures
            retry_backoff(attempt as nat) <= ms <= retry_backoff(attempt as nat) + retry_jitter(
                attempt as nat,
            ),
            exists|jitter: u64| #[trigger]
                is_drawn_up_to(retry_jitter(attempt as nat) as u64, jitter) && ms == retry_backoff(
                    attempt as nat,
                ) + jitter,
    {
        let most: u64 = most_jitter(
            backoff(RETRY_BASE_MS, RETRY_MAX_MS, attempt),
            RETRY_JITTER_PART,
        );
        let jitter: u64 = draw_up_to(most);
        assert(is_drawn_up_to(retry_jitter(attempt as nat) as u64, jitter));
        Self::retry_delay_with(attempt, jitter)
    }

    /// The wait after a passing failure, with the jitter given.
    pub fn retry_delay_with(attempt: usize, jitter: u64) -> (ms: u64)
        requires
            jitter <= retry_jitter(attempt as nat),
        ensures
            ms == retry_backoff(attempt as nat) + jitter,
    {
        backoff(RETRY_BASE_MS, RETRY_MAX_MS, attempt) + jitter
    }

    /// How many milliseconds to wait after the attempt with the index `attempt` was throttled: it
    /// starts higher and ends higher than the wait after other passing failures, so that the
    /// window of the upstream's limit goes by.
    pub fn throttle_delay(attempt: usize) -> (ms: u64)
        ensures
            throttle_backoff(attempt as nat) <= ms <= throttle_backoff(attempt as nat)
                + throttle_jitter(attempt as nat),
            exists|jitter: u64| #[trigger]
                is_drawn_up_to(throttle_jitter(attempt as nat) as u64, jitter) && ms
                    == throttle_backoff(attempt as nat) + jitter,
    {
        let most: u64 = most_jitter(
            backoff(THROTTLE_BASE_MS, THROTTLE_MAX_MS, attempt),
            THROTTLE_JITTER_PART,
        );
        let jitter: u64 = draw_up_to(most);
        assert(is_drawn_up_to(throttle_jitter(attempt as nat) as u64, jitter));
        Self::throttle_delay_with(attempt, jitter)
    }

    /// The wait after throttling, with the jitter given.
    pub fn throttle_delay_with(attempt: usize, jitter: u64) -> (ms: u64)
        requires
            jitter <= throttle_jitter(attempt as nat),
        ensures
            ms == throttle_backoff(attempt as nat) + jitter,
    {
        backoff(THROTTLE_BASE_MS, THROTTLE_MAX_MS, attempt) + jitter
    }
}

/// A later attempt never waits on a smaller backoff than an earlier one, and no backoff leaves the
/// range between its base and its cap.
pub proof fn law_backoff_grows_within_bounds(earlier: nat, later: nat)
    requires
        earlier <= later,
    ensures
        RETRY_BASE_MS <= retry_backoff(earlier) <= retry_backoff(later) <= RETRY_MAX_MS,
        THROTTLE_BASE_MS <= throttle_backoff(earlier) <= throttle_backoff(later)
            <= THROTTLE_MAX_MS,
{
    lemma2_to64();
}

/// Whatever the jitter, the wait after throttling is longer than the wait after any other passing
/// failure of the same attempt.
pub proof fn law_throttling_waits_longer(attempt: nat, retry_drawn: nat, throttle_drawn: nat)
    requires
        retry_drawn <= retry_jitter(attempt),
        throttle_drawn <= throttle_jitter(attempt),
    ensures
        throttle_backoff(attempt) + throttle_drawn > retry_backoff(attempt) + retry_drawn,
{
    lemma2_to64();
}

/// The backoff starts at its base and doubles with each attempt until it has reached its cap. The
/// jitter is up to a quarter of it after a passing failure, and up to a third after throttling.
pub proof fn law_backoff_doubles(attempt: nat)
    ensures
        retry_backoff(0) == 200,
        retry_backoff(attempt + 1) == if 2 * retry_backoff(attempt) <= 5000 {
            2 * retry_backoff(attempt)
        } else {
            5000
        },
        retry_jitter(attempt) == retry_backoff(attempt) / 4,
        throttle_backoff(0) == 800,
        throttle_backoff(attempt + 1) == if 2 * throttle_backoff(attempt) <= 15000 {
            2 * throttle_backoff(attempt)
        } else {
            15000
        },
        throttle_jitter(attempt) == throttle_backoff(attempt) / 3,
{
    lemma2_to64();
}

/// What is drawn is what `random_up_to` gives for the same bound.
pub(crate) proof fn law_drawn_numbers_are_random(most: u64, drawn: u64)
    ensures
        is_drawn_up_to(most, drawn) <==> call_ensures(random_up_to, (most,), drawn),
        is_drawn_up_to(most, drawn) ==> drawn <= most,
{
}

} // verus!
