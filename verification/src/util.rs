//! Delays between retries.

use rand::Rng;
use std::time::Duration;
use vstd::arithmetic::power2::{lemma2_to64, lemma_pow2_strictly_increases, lemma_pow2_unfold, pow2};
use vstd::bits::lemma_u64_shl_is_mul;
use vstd::prelude::*;

verus! {

/// The delay before the first retry, in milliseconds.
pub const INITIAL_DELAY_MS: u64 = 200;

/// How often the delay is doubled at most.
pub const MAX_DOUBLINGS: u64 = 10;

/// The smallest part of the delay that is waited for, in percent.
pub const MIN_JITTER: u64 = 90;

/// The largest part of the delay that is waited for, in percent.
pub const MAX_JITTER: u64 = 110;

/// The length of a duration in nanoseconds, the unit in which durations are kept.
pub uninterp spec fn nanos(duration: Duration) -> nat;

/// `std::time::Duration::from_millis` makes a duration of exactly that many milliseconds.
pub assume_specification[ Duration::from_millis ](millis: u64) -> (duration: Duration)
    ensures
        nanos(duration) == millis * 1_000_000,
;

/// Calls `random_range` of the `rand` crate's thread-local generator, which draws a number from
/// the range; any number in it can come out.
#[verifier::external_body]
fn random_in_range(low: u64, high: u64) -> (drawn: u64)
    requires
        low <= high,
    ensures
        low <= drawn <= high,
{
    rand::rng().random_range(low..=high)
}

/// How often the delay is doubled before this attempt.
pub open spec fn doublings(attempt: u64) -> nat {
    if attempt <= 1 {
        0
    } else if attempt - 1 <= MAX_DOUBLINGS {
        (attempt - 1) as nat
    } else {
        MAX_DOUBLINGS as nat
    }
}

/// The delay before this attempt without jitter, in milliseconds.
pub open spec fn base_delay_ms(attempt: u64) -> nat {
    INITIAL_DELAY_MS as nat * pow2(doublings(attempt))
}

/// The delay before this attempt when `jitter` percent of it are waited for, in milliseconds.
pub open spec fn delay_ms(attempt: u64, jitter: u64) -> nat {
    base_delay_ms(attempt) * jitter as nat / 100
}

/// The delay before this attempt without jitter, in milliseconds.
pub fn base_delay(attempt: u64) -> (base: u64)
    ensures
        base == base_delay_ms(attempt),
{
    let past: u64 = attempt.saturating_sub(1);
    let shift: u64 = if past < MAX_DOUBLINGS {
        past
    } else {
        MAX_DOUBLINGS
    };
    proof {
        assert(shift == doublings(attempt));
        base_delay_is_capped(attempt);
        lemma_u64_shl_is_mul(INITIAL_DELAY_MS, shift);
    }
    INITIAL_DELAY_MS << shift
}

/// The delay before this attempt when `jitter` percent of it are waited for.
pub fn backoff_with_jitter(attempt: u64, jitter: u64) -> (delay: Duration)
    requires
        MIN_JITTER <= jitter <= MAX_JITTER,
    ensures
        nanos(delay) == delay_ms(attempt, jitter) * 1_000_000,
{
    let base: u64 = base_delay(attempt);
    proof {
        base_delay_is_capped(attempt);
        assert(base * jitter <= 204800 * 110) by (nonlinear_arith)
            requires
                base <= 204800,
                jitter <= 110,
        ;
    }
    Duration::from_millis(base * jitter / 100)
}

/// The delay before this attempt: it doubles from attempt to attempt, up to a limit, and varies
/// at random by a tenth in either direction.
pub fn backoff(attempt: u64) -> (delay: Duration)
    ensures
        exists|jitter: u64|
            MIN_JITTER <= jitter <= MAX_JITTER && nanos(delay) == #[trigger] delay_ms(
                attempt,
                jitter,
            ) * 1_000_000,
{
    let jitter: u64 = random_in_range(MIN_JITTER, MAX_JITTER);
    backoff_with_jitter(attempt, jitter)
}

/// The delay without jitter is never more than 204.8 seconds.
pub proof fn base_delay_is_capped(attempt: u64)
    ensures
        INITIAL_DELAY_MS <= base_delay_ms(attempt) <= 204800,
{
    lemma2_to64();
    if doublings(attempt) < 10 {
        lemma_pow2_strictly_increases(doublings(attempt), 10);
    }
    if 0 < doublings(attempt) {
        lemma_pow2_strictly_increases(0, doublings(attempt));
    }
    assert(200 * 1 <= 200 * pow2(doublings(attempt)) <= 200 * 1024) by (nonlinear_arith)
        requires
            1 <= pow2(doublings(attempt)) <= 1024,
    ;
}

/// From one attempt to the next, the delay without jitter doubles until it has been doubled
/// [`MAX_DOUBLINGS`] times, and then stays the same.
pub proof fn base_delay_doubles(attempt: u64)
    requires
        1 <= attempt < u64::MAX,
    ensures
        base_delay_ms((attempt + 1) as u64) == if attempt <= MAX_DOUBLINGS {
            2 * base_delay_ms(attempt)
        } else {
            base_delay_ms(attempt)
        },
{
    if attempt <= MAX_DOUBLINGS {
        let n = doublings(attempt);
        lemma_pow2_unfold(n + 1);
        assert(200 * (2 * pow2(n)) == 2 * (200 * pow2(n))) by (nonlinear_arith);
    }
}

/// Later attempts do not have shorter delays without jitter.
pub proof fn base_delay_never_shrinks(earlier: u64, later: u64)
    requires
        earlier <= later,
    ensures
        base_delay_ms(earlier) <= base_delay_ms(later),
{
    let m = doublings(earlier);
    let n = doublings(later);
    if m < n {
        lemma_pow2_strictly_increases(m, n);
    }
    assert(200 * pow2(m) <= 200 * pow2(n)) by (nonlinear_arith)
        requires
            pow2(m) <= pow2(n),
    ;
}

/// Delays are whole multiples: twice the jitter in percent, doubled as often as the attempt says.
pub proof fn delay_is_a_multiple(attempt: u64, jitter: u64)
    ensures
        delay_ms(attempt, jitter) == pow2(doublings(attempt) + 1) * jitter,
{
    let k = pow2(doublings(attempt));
    lemma_pow2_unfold(doublings(attempt) + 1);
    assert(200 * k * jitter / 100 == 2 * k * jitter) by (nonlinear_arith);
}

/// Jitter changes a delay by a tenth at most, in either direction.
pub proof fn jitter_is_a_tenth_at_most(attempt: u64, jitter: u64)
    requires
        MIN_JITTER <= jitter <= MAX_JITTER,
    ensures
        10 * delay_ms(attempt, jitter) >= 9 * base_delay_ms(attempt),
        10 * delay_ms(attempt, jitter) <= 11 * base_delay_ms(attempt),
{
    let base = base_delay_ms(attempt);
    let k = pow2(doublings(attempt));
    assert(base * jitter / 100 == 2 * k * jitter) by (nonlinear_arith)
        requires
            base == 200 * k,
    ;
    assert(18 * base <= 20 * (2 * k * jitter) <= 22 * base) by (nonlinear_arith)
        requires
            base == 200 * k,
            90 <= jitter <= 110,
            k >= 0,
    ;
}

/// The first two delays without jitter are 200 milliseconds, and each later one follows from the
/// one before: it is twice as long up to the eleventh attempt, and as long from then on.
pub proof fn delays_follow_from_the_first(attempt: u64)
    ensures
        attempt <= 1 ==> base_delay_ms(attempt) == 200,
        1 < attempt <= 11 ==> base_delay_ms(attempt) == 2 * base_delay_ms((attempt - 1) as u64),
        attempt > 11 ==> base_delay_ms(attempt) == base_delay_ms((attempt - 1) as u64),
{
    if attempt > 1 {
        base_delay_doubles((attempt - 1) as u64);
    } else {
        lemma2_to64();
    }
}

/// A delay is the given percentage of the delay without jitter, without a remainder, and from 90 to
/// 110 percent can be asked for.
pub proof fn jitter_is_a_percentage(attempt: u64, jitter: u64)
    ensures
        100 * delay_ms(attempt, jitter) == base_delay_ms(attempt) * jitter,
        MIN_JITTER == 90,
        MAX_JITTER == 110,
{
    let k = pow2(doublings(attempt));
    assert(200 * k * jitter / 100 == 2 * k * jitter) by (nonlinear_arith);
    assert(100 * (2 * k * jitter) == 200 * k * jitter) by (nonlinear_arith);
}

} // verus!
