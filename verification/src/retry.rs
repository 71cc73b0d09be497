//! Exponential back-off for sync retries.
use std::time::Duration;
use vstd::arithmetic::power2::{lemma2_to64, lemma_pow2_strictly_increases, lemma_pow2_unfold, pow2};
use vstd::prelude::*;

verus! {

/// The length of a `Duration` in nanoseconds (what `Duration::as_nanos` returns).
pub uninterp spec fn duration_nanos(d: Duration) -> nat;

/// Nanoseconds in `Duration::MAX` (`u64::MAX` seconds and 999 999 999 nanoseconds).
pub open spec fn duration_max_nanos() -> nat {
    18446744073709551615nat * 1000000000nat + 999999999nat
}

/// `Duration::as_nanos`: the total number of nanoseconds.
#[verifier::external_body]
pub(crate) fn duration_as_nanos(d: Duration) -> (r: u128)
    ensures
        r as nat == duration_nanos(d),
{
    d.as_nanos()
}

/// `Duration::saturating_mul`: `d * k`, or `Duration::MAX` on overflow.
#[verifier::external_body]
pub(crate) fn duration_saturating_mul(d: Duration, k: u32) -> (r: Duration)
    ensures
        duration_nanos(r) == if duration_nanos(d) * (k as nat) <= duration_max_nanos() {
            duration_nanos(d) * (k as nat)
        } else {
            duration_max_nanos()
        },
{
    d.saturating_mul(k)
}

/// `Duration::from_secs`.
#[verifier::external_body]
pub(crate) fn duration_from_secs(secs: u64) -> (r: Duration)
    ensures
        duration_nanos(r) == secs * 1000000000nat,
{
    Duration::from_secs(secs)
}

/// `2u32.saturating_pow(e)`: `2^e`, or `u32::MAX` once that overflows.
pub open spec fn two_pow_saturating(e: nat) -> nat {
    if e < 32 {
        pow2(e)
    } else {
        0xFFFF_FFFFnat
    }
}

/// The back-off delay in nanoseconds: `base * 2^attempt`, saturating, capped at `max`.
pub open spec fn backoff_nanos(attempt: nat, base: nat, max: nat) -> nat {
    let product = base * two_pow_saturating(attempt);
    let delay = if product <= duration_max_nanos() {
        product
    } else {
        duration_max_nanos()
    };
    if delay <= max {
        delay
    } else {
        max
    }
}

/// `2^e` for `e < 32`, `u32::MAX` beyond.
fn two_pow_u32_saturating(e: u32) -> (r: u32)
    ensures
        r as nat == two_pow_saturating(e as nat),
{
    if e >= 32 {
        return u32::MAX;
    }
    let mut p: u32 = 1;
    let mut i: u32 = 0;
    proof {
        lemma2_to64();
    }
    while i < e
        invariant
            i <= e < 32,
            p as nat == pow2(i as nat),
        decreases e - i,
    {
        proof {
            lemma_pow2_unfold((i + 1) as nat);
            lemma_pow2_strictly_increases((i + 1) as nat, 32);
            lemma2_to64();
        }
        p = p * 2;
        i = i + 1;
    }
    p
}

/// Compute the delay for exponential backoff:
/// `base_delay * 2^attempt`, capped at `max_delay`.
pub fn backoff_delay(attempt: u32, base_delay: Duration, max_delay: Duration) -> (r: Duration)
    ensures
        duration_nanos(r) == backoff_nanos(
            attempt as nat,
            duration_nanos(base_delay),
            duration_nanos(max_delay),
        ),
{
    let factor = two_pow_u32_saturating(attempt);
    let delay = duration_saturating_mul(base_delay, factor);
    if duration_as_nanos(delay) <= duration_as_nanos(max_delay) {
        delay
    } else {
        max_delay
    }
}

/// Check if a job should be retried.
pub fn should_retry(attempt: u32, max_retries: u32) -> (r: bool)
    ensures
        r == (attempt < max_retries),
{
    attempt < max_retries
}

/// The delay never exceeds the cap.
pub proof fn lemma_backoff_capped(attempt: nat, base: nat, max: nat)
    ensures
        backoff_nanos(attempt, base, max) <= max,
{
}

/// The delay does not shrink as the attempt number grows.
pub proof fn lemma_backoff_monotone(a1: nat, a2: nat, base: nat, max: nat)
    requires
        a1 <= a2,
    ensures
        backoff_nanos(a1, base, max) <= backoff_nanos(a2, base, max),
{
    assert(two_pow_saturating(a1) <= two_pow_saturating(a2)) by {
        lemma2_to64();
        if a2 < 32 {
            if a1 < a2 {
                lemma_pow2_strictly_increases(a1, a2);
            }
        } else if a1 < 32 {
            if a1 < 31 {
                lemma_pow2_strictly_increases(a1, 31);
            }
        }
    }
    assert(base * two_pow_saturating(a1) <= base * two_pow_saturating(a2)) by (nonlinear_arith)
        requires
            two_pow_saturating(a1) <= two_pow_saturating(a2),
    ;
}

} // verus!
