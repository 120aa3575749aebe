//! Reconnection delay: exponential backoff with full jitter.
//!
//! The window for attempt `n` is `base_ms * 2^(n-1)` (the exponent capped
//! at 60, the product saturating), capped at `max_secs` seconds; the delay
//! is a point of that window chosen from the wall clock, never below
//! 500 ms and never above the cap.
use vstd::arithmetic::mul::lemma_mul_inequality;
use vstd::arithmetic::power2::{pow2, lemma_pow2_pos, lemma_pow2_strictly_increases};
use vstd::bits::{lemma_u64_shl_is_mul, lemma_u64_pow2_no_overflow};
use vstd::prelude::*;

verus! {

/// Smallest delay between reconnects, in milliseconds.
pub const MIN_RECONNECT_DELAY_MS: u64 = 500;

/// Exponent used for attempt `attempt`: `attempt - 1`, floored at 0 and
/// capped at 60.
pub open spec fn backoff_exponent(attempt: nat) -> nat {
    if attempt == 0 {
        0
    } else if attempt - 1 > 60 {
        60
    } else {
        (attempt - 1) as nat
    }
}

/// `base_ms * 2^exponent`, saturating at `u64::MAX`.
pub open spec fn backoff_exp_ms(attempt: nat, base_ms: nat) -> nat {
    let p = base_ms * pow2(backoff_exponent(attempt));
    if p > u64::MAX {
        u64::MAX as nat
    } else {
        p
    }
}

/// Upper end of the jitter window for an attempt, in milliseconds.
pub open spec fn backoff_window(attempt: nat, max_secs: nat, base_ms: nat) -> nat {
    let e = backoff_exp_ms(attempt, base_ms);
    if e < max_secs * 1000 {
        e
    } else {
        max_secs * 1000
    }
}

/// Jitter drawn from a clock reading: the reading, mixed with the attempt
/// number in its upper 64 bits, reduced modulo the window (at least 1).
pub open spec fn backoff_jitter(attempt: u64, window: u64, now_nanos: u128) -> nat {
    let hash = now_nanos ^ ((attempt as u128) << 64u128);
    let w: u128 = if window == 0 { 1 } else { window as u128 };
    (hash % w) as nat
}

/// Delay for an attempt given a clock reading: the jitter, raised to
/// 500 ms and then capped at `max_secs` seconds.
pub open spec fn backoff_delay_spec(attempt: u64, max_secs: u64, base_ms: u64, now_nanos: u128) -> nat {
    let max_ms = max_secs * 1000;
    let w = backoff_window(attempt as nat, max_secs as nat, base_ms as nat);
    let j = backoff_jitter(attempt, w as u64, now_nanos);
    let raised = if j < 500 { 500 } else { j };
    if raised < max_ms { raised } else { max_ms as nat }
}

/// Upper end of the jitter window for `attempt`, in milliseconds.
pub fn backoff_window_ms(attempt: u64, max_secs: u64, base_ms: u64) -> (w: u64)
    requires
        max_secs * 1000 <= u64::MAX,
    ensures
        w == backoff_window(attempt as nat, max_secs as nat, base_ms as nat),
{
    let sub = attempt.saturating_sub(1);
    let exponent: u64 = if sub < 60 { sub } else { 60 };
    proof {
        lemma_u64_pow2_no_overflow(exponent as nat);
        lemma_pow2_pos(exponent as nat);
        lemma_u64_shl_is_mul(1, exponent);
        assert(backoff_exponent(attempt as nat) == exponent);
    }
    let multiplier: u64 = 1u64 << exponent;
    let exp_ms: u64 = match base_ms.checked_mul(multiplier) {
        Some(p) => p,
        None => u64::MAX,
    };
    let max_ms = max_secs * 1000;
    if exp_ms < max_ms {
        exp_ms
    } else {
        max_ms
    }
}

/// Delay before reconnect attempt `attempt`, in milliseconds, with the
/// jitter taken from the clock reading `now_nanos` (nanoseconds since the
/// Unix epoch).
pub fn backoff_delay_at(attempt: u64, max_secs: u64, base_ms: u64, now_nanos: u128) -> (d: u64)
    requires
        max_secs * 1000 <= u64::MAX,
    ensures
        d == backoff_delay_spec(attempt, max_secs, base_ms, now_nanos),
{
    let window_ms = backoff_window_ms(attempt, max_secs, base_ms);
    let max_ms = max_secs * 1000;
    let hash: u128 = now_nanos ^ ((attempt as u128) << 64u128);
    let w: u128 = if window_ms == 0 { 1 } else { window_ms as u128 };
    let jitter_ms = (hash % w) as u64;
    let raised = if jitter_ms < MIN_RECONNECT_DELAY_MS { MIN_RECONNECT_DELAY_MS } else { jitter_ms };
    if raised < max_ms {
        raised
    } else {
        max_ms
    }
}

/// Nanoseconds since the Unix epoch by the system clock.
///
/// Calls `std::time::SystemTime::now` and measures it from `UNIX_EPOCH`
/// (0 if the clock reads before the epoch). Nothing is claimed of the
/// value: it is the time of the call.
#[verifier::external_body]
fn unix_nanos_now() -> u128 {
    std::time::SystemTime::now().duration_since(std::time::UNIX_EPOCH).unwrap_or_default().as_nanos()
}

/// Delay before reconnect attempt `attempt`, in milliseconds, using the
/// current wall-clock time as the source of jitter.
pub fn backoff_delay(attempt: u64, max_secs: u64, base_ms: u64) -> (d: u64)
    requires
        max_secs * 1000 <= u64::MAX,
    ensures
        exists|now: u128| d == backoff_delay_spec(attempt, max_secs, base_ms, now),
        d <= max_secs * 1000,
        max_secs * 1000 >= 500 ==> d >= 500,
        d <= 500 || d < backoff_window(attempt as nat, max_secs as nat, base_ms as nat),
{
    let now = unix_nanos_now();
    let d = backoff_delay_at(attempt, max_secs, base_ms, now);
    proof {
        law_delay_bounds(attempt, max_secs, base_ms, now);
    }
    d
}

/// The delay never exceeds the cap, is at least 500 ms whenever the cap
/// allows it, and above 500 ms lies strictly inside the window.
pub proof fn law_delay_bounds(attempt: u64, max_secs: u64, base_ms: u64, now_nanos: u128)
    requires
        max_secs * 1000 <= u64::MAX,
    ensures
        backoff_delay_spec(attempt, max_secs, base_ms, now_nanos) <= max_secs * 1000,
        max_secs * 1000 >= 500 ==> backoff_delay_spec(attempt, max_secs, base_ms, now_nanos) >= 500,
        backoff_delay_spec(attempt, max_secs, base_ms, now_nanos) <= 500
            || backoff_delay_spec(attempt, max_secs, base_ms, now_nanos)
                < backoff_window(attempt as nat, max_secs as nat, base_ms as nat),
        backoff_window(attempt as nat, max_secs as nat, base_ms as nat) <= max_secs * 1000,
{
    let w = backoff_window(attempt as nat, max_secs as nat, base_ms as nat);
    let wu: u128 = if w as u64 == 0 { 1 } else { w as u64 as u128 };
    let hash = now_nanos ^ ((attempt as u128) << 64u128);
    assert(hash % wu < wu);
}

/// The window never shrinks as the attempt count grows.
pub proof fn law_window_monotone(a1: nat, a2: nat, max_secs: nat, base_ms: nat)
    requires
        a1 <= a2,
    ensures
        backoff_window(a1, max_secs, base_ms) <= backoff_window(a2, max_secs, base_ms),
{
    let e1 = backoff_exponent(a1);
    let e2 = backoff_exponent(a2);
    assert(e1 <= e2);
    if e1 < e2 {
        lemma_pow2_strictly_increases(e1, e2);
    }
    lemma_pow2_pos(e1);
    lemma_mul_inequality(pow2(e1) as int, pow2(e2) as int, base_ms as int);
    assert(base_ms * pow2(e1) <= base_ms * pow2(e2)) by (nonlinear_arith)
        requires
            pow2(e1) <= pow2(e2),
    ;
}

} // verus!
