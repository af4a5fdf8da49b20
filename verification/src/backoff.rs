//! How long to wait before trying again.
use vstd::arithmetic::power2::{lemma2_to64, lemma_pow2_strictly_increases, lemma_pow2_unfold, pow2};
use vstd::prelude::*;

verus! {

/// After this many attempts the wait grows no more.
pub const LAST_DOUBLING: u32 = 10;

/// The smaller of two numbers.
pub open spec fn smaller(a: int, b: int) -> int {
    if a <= b {
        a
    } else {
        b
    }
}

/// The wait after attempt number `attempt_no`: the base, doubled with each attempt as far as it
/// may be, but never above the cap.
pub open spec fn capped_wait(base_ms: u64, max_ms: u64, attempt_no: u32) -> int {
    smaller(base_ms * pow2(smaller(attempt_no as int, LAST_DOUBLING as int) as nat), max_ms as int)
}

/// Two to the power of `exponent`.
fn power_of_two(exponent: u32) -> (power: u64)
    requires
        exponent <= LAST_DOUBLING,
    ensures
        power == pow2(exponent as nat),
        power <= 1024,
{
    let mut power: u64 = 1;
    let mut done: u32 = 0;
    proof {
        lemma2_to64();
    }
    while done < exponent
        invariant
            done <= exponent <= LAST_DOUBLING,
            power == pow2(done as nat),
            power <= 1024,
        decreases exponent - done,
    {
        proof {
            lemma_pow2_unfold((done + 1) as nat);
            lemma2_to64();
            if done + 1 < 10 {
                lemma_pow2_strictly_increases((done + 1) as nat, 10);
            }
        }
        power = power * 2;
        done = done + 1;
    }
    power
}

/// The wait after attempt number `attempt_no`, in milliseconds.
pub fn capped_backoff_ms(base_ms: u64, max_ms: u64, attempt_no: u32) -> (wait: u64)
    ensures
        wait == capped_wait(base_ms, max_ms, attempt_no),
{
    let exponent: u32 = if attempt_no < LAST_DOUBLING {
        attempt_no
    } else {
        LAST_DOUBLING
    };
    let factor: u64 = power_of_two(exponent);
    proof {
        assert(base_ms * factor <= u64::MAX * 1024) by (nonlinear_arith)
            requires
                base_ms <= u64::MAX,
                factor <= 1024,
        ;
    }
    let wait: u128 = base_ms as u128 * factor as u128;
    if wait <= max_ms as u128 {
        wait as u64
    } else {
        max_ms
    }
}

/// A later attempt never waits less, and no attempt waits longer than the cap.
pub proof fn waits_grow_up_to_the_cap(base_ms: u64, max_ms: u64, earlier: u32, later: u32)
    requires
        earlier <= later,
    ensures
        capped_wait(base_ms, max_ms, earlier) <= capped_wait(base_ms, max_ms, later) <= max_ms,
{
    let a = smaller(earlier as int, LAST_DOUBLING as int) as nat;
    let b = smaller(later as int, LAST_DOUBLING as int) as nat;
    if a < b {
        lemma_pow2_strictly_increases(a, b);
    }
    assert(base_ms * pow2(a) <= base_ms * pow2(b)) by (nonlinear_arith)
        requires
            pow2(a) <= pow2(b),
            base_ms >= 0,
    ;
}

/// The first wait is the base, each of the next ten is twice the one before, and from then on
/// all are the same; the cap cuts every one of them.
pub proof fn waits_double_with_each_attempt(base_ms: u64, max_ms: u64, attempt: u32)
    ensures
        base_ms <= max_ms ==> capped_wait(base_ms, max_ms, 0) == base_ms,
        base_ms > max_ms ==> capped_wait(base_ms, max_ms, 0) == max_ms,
        attempt < 10 ==> ({
            let wait = capped_wait(base_ms, max_ms, attempt);
            let next = capped_wait(base_ms, max_ms, (attempt + 1) as u32);
            &&& 2 * wait <= max_ms ==> next == 2 * wait
            &&& 2 * wait > max_ms ==> next == max_ms
        }),
        attempt >= 10 ==> capped_wait(base_ms, max_ms, attempt) == capped_wait(
            base_ms,
            max_ms,
            10,
        ),
{
    lemma2_to64();
    assert(base_ms * 1 == base_ms) by (nonlinear_arith);
    if attempt < 10 {
        lemma_pow2_unfold((attempt + 1) as nat);
        let power = pow2(attempt as nat) as int;
        assert(base_ms * (2 * power) == 2 * (base_ms * power)) by (nonlinear_arith);
    }
}

} // verus!
