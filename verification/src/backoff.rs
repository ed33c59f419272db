//! Exponential backoff policy: the delay before retry number `attempt` is
//! `min(cap, base * 2^attempt)`, computed without overflow.

use vstd::prelude::*;

verus! {

/// 2^n as a mathematical integer.
pub open spec fn pow2(n: nat) -> nat
    decreases n,
{
    if n == 0 {
        1
    } else {
        2 * pow2((n - 1) as nat)
    }
}

/// The delay, in milliseconds, imposed before retry number `attempt`:
/// `min(cap, base * 2^attempt)`.
pub open spec fn next_delay_spec(attempt: nat, base: nat, cap: nat) -> nat {
    if base * pow2(attempt) < cap {
        base * pow2(attempt)
    } else {
        cap
    }
}

pub proof fn lemma_pow2_pos(n: nat)
    ensures
        pow2(n) >= 1,
    decreases n,
{
    if n > 0 {
        lemma_pow2_pos((n - 1) as nat);
    }
}

pub proof fn lemma_pow2_monotone(m: nat, n: nat)
    requires
        m <= n,
    ensures
        pow2(m) <= pow2(n),
    decreases n,
{
    if m < n {
        lemma_pow2_monotone(m, (n - 1) as nat);
        lemma_pow2_pos((n - 1) as nat);
    }
}

/// The backoff delay never exceeds the configured cap.
pub proof fn lemma_backoff_le_cap(attempt: nat, base: nat, cap: nat)
    ensures
        next_delay_spec(attempt, base, cap) <= cap,
{
}

/// The backoff delay is non-decreasing in the attempt number.
pub proof fn lemma_backoff_monotone(n1: nat, n2: nat, base: nat, cap: nat)
    requires
        n1 <= n2,
    ensures
        next_delay_spec(n1, base, cap) <= next_delay_spec(n2, base, cap),
{
    lemma_pow2_monotone(n1, n2);
    assert(base * pow2(n1) <= base * pow2(n2)) by (nonlinear_arith)
        requires pow2(n1) <= pow2(n2);
}

/// The very first backoff delay is `min(base, cap)`.
pub proof fn lemma_backoff_first(base: nat, cap: nat)
    ensures
        next_delay_spec(0, base, cap) == if base < cap { base } else { cap },
{
    assert(pow2(0) == 1);
    assert(base * 1 == base) by (nonlinear_arith);
}

/// If the uncapped delay has reached the cap by attempt `i`, every later
/// attempt is also capped.
proof fn lemma_backoff_capped_from(i: nat, attempt: nat, base: nat, cap: nat)
    requires
        i <= attempt,
        base * pow2(i) >= cap,
    ensures
        next_delay_spec(attempt, base, cap) == cap,
{
    lemma_pow2_monotone(i, attempt);
    assert(base * pow2(i) <= base * pow2(attempt)) by (nonlinear_arith)
        requires pow2(i) <= pow2(attempt);
}

/// Computes `min(cap, base * 2^attempt)`, saturating at `cap` well before any
/// intermediate multiplication could overflow.
pub fn next_delay(attempt: u32, base: u64, cap: u64) -> (r: u64)
    ensures
        r as nat == next_delay_spec(attempt as nat, base as nat, cap as nat),
{
    if base == 0 {
        assert((base as nat) * pow2(attempt as nat) == 0) by (nonlinear_arith)
            requires base == 0;
        return 0;
    }
    let mut cur: u64 = base;
    let mut i: u32 = 0;
    proof {
        assert(pow2(0) == 1);
        assert((base as nat) * 1 == base as nat) by (nonlinear_arith);
    }
    while i < attempt
        invariant
            i <= attempt,
            cur as nat == (base as nat) * pow2(i as nat),
        decreases attempt - i,
    {
        if cur >= cap {
            proof {
                lemma_backoff_capped_from(i as nat, attempt as nat, base as nat, cap as nat);
            }
            return cap;
        }
        if cur > u64::MAX / 2 {
            proof {
                assert((base as nat) * pow2((i + 1) as nat) == 2 * (cur as nat))
                    by (nonlinear_arith)
                    requires
                        cur as nat == (base as nat) * pow2(i as nat),
                        pow2((i + 1) as nat) == 2 * pow2(i as nat);
                lemma_backoff_capped_from((i + 1) as nat, attempt as nat, base as nat, cap as nat);
            }
            return cap;
        }
        proof {
            assert((base as nat) * pow2((i + 1) as nat) == 2 * (cur as nat)) by (nonlinear_arith)
                requires
                    cur as nat == (base as nat) * pow2(i as nat),
                    pow2((i + 1) as nat) == 2 * pow2(i as nat);
        }
        cur = cur * 2;
        i = i + 1;
    }
    if cur < cap {
        cur
    } else {
        cap
    }
}

} // verus!
