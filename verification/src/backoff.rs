//! The delay before a failed part is submitted again.

use vstd::prelude::*;
use vstd::arithmetic::power2::{pow2, lemma_pow2_unfold, lemma_pow2_pos};

verus! {

/// The delay after the `attempt`-th failed attempt: `base_ms` doubled once
/// for every attempt after the first, and never more than `max_ms`.
pub open spec fn backoff_delay(base_ms: u64, max_ms: u64, attempt: u32) -> int {
    let doublings: nat = if attempt <= 1 {
        0
    } else {
        (attempt - 1) as nat
    };
    let raw = base_ms * pow2(doublings);
    if raw > max_ms {
        max_ms as int
    } else {
        raw
    }
}

/// Computes the delay before the part is submitted again.
pub fn backoff_delay_ms(base_ms: u64, max_ms: u64, attempt: u32) -> (delay: u64)
    ensures
        delay == backoff_delay(base_ms, max_ms, attempt),
{
    proof {
        lemma_pow2_unfold(1);
        assert(pow2(0) == 1) by {
            vstd::arithmetic::power2::lemma2_to64();
        }
        assert(base_ms * 1 == base_ms) by (nonlinear_arith);
    }
    let mut delay: u64 = if base_ms > max_ms {
        max_ms
    } else {
        base_ms
    };
    if base_ms == 0 {
        proof {
            let doublings: nat = if attempt <= 1 {
                0
            } else {
                (attempt - 1) as nat
            };
            assert(0 * pow2(doublings) == 0) by (nonlinear_arith);
        }
        return 0;
    }
    let mut done: u32 = 1;
    while done < attempt && delay < max_ms
        invariant
            1 <= done,
            base_ms >= 1,
            done <= attempt || done == 1,
            delay == backoff_delay(base_ms, max_ms, done),
        decreases attempt - done,
    {
        proof {
            lemma_pow2_unfold(done as nat);
            lemma_pow2_pos((done - 1) as nat);
            let p = pow2((done - 1) as nat);
            assert(base_ms * (2 * p) == 2 * (base_ms * p)) by (nonlinear_arith);
        }
        delay = if delay > max_ms / 2 {
            max_ms
        } else {
            let doubled: u64 = delay * 2;
            if doubled > max_ms {
                max_ms
            } else {
                doubled
            }
        };
        done = done + 1;
    }
    proof {
        if done < attempt {
            lemma_delay_stays_capped(base_ms, max_ms, done, attempt);
        }
    }
    delay
}

/// Once the cap is reached, later attempts wait the cap.
proof fn lemma_delay_stays_capped(base_ms: u64, max_ms: u64, from: u32, to: u32)
    requires
        1 <= from <= to,
        base_ms >= 1,
        backoff_delay(base_ms, max_ms, from) >= max_ms,
    ensures
        backoff_delay(base_ms, max_ms, to) == max_ms,
    decreases to - from,
{
    if from < to {
        lemma_pow2_unfold(from as nat);
        lemma_pow2_pos((from - 1) as nat);
        let p = pow2((from - 1) as nat);
        assert(base_ms * (2 * p) >= base_ms * p) by (nonlinear_arith)
            requires
                p > 0,
                base_ms >= 1,
        ;
        lemma_delay_stays_capped(base_ms, max_ms, (from + 1) as u32, to);
    }
}

} // verus!
