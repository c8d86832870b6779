//! How long to wait before a request is sent again.
use crate::time::{longest, shorter, TimeSpan, NANOS_PER_MILLI, NANOS_PER_SEC};
use vstd::arithmetic::power2::{lemma_pow2_strictly_increases, lemma_pow2_unfold, pow2};
use vstd::prelude::*;

verus! {

/// How often a request is sent, and how long to wait between two tries.
#[derive(Debug, Clone, Copy)]
pub struct RetryPolicy {
    pub max_attempts: usize,
    pub initial_backoff: TimeSpan,
    pub max_backoff: TimeSpan,
}

impl Default for RetryPolicy {
    fn default() -> (r: RetryPolicy)
        ensures
            r.max_attempts == 4,
            r.initial_backoff@ == 100 * NANOS_PER_MILLI,
            r.max_backoff@ == 2 * NANOS_PER_SEC,
    {
        RetryPolicy {
            max_attempts: 4,
            initial_backoff: TimeSpan::from_millis(100),
            max_backoff: TimeSpan::from_secs(2),
        }
    }
}

/// By how much the first wait is multiplied after the given attempt: it doubles from one attempt
/// to the next, as long as the factor is a 32-bit number.
pub open spec fn backoff_factor(attempt: nat) -> nat {
    let exponent = if attempt == 0 {
        0
    } else {
        (attempt - 1) as nat
    };
    shorter(pow2(exponent), u32::MAX as nat)
}

/// The longest wait after the given attempt, in nanoseconds.
pub open spec fn backoff_limit(initial: nat, max: nat, attempt: nat) -> nat {
    shorter(shorter(initial * backoff_factor(attempt), longest()), max)
}

impl RetryPolicy {
    /// The longest wait after the given attempt, in nanoseconds.
    pub open spec fn limit(self, attempt: nat) -> nat {
        backoff_limit(self.initial_backoff@, self.max_backoff@, attempt)
    }

    /// The longest wait after the given attempt. What is waited is at least half of it.
    #[must_use]
    pub fn capped_backoff(&self, attempt: usize) -> (r: TimeSpan)
        ensures
            r@ == self.limit(attempt as nat),
    {
        let exponent: usize = attempt.saturating_sub(1);
        let multiplier = power_of_two(exponent);
        self.initial_backoff.saturating_mul(multiplier).min(self.max_backoff)
    }
}

/// Two to the power of `exponent`, or the largest 32-bit number where that is larger.
fn power_of_two(exponent: usize) -> (r: u32)
    ensures
        r == shorter(pow2(exponent as nat), u32::MAX as nat),
{
    proof {
        vstd::arithmetic::power2::lemma2_to64();
    }
    if exponent >= 32 {
        proof {
            if exponent > 32 {
                lemma_pow2_strictly_increases(32, exponent as nat);
            }
        }
        return u32::MAX;
    }
    let mut power: u32 = 1;
    let mut i: usize = 0;
    while i < exponent
        invariant
            i <= exponent < 32,
            power == pow2(i as nat),
            pow2(31) == 0x8000_0000,
        decreases exponent - i,
    {
        proof {
            lemma_pow2_unfold((i + 1) as nat);
            if i + 1 < 31 {
                lemma_pow2_strictly_increases((i + 1) as nat, 31);
            }
        }
        power = power * 2;
        i += 1;
    }
    proof {
        if i < 31 {
            lemma_pow2_strictly_increases(i as nat, 31);
        }
    }
    power
}

/// The wait never exceeds the largest that the policy allows.
pub proof fn law_backoff_is_capped(initial: nat, max: nat, attempt: nat)
    ensures
        backoff_limit(initial, max, attempt) <= max,
{
}

/// The wait does not get shorter from one attempt to a later one.
pub proof fn law_backoff_does_not_shrink(initial: nat, max: nat, earlier: nat, later: nat)
    requires
        earlier <= later,
    ensures
        backoff_limit(initial, max, earlier) <= backoff_limit(initial, max, later),
{
    let e: nat = if earlier == 0 {
        0
    } else {
        (earlier - 1) as nat
    };
    let l: nat = if later == 0 {
        0
    } else {
        (later - 1) as nat
    };
    if e < l {
        lemma_pow2_strictly_increases(e, l);
    }
    let a = backoff_factor(earlier);
    let b = backoff_factor(later);
    assert(initial * a <= initial * b) by (nonlinear_arith)
        requires
            a <= b,
    ;
}

/// The wait doubles from each attempt to the next until one of the limits is reached.
pub proof fn law_backoff_doubles(initial: nat, max: nat, attempt: nat)
    requires
        1 <= attempt <= 31,
        initial * backoff_factor(attempt + 1) <= max,
        max <= longest(),
    ensures
        backoff_limit(initial, max, attempt + 1) == 2 * backoff_limit(initial, max, attempt),
{
    vstd::arithmetic::power2::lemma2_to64();
    lemma_pow2_unfold(attempt);
    if attempt < 31 {
        lemma_pow2_strictly_increases(attempt, 31);
    }
    lemma_pow2_strictly_increases((attempt - 1) as nat, attempt);
    let a = backoff_factor(attempt);
    let b = backoff_factor(attempt + 1);
    assert(b == 2 * a);
    assert(initial * b == 2 * (initial * a)) by (nonlinear_arith)
        requires
            b == 2 * a,
    ;
}

} // verus!
