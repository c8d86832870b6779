//! Spans of time.
use vstd::prelude::*;

verus! {

/// The number of nanoseconds in a second.
pub const NANOS_PER_SEC: u32 = 1_000_000_000;

/// The number of nanoseconds in a millisecond.
pub const NANOS_PER_MILLI: u32 = 1_000_000;

/// A span of time: whole seconds, and nanoseconds that make less than one more second.
#[derive(Debug, Clone, Copy, PartialEq, Eq)]
pub struct TimeSpan {
    secs: u64,
    nanos: u32,
}

/// The longest span of time, in nanoseconds.
pub open spec fn longest() -> nat {
    (u64::MAX * NANOS_PER_SEC + (NANOS_PER_SEC - 1)) as nat
}

/// The smaller of two lengths.
pub open spec fn shorter(a: nat, b: nat) -> nat {
    if a <= b {
        a
    } else {
        b
    }
}

impl View for TimeSpan {
    type V = nat;

    /// The length of the span in nanoseconds.
    closed spec fn view(&self) -> nat {
        (self.secs * NANOS_PER_SEC + self.nanos) as nat
    }
}

impl TimeSpan {
    #[verifier::type_invariant]
    spec fn well_formed(self) -> bool {
        self.nanos < NANOS_PER_SEC
    }

    /// The span of `secs` seconds.
    pub fn from_secs(secs: u64) -> (r: TimeSpan)
        ensures
            r@ == secs * NANOS_PER_SEC,
    {
        TimeSpan { secs, nanos: 0 }
    }

    /// The span of `millis` milliseconds.
    pub fn from_millis(millis: u64) -> (r: TimeSpan)
        ensures
            r@ == millis * NANOS_PER_MILLI,
    {
        let nanos: u32 = (millis % 1000) as u32 * NANOS_PER_MILLI;
        TimeSpan { secs: millis / 1000, nanos }
    }

    /// The span of `nanos` nanoseconds.
    fn from_nanos(nanos: u128) -> (r: TimeSpan)
        requires
            nanos <= longest(),
        ensures
            r@ == nanos,
    {
        let per_sec: u128 = NANOS_PER_SEC as u128;
        let secs: u128 = nanos / per_sec;
        let rest: u128 = nanos % per_sec;
        assert(secs <= u64::MAX && nanos == secs * per_sec + rest) by (nonlinear_arith)
            requires
                secs == nanos / per_sec,
                rest == nanos % per_sec,
                per_sec == 1_000_000_000,
                nanos <= u64::MAX * 1_000_000_000 + 999_999_999,
        ;
        TimeSpan { secs: secs as u64, nanos: rest as u32 }
    }

    /// The seconds and the nanoseconds beyond them.
    pub fn parts(&self) -> (r: (u64, u32))
        ensures
            self@ == r.0 * NANOS_PER_SEC + r.1,
            r.1 < NANOS_PER_SEC,
    {
        proof {
            use_type_invariant(self);
        }
        (self.secs, self.nanos)
    }

    /// The span `factor` times, or the longest span where that is longer than any.
    pub fn saturating_mul(&self, factor: u32) -> (r: TimeSpan)
        ensures
            r@ == shorter(self@ * factor as nat, longest()),
    {
        proof {
            use_type_invariant(self);
        }
        let per_sec: u128 = NANOS_PER_SEC as u128;
        let whole: u128 = self.secs as u128 * per_sec;
        assert(whole <= u64::MAX * 1_000_000_000);
        let total: u128 = whole + self.nanos as u128;
        let max: u128 = u64::MAX as u128 * per_sec + (per_sec - 1);
        assert(total * factor <= u128::MAX) by (nonlinear_arith)
            requires
                total <= u64::MAX * 1_000_000_000 + 999_999_999,
                factor <= u32::MAX,
        ;
        let product: u128 = total * factor as u128;
        if product <= max {
            TimeSpan::from_nanos(product)
        } else {
            TimeSpan::from_nanos(max)
        }
    }

    /// The shorter of the two spans.
    pub fn min(self, other: TimeSpan) -> (r: TimeSpan)
        ensures
            r@ == shorter(self@, other@),
    {
        proof {
            use_type_invariant(&self);
            use_type_invariant(&other);
        }
        if self.secs < other.secs || (self.secs == other.secs && self.nanos <= other.nanos) {
            self
        } else {
            other
        }
    }
}

} // verus!
