//! Spans of time, to the nanosecond.

use vstd::prelude::*;

verus! {

/// The longest span: `u64::MAX` seconds and 999 999 999 nanoseconds.
pub const MAX_NANOS: u128 = 18_446_744_073_709_551_615_999_999_999;

/// A span of time.
#[derive(Debug, Clone, Copy, PartialEq, Eq, PartialOrd, Ord, Structural)]
pub struct Duration {
    nanos: u128,
}

impl View for Duration {
    type V = nat;

    /// The span in nanoseconds.
    closed spec fn view(&self) -> nat {
        self.nanos as nat
    }
}

/// The smaller of two numbers.
pub open spec fn least(a: nat, b: nat) -> nat {
    if a <= b {
        a
    } else {
        b
    }
}

/// The larger of two numbers.
pub open spec fn greatest(a: nat, b: nat) -> nat {
    if a >= b {
        a
    } else {
        b
    }
}

impl Duration {
    #[verifier::type_invariant]
    spec fn bounded(self) -> bool {
        self.nanos <= MAX_NANOS
    }

    /// No time at all.
    pub fn zero() -> (r: Duration)
        ensures
            r@ == 0,
    {
        Duration { nanos: 0 }
    }

    /// The longest span.
    pub fn longest() -> (r: Duration)
        ensures
            r@ == MAX_NANOS,
    {
        Duration { nanos: MAX_NANOS }
    }

    /// Half the span, to the nanosecond below.
    pub fn half(self) -> (r: Duration)
        ensures
            r@ == self@ / 2,
    {
        proof {
            use_type_invariant(&self);
        }
        Duration { nanos: self.nanos / 2 }
    }

    pub fn from_secs(secs: u64) -> (r: Duration)
        ensures
            r@ == secs * 1_000_000_000,
    {
        Duration { nanos: secs as u128 * 1_000_000_000 }
    }

    pub fn from_millis(millis: u64) -> (r: Duration)
        ensures
            r@ == millis * 1_000_000,
    {
        Duration { nanos: millis as u128 * 1_000_000 }
    }

    /// A span of so many nanoseconds, or the longest one.
    pub fn from_nanos_saturating(nanos: u128) -> (r: Duration)
        ensures
            r@ == least(nanos as nat, MAX_NANOS as nat),
    {
        if nanos > MAX_NANOS {
            Duration { nanos: MAX_NANOS }
        } else {
            Duration { nanos }
        }
    }

    pub fn as_nanos(&self) -> (r: u128)
        ensures
            r == self@,
            r <= MAX_NANOS,
    {
        proof {
            use_type_invariant(self);
        }
        self.nanos
    }

    /// The whole seconds.
    pub fn as_secs(&self) -> (r: u64)
        ensures
            r == self@ / 1_000_000_000,
    {
        proof {
            use_type_invariant(self);
        }
        (self.nanos / 1_000_000_000) as u64
    }

    /// The whole milliseconds.
    pub fn as_millis(&self) -> (r: u128)
        ensures
            r == self@ / 1_000_000,
    {
        self.nanos / 1_000_000
    }

    pub fn is_zero(&self) -> (r: bool)
        ensures
            r == (self@ == 0),
    {
        self.nanos == 0
    }

    /// The span `factor` times over, or the longest one.
    pub fn saturating_mul(self, factor: u32) -> (r: Duration)
        ensures
            r@ == least(self@ * factor as nat, MAX_NANOS as nat),
    {
        proof {
            use_type_invariant(&self);
            assert(self.nanos * factor <= MAX_NANOS * 0xffff_ffff) by (nonlinear_arith)
                requires
                    self.nanos <= MAX_NANOS,
                    factor <= 0xffff_ffff,
            ;
            assert(MAX_NANOS * 0xffff_ffff < u128::MAX);
        }
        Duration::from_nanos_saturating(self.nanos * factor as u128)
    }

    /// Both spans together, or the longest one.
    pub fn saturating_add(self, other: Duration) -> (r: Duration)
        ensures
            r@ == least(self@ + other@, MAX_NANOS as nat),
    {
        proof {
            use_type_invariant(&self);
            use_type_invariant(&other);
        }
        Duration::from_nanos_saturating(self.nanos + other.nanos)
    }

    /// The shorter of the two.
    pub fn min(self, other: Duration) -> (r: Duration)
        ensures
            r@ == least(self@, other@),
    {
        if self.nanos <= other.nanos {
            self
        } else {
            other
        }
    }

    /// The longer of the two.
    pub fn max(self, other: Duration) -> (r: Duration)
        ensures
            r@ == greatest(self@, other@),
    {
        if self.nanos >= other.nanos {
            self
        } else {
            other
        }
    }
}

/// The smaller and the larger of two numbers are the two numbers.
pub proof fn the_smaller_and_the_larger(a: nat, b: nat)
    ensures
        least(a, b) <= a && least(a, b) <= b && (least(a, b) == a || least(a, b) == b),
        greatest(a, b) >= a && greatest(a, b) >= b && (greatest(a, b) == a || greatest(a, b) == b),
        least(a, b) + greatest(a, b) == a + b,
{
}

/// The longest span is as many whole seconds as a `u64` counts, and all but one
/// nanosecond of another.
pub proof fn the_longest_span()
    ensures
        MAX_NANOS == u64::MAX * 1_000_000_000 + 999_999_999,
{
}

} // verus!
