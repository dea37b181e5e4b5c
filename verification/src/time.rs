//! Spans of time, to the nanosecond.
use vstd::prelude::*;

verus! {

/// The longest span: all of a 64-bit number of seconds, and just less than another one.
pub const MAX_NANOS: u128 = 18_446_744_073_709_551_615_999_999_999;

/// Nanoseconds in a second.
pub const NANOS_PER_SEC: u128 = 1_000_000_000;

/// A span of time. Its view is its number of nanoseconds.
#[derive(Debug, Clone, Copy, PartialEq, Eq, Structural)]
pub struct Duration {
    nanos: u128,
}

impl View for Duration {
    type V = nat;

    closed spec fn view(&self) -> nat {
        self.nanos as nat
    }
}

impl Duration {
    #[verifier::type_invariant]
    spec fn in_range(self) -> bool {
        self.nanos <= MAX_NANOS
    }

    /// No span is longer than the longest one.
    pub(crate) fn bounded(self) -> (r: Self)
        ensures
            r == self,
            self@ <= MAX_NANOS,
    {
        proof {
            use_type_invariant(&self);
        }
        self
    }

    /// No time at all.
    pub fn zero() -> (r: Self)
        ensures
            r@ == 0,
    {
        Duration { nanos: 0 }
    }

    /// A number of seconds.
    pub fn from_secs(secs: u64) -> (r: Self)
        ensures
            r@ == secs * NANOS_PER_SEC,
    {
        Duration { nanos: secs as u128 * 1_000_000_000 }
    }

    /// A number of milliseconds.
    pub fn from_millis(millis: u64) -> (r: Self)
        ensures
            r@ == millis * 1_000_000,
    {
        Duration { nanos: millis as u128 * 1_000_000 }
    }

    /// A number of nanoseconds.
    pub fn from_nanos(nanos: u64) -> (r: Self)
        ensures
            r@ == nanos,
    {
        Duration { nanos: nanos as u128 }
    }

    /// The whole seconds of the span.
    pub fn as_secs(&self) -> (r: u64)
        ensures
            r == self@ / NANOS_PER_SEC as nat,
    {
        proof {
            use_type_invariant(self);
        }
        (self.nanos / 1_000_000_000) as u64
    }

    /// The whole milliseconds of the span.
    pub fn as_millis(&self) -> (r: u128)
        ensures
            r == self@ / 1_000_000,
    {
        self.nanos / 1_000_000
    }

    /// What is left of a second behind the whole ones, in nanoseconds.
    pub fn subsec_nanos(&self) -> (r: u32)
        ensures
            r == self@ % NANOS_PER_SEC as nat,
    {
        (self.nanos % 1_000_000_000) as u32
    }

    /// Whether this span is shorter than `other`.
    pub fn shorter(&self, other: &Self) -> (r: bool)
        ensures
            r == (self@ < other@),
    {
        self.nanos < other.nanos
    }

    /// The shorter of two spans.
    pub fn min(self, other: Self) -> (r: Self)
        ensures
            r == if self@ <= other@ {
                self
            } else {
                other
            },
    {
        if self.nanos <= other.nanos {
            self
        } else {
            other
        }
    }

    /// The span that is left when `other` has passed.
    pub fn minus(self, other: Self) -> (r: Self)
        requires
            other@ <= self@,
        ensures
            r@ == self@ - other@,
    {
        proof {
            use_type_invariant(&self);
        }
        Duration { nanos: self.nanos - other.nanos }
    }

    /// One span after another.
    pub fn plus(self, other: Self) -> (r: Self)
        requires
            self@ + other@ <= MAX_NANOS,
        ensures
            r@ == self@ + other@,
    {
        Duration { nanos: self.nanos + other.nanos }
    }

    /// `n` times the span.
    pub fn times(self, n: u32) -> (r: Self)
        requires
            self@ * n <= MAX_NANOS,
        ensures
            r@ == self@ * n,
    {
        proof {
            use_type_invariant(&self);
            assert(self.nanos * n <= MAX_NANOS * 0xFFFF_FFFF) by (nonlinear_arith)
                requires
                    self.nanos <= MAX_NANOS,
                    n <= 0xFFFF_FFFF,
            ;
        }
        Duration { nanos: self.nanos * n as u128 }
    }
}

} // verus!
