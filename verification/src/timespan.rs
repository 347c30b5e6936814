//! A span of time held as whole seconds plus sub-second nanoseconds.

use vstd::prelude::*;

verus! {

/// Nanoseconds in one second.
pub const NANOS_PER_SEC: u64 = 1_000_000_000;

/// An elapsed span of time, `secs` whole seconds plus `subsec` nanoseconds.
#[derive(Clone, Copy, Debug, PartialEq, Eq, PartialOrd, Ord, Hash)]
pub struct TimeSpan {
    secs: u64,
    subsec: u32,
}

impl TimeSpan {
    #[verifier::type_invariant]
    spec fn wf(self) -> bool {
        self.subsec < NANOS_PER_SEC
    }

    /// Whole seconds of the span.
    pub closed spec fn spec_secs(self) -> nat {
        self.secs as nat
    }

    /// Sub-second nanoseconds of the span.
    pub closed spec fn spec_subsec(self) -> nat {
        self.subsec as nat
    }

    /// The whole span in nanoseconds.
    pub open spec fn nanos(self) -> nat {
        self.spec_secs() * 1_000_000_000 + self.spec_subsec()
    }

    /// The empty span.
    pub fn zero() -> (t: TimeSpan)
        ensures
            t.nanos() == 0,
    {
        TimeSpan { secs: 0, subsec: 0 }
    }

    /// A span of whole seconds.
    pub fn from_secs(secs: u64) -> (t: TimeSpan)
        ensures
            t.spec_secs() == secs,
            t.spec_subsec() == 0,
            t.nanos() == secs * 1_000_000_000,
    {
        TimeSpan { secs, subsec: 0 }
    }

    /// A span of milliseconds.
    pub fn from_millis(millis: u64) -> (t: TimeSpan)
        ensures
            t.nanos() == millis * 1_000_000,
    {
        let secs = millis / 1000;
        let rest = millis % 1000;
        let subsec = (rest * 1_000_000) as u32;
        assert(secs * 1_000_000_000 + rest * 1_000_000 == millis * 1_000_000) by (nonlinear_arith)
            requires secs == millis / 1000, rest == millis % 1000;
        TimeSpan { secs, subsec }
    }

    /// A span of nanoseconds.
    pub fn from_nanos(nanos: u64) -> (t: TimeSpan)
        ensures
            t.nanos() == nanos,
    {
        let secs = nanos / NANOS_PER_SEC;
        let subsec = (nanos % NANOS_PER_SEC) as u32;
        assert(secs * 1_000_000_000 + subsec == nanos) by (nonlinear_arith)
            requires secs == nanos / 1_000_000_000, subsec == nanos % 1_000_000_000;
        TimeSpan { secs, subsec }
    }

    /// A span from whole seconds and sub-second nanoseconds.
    pub fn new(secs: u64, subsec: u32) -> (t: TimeSpan)
        requires
            subsec < NANOS_PER_SEC,
        ensures
            t.spec_secs() == secs,
            t.spec_subsec() == subsec,
    {
        TimeSpan { secs, subsec }
    }

    /// Whole seconds of the span.
    pub fn as_secs(&self) -> (s: u64)
        ensures
            s == self.spec_secs(),
    {
        self.secs
    }

    /// Sub-second nanoseconds of the span.
    pub fn subsec_nanos(&self) -> (n: u32)
        ensures
            n == self.spec_subsec(),
            n < NANOS_PER_SEC,
    {
        proof {
            use_type_invariant(self);
        }
        self.subsec
    }

    /// The whole span in nanoseconds.
    pub fn as_nanos(&self) -> (n: u128)
        ensures
            n == self.nanos(),
            self.spec_subsec() < 1_000_000_000,
            n < 18_446_744_073_709_551_616u128 * 1_000_000_000,
    {
        proof {
            use_type_invariant(self);
        }
        let s = self.secs as u128;
        assert(s * 1_000_000_000 <= 18_446_744_073_709_551_615u128 * 1_000_000_000) by (nonlinear_arith)
            requires s <= 18_446_744_073_709_551_615u128;
        s * 1_000_000_000 + self.subsec as u128
    }

    /// Whether the span is empty.
    pub fn is_zero(&self) -> (b: bool)
        ensures
            b == (self.nanos() == 0),
    {
        self.secs == 0 && self.subsec == 0
    }
}

} // verus!
