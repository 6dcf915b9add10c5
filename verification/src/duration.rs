//! Spans of time, as used for the poll interval of a queue.

use vstd::prelude::*;

verus! {

/// A span of time: whole seconds and the nanoseconds below one second.
#[derive(Clone, Copy, Debug, PartialEq, Eq, Structural)]
pub struct Duration {
    secs: u64,
    nanos: u32,
}

/// Nanoseconds in one second.
pub open spec fn nanos_per_sec() -> nat {
    1_000_000_000
}

impl View for Duration {
    type V = nat;

    /// The whole span in nanoseconds.
    closed spec fn view(&self) -> nat {
        (self.secs * nanos_per_sec() + self.nanos) as nat
    }
}

impl Duration {
    #[verifier::type_invariant]
    spec fn inv(self) -> bool {
        self.nanos < 1_000_000_000
    }

    /// A span of `secs` seconds and `nanos` nanoseconds; nanoseconds of a
    /// second or more carry into the seconds.
    pub fn new(secs: u64, nanos: u32) -> (d: Duration)
        requires
            secs + nanos / 1_000_000_000u32 <= u64::MAX,
        ensures
            d@ == secs * nanos_per_sec() + nanos,
    {
        let carry: u32 = nanos / 1_000_000_000u32;
        let rest: u32 = nanos % 1_000_000_000u32;
        assert(nanos == carry * 1_000_000_000 + rest) by (nonlinear_arith)
            requires
                carry == nanos / 1_000_000_000u32,
                rest == nanos % 1_000_000_000u32,
        ;
        let d = Duration { secs: secs + carry as u64, nanos: rest };
        assert(d@ == secs * nanos_per_sec() + nanos) by (nonlinear_arith)
            requires
                d.secs == secs + carry,
                d.nanos == rest,
                nanos == carry * 1_000_000_000 + rest,
                d@ == d.secs * 1_000_000_000 + d.nanos,
        ;
        d
    }

    /// A span of whole seconds.
    pub fn from_secs(secs: u64) -> (d: Duration)
        ensures
            d@ == secs * nanos_per_sec(),
    {
        Duration { secs, nanos: 0 }
    }

    /// A span of whole milliseconds.
    pub fn from_millis(millis: u64) -> (d: Duration)
        ensures
            d@ == millis * 1_000_000,
    {
        let secs: u64 = millis / 1000;
        let rest: u64 = millis % 1000;
        let d = Duration { secs, nanos: (rest * 1_000_000) as u32 };
        assert(d@ == millis * 1_000_000) by (nonlinear_arith)
            requires
                secs == millis / 1000,
                rest == millis % 1000,
                d.secs == secs,
                d.nanos == rest * 1_000_000,
                d@ == d.secs * 1_000_000_000 + d.nanos,
        ;
        d
    }

    /// The whole seconds of the span.
    pub fn as_secs(&self) -> (s: u64)
        ensures
            s == self@ / nanos_per_sec(),
    {
        proof {
            use_type_invariant(self);
            let v = self@;
            assert(v / 1_000_000_000 == self.secs) by (nonlinear_arith)
                requires
                    v == self.secs * 1_000_000_000 + self.nanos,
                    self.nanos < 1_000_000_000,
            ;
        }
        self.secs
    }

    /// The nanoseconds of the span below its whole seconds.
    pub fn subsec_nanos(&self) -> (n: u32)
        ensures
            n == self@ % nanos_per_sec(),
            n < nanos_per_sec(),
    {
        proof {
            use_type_invariant(self);
            let v = self@;
            assert(v % 1_000_000_000 == self.nanos) by (nonlinear_arith)
                requires
                    v == self.secs * 1_000_000_000 + self.nanos,
                    self.nanos < 1_000_000_000,
            ;
        }
        self.nanos
    }

    /// Whether the span is empty.
    pub fn is_zero(&self) -> (z: bool)
        ensures
            z == (self@ == 0),
    {
        self.secs == 0 && self.nanos == 0
    }
}

} // verus!
