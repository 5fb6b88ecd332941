//! A span of time, counted in whole nanoseconds.

use vstd::prelude::*;

verus! {

/// Nanoseconds in one second.
pub const NANOS_PER_SEC: u32 = 1_000_000_000;

/// A span of time with nanosecond resolution.
///
/// Its view is the length of the span in nanoseconds.
#[derive(Clone, Copy, Debug)]
pub struct Duration {
    /// Whole seconds.
    secs: u64,
    /// The rest, always less than one second.
    nanos: u32,
}

impl View for Duration {
    type V = nat;

    closed spec fn view(&self) -> nat {
        (self.secs as nat) * (NANOS_PER_SEC as nat) + (self.nanos as nat)
    }
}

impl Duration {
    #[verifier::type_invariant]
    spec fn normal(self) -> bool {
        self.nanos < NANOS_PER_SEC
    }

    /// A span of `secs` seconds.
    pub fn from_secs(secs: u64) -> (d: Duration)
        ensures
            d@ == secs as nat * 1_000_000_000,
    {
        Duration { secs, nanos: 0 }
    }

    /// A span of `millis` milliseconds.
    pub fn from_millis(millis: u64) -> (d: Duration)
        ensures
            d@ == millis as nat * 1_000_000,
    {
        let secs: u64 = millis / 1000;
        let rest: u32 = (millis % 1000) as u32;
        let nanos: u32 = rest * 1_000_000;
        assert(secs as nat * 1_000_000_000 + (rest as nat) * 1_000_000 == millis as nat
            * 1_000_000) by (nonlinear_arith)
            requires
                secs == millis / 1000,
                rest == millis % 1000,
        ;
        Duration { secs, nanos }
    }

    /// A span of `secs` seconds and `nanos` nanoseconds, if `nanos` is
    /// less than a second.
    pub fn from_parts(secs: u64, nanos: u32) -> (d: Option<Duration>)
        ensures
            d is Some <==> nanos < NANOS_PER_SEC,
            d is Some ==> d->0@ == secs as nat * 1_000_000_000 + nanos as nat,
    {
        if nanos < NANOS_PER_SEC {
            Some(Duration { secs, nanos })
        } else {
            None
        }
    }

    /// The whole seconds in this span.
    pub fn as_secs(&self) -> (s: u64)
        ensures
            s as nat == self@ / 1_000_000_000,
    {
        proof {
            use_type_invariant(self);
            let s = self.secs as nat;
            let n = self.nanos as nat;
            assert((s * 1_000_000_000 + n) / 1_000_000_000 == s) by (nonlinear_arith)
                requires
                    n < 1_000_000_000,
            ;
        }
        self.secs
    }

    /// The part of this span that is beyond its whole seconds, in
    /// nanoseconds.
    pub fn subsec_nanos(&self) -> (n: u32)
        ensures
            n as nat == self@ % 1_000_000_000,
    {
        proof {
            use_type_invariant(self);
            let s = self.secs as nat;
            let n = self.nanos as nat;
            assert((s * 1_000_000_000 + n) % 1_000_000_000 == n) by (nonlinear_arith)
                requires
                    n < 1_000_000_000,
            ;
        }
        self.nanos
    }

    /// Whether this span is at most as long as `other`.
    pub fn le(&self, other: &Duration) -> (r: bool)
        ensures
            r == (self@ <= other@),
    {
        proof {
            use_type_invariant(self);
            use_type_invariant(other);
            lemma_order(self.secs, self.nanos, other.secs, other.nanos);
        }
        self.secs < other.secs || (self.secs == other.secs && self.nanos <= other.nanos)
    }

    /// The shorter of two spans.
    pub fn min(self, other: Duration) -> (r: Duration)
        ensures
            r@ == if self@ <= other@ {
                self@
            } else {
                other@
            },
    {
        if self.le(&other) {
            self
        } else {
            other
        }
    }

    /// `self - rhs`, or `None` where `rhs` is the longer span.
    pub fn checked_sub(&self, rhs: &Duration) -> (r: Option<Duration>)
        ensures
            r is Some <==> rhs@ <= self@,
            r is Some ==> r->0@ == self@ - rhs@,
    {
        proof {
            use_type_invariant(self);
            use_type_invariant(rhs);
            lemma_order(rhs.secs, rhs.nanos, self.secs, self.nanos);
        }
        if self.secs < rhs.secs {
            None
        } else if self.nanos >= rhs.nanos {
            let secs: u64 = self.secs - rhs.secs;
            let nanos: u32 = self.nanos - rhs.nanos;
            assert(secs as nat * 1_000_000_000 + nanos as nat == (self.secs as nat * 1_000_000_000
                + self.nanos as nat) - (rhs.secs as nat * 1_000_000_000 + rhs.nanos as nat))
                by (nonlinear_arith)
                requires
                    secs == self.secs - rhs.secs,
                    nanos == self.nanos - rhs.nanos,
                    self.secs >= rhs.secs,
                    self.nanos >= rhs.nanos,
            ;
            Some(Duration { secs, nanos })
        } else if self.secs > rhs.secs {
            let secs: u64 = self.secs - rhs.secs - 1;
            let nanos: u32 = self.nanos + NANOS_PER_SEC - rhs.nanos;
            assert(secs as nat * 1_000_000_000 + nanos as nat == (self.secs as nat * 1_000_000_000
                + self.nanos as nat) - (rhs.secs as nat * 1_000_000_000 + rhs.nanos as nat))
                by (nonlinear_arith)
                requires
                    secs == self.secs - rhs.secs - 1,
                    nanos == self.nanos + 1_000_000_000 - rhs.nanos,
                    self.secs > rhs.secs,
                    self.nanos < rhs.nanos,
            ;
            Some(Duration { secs, nanos })
        } else {
            None
        }
    }
}

/// Spans compare as their seconds do, and by the rest where those agree.
proof fn lemma_order(s1: u64, n1: u32, s2: u64, n2: u32)
    requires
        n1 < NANOS_PER_SEC,
        n2 < NANOS_PER_SEC,
    ensures
        (s1 as nat * 1_000_000_000 + n1 as nat <= s2 as nat * 1_000_000_000 + n2 as nat) <==> (s1
            < s2 || (s1 == s2 && n1 <= n2)),
{
    let a = s1 as int;
    let b = s2 as int;
    assert(a < b ==> a * 1_000_000_000 + 1_000_000_000 <= b * 1_000_000_000) by (nonlinear_arith);
    assert(b < a ==> b * 1_000_000_000 + 1_000_000_000 <= a * 1_000_000_000) by (nonlinear_arith);
}

} // verus!
