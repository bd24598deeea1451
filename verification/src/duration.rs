//! A plain-value model of a span of time: whole seconds plus a sub-second
//! remainder in nanoseconds, as the `grpc-timeout` header and the deadline
//! middleware need it.

use vstd::prelude::*;

verus! {

/// A non-negative span of time. Well-formed values keep the nanosecond
/// remainder below one second.
#[derive(Clone, Copy, Debug, PartialEq, Eq, Structural)]
pub struct Duration {
    pub secs: u64,
    pub nanos: u32,
}

impl Duration {
    /// The nanosecond field is a remainder: it never reaches a full second.
    pub open spec fn wf(self) -> bool {
        self.nanos < 1_000_000_000
    }

    /// Total length in nanoseconds.
    pub open spec fn as_nanos(self) -> int {
        self.secs * 1_000_000_000 + self.nanos
    }

    pub fn from_secs(secs: u64) -> (r: Self)
        ensures
            r.wf(),
            r == (Duration { secs, nanos: 0 }),
            r.as_nanos() == secs * 1_000_000_000,
    {
        Duration { secs, nanos: 0 }
    }

    pub fn from_millis(millis: u64) -> (r: Self)
        ensures
            r.wf(),
            r == (Duration { secs: millis / 1000, nanos: ((millis % 1000) * 1_000_000) as u32 }),
            r.as_nanos() == millis * 1_000_000,
    {
        let r = Duration { secs: millis / 1000, nanos: (millis % 1000) as u32 * 1_000_000 };
        proof {
            vstd::arithmetic::div_mod::lemma_fundamental_div_mod(millis as int, 1000);
            assert(r.as_nanos() == millis * 1_000_000) by (nonlinear_arith)
                requires
                    r.secs == millis as int / 1000,
                    r.nanos == (millis as int % 1000) * 1_000_000,
                    millis as int == 1000 * (millis as int / 1000) + millis as int % 1000,
            ;
        }
        r
    }

    pub fn from_micros(micros: u64) -> (r: Self)
        ensures
            r.wf(),
            r == (Duration {
                secs: micros / 1_000_000,
                nanos: ((micros % 1_000_000) * 1_000) as u32,
            }),
            r.as_nanos() == micros * 1_000,
    {
        let r = Duration {
            secs: micros / 1_000_000,
            nanos: (micros % 1_000_000) as u32 * 1_000,
        };
        proof {
            vstd::arithmetic::div_mod::lemma_fundamental_div_mod(micros as int, 1_000_000);
            assert(r.as_nanos() == micros * 1_000) by (nonlinear_arith)
                requires
                    r.secs == micros as int / 1_000_000,
                    r.nanos == (micros as int % 1_000_000) * 1_000,
                    micros as int == 1_000_000 * (micros as int / 1_000_000) + micros as int
                        % 1_000_000,
            ;
        }
        r
    }

    pub fn from_nanos(nanos: u64) -> (r: Self)
        ensures
            r.wf(),
            r == (Duration {
                secs: nanos / 1_000_000_000,
                nanos: (nanos % 1_000_000_000) as u32,
            }),
            r.as_nanos() == nanos,
    {
        let r = Duration {
            secs: nanos / 1_000_000_000,
            nanos: (nanos % 1_000_000_000) as u32,
        };
        proof {
            vstd::arithmetic::div_mod::lemma_fundamental_div_mod(nanos as int, 1_000_000_000);
        }
        r
    }

    /// The shorter of two spans; on a tie, the left one.
    pub fn min(self, other: Self) -> (r: Self)
        requires
            self.wf(),
            other.wf(),
        ensures
            r == (if self.as_nanos() <= other.as_nanos() {
                self
            } else {
                other
            }),
    {
        if self.secs < other.secs {
            self
        } else if self.secs == other.secs && self.nanos <= other.nanos {
            self
        } else {
            other
        }
    }
}

} // verus!
