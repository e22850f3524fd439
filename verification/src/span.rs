//! Stretches of time, to the nanosecond.

use vstd::prelude::*;

verus! {

/// The longest stretch of time: the seconds fill 64 bits, the rest of a second stays below one.
pub const SPAN_MAX: u128 = 18446744073709551615999999999;

/// Nanoseconds in a second.
pub const SECOND: u128 = 1000000000;

/// A stretch of time. Its view is its length in nanoseconds.
#[derive(Debug, Clone, Copy, PartialEq, Eq, Structural)]
pub struct TimeSpan {
    nanos: u128,
}

impl View for TimeSpan {
    type V = nat;

    closed spec fn view(&self) -> nat {
        self.nanos as nat
    }
}

/// Spans of the same length are the same.
pub broadcast proof fn lemma_span_ext(a: TimeSpan, b: TimeSpan)
    requires
        #[trigger] a@ == #[trigger] b@,
    ensures
        a == b,
{
}

/// The span of the given length, up to the longest one.
pub open spec fn span_of(nanos: nat) -> TimeSpan {
    choose|s: TimeSpan| s@ == nanos
}

/// Every length up to the longest is that of a span.
pub broadcast proof fn lemma_span_of(nanos: nat)
    requires
        nanos <= SPAN_MAX,
    ensures
        (#[trigger] span_of(nanos))@ == nanos,
{
    assert(TimeSpan { nanos: nanos as u128 }@ == nanos);
}

impl TimeSpan {
    #[verifier::type_invariant]
    spec fn well_formed(self) -> bool {
        self.nanos <= SPAN_MAX
    }

    /// No time at all.
    pub fn zero() -> (r: TimeSpan)
        ensures
            r@ == 0,
    {
        TimeSpan { nanos: 0 }
    }

    /// A whole number of seconds.
    pub fn fromSecs(secs: u64) -> (r: TimeSpan)
        ensures
            r@ == secs * SECOND,
    {
        TimeSpan { nanos: secs as u128 * SECOND }
    }

    /// The given number of nanoseconds, if a span can be that long.
    pub fn fromNanos(nanos: u128) -> (r: Option<TimeSpan>)
        ensures
            r is Some <==> nanos <= SPAN_MAX,
            r matches Some(s) ==> s@ == nanos,
    {
        if nanos <= SPAN_MAX {
            Some(TimeSpan { nanos })
        } else {
            None
        }
    }

    /// Its length in nanoseconds.
    pub fn asNanos(&self) -> (r: u128)
        ensures
            r == self@,
            r <= SPAN_MAX,
    {
        proof {
            use_type_invariant(self);
        }
        self.nanos
    }

    /// The whole seconds in it.
    pub fn asSecs(&self) -> (r: u64)
        ensures
            r == self@ / SECOND as nat,
    {
        proof {
            use_type_invariant(self);
        }
        (self.nanos / SECOND) as u64
    }

    /// Both spans together, if a span can be that long.
    pub fn checkedAdd(self, other: TimeSpan) -> (r: Option<TimeSpan>)
        ensures
            r is Some <==> self@ + other@ <= SPAN_MAX,
            r matches Some(s) ==> s@ == self@ + other@,
    {
        proof {
            use_type_invariant(self);
            use_type_invariant(other);
        }
        TimeSpan::fromNanos(self.nanos + other.nanos)
    }

    /// What is left of the span without `other`, none where `other` is longer.
    pub fn saturatingSub(self, other: TimeSpan) -> (r: TimeSpan)
        ensures
            r@ == if self@ >= other@ {
                (self@ - other@) as nat
            } else {
                0
            },
    {
        proof {
            use_type_invariant(self);
            use_type_invariant(other);
        }
        if self.nanos >= other.nanos {
            TimeSpan { nanos: self.nanos - other.nanos }
        } else {
            TimeSpan { nanos: 0 }
        }
    }

    /// The shorter of two spans.
    pub fn shorter(self, other: TimeSpan) -> (r: TimeSpan)
        ensures
            r@ == if self@ <= other@ {
                self@
            } else {
                other@
            },
    {
        proof {
            use_type_invariant(self);
            use_type_invariant(other);
        }
        if self.nanos <= other.nanos {
            self
        } else {
            other
        }
    }

    /// Whether there is no time in it.
    pub fn isZero(&self) -> (r: bool)
        ensures
            r == (self@ == 0),
    {
        self.nanos == 0
    }
}

} // verus!
