//! Spans and points of time, as whole seconds plus a sub-second nanosecond
//! part. The policy logic only compares and subtracts them; the clock itself
//! is read by the caller.
use vstd::prelude::*;

verus! {

pub const NANOS_PER_SEC: u32 = 1_000_000_000;

/// A span of time.
#[derive(Debug, Clone, Copy, PartialEq, Eq, Structural)]
pub struct Duration {
    secs: u64,
    nanos: u32,
}

impl View for Duration {
    type V = nat;

    /// The span in nanoseconds.
    closed spec fn view(&self) -> nat {
        (self.secs as nat) * 1_000_000_000 + (self.nanos as nat)
    }
}

impl Duration {
    pub closed spec fn wf(self) -> bool {
        self.nanos < NANOS_PER_SEC
    }

    pub closed spec fn secs_spec(self) -> u64 {
        self.secs
    }

    pub fn from_secs(secs: u64) -> (d: Duration)
        ensures
            d.wf(),
            d@ == secs as nat * 1_000_000_000,
            d.secs_spec() == secs,
    {
        Duration { secs, nanos: 0 }
    }

    pub fn from_millis(millis: u64) -> (d: Duration)
        ensures
            d.wf(),
            d@ == millis as nat * 1_000_000,
    {
        let secs = millis / 1000;
        let rem = (millis % 1000) as u32;
        let d = Duration { secs, nanos: rem * 1_000_000 };
        assert(d@ == millis as nat * 1_000_000) by (nonlinear_arith)
            requires
                secs == millis / 1000,
                rem == millis % 1000,
                d@ == secs as nat * 1_000_000_000 + rem as nat * 1_000_000,
        ;
        d
    }

    /// A span from whole seconds and a nanosecond part below one second.
    pub fn new(secs: u64, nanos: u32) -> (d: Duration)
        requires
            nanos < NANOS_PER_SEC,
        ensures
            d.wf(),
            d.secs_spec() == secs,
            d@ == secs as nat * 1_000_000_000 + nanos as nat,
    {
        Duration { secs, nanos }
    }

    /// Whole seconds in the span, as `Duration::as_secs`.
    pub fn as_secs(&self) -> (s: u64)
        requires
            self.wf(),
        ensures
            s == self@ / 1_000_000_000,
            s == self.secs_spec(),
    {
        self.secs
    }

    pub fn subsec_nanos(&self) -> (n: u32)
        requires
            self.wf(),
        ensures
            n == self@ % 1_000_000_000,
    {
        self.nanos
    }

    /// `self >= other`.
    pub fn is_at_least(&self, other: &Duration) -> (b: bool)
        requires
            self.wf(),
            other.wf(),
        ensures
            b == (self@ >= other@),
    {
        if self.secs != other.secs {
            self.secs > other.secs
        } else {
            self.nanos >= other.nanos
        }
    }

    /// `self < other`.
    pub fn is_less_than(&self, other: &Duration) -> (b: bool)
        requires
            self.wf(),
            other.wf(),
        ensures
            b == (self@ < other@),
    {
        !self.is_at_least(other)
    }

    /// `self - other`, or zero when `other` is the longer span.
    pub fn saturating_sub(&self, other: &Duration) -> (d: Duration)
        requires
            self.wf(),
            other.wf(),
        ensures
            d.wf(),
            d@ == if self@ >= other@ { self@ - other@ } else { 0 },
    {
        if !self.is_at_least(other) {
            return Duration { secs: 0, nanos: 0 };
        }
        if self.nanos >= other.nanos {
            Duration { secs: self.secs - other.secs, nanos: self.nanos - other.nanos }
        } else {
            Duration {
                secs: self.secs - other.secs - 1,
                nanos: NANOS_PER_SEC - other.nanos + self.nanos,
            }
        }
    }
}

/// A point in time, as the span elapsed since a fixed origin chosen by the
/// caller (for instance the start of the process).
#[derive(Debug, Clone, Copy, PartialEq, Eq, Structural)]
pub struct Instant {
    since_origin: Duration,
}

impl View for Instant {
    type V = nat;

    closed spec fn view(&self) -> nat {
        self.since_origin@
    }
}

impl Instant {
    pub closed spec fn wf(self) -> bool {
        self.since_origin.wf()
    }

    pub fn from_origin(since_origin: Duration) -> (t: Instant)
        requires
            since_origin.wf(),
        ensures
            t.wf(),
            t@ == since_origin@,
    {
        Instant { since_origin }
    }

    pub fn since_origin(&self) -> (d: Duration)
        ensures
            d.wf() == self.wf(),
            d@ == self@,
    {
        self.since_origin
    }

    /// The span from `earlier` to `self`, or zero when `earlier` is later, as
    /// `Instant::saturating_duration_since`.
    pub fn saturating_duration_since(&self, earlier: &Instant) -> (d: Duration)
        requires
            self.wf(),
            earlier.wf(),
        ensures
            d.wf(),
            d@ == if self@ >= earlier@ { self@ - earlier@ } else { 0 },
    {
        self.since_origin.saturating_sub(&earlier.since_origin)
    }

    /// `self + span`, or `None` when the result is not representable.
    pub fn checked_add(&self, span: &Duration) -> (r: Option<Instant>)
        requires
            self.wf(),
            span.wf(),
        ensures
            r matches Some(t) ==> t.wf() && t@ == self@ + span@,
            r is None ==> self@ + span@ >= (u64::MAX as nat + 1) * 1_000_000_000,
    {
        let a = self.since_origin;
        let mut nanos = a.nanos + span.nanos;
        let mut carry: u64 = 0;
        if nanos >= NANOS_PER_SEC {
            nanos = nanos - NANOS_PER_SEC;
            carry = 1;
        }
        if span.secs > u64::MAX - a.secs || carry > u64::MAX - a.secs - span.secs {
            return None;
        }
        Some(Instant { since_origin: Duration { secs: a.secs + span.secs + carry, nanos } })
    }
}

} // verus!
