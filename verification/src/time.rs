use vstd::prelude::*;

verus! {

/// Nanoseconds in one second.
pub const NANOS_PER_SEC: u32 = 1_000_000_000;

/// The largest span a `Duration` holds, in nanoseconds.
pub open spec fn max_duration_nanos() -> nat {
    (u64::MAX as nat) * 1_000_000_000 + 999_999_999
}

/// A span of time: whole seconds plus a sub-second part in nanoseconds.
#[derive(Debug, Clone, Copy, PartialEq, Eq, Structural)]
pub struct Duration {
    secs: u64,
    nanos: u32,
}

impl Duration {
    #[verifier::type_invariant]
    spec fn well_formed(self) -> bool {
        self.nanos < 1_000_000_000
    }

    /// The span in nanoseconds.
    pub closed spec fn view(self) -> nat {
        (self.secs as nat) * 1_000_000_000 + (self.nanos as nat)
    }

    /// The span of `secs` seconds and `nanos` nanoseconds; nanoseconds beyond
    /// a second carry into the seconds.
    pub fn new(secs: u64, nanos: u32) -> (d: Duration)
        requires
            secs + nanos / 1_000_000_000 <= u64::MAX,
        ensures
            d.view() == secs * 1_000_000_000 + nanos,
    {
        let extra = (nanos / NANOS_PER_SEC) as u64;
        Duration { secs: secs + extra, nanos: nanos % NANOS_PER_SEC }
    }

    /// The span of `secs` whole seconds.
    pub fn from_secs(secs: u64) -> (d: Duration)
        ensures
            d.view() == secs * 1_000_000_000,
    {
        Duration { secs, nanos: 0 }
    }

    /// The empty span.
    pub fn zero() -> (d: Duration)
        ensures
            d.view() == 0,
    {
        Duration { secs: 0, nanos: 0 }
    }

    /// The number of whole seconds.
    pub fn as_secs(&self) -> (s: u64)
        ensures
            s == self.view() / 1_000_000_000,
    {
        proof { use_type_invariant(self); }
        self.secs
    }

    /// The fractional part in nanoseconds.
    pub fn subsec_nanos(&self) -> (n: u32)
        ensures
            n == self.view() % 1_000_000_000,
    {
        proof { use_type_invariant(self); }
        self.nanos
    }

    /// Whether the span is empty.
    pub fn is_zero(&self) -> (b: bool)
        ensures
            b == (self.view() == 0),
    {
        self.secs == 0 && self.nanos == 0
    }

    /// Whether `self` is strictly shorter than `other`.
    pub fn is_shorter_than(&self, other: &Duration) -> (b: bool)
        ensures
            b == (self.view() < other.view()),
    {
        proof {
            use_type_invariant(self);
            use_type_invariant(other);
        }
        self.secs < other.secs || (self.secs == other.secs && self.nanos < other.nanos)
    }

    /// The shorter of the two spans.
    pub fn min(self, other: Duration) -> (d: Duration)
        ensures
            d.view() == if self.view() <= other.view() { self.view() } else { other.view() },
    {
        if other.is_shorter_than(&self) {
            other
        } else {
            self
        }
    }

    /// `self - other`, or the empty span when `other` is longer.
    pub fn saturating_sub(self, other: Duration) -> (d: Duration)
        ensures
            d.view() == if other.view() <= self.view() { self.view() - other.view() } else { 0 },
    {
        match self.checked_sub(other) {
            Some(d) => d,
            None => Duration::zero(),
        }
    }

    /// `self - other`, or `None` when `other` is longer.
    pub fn checked_sub(self, other: Duration) -> (d: Option<Duration>)
        ensures
            d is Some <==> other.view() <= self.view(),
            d matches Some(r) ==> r.view() == self.view() - other.view(),
    {
        proof {
            use_type_invariant(self);
            use_type_invariant(other);
        }
        if self.is_shorter_than(&other) {
            None
        } else if self.nanos >= other.nanos {
            Some(Duration { secs: self.secs - other.secs, nanos: self.nanos - other.nanos })
        } else {
            Some(Duration { secs: self.secs - other.secs - 1, nanos: self.nanos + NANOS_PER_SEC - other.nanos })
        }
    }

    /// `self + other`, or `None` when the sum is too long for a `Duration`.
    pub fn checked_add(self, other: Duration) -> (d: Option<Duration>)
        ensures
            d is Some <==> self.view() + other.view() <= max_duration_nanos(),
            d matches Some(r) ==> r.view() == self.view() + other.view(),
    {
        proof {
            use_type_invariant(self);
            use_type_invariant(other);
        }
        let nanos = self.nanos + other.nanos;
        let carry: u64 = if nanos >= NANOS_PER_SEC { 1 } else { 0 };
        let nanos = if nanos >= NANOS_PER_SEC { nanos - NANOS_PER_SEC } else { nanos };
        match self.secs.checked_add(other.secs) {
            None => None,
            Some(s) => match s.checked_add(carry) {
                None => None,
                Some(s) => Some(Duration { secs: s, nanos }),
            },
        }
    }
}

/// A point in time, kept as the span since a fixed origin chosen by the
/// program's clock.
#[derive(Debug, Clone, Copy, PartialEq, Eq, Structural)]
pub struct Instant {
    since_origin: Duration,
}

impl Instant {
    /// The point in time in nanoseconds since the origin.
    pub closed spec fn view(self) -> nat {
        self.since_origin.view()
    }

    /// The point `d` after the origin.
    pub fn from_origin(d: Duration) -> (t: Instant)
        ensures
            t.view() == d.view(),
    {
        Instant { since_origin: d }
    }

    /// The span since the origin.
    pub fn since_origin(&self) -> (d: Duration)
        ensures
            d.view() == self.view(),
    {
        self.since_origin
    }

    /// The span from `earlier` to `self`, or the empty span when `earlier` is later.
    pub fn saturating_duration_since(&self, earlier: Instant) -> (d: Duration)
        ensures
            d.view() == if earlier.view() <= self.view() { self.view() - earlier.view() } else { 0 },
    {
        self.since_origin.saturating_sub(earlier.since_origin)
    }

    /// The point `d` before `self`, or `None` when that precedes the origin.
    pub fn checked_sub(&self, d: Duration) -> (t: Option<Instant>)
        ensures
            t is Some <==> d.view() <= self.view(),
            t matches Some(r) ==> r.view() == self.view() - d.view(),
    {
        match self.since_origin.checked_sub(d) {
            Some(s) => Some(Instant { since_origin: s }),
            None => None,
        }
    }
}

} // verus!
