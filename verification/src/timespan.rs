//! Instants and half-open database timespans.
use vstd::prelude::*;

verus! {

/// An instant in UTC: whole seconds since the Unix epoch and the nanoseconds
/// within that second.
#[derive(Clone, Copy, Debug, PartialEq, Eq, Structural)]
pub struct Timestamp {
    pub secs: i64,
    pub nanos: u32,
}

impl Timestamp {
    /// Nanoseconds stay below one second.
    pub open spec fn wf(self) -> bool {
        self.nanos < 1_000_000_000
    }

    /// Strictly earlier than `other`.
    pub open spec fn spec_before(self, other: Timestamp) -> bool {
        self.secs < other.secs || (self.secs == other.secs && self.nanos < other.nanos)
    }

    /// Earlier than or equal to `other`.
    pub open spec fn spec_not_after(self, other: Timestamp) -> bool {
        self.spec_before(other) || self == other
    }

    /// The same instant moved by whole seconds.
    pub open spec fn spec_plus_seconds(self, delta: int) -> Timestamp {
        Timestamp { secs: (self.secs + delta) as i64, nanos: self.nanos }
    }

    pub fn new(secs: i64, nanos: u32) -> (t: Timestamp)
        ensures
            t.secs == secs,
            t.nanos == nanos,
    {
        Timestamp { secs, nanos }
    }

    /// Whether `self` lies strictly before `other`.
    pub fn before(&self, other: &Timestamp) -> (r: bool)
        ensures
            r == self.spec_before(*other),
    {
        self.secs < other.secs || (self.secs == other.secs && self.nanos < other.nanos)
    }

    /// The instant `delta` whole seconds later (earlier for a negative `delta`).
    pub fn plus_seconds(&self, delta: i64) -> (t: Timestamp)
        requires
            i64::MIN <= self.secs + delta <= i64::MAX,
        ensures
            t == self.spec_plus_seconds(delta as int),
            t.secs == self.secs + delta,
    {
        Timestamp { secs: self.secs + delta, nanos: self.nanos }
    }
}

/// One end of a timespan.
#[derive(Clone, Copy, Debug, PartialEq, Eq, Structural)]
pub enum TimeBound {
    Included(Timestamp),
    Excluded(Timestamp),
    Unbounded,
}

impl TimeBound {
    /// Whether `t` lies on the inner side of this bound taken as a lower bound.
    pub open spec fn spec_admits_from_below(self, t: Timestamp) -> bool {
        match self {
            TimeBound::Included(s) => s.spec_not_after(t),
            TimeBound::Excluded(s) => s.spec_before(t),
            TimeBound::Unbounded => true,
        }
    }

    /// Whether `t` lies on the inner side of this bound taken as an upper bound.
    pub open spec fn spec_admits_from_above(self, t: Timestamp) -> bool {
        match self {
            TimeBound::Included(e) => t.spec_not_after(e),
            TimeBound::Excluded(e) => t.spec_before(e),
            TimeBound::Unbounded => true,
        }
    }

    pub open spec fn is_bounded(self) -> bool {
        !(self is Unbounded)
    }

    /// The instant a bounded end sits at.
    pub open spec fn spec_instant(self) -> Timestamp
        recommends
            self.is_bounded(),
    {
        match self {
            TimeBound::Included(x) => x,
            TimeBound::Excluded(x) => x,
            TimeBound::Unbounded => arbitrary(),
        }
    }
}

/// A range of instants as the database stores it: a lower and an upper end.
#[derive(Clone, Copy, Debug, PartialEq, Eq, Structural)]
pub struct DieselTimespan(pub TimeBound, pub TimeBound);

impl DieselTimespan {
    /// Whether the timespan holds `t`.
    pub open spec fn spec_contains(self, t: Timestamp) -> bool {
        self.0.spec_admits_from_below(t) && self.1.spec_admits_from_above(t)
    }

    /// The half-open timespan `[start, end)`.
    pub fn new(start: Timestamp, end: Timestamp) -> (ts: DieselTimespan)
        ensures
            ts == DieselTimespan(TimeBound::Included(start), TimeBound::Excluded(end)),
    {
        DieselTimespan(TimeBound::Included(start), TimeBound::Excluded(end))
    }

    /// The instant of the lower end, whether it is included or not.
    pub fn lower(self) -> (t: Timestamp)
        requires
            self.0.is_bounded(),
        ensures
            t == self.0.spec_instant(),
    {
        match self.0 {
            TimeBound::Included(x) => x,
            TimeBound::Excluded(x) => x,
            TimeBound::Unbounded => vstd::pervasive::unreached(),
        }
    }

    /// The instant of the upper end, whether it is included or not.
    pub fn upper(self) -> (t: Timestamp)
        requires
            self.1.is_bounded(),
        ensures
            t == self.1.spec_instant(),
    {
        match self.1 {
            TimeBound::Included(x) => x,
            TimeBound::Excluded(x) => x,
            TimeBound::Unbounded => vstd::pervasive::unreached(),
        }
    }

    /// Whether the timespan holds `t`.
    pub fn contains(&self, t: &Timestamp) -> (r: bool)
        ensures
            r == self.spec_contains(*t),
    {
        let lower_ok = match self.0 {
            TimeBound::Included(s) => !t.before(&s),
            TimeBound::Excluded(s) => s.before(t),
            TimeBound::Unbounded => true,
        };
        let upper_ok = match self.1 {
            TimeBound::Included(e) => !e.before(t),
            TimeBound::Excluded(e) => t.before(&e),
            TimeBound::Unbounded => true,
        };
        lower_ok && upper_ok
    }
}

/// The half-open timespan `[start, end)`.
pub fn new_dieseltimespan(start: Timestamp, end: Timestamp) -> (ts: DieselTimespan)
    ensures
        ts == DieselTimespan(TimeBound::Included(start), TimeBound::Excluded(end)),
{
    DieselTimespan::new(start, end)
}

} // verus!
