//! Instants and spans of time as plain integers.
//!
//! A [`Timestamp`] stands for a UTC date and time, a [`SleepDuration`] for a
//! non-negative span.  Both are pairs of whole seconds and nanoseconds, so
//! that instants can be ordered, subtracted and stored as integers.

use std::cmp::Ordering;
use vstd::prelude::*;
use vstd::std_specs::cmp::PartialOrdSpecImpl;

verus! {

/// Nanoseconds in one second.
pub const NANOS_PER_SEC: u32 = 1_000_000_000;

/// An instant on the UTC time line: whole seconds since the Unix epoch and
/// the nanoseconds into that second, always below [`NANOS_PER_SEC`].
#[derive(Clone, Copy, Debug, PartialEq, Eq, Structural)]
pub struct Timestamp {
    secs: i64,
    nanos: u32,
}

/// A non-negative span of time: whole seconds and the nanoseconds beyond
/// them.
#[derive(Clone, Copy, Debug, PartialEq, Eq, Structural)]
pub struct SleepDuration {
    pub secs: u64,
    pub nanos: u32,
}

/// Lexicographic "at or before" on pairs of seconds and nanoseconds.
pub open spec fn parts_le(a_secs: int, a_nanos: int, b_secs: int, b_nanos: int) -> bool {
    a_secs < b_secs || (a_secs == b_secs && a_nanos <= b_nanos)
}

impl SleepDuration {
    /// The span in nanoseconds.
    pub open spec fn total_nanos(self) -> int {
        self.secs * 1_000_000_000 + self.nanos
    }

    /// The empty span.
    pub fn zero() -> (d: SleepDuration)
        ensures
            d == (SleepDuration { secs: 0, nanos: 0 }),
    {
        SleepDuration { secs: 0, nanos: 0 }
    }

    /// A span of whole seconds.
    pub fn from_secs(secs: u64) -> (d: SleepDuration)
        ensures
            d == (SleepDuration { secs, nanos: 0 }),
    {
        SleepDuration { secs, nanos: 0 }
    }
}

impl Timestamp {
    #[verifier::type_invariant]
    spec fn well_formed(self) -> bool {
        self.nanos < NANOS_PER_SEC
    }

    /// Whole seconds since the Unix epoch.
    pub closed spec fn spec_secs(&self) -> i64 {
        self.secs
    }

    /// Nanoseconds into the second.
    pub closed spec fn spec_subsec_nanos(&self) -> u32 {
        self.nanos
    }

    /// Nanoseconds since the Unix epoch.
    pub open spec fn total_nanos(self) -> int {
        self.secs() * 1_000_000_000 + self.subsec_nanos()
    }

    /// `self` is at or before `other`.
    pub open spec fn at_or_before(self, other: Timestamp) -> bool {
        parts_le(
            self.secs() as int,
            self.subsec_nanos() as int,
            other.secs() as int,
            other.subsec_nanos() as int,
        )
    }

    /// `self` is strictly later than `other`.
    pub open spec fn after(self, other: Timestamp) -> bool {
        !self.at_or_before(other)
    }

    /// The instant `nanos` nanoseconds into second `secs`, or `None` when
    /// `nanos` does not lie within one second.
    pub fn new(secs: i64, nanos: u32) -> (r: Option<Timestamp>)
        ensures
            nanos >= NANOS_PER_SEC ==> r is None,
            nanos < NANOS_PER_SEC ==> r is Some && r->Some_0.secs() == secs
                && r->Some_0.subsec_nanos() == nanos,
    {
        if nanos < NANOS_PER_SEC {
            Some(Timestamp { secs, nanos })
        } else {
            None
        }
    }

    /// The start of second `secs`.
    pub fn from_secs(secs: i64) -> (t: Timestamp)
        ensures
            t.secs() == secs,
            t.subsec_nanos() == 0,
    {
        Timestamp { secs, nanos: 0 }
    }

    /// Whole seconds since the Unix epoch.
    #[verifier::when_used_as_spec(spec_secs)]
    pub fn secs(&self) -> (s: i64)
        ensures
            s == self.secs(),
    {
        self.secs
    }

    /// Nanoseconds into the second.
    #[verifier::when_used_as_spec(spec_subsec_nanos)]
    pub fn subsec_nanos(&self) -> (n: u32)
        ensures
            n == self.subsec_nanos(),
            n < NANOS_PER_SEC,
    {
        proof {
            use_type_invariant(self);
        }
        self.nanos
    }

    /// The time from `earlier` to `self`, or nothing when `self` is not
    /// later than `earlier`.
    pub fn saturating_duration_since(&self, earlier: &Timestamp) -> (d: SleepDuration)
        ensures
            d.nanos < NANOS_PER_SEC,
            self.at_or_before(*earlier) ==> d.total_nanos() == 0,
            self.after(*earlier) ==> d.total_nanos() == self.total_nanos() - earlier.total_nanos(),
    {
        proof {
            use_type_invariant(self);
            use_type_invariant(earlier);
        }
        if self.secs < earlier.secs || (self.secs == earlier.secs && self.nanos <= earlier.nanos) {
            SleepDuration { secs: 0, nanos: 0 }
        } else if self.nanos >= earlier.nanos {
            let whole: i128 = self.secs as i128 - earlier.secs as i128;
            SleepDuration { secs: whole as u64, nanos: self.nanos - earlier.nanos }
        } else {
            let whole: i128 = self.secs as i128 - earlier.secs as i128 - 1;
            SleepDuration {
                secs: whole as u64,
                nanos: self.nanos + (NANOS_PER_SEC - earlier.nanos),
            }
        }
    }

    /// Two instants with the same seconds and nanoseconds are the same
    /// instant.
    pub proof fn lemma_parts_identify(a: Timestamp, b: Timestamp)
        requires
            a.secs() == b.secs(),
            a.subsec_nanos() == b.subsec_nanos(),
        ensures
            a == b,
    {
    }
}

impl PartialOrd for Timestamp {
    fn partial_cmp(&self, other: &Timestamp) -> (r: Option<Ordering>) {
        if self.secs < other.secs {
            Some(Ordering::Less)
        } else if self.secs > other.secs {
            Some(Ordering::Greater)
        } else if self.nanos < other.nanos {
            Some(Ordering::Less)
        } else if self.nanos > other.nanos {
            Some(Ordering::Greater)
        } else {
            Some(Ordering::Equal)
        }
    }
}

impl PartialOrdSpecImpl for Timestamp {
    open spec fn obeys_partial_cmp_spec() -> bool {
        true
    }

    open spec fn partial_cmp_spec(&self, other: &Timestamp) -> Option<Ordering> {
        if self.secs() < other.secs() {
            Some(Ordering::Less)
        } else if self.secs() > other.secs() {
            Some(Ordering::Greater)
        } else if self.subsec_nanos() < other.subsec_nanos() {
            Some(Ordering::Less)
        } else if self.subsec_nanos() > other.subsec_nanos() {
            Some(Ordering::Greater)
        } else {
            Some(Ordering::Equal)
        }
    }
}

} // verus!
