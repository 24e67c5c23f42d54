//! Wall-clock times as plain values, as `std::time::SystemTime` keeps them
//! on Unix: whole seconds since the epoch and nanoseconds.
use vstd::prelude::*;

verus! {

/// Nanoseconds in a second.
pub const NANOS_PER_SEC: u32 = 1_000_000_000;

/// The largest count of seconds that a `SystemTime` holds on Unix (its
/// seconds are an `i64`).
pub const MAX_SYSTEM_SECS: u64 = 0x7fff_ffff_ffff_ffff;

/// A point in time after the Unix epoch.
#[derive(Clone, Copy, Debug, PartialEq, Eq)]
pub struct SysTime {
    pub secs: u64,
    pub nanos: u32,
}

impl SysTime {
    /// The nanoseconds are below a second, and the seconds within what a
    /// `SystemTime` holds.
    pub open spec fn wf(self) -> bool {
        self.nanos < NANOS_PER_SEC && self.secs <= MAX_SYSTEM_SECS
    }

    /// Whether `self` comes strictly before `other`.
    pub open spec fn before(self, other: SysTime) -> bool {
        self.secs < other.secs || (self.secs == other.secs && self.nanos < other.nanos)
    }

    /// `self + Duration::from_secs(n)`, where `SystemTime::checked_add`
    /// can represent it.
    pub open spec fn plus_secs(self, n: u64) -> Option<SysTime> {
        if self.secs + n <= MAX_SYSTEM_SECS {
            Some(SysTime { secs: (self.secs + n) as u64, nanos: self.nanos })
        } else {
            None
        }
    }

    /// The whole seconds of `self.duration_since(earlier)`, or `None` where
    /// `earlier` is later than `self`.
    pub open spec fn whole_secs_since(self, earlier: SysTime) -> Option<u64> {
        if self.before(earlier) {
            None
        } else if self.nanos >= earlier.nanos {
            Some((self.secs - earlier.secs) as u64)
        } else {
            Some((self.secs - earlier.secs - 1) as u64)
        }
    }

    /// Whether `self` is strictly later than `other`.
    pub fn is_after(&self, other: &SysTime) -> (res: bool)
        ensures
            res == other.before(*self),
    {
        other.secs < self.secs || (other.secs == self.secs && other.nanos < self.nanos)
    }

    /// `SystemTime::checked_add(Duration::from_secs(n))`.
    pub fn checked_add_secs(&self, n: u64) -> (res: Option<SysTime>)
        ensures
            res == self.plus_secs(n),
    {
        if self.secs <= MAX_SYSTEM_SECS && n <= MAX_SYSTEM_SECS - self.secs {
            Some(SysTime { secs: self.secs + n, nanos: self.nanos })
        } else {
            None
        }
    }

    /// `self.duration_since(earlier).ok().map(|d| d.as_secs())`.
    pub fn secs_since(&self, earlier: &SysTime) -> (res: Option<u64>)
        ensures
            res == self.whole_secs_since(*earlier),
    {
        if earlier.is_after(self) {
            None
        } else if self.nanos >= earlier.nanos {
            Some(self.secs - earlier.secs)
        } else {
            Some(self.secs - earlier.secs - 1)
        }
    }
}

} // verus!
