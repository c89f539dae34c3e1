//! Instants, spans of time and closed periods, all counted in whole seconds.

use vstd::prelude::*;

verus! {

/// The earliest instant the calendar can name: 1 January of the year -262143 (262144 BCE), 00:00:00.
pub const MIN_INSTANT: i64 = -8334601228800;

/// The latest instant the calendar can name: 31 December of the year 262142, 23:59:59.
pub const MAX_INSTANT: i64 = 8210266876799;

/// The longest span, either way, that a `Duration` may hold: `i64::MAX` milliseconds, in seconds.
pub const MAX_SPAN: i64 = 9223372036854775;

pub const SECS_PER_HOUR: i64 = 3600;

pub const SECS_PER_DAY: i64 = 86400;

pub const SECS_PER_WEEK: i64 = 604800;

/// An instant, as the number of seconds since 1970-01-01 00:00:00 (no time zone).
#[derive(Clone, Copy, Debug, PartialEq, Eq, Structural)]
pub struct DateTime {
    pub secs: i64,
}

/// A signed span of time in seconds.
#[derive(Clone, Copy, Debug, PartialEq, Eq, Structural)]
pub struct Duration {
    pub secs: i64,
}

/// A closed period of time: both `start` and `end` belong to it.
#[derive(Clone, Copy, Debug, PartialEq, Eq, Structural)]
pub struct Period {
    pub start: DateTime,
    pub end: DateTime,
}

/// An instant that the calendar can name.
pub open spec fn representable(t: int) -> bool {
    MIN_INSTANT <= t <= MAX_INSTANT
}

/// A span that a `Duration` may hold.
pub open spec fn valid_span(d: int) -> bool {
    -MAX_SPAN <= d <= MAX_SPAN
}

/// Whether the closed ranges `[a_start, a_end]` and `[b_start, b_end]` share an instant: they are
/// apart only when `b` lies wholly before `a` or wholly after it.
pub open spec fn ranges_intersect(a_start: int, a_end: int, b_start: int, b_end: int) -> bool {
    !((b_start < a_start && b_end < a_start) || (b_end > a_end && b_start > a_end))
}

/// The period from `start` through `start + duration`.
pub open spec fn period_from(start: DateTime, duration: Duration) -> Period {
    Period { start, end: DateTime { secs: (start.secs + duration.secs) as i64 } }
}

impl DateTime {
    pub open spec fn is_representable(self) -> bool {
        representable(self.secs as int)
    }

    /// The instant `secs` seconds after the epoch.
    pub fn from_timestamp(secs: i64) -> (r: DateTime)
        ensures
            r.secs == secs,
    {
        DateTime { secs }
    }

    pub fn timestamp(&self) -> (r: i64)
        ensures
            r == self.secs,
    {
        self.secs
    }

    /// The instant `d` after this one, or `None` where the calendar cannot name it.
    pub fn checked_add(&self, d: Duration) -> (r: Option<DateTime>)
        ensures
            representable(self.secs + d.secs) <==> r is Some,
            r matches Some(t) ==> t.secs == self.secs + d.secs,
    {
        if d.secs > 0 && self.secs > MAX_INSTANT - d.secs {
            None
        } else if d.secs < 0 && self.secs < MIN_INSTANT - d.secs {
            None
        } else {
            let s = self.secs + d.secs;
            if MIN_INSTANT <= s && s <= MAX_INSTANT {
                Some(DateTime { secs: s })
            } else {
                None
            }
        }
    }

    /// Whether this instant falls exactly on midnight.
    pub fn is_midnight(&self) -> (r: bool)
        ensures
            r == (self.secs % SECS_PER_DAY == 0),
    {
        self.secs % SECS_PER_DAY == 0
    }
}

impl Duration {
    pub open spec fn is_valid(self) -> bool {
        valid_span(self.secs as int)
    }

    /// A span of `n` seconds.
    pub fn seconds(n: i64) -> (r: Duration)
        requires
            valid_span(n as int),
        ensures
            r.secs == n,
    {
        Duration { secs: n }
    }

    /// A span of `n` hours.
    pub fn hours(n: i64) -> (r: Duration)
        requires
            valid_span(n * SECS_PER_HOUR),
        ensures
            r.secs == n * SECS_PER_HOUR,
    {
        Duration { secs: n * SECS_PER_HOUR }
    }

    /// A span of `n` days.
    pub fn days(n: i64) -> (r: Duration)
        requires
            valid_span(n * SECS_PER_DAY),
        ensures
            r.secs == n * SECS_PER_DAY,
    {
        Duration { secs: n * SECS_PER_DAY }
    }

    /// A span of `n` weeks.
    pub fn weeks(n: i64) -> (r: Duration)
        requires
            valid_span(n * SECS_PER_WEEK),
        ensures
            r.secs == n * SECS_PER_WEEK,
    {
        Duration { secs: n * SECS_PER_WEEK }
    }

    pub fn num_seconds(&self) -> (r: i64)
        ensures
            r == self.secs,
    {
        self.secs
    }

    /// The number of whole hours in this span, rounded toward zero.
    pub fn num_hours(&self) -> (r: i64)
        ensures
            r as int == whole_hours(self.secs as int),
    {
        self.secs / SECS_PER_HOUR
    }
}

/// Whole hours in `secs` seconds, rounded toward zero.
pub open spec fn whole_hours(secs: int) -> int {
    if secs >= 0 {
        secs / 3600
    } else {
        -((-secs) / 3600)
    }
}

impl Period {
    /// The start and end of the period can be named, and the end does not come before the start.
    pub open spec fn wf(self) -> bool {
        self.start.is_representable() && self.end.is_representable() && self.start.secs
            <= self.end.secs
    }

    pub open spec fn spec_intersects(self, other: Period) -> bool {
        ranges_intersect(
            self.start.secs as int,
            self.end.secs as int,
            other.start.secs as int,
            other.end.secs as int,
        )
    }

    /// The period with both ends given.
    pub fn new(start: DateTime, end: DateTime) -> (r: Period)
        ensures
            r.start == start,
            r.end == end,
    {
        Period { start, end }
    }

    /// The period from `start` through `start + duration`.
    pub fn from_start_duration(start: DateTime, duration: Duration) -> (r: Period)
        requires
            i64::MIN <= start.secs + duration.secs <= i64::MAX,
        ensures
            r.start == start,
            r.end.secs == start.secs + duration.secs,
    {
        Period { start, end: DateTime { secs: start.secs + duration.secs } }
    }

    /// The span from the start to the end.
    pub fn duration(&self) -> (r: Duration)
        requires
            i64::MIN <= self.end.secs - self.start.secs <= i64::MAX,
        ensures
            r.secs == self.end.secs - self.start.secs,
    {
        Duration { secs: self.end.secs - self.start.secs }
    }

    /// Whether the two closed periods share at least one instant, boundaries included.
    pub fn intersects_with(&self, other: Period) -> (r: bool)
        ensures
            r == self.spec_intersects(other),
    {
        !((other.start.secs < self.start.secs && other.end.secs < self.start.secs) || (
        other.end.secs > self.end.secs && other.start.secs > self.end.secs))
    }
}

} // verus!
