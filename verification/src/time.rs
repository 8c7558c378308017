//! Points in time and lengths of time, to the nanosecond.

use vstd::prelude::*;

verus! {

/// The nanoseconds of one second.
pub const NANOS_PER_SECOND: u32 = 1_000_000_000;

/// A length of time: whole seconds and the nanoseconds beyond them.
#[derive(Clone, Copy, Debug, PartialEq, Eq, Structural)]
pub struct TimeSpan {
    pub secs: u64,
    pub nanos: u32,
}

/// A point in time: whole seconds since 1970-01-01 00:00:00 UTC, negative before it, and
/// the nanoseconds beyond them.
#[derive(Clone, Copy, Debug, PartialEq, Eq, Structural)]
pub struct Timestamp {
    pub secs: i64,
    pub nanos: u32,
}

impl View for TimeSpan {
    type V = int;

    /// The length in nanoseconds.
    open spec fn view(&self) -> int {
        self.secs * NANOS_PER_SECOND + self.nanos
    }
}

impl View for Timestamp {
    type V = int;

    /// The nanoseconds since the epoch.
    open spec fn view(&self) -> int {
        self.secs * NANOS_PER_SECOND + self.nanos
    }
}

/// The length of time that `n` nanoseconds make.
pub open spec fn span_of(n: int) -> TimeSpan {
    TimeSpan {
        secs: (n / NANOS_PER_SECOND as int) as u64,
        nanos: (n % NANOS_PER_SECOND as int) as u32,
    }
}

/// The nanoseconds between two points in time.
pub open spec fn gap(a: Timestamp, b: Timestamp) -> int {
    if a@ > b@ {
        a@ - b@
    } else {
        b@ - a@
    }
}

/// The whole seconds by which `long` exceeds `short`; none where it does not.
pub open spec fn secs_between(short: TimeSpan, long: TimeSpan) -> int {
    if short@ <= long@ {
        (long@ - short@) / NANOS_PER_SECOND as int
    } else {
        0
    }
}

impl TimeSpan {
    /// The nanoseconds stay below one second.
    pub open spec fn wf(self) -> bool {
        self.nanos < NANOS_PER_SECOND
    }

    /// Tells whether the length is more than zero.
    pub fn is_positive(&self) -> (r: bool)
        requires
            self.wf(),
        ensures
            r == (self@ > 0),
    {
        self.secs > 0 || self.nanos > 0
    }

    /// The whole seconds by which this length exceeds `other`; none where it does not.
    pub fn secs_beyond(&self, other: &TimeSpan) -> (r: u64)
        requires
            self.wf(),
            other.wf(),
        ensures
            r == secs_between(*other, *self),
    {
        if self.secs < other.secs {
            0
        } else if self.nanos >= other.nanos {
            self.secs - other.secs
        } else if self.secs == other.secs {
            0
        } else {
            self.secs - other.secs - 1
        }
    }

    /// The whole milliseconds of the length.
    pub fn as_millis(&self) -> (r: u128)
        requires
            self.wf(),
        ensures
            r == self@ / 1_000_000,
    {
        self.secs as u128 * 1000 + (self.nanos / 1_000_000) as u128
    }
}

impl Timestamp {
    /// The nanoseconds stay below one second.
    pub open spec fn wf(self) -> bool {
        self.nanos < NANOS_PER_SECOND
    }

    /// The point in time `secs` seconds after the epoch.
    pub fn from_secs(secs: u32) -> (r: Timestamp)
        ensures
            r.wf(),
            r == (Timestamp { secs: secs as i64, nanos: 0 }),
    {
        Timestamp { secs: secs as i64, nanos: 0 }
    }

    /// The point in time that lies `span` after the epoch, if it can be represented.
    pub fn after_epoch(span: TimeSpan) -> (r: Option<Timestamp>)
        requires
            span.wf(),
        ensures
            r is Some <==> span.secs <= i64::MAX,
            r matches Some(t) ==> t.wf() && t@ == span@,
    {
        if span.secs <= i64::MAX as u64 {
            Some(Timestamp { secs: span.secs as i64, nanos: span.nanos })
        } else {
            None
        }
    }

    /// The point in time that lies `span` before the epoch, if it can be represented.
    pub fn before_epoch(span: TimeSpan) -> (r: Option<Timestamp>)
        requires
            span.wf(),
        ensures
            r is Some <==> span@ <= -(i64::MIN * NANOS_PER_SECOND),
            r matches Some(t) ==> t.wf() && t@ == -span@,
    {
        let mut secs: i128 = -(span.secs as i128);
        let mut nanos: u32 = 0;
        if span.nanos > 0 {
            secs = secs - 1;
            nanos = NANOS_PER_SECOND - span.nanos;
        }
        if secs >= i64::MIN as i128 {
            Some(Timestamp { secs: secs as i64, nanos })
        } else {
            None
        }
    }

    /// The length of time from `earlier` to this point, if `earlier` does not lie after it.
    pub fn duration_since(&self, earlier: &Timestamp) -> (r: Option<TimeSpan>)
        requires
            self.wf(),
            earlier.wf(),
        ensures
            r is Some <==> earlier@ <= self@,
            r matches Some(span) ==> span.wf() && span@ == self@ - earlier@ && span == span_of(
                self@ - earlier@,
            ),
    {
        let mut secs: i128 = self.secs as i128 - earlier.secs as i128;
        let nanos: u32 = if self.nanos >= earlier.nanos {
            self.nanos - earlier.nanos
        } else {
            secs = secs - 1;
            self.nanos + (NANOS_PER_SECOND - earlier.nanos)
        };
        if secs >= 0 {
            Some(TimeSpan { secs: secs as u64, nanos })
        } else {
            None
        }
    }

    /// The length of time from the epoch to this point, if it does not lie before it.
    pub fn since_epoch(&self) -> (r: Option<TimeSpan>)
        requires
            self.wf(),
        ensures
            r is Some <==> self.secs >= 0,
            r matches Some(span) ==> span.wf() && span@ == self@ && span.secs == self.secs,
    {
        if self.secs >= 0 {
            Some(TimeSpan { secs: self.secs as u64, nanos: self.nanos })
        } else {
            None
        }
    }

    /// The length of time between two points, whichever of them comes first.
    pub fn distance(&self, other: &Timestamp) -> (r: TimeSpan)
        requires
            self.wf(),
            other.wf(),
        ensures
            r.wf(),
            r@ == gap(*self, *other),
            r == span_of(gap(*self, *other)),
    {
        match self.duration_since(other) {
            Some(span) => span,
            None => match other.duration_since(self) {
                Some(span) => span,
                None => TimeSpan { secs: 0, nanos: 0 },
            },
        }
    }
}

/// A length of time is determined by its nanoseconds.
pub proof fn span_determined(a: TimeSpan, b: TimeSpan)
    requires
        a.wf(),
        b.wf(),
        a@ == b@,
    ensures
        a == b,
{
}

/// A point in time is determined by its nanoseconds since the epoch.
pub proof fn timestamp_determined(a: Timestamp, b: Timestamp)
    requires
        a.wf(),
        b.wf(),
        a@ == b@,
    ensures
        a == b,
{
}

/// A length of time and a point in time count a billion nanoseconds to the second.
pub proof fn second_has_a_billion_nanoseconds(span: TimeSpan, stamp: Timestamp)
    ensures
        span@ == span.secs * 1_000_000_000 + span.nanos,
        stamp@ == stamp.secs * 1_000_000_000 + stamp.nanos,
        span.wf() <==> span.nanos < 1_000_000_000,
        stamp.wf() <==> stamp.nanos < 1_000_000_000,
{
}

/// Each length of time that fits is made of its nanoseconds, with less than a second of them
/// beyond the whole seconds.
pub proof fn span_of_holds_its_nanoseconds(n: int)
    requires
        0 <= n < 18_446_744_073_709_551_616 * 1_000_000_000,
    ensures
        span_of(n).secs * 1_000_000_000 + span_of(n).nanos == n,
        span_of(n).nanos < 1_000_000_000,
{
}

/// The distance between two points in time leads from the earlier one to the later one,
/// whichever of them is asked.
pub proof fn distance_leads_from_one_to_the_other(
    a: &Timestamp,
    b: &Timestamp,
    there: TimeSpan,
    back: TimeSpan,
)
    requires
        call_ensures(Timestamp::distance, (a, b), there),
        call_ensures(Timestamp::distance, (b, a), back),
    ensures
        there == back,
        there.nanos < 1_000_000_000,
        a@ >= b@ ==> b@ + there@ == a@,
        a@ <= b@ ==> a@ + there@ == b@,
        gap(*a, *b) == there@,
{
}

/// A length of time since an earlier point leads from that point to the later one, and there is
/// one just where the point is not later.
pub proof fn duration_since_leads_back(
    later: &Timestamp,
    earlier: &Timestamp,
    r: Option<TimeSpan>,
)
    requires
        call_ensures(Timestamp::duration_since, (later, earlier), r),
    ensures
        r is Some <==> earlier@ <= later@,
        r matches Some(span) ==> earlier@ + span@ == later@ && span.nanos < 1_000_000_000,
{
}

/// A length of time after the epoch is found again from the point in time that it leads to.
pub proof fn after_epoch_leads_back(
    after: TimeSpan,
    stamp: Timestamp,
    found: Option<TimeSpan>,
)
    requires
        after.wf(),
        call_ensures(Timestamp::after_epoch, (after,), Some(stamp)),
        call_ensures(Timestamp::since_epoch, (&stamp,), found),
    ensures
        found == Some(after),
        stamp.secs == after.secs,
        stamp.nanos == after.nanos,
{
}

/// A point in time and the length of time from it to the epoch cancel out.
pub proof fn before_epoch_cancels(span: TimeSpan, r: Option<Timestamp>)
    requires
        span.wf(),
        call_ensures(Timestamp::before_epoch, (span,), r),
    ensures
        r matches Some(stamp) ==> stamp@ + span@ == 0 && stamp.nanos < 1_000_000_000,
        r is Some <==> span@ <= 9_223_372_036_854_775_808 * 1_000_000_000,
{
}

/// The whole milliseconds of a length of time fall short of it by less than a millisecond.
pub proof fn millis_fall_short_by_less_than_one(span: &TimeSpan, r: u128)
    requires
        span.wf(),
        call_ensures(TimeSpan::as_millis, (span,), r),
    ensures
        r * 1_000_000 <= span@ < (r + 1) * 1_000_000,
{
}

/// The whole seconds from one length of time to a longer one fall short by less than a second,
/// and to a shorter one there are none.
pub proof fn secs_beyond_falls_short_by_less_than_one(long: &TimeSpan, short: &TimeSpan, r: u64)
    requires
        call_ensures(TimeSpan::secs_beyond, (long, short), r),
    ensures
        short@ <= long@ ==> short@ + r * 1_000_000_000 <= long@ < short@ + (r + 1) * 1_000_000_000,
        short@ > long@ ==> r == 0,
        secs_between(*short, *long) == r,
{
}

/// A length of time is positive just where it has any seconds or nanoseconds.
pub proof fn positive_span_is_not_zero(span: &TimeSpan, r: bool)
    requires
        call_ensures(TimeSpan::is_positive, (span,), r),
    ensures
        r <==> (span.secs != 0 || span.nanos != 0),
{
}

/// Whole seconds after the epoch make a point in time without nanoseconds.
pub proof fn whole_seconds_have_no_nanoseconds(secs: u32, r: Timestamp)
    requires
        call_ensures(Timestamp::from_secs, (secs,), r),
    ensures
        r.secs == secs,
        r.nanos == 0,
{
}

} // verus!
