//! Points in time and elapsed time.
use chrono::{DateTime, Utc};
use vstd::prelude::*;

verus! {

/// The first second that a calendar date can stand for (1 January 262144 BCE).
pub const MIN_SECS: i64 = -8_334_601_228_800;

/// The last second that a calendar date can stand for (31 December 262142 CE).
pub const MAX_SECS: i64 = 8_210_266_876_799;

/// Nanoseconds in one second.
pub const NANOS_PER_SEC: u32 = 1_000_000_000;

/// A point in time: whole seconds since the Unix epoch, and nanoseconds.
#[derive(Clone, Copy, Debug, PartialEq, Eq, Structural)]
pub struct Timestamp {
    pub secs: i64,
    pub nanos: u32,
}

impl Timestamp {
    /// The point lies in the calendar's range and has less than a second of
    /// nanoseconds.
    pub open spec fn wf(self) -> bool {
        MIN_SECS <= self.secs <= MAX_SECS && self.nanos < NANOS_PER_SEC
    }

    /// Nanoseconds since the Unix epoch.
    pub open spec fn instant(self) -> int {
        self.secs * NANOS_PER_SEC + self.nanos
    }

    /// Whether the calendar can hold this point.
    pub fn is_valid(self) -> (r: bool)
        ensures
            r == self.wf(),
    {
        MIN_SECS <= self.secs && self.secs <= MAX_SECS && self.nanos < NANOS_PER_SEC
    }

    /// Whether this point lies strictly before `other`.
    pub fn is_before(self, other: Timestamp) -> (r: bool)
        requires
            self.wf(),
            other.wf(),
        ensures
            r == (self.instant() < other.instant()),
    {
        self.secs < other.secs || (self.secs == other.secs && self.nanos < other.nanos)
    }
}

/// Whole seconds in a span of nanoseconds, rounded toward zero.
pub open spec fn whole_secs(span: int) -> int {
    if span >= 0 {
        span / (NANOS_PER_SEC as int)
    } else {
        -((-span) / (NANOS_PER_SEC as int))
    }
}

/// `DateTime::signed_duration_since` and `TimeDelta::num_seconds` of `chrono`:
/// the whole seconds from `start` to `end`, rounded toward zero, negative
/// where `end` lies before `start`.
#[verifier::external_body]
pub(crate) fn seconds_between(start: Timestamp, end: Timestamp) -> (r: i64)
    requires
        start.wf(),
        end.wf(),
    ensures
        r == whole_secs(end.instant() - start.instant()),
{
    let from: DateTime<Utc> = DateTime::from_timestamp(start.secs, start.nanos).unwrap_or_default();
    let to: DateTime<Utc> = DateTime::from_timestamp(end.secs, end.nanos).unwrap_or_default();
    to.signed_duration_since(from).num_seconds()
}

/// `DateTime::from_timestamp` of `chrono` with no nanoseconds: the point that
/// lies `secs` seconds after the Unix epoch, or nothing where that lies
/// outside the calendar's range.
#[verifier::external_body]
pub(crate) fn from_unix_seconds(secs: i64) -> (r: Option<Timestamp>)
    ensures
        r == (if MIN_SECS <= secs <= MAX_SECS {
            Some(Timestamp { secs, nanos: 0 })
        } else {
            None
        }),
{
    DateTime::<Utc>::from_timestamp(secs, 0).map(
        |t| Timestamp { secs: t.timestamp(), nanos: t.timestamp_subsec_nanos() },
    )
}

/// Nanoseconds in `secs` seconds.
pub open spec fn secs_ns(secs: u64) -> int {
    secs * (NANOS_PER_SEC as int)
}

/// Whether more than `secs` seconds have passed.
pub fn is_over(elapsed_ns: u128, secs: u64) -> (r: bool)
    ensures
        r == (elapsed_ns > secs_ns(secs)),
{
    elapsed_ns > secs as u128 * 1_000_000_000
}

/// Whether less than `secs` seconds have passed.
pub fn is_within(elapsed_ns: u128, secs: u64) -> (r: bool)
    ensures
        r == (elapsed_ns < secs_ns(secs)),
{
    elapsed_ns < secs as u128 * 1_000_000_000
}

/// Whole milliseconds of an elapsed time, in the low 64 bits.
pub fn whole_millis(elapsed_ns: u128) -> (r: u64)
    ensures
        r == (elapsed_ns / 1_000_000) as u64,
{
    #[verifier::truncate]
    ((elapsed_ns / 1_000_000) as u64)
}

/// One point lies before another where its seconds are fewer, or as many and
/// its nanoseconds fewer.
pub proof fn law_earlier_point_is_before(a: Timestamp, b: Timestamp, r: bool)
    requires
        a.wf(),
        b.wf(),
        call_ensures(Timestamp::is_before, (a, b), r),
    ensures
        r <==> a.secs < b.secs || (a.secs == b.secs && a.nanos < b.nanos),
{
    if a.secs < b.secs {
        assert(a.secs * 1_000_000_000 + 1_000_000_000 <= b.secs * 1_000_000_000);
    }
}

/// A time is over once more nanoseconds have passed than it has, a thousand
/// million for each second; it is still running while fewer have.
pub proof fn law_time_is_over_or_running(
    elapsed_ns: u128,
    secs: u64,
    over: bool,
    within: bool,
)
    requires
        call_ensures(is_over, (elapsed_ns, secs), over),
        call_ensures(is_within, (elapsed_ns, secs), within),
    ensures
        over <==> elapsed_ns > secs * 1_000_000_000,
        within <==> elapsed_ns < secs * 1_000_000_000,
{
}

/// Milliseconds are counted where they are whole.
pub proof fn law_only_whole_millis_count(elapsed_ns: u128, r: u64)
    requires
        call_ensures(whole_millis, (elapsed_ns,), r),
        elapsed_ns < u64::MAX * 1_000_000,
    ensures
        r * 1_000_000 <= elapsed_ns < (r + 1) * 1_000_000,
{
}

/// A point is valid where the calendar has its second and its nanoseconds make
/// up less than one.
pub proof fn law_valid_point_has_less_than_a_second_of_nanos(t: Timestamp, r: bool)
    requires
        call_ensures(Timestamp::is_valid, (t,), r),
    ensures
        r ==> t.nanos < 1_000_000_000,
        t.nanos < 1_000_000_000 && -8_334_601_228_800 <= t.secs <= 8_210_266_876_799 ==> r,
        t.secs < -8_334_601_228_800 || t.secs > 8_210_266_876_799 ==> !r,
{
}

} // verus!
