//! Points in time.

use vstd::prelude::*;

verus! {

/// The first second that a timestamp can hold.
pub const FIRST_SECOND: i64 = -8334601228800;

/// The last second that a timestamp can hold.
pub const LAST_SECOND: i64 = 8210266876799;

/// Whether seconds and nanoseconds make a timestamp. A leap second is counted as more than
/// a billion nanoseconds behind the last second of a minute.
pub open spec fn instant(secs: int, nanos: int) -> bool {
    &&& FIRST_SECOND <= secs <= LAST_SECOND
    &&& 0 <= nanos < 2_000_000_000
    &&& nanos >= 1_000_000_000 ==> secs % 60 == 59
}

/// Whether one point in time is earlier than another.
pub open spec fn earlier(secs: int, nanos: int, other_secs: int, other_nanos: int) -> bool {
    secs < other_secs || (secs == other_secs && nanos < other_nanos)
}

/// How a point in time is written by RFC 3339, in UTC.
pub uninterp spec fn rfc3339_text(secs: int, nanos: int) -> Seq<char>;

/// The leap second that lies between two times of day and that the difference of their
/// seconds does not count.
pub open spec fn leap_between(start: int, start_nanos: int, end: int, end_nanos: int) -> int {
    if end % 86400 > start % 86400 && start_nanos >= 1_000_000_000 {
        1
    } else if end % 86400 < start % 86400 && end_nanos >= 1_000_000_000 {
        -1
    } else {
        0
    }
}

/// The nanoseconds from one point in time to another.
pub open spec fn nanos_between(start: int, start_nanos: int, end: int, end_nanos: int) -> int {
    (end - start + leap_between(start, start_nanos, end, end_nanos)) * 1_000_000_000 + (end_nanos
        - start_nanos)
}

/// The whole seconds from one point in time to another, rounded towards zero.
pub open spec fn seconds_between(start: int, start_nanos: int, end: int, end_nanos: int) -> int {
    let nanos = nanos_between(start, start_nanos, end, end_nanos);
    if nanos >= 0 {
        nanos / 1_000_000_000
    } else {
        -((-nanos) / 1_000_000_000)
    }
}

/// `chrono::Utc::now` reads the clock. Of the time nothing is said but that it lies behind
/// the beginning of 1970 and is no leap second.
#[verifier::external_body]
fn read_clock() -> (r: (i64, u32))
    ensures
        instant(r.0 as int, r.1 as int),
        r.0 >= 0,
        r.1 < 1_000_000_000,
{
    let now = chrono::Utc::now();
    (now.timestamp(), now.timestamp_subsec_nanos())
}

/// `chrono::DateTime::to_rfc3339` of a point in time in UTC. The text depends on the point
/// in time alone.
#[verifier::external_body]
fn write_rfc3339(secs: i64, nanos: u32) -> (r: String)
    requires
        instant(secs as int, nanos as int),
    ensures
        r@ == rfc3339_text(secs as int, nanos as int),
{
    chrono::DateTime::<chrono::Utc>::from_timestamp(secs, nanos).unwrap().to_rfc3339()
}

/// The difference of two `chrono::DateTime` and its `num_seconds`: whole seconds, rounded
/// towards zero, with a leap second counted where one of the two lies in it.
#[verifier::external_body]
fn subtract(start: i64, start_nanos: u32, end: i64, end_nanos: u32) -> (r: i64)
    requires
        instant(start as int, start_nanos as int),
        instant(end as int, end_nanos as int),
    ensures
        r == seconds_between(start as int, start_nanos as int, end as int, end_nanos as int),
{
    let from = chrono::DateTime::<chrono::Utc>::from_timestamp(start, start_nanos).unwrap();
    let to = chrono::DateTime::<chrono::Utc>::from_timestamp(end, end_nanos).unwrap();
    (to - from).num_seconds()
}

/// A point in time: the seconds since the beginning of 1970 and the nanoseconds behind them.
#[derive(Clone, Copy, Debug)]
pub struct Timestamp {
    secs: i64,
    nanos: u32,
}

impl Timestamp {
    #[verifier::type_invariant]
    spec fn valid(self) -> bool {
        instant(self.secs as int, self.nanos as int)
    }

    /// The seconds since the beginning of 1970.
    pub closed spec fn secs(self) -> int {
        self.secs as int
    }

    /// The nanoseconds behind them.
    pub closed spec fn nanos(self) -> int {
        self.nanos as int
    }

    /// How the point in time is written.
    pub open spec fn text(self) -> Seq<char> {
        rfc3339_text(self.secs(), self.nanos())
    }

    /// Whether the clock can show this point in time: it lies behind the beginning of 1970
    /// and is no leap second.
    pub open spec fn on_the_clock(self) -> bool {
        self.secs() >= 0 && self.nanos() < 1_000_000_000
    }

    /// Whether the point in time is earlier than another.
    pub open spec fn before(self, other: Timestamp) -> bool {
        earlier(self.secs(), self.nanos(), other.secs(), other.nanos())
    }

    /// The whole seconds that passed from `self` until `end`; none where `end` is earlier.
    pub open spec fn elapsed(self, end: Timestamp) -> int {
        let s = seconds_between(self.secs(), self.nanos(), end.secs(), end.nanos());
        if s < 0 {
            0
        } else {
            s
        }
    }

    /// The timestamp with these seconds and nanoseconds, if there is one.
    pub fn new(secs: i64, nanos: u32) -> (r: Option<Timestamp>)
        ensures
            r is Some <==> instant(secs as int, nanos as int),
            r matches Some(t) ==> t.secs() == secs && t.nanos() == nanos,
    {
        if FIRST_SECOND <= secs && secs <= LAST_SECOND && nanos < 2_000_000_000 && (nanos
            < 1_000_000_000 || (secs - FIRST_SECOND) % 60 == 59) {
            Some(Timestamp { secs, nanos })
        } else {
            None
        }
    }

    /// The time now.
    pub fn now() -> (r: Timestamp)
        ensures
            r.on_the_clock(),
    {
        let t = read_clock();
        Timestamp { secs: t.0, nanos: t.1 }
    }

    /// The seconds since the beginning of 1970.
    pub fn seconds(&self) -> (r: i64)
        ensures
            r == self.secs(),
    {
        self.secs
    }

    /// The nanoseconds behind them.
    pub fn nanoseconds(&self) -> (r: u32)
        ensures
            r == self.nanos(),
    {
        self.nanos
    }

    /// Whether the point in time is earlier than another.
    pub fn is_before(&self, other: &Timestamp) -> (r: bool)
        ensures
            r == self.before(*other),
    {
        self.secs < other.secs || (self.secs == other.secs && self.nanos < other.nanos)
    }

    /// The point in time in the notation of RFC 3339.
    pub fn to_rfc3339(&self) -> (r: String)
        ensures
            r@ == self.text(),
    {
        proof {
            use_type_invariant(self);
        }
        write_rfc3339(self.secs, self.nanos)
    }

    /// The whole seconds that passed from `self` until `end`; none where `end` is earlier.
    pub fn elapsed_until(&self, end: &Timestamp) -> (r: u64)
        ensures
            r == self.elapsed(*end),
    {
        proof {
            use_type_invariant(self);
            use_type_invariant(end);
        }
        let s: i64 = subtract(self.secs, self.nanos, end.secs, end.nanos);
        if s < 0 {
            0
        } else {
            s as u64
        }
    }
}

/// `to_rfc3339` of a time that may be missing.
pub fn optional_rfc3339(t: &Option<Timestamp>) -> (r: Option<String>)
    ensures
        match t {
            Some(t) => r is Some && r->0@ == t.text(),
            None => r is None,
        },
{
    match t {
        Some(t) => Some(t.to_rfc3339()),
        None => None,
    }
}

/// Points in time are ordered by their seconds, and by their nanoseconds within a second.
pub proof fn law_earlier_times_come_before(t: Timestamp, u: Timestamp)
    requires
        instant(t.secs(), t.nanos()),
        instant(u.secs(), u.nanos()),
    ensures
        t.before(u) <==> t.secs() * 2_000_000_000 + t.nanos() < u.secs() * 2_000_000_000
            + u.nanos(),
{
}

/// A point in time is written as RFC 3339 has it, down to the nanosecond.
pub proof fn law_times_are_written_in_full(t: Timestamp)
    ensures
        t.text() == rfc3339_text(t.secs(), t.nanos()),
{
}

/// What has passed are the whole seconds between two points in time, and nothing where the
/// second one is the earlier one.
pub proof fn law_elapsed_counts_whole_seconds(start: Timestamp, end: Timestamp)
    requires
        0 <= start.nanos() < 1_000_000_000,
        0 <= end.nanos() < 1_000_000_000,
    ensures
        ({
            let nanos = (end.secs() - start.secs()) * 1_000_000_000 + end.nanos() - start.nanos();
            let passed = start.elapsed(end);
            &&& nanos >= 0 ==> passed * 1_000_000_000 <= nanos < (passed + 1) * 1_000_000_000
            &&& nanos < 0 ==> passed == 0
        }),
{
}

/// A leap second counts: from within one, what passes until a later time of the same day is
/// a second more than the clock shows; and what has passed is never less than nothing.
pub proof fn law_elapsed_counts_leap_seconds(start: Timestamp, end: Timestamp)
    requires
        instant(start.secs(), start.nanos()),
        instant(end.secs(), end.nanos()),
    ensures
        start.elapsed(end) >= 0,
        start.nanos() >= 1_000_000_000 && end.nanos() < 1_000_000_000 && start.secs() < end.secs()
            && start.secs() / 86400 == end.secs() / 86400 ==> ({
            let nanos = (end.secs() - start.secs() + 1) * 1_000_000_000 + end.nanos()
                - start.nanos();
            let passed = start.elapsed(end);
            passed * 1_000_000_000 <= nanos < (passed + 1) * 1_000_000_000
        }),
{
}

/// Every nanosecond of every second in the range is a point in time, and beyond them only
/// the leap seconds are, at the ends of minutes; outside of the range there is none.
pub proof fn law_points_in_time(secs: int, nanos: int)
    ensures
        -8334601228800 <= secs <= 8210266876799 && 0 <= nanos < 1_000_000_000 ==> instant(
            secs,
            nanos,
        ),
        instant(secs, nanos) ==> -8334601228800 <= secs <= 8210266876799 && 0 <= nanos
            < 2_000_000_000,
        instant(secs, 1_000_000_000) ==> (secs + 1) % 60 == 0,
        instant(secs, 0) && (secs + 1) % 60 == 0 ==> instant(secs, 1_999_999_999),
{
}

} // verus!
