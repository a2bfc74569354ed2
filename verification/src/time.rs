//! Points in time, to the nanosecond, in UTC.

use vstd::prelude::*;

verus! {

/// The first second that a timestamp can hold: the start of the year -262143.
pub const FIRST_SECOND: i64 = -8334601228800;

/// The last second that a timestamp can hold: the end of the year 262142.
pub const LAST_SECOND: i64 = 8210266876799;

pub const NANOS_PER_SECOND: u32 = 1_000_000_000;

pub const SECONDS_PER_DAY: i64 = 86_400;

/// Seconds since the epoch and nanoseconds that together name a point in time. From a
/// thousand million on, the nanoseconds lie in a leap second, which only the last second
/// of a minute can have.
pub open spec fn representable(secs: int, nanos: int) -> bool {
    &&& FIRST_SECOND <= secs <= LAST_SECOND
    &&& 0 <= nanos < 2 * NANOS_PER_SECOND
    &&& nanos >= NANOS_PER_SECOND ==> secs % 60 == 59
}

/// The order of points in time.
pub open spec fn at_or_before(a: (int, int), b: (int, int)) -> bool {
    a.0 < b.0 || (a.0 == b.0 && a.1 <= b.1)
}

/// A point in time that lies in a leap second.
pub open spec fn in_leap_second(t: (int, int)) -> bool {
    t.1 >= NANOS_PER_SECOND
}

/// The second that a leap second adds to the time from `start` to `now`: one end lies in a
/// leap second, and the other is further on in its day (`now`), or further on in its day
/// than `now` (`start`).
pub open spec fn leap_adjustment(now: (int, int), start: (int, int)) -> int {
    let now_of_day = now.0 % (SECONDS_PER_DAY as int);
    let start_of_day = start.0 % (SECONDS_PER_DAY as int);
    if now_of_day > start_of_day && in_leap_second(start) {
        1
    } else if now_of_day < start_of_day && in_leap_second(now) {
        -1
    } else {
        0
    }
}

/// The nanoseconds from `start` to `now`.
pub open spec fn nanos_between(now: (int, int), start: (int, int)) -> int {
    (now.0 - start.0 + leap_adjustment(now, start)) * NANOS_PER_SECOND + (now.1 - start.1)
}

/// A point in time. Its view is the seconds since the epoch and the nanoseconds.
#[derive(Debug, Clone, Copy, PartialEq, Eq, Structural)]
pub struct Timestamp {
    secs: i64,
    nanos: u32,
}

impl View for Timestamp {
    type V = (int, int);

    closed spec fn view(&self) -> (int, int) {
        (self.secs as int, self.nanos as int)
    }
}

/// The point in time of an optional timestamp.
pub open spec fn time_of(t: Option<Timestamp>) -> Option<(int, int)> {
    match t {
        Some(t) => Some(t@),
        None => None,
    }
}

impl Timestamp {
    #[verifier::type_invariant]
    spec fn inv(self) -> bool {
        representable(self.secs as int, self.nanos as int)
    }

    /// The point in time of the given seconds and nanoseconds, if they name one.
    pub fn new(secs: i64, nanos: u32) -> (r: Option<Timestamp>)
        ensures
            r is Some <==> representable(secs as int, nanos as int),
            r matches Some(t) ==> t@ == (secs as int, nanos as int),
    {
        if secs < FIRST_SECOND || secs > LAST_SECOND || nanos >= 2_000_000_000 {
            return None;
        }
        if nanos >= NANOS_PER_SECOND {
            // The remainder of a negative number is negative or zero here.
            let second: i64 = secs % 60;
            proof {
                assert(second == 59 || second == -1 <==> secs as int % 60 == 59);
            }
            if second != 59 && second != -1 {
                return None;
            }
        }
        Some(Timestamp { secs, nanos })
    }

    /// The seconds since the epoch.
    pub fn secs(&self) -> (r: i64)
        ensures
            r == self@.0,
    {
        self.secs
    }

    /// The nanoseconds since the last second.
    pub fn nanos(&self) -> (r: u32)
        ensures
            r == self@.1,
    {
        self.nanos
    }

    /// Whether this point in time is `other` or lies before it.
    pub fn at_or_before(&self, other: &Timestamp) -> (r: bool)
        ensures
            r == at_or_before(self@, other@),
    {
        self.secs < other.secs || (self.secs == other.secs && self.nanos <= other.nanos)
    }

    /// The time that has passed from `start` to this point in time, negative if `start` is
    /// still to come.
    pub fn since(&self, start: &Timestamp) -> (r: Elapsed)
        ensures
            r.wf(),
            r.total_nanos() == nanos_between(self@, start@),
    {
        proof {
            use_type_invariant(self);
            use_type_invariant(start);
        }
        let (seconds, subsec_nanos) = signed_duration_since(
            self.secs,
            self.nanos,
            start.secs,
            start.nanos,
        );
        Elapsed { seconds, subsec_nanos }
    }

    /// The current time.
    pub fn now() -> (r: Timestamp)
        ensures
            representable(r@.0, r@.1),
            !in_leap_second(r@),
    {
        let (secs, nanos) = utc_now();
        Timestamp { secs, nanos }
    }

    /// The point in time that `text` gives in the notation `format`, if it gives one. A
    /// notation with seconds since the epoch (`%s`) is not for this function.
    pub fn parse(text: &str, format: &str) -> (r: Option<Timestamp>)
        requires
            !format@.contains('s'),
        ensures
            time_of(r) == point(date_time_parsed(text@, format@)),
    {
        match parse_from_str(text, format) {
            Some((secs, nanos)) => Some(Timestamp { secs, nanos }),
            None => None,
        }
    }

    /// The point in time that `text` gives in the notation of RFC 3339, if it gives one.
    pub fn parse_rfc3339(text: &str) -> (r: Option<Timestamp>)
        ensures
            time_of(r) == point(rfc3339_parsed(text@)),
    {
        match parse_from_rfc3339(text) {
            Some((secs, nanos)) => Some(Timestamp { secs, nanos }),
            None => None,
        }
    }
}

/// The point in time of optional seconds and nanoseconds.
pub open spec fn point(parsed: Option<(i64, u32)>) -> Option<(int, int)> {
    match parsed {
        Some((secs, nanos)) => Some((secs as int, nanos as int)),
        None => None,
    }
}

/// A span of time: whole seconds, and nanoseconds of the same sign.
#[derive(Debug, Clone, Copy, PartialEq, Eq, Structural)]
pub struct Elapsed {
    pub seconds: i64,
    pub subsec_nanos: i32,
}

impl Elapsed {
    pub open spec fn wf(self) -> bool {
        &&& -NANOS_PER_SECOND < self.subsec_nanos < NANOS_PER_SECOND
        &&& self.seconds > 0 ==> self.subsec_nanos >= 0
        &&& self.seconds < 0 ==> self.subsec_nanos <= 0
    }

    /// The whole span in nanoseconds.
    pub open spec fn total_nanos(self) -> int {
        self.seconds * NANOS_PER_SECOND + self.subsec_nanos
    }
}

// ---------------------------------------------------------------------------
// chrono
// ---------------------------------------------------------------------------

/// What `chrono::DateTime::parse_from_str` followed by `naive_utc` makes of a text in a given
/// notation: the seconds since the epoch and the nanoseconds, or nothing where it fails.
pub uninterp spec fn date_time_parsed(text: Seq<char>, format: Seq<char>) -> Option<(i64, u32)>;

/// What `chrono::DateTime::parse_from_rfc3339` followed by `naive_utc` makes of a text: the
/// seconds since the epoch and the nanoseconds, or nothing where it fails.
pub uninterp spec fn rfc3339_parsed(text: Seq<char>) -> Option<(i64, u32)>;

/// Subtracts one `chrono::NaiveDateTime` from another, each given by its seconds since the
/// epoch and its nanoseconds, and takes the `num_seconds` and the `subsec_nanos` of the
/// difference. The difference is that of the nanoseconds since the epoch, with one second
/// more or less where one end lies in a leap second, by the time of day of both ends.
#[verifier::external_body]
fn signed_duration_since(now_secs: i64, now_nanos: u32, start_secs: i64, start_nanos: u32) -> (r: (
    i64,
    i32,
))
    requires
        representable(now_secs as int, now_nanos as int),
        representable(start_secs as int, start_nanos as int),
    ensures
        -NANOS_PER_SECOND < r.1 < NANOS_PER_SECOND,
        r.0 > 0 ==> r.1 >= 0,
        r.0 < 0 ==> r.1 <= 0,
        r.0 * NANOS_PER_SECOND + r.1 == nanos_between(
            (now_secs as int, now_nanos as int),
            (start_secs as int, start_nanos as int),
        ),
{
    let now = chrono::DateTime::from_timestamp(now_secs, now_nanos).unwrap().naive_utc();
    let start = chrono::DateTime::from_timestamp(start_secs, start_nanos).unwrap().naive_utc();
    let elapsed = now - start;
    (elapsed.num_seconds(), elapsed.subsec_nanos())
}

/// Reads the clock with `chrono::Utc::now`, which gives a point in time that chrono can hold,
/// never in a leap second. Which one is left unsaid: it changes from call to call. On a machine
/// whose clock stands before 1970, chrono panics.
#[verifier::external_body]
fn utc_now() -> (r: (i64, u32))
    ensures
        representable(r.0 as int, r.1 as int),
        r.1 < NANOS_PER_SECOND,
{
    let now = chrono::Utc::now();
    (now.timestamp(), now.timestamp_subsec_nanos())
}

/// Calls `chrono::DateTime::parse_from_str` and takes the UTC time of what it parsed. What
/// it makes of a text is a matter of the text and the notation alone, and is a point in time
/// that chrono can hold. Notations with seconds since the epoch (`%s`) are left out: on the
/// first of all seconds they let chrono panic.
#[verifier::external_body]
fn parse_from_str(text: &str, format: &str) -> (r: Option<(i64, u32)>)
    requires
        !format@.contains('s'),
    ensures
        r == date_time_parsed(text@, format@),
        r matches Some((secs, nanos)) ==> representable(secs as int, nanos as int),
{
    match chrono::DateTime::parse_from_str(text, format) {
        Ok(parsed) => {
            let utc = parsed.naive_utc().and_utc();
            Some((utc.timestamp(), utc.timestamp_subsec_nanos()))
        },
        Err(_) => None,
    }
}

/// Calls `chrono::DateTime::parse_from_rfc3339` and takes the UTC time of what it parsed. What
/// it makes of a text is a matter of the text alone, and is a point in time that chrono can
/// hold.
#[verifier::external_body]
fn parse_from_rfc3339(text: &str) -> (r: Option<(i64, u32)>)
    ensures
        r == rfc3339_parsed(text@),
        r matches Some((secs, nanos)) ==> representable(secs as int, nanos as int),
{
    match chrono::DateTime::parse_from_rfc3339(text) {
        Ok(parsed) => {
            let utc = parsed.naive_utc().and_utc();
            Some((utc.timestamp(), utc.timestamp_subsec_nanos()))
        },
        Err(_) => None,
    }
}

// ---------------------------------------------------------------------------
// What holds of all points in time
// ---------------------------------------------------------------------------

/// Points in time are in one order.
pub proof fn order_of_time(a: (int, int), b: (int, int), c: (int, int))
    ensures
        at_or_before(a, a),
        at_or_before(a, b) || at_or_before(b, a),
        at_or_before(a, b) && at_or_before(b, a) ==> a == b,
        at_or_before(a, b) && at_or_before(b, c) ==> at_or_before(a, c),
{
}

/// Outside of leap seconds, the time between two points is their difference: it is the other
/// way round negative, it adds up, and it is not negative where the start is not later.
pub proof fn elapsed_is_difference(now: (int, int), middle: (int, int), start: (int, int))
    requires
        representable(now.0, now.1),
        representable(middle.0, middle.1),
        representable(start.0, start.1),
        !in_leap_second(now),
        !in_leap_second(middle),
        !in_leap_second(start),
    ensures
        nanos_between(now, start) == (now.0 * NANOS_PER_SECOND + now.1) - (start.0
            * NANOS_PER_SECOND + start.1),
        nanos_between(start, now) == -nanos_between(now, start),
        nanos_between(now, middle) + nanos_between(middle, start) == nanos_between(now, start),
        at_or_before(start, now) <==> nanos_between(now, start) >= 0,
{
}

} // verus!
