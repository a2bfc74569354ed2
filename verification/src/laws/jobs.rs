//! What holds of points in time and of jobs.

use crate::queue::QueuedJob;
use crate::time::{
    at_or_before, nanos_between, point, representable, time_of, Elapsed, Timestamp,
};
use vstd::prelude::*;

verus! {

/// One point in time is at or before another where its seconds are fewer, or as many with no
/// more nanoseconds.
pub proof fn earlier_seconds_come_first(a: (int, int), b: (int, int))
    requires
        representable(a.0, a.1),
        representable(b.0, b.1),
    ensures
        at_or_before(a, b) <==> a.0 * 2_000_000_000 + a.1 <= b.0 * 2_000_000_000 + b.1,
        a.0 < b.0 ==> at_or_before(a, b) && !at_or_before(b, a),
        a.0 == b.0 && a.1 < b.1 ==> at_or_before(a, b) && !at_or_before(b, a),
{
}

/// A job with a retry time is due from that time on and not before; without one it always is.
pub proof fn jobs_are_due_from_their_retry_time(job: QueuedJob, now: (int, int))
    ensures
        job.next_retry is None ==> job.due_at(now),
        job.next_retry matches Some(retry) ==> {
            &&& now.0 > retry@.0 ==> job.due_at(now)
            &&& now.0 < retry@.0 ==> !job.due_at(now)
            &&& now.0 == retry@.0 ==> (job.due_at(now) <==> now.1 >= retry@.1)
        },
{
}

/// A point in time is what its seconds and nanoseconds say.
pub proof fn points_are_their_parts(t: Timestamp, secs: i64, nanos: u32)
    ensures
        time_of(Some(t)) == Some(t@),
        time_of(None) is None,
        point(Some((secs, nanos))) == Some((secs as int, nanos as int)),
        point(None) is None,
{
}

/// A whole second that passes outside of leap seconds adds a thousand million nanoseconds.
pub proof fn seconds_add_up(start: (int, int), now: (int, int))
    requires
        0 <= start.1 < 1_000_000_000,
        0 <= now.1 < 1_000_000_000,
    ensures
        nanos_between((now.0 + 1, now.1), start) == nanos_between(now, start) + 1_000_000_000,
        nanos_between(start, start) == 0,
        nanos_between(now, start) == (now.0 - start.0) * 1_000_000_000 + now.1 - start.1,
{
}

/// The time from one point to another is the other way round the same, but negative.
pub proof fn time_runs_both_ways(a: (int, int), b: (int, int))
    ensures
        nanos_between(a, b) == -nanos_between(b, a),
{
}

/// From within a leap second to a later time of day, the time is what is left of the leap
/// second, then the seconds that follow it. To the same or an earlier time of day outside of
/// leap seconds, the leap second does not count.
pub proof fn leap_seconds_count(start: (int, int), now: (int, int))
    requires
        1_000_000_000 <= start.1 < 2_000_000_000,
        0 <= now.1 < 1_000_000_000,
    ensures
        now.0 % 86_400 > start.0 % 86_400 ==> nanos_between(now, start) == (2_000_000_000
            - start.1) + (now.0 - (start.0 + 1)) * 1_000_000_000 + now.1,
        now.0 % 86_400 <= start.0 % 86_400 ==> nanos_between(now, start) == (now.0 - start.0)
            * 1_000_000_000 + now.1 - start.1,
{
}

/// All nanoseconds of the seconds from the start of the year -262143 to the end of the year
/// 262142 are points in time.
pub proof fn seconds_in_range_are_points(secs: int, nanos: int)
    requires
        0 <= nanos < 1_000_000_000,
    ensures
        representable(secs, nanos) <==> -8_334_601_228_800 <= secs < 8_210_266_876_800,
        !representable(secs, -1 - nanos),
        !representable(secs, 2_000_000_000 + nanos),
{
}

/// A second can be followed by a leap second where the next one starts a minute, and nowhere
/// else.
pub proof fn leap_seconds_end_minutes(secs: int, nanos: int)
    requires
        0 <= nanos < 1_000_000_000,
    ensures
        representable(secs, 1_000_000_000 + nanos) <==> representable(secs, nanos) && (secs + 1)
            % 60 == 0,
{
}

/// The whole seconds of a span are its nanoseconds divided by a thousand million, towards zero,
/// and the nanoseconds are what is left over, with the same sign.
pub proof fn spans_are_their_parts(span: Elapsed)
    requires
        span.wf(),
    ensures
        span.total_nanos() >= 0 ==> span.seconds == span.total_nanos() / 1_000_000_000
            && span.subsec_nanos == span.total_nanos() % 1_000_000_000,
        span.total_nanos() <= 0 ==> -span.seconds == -span.total_nanos() / 1_000_000_000
            && -span.subsec_nanos == -span.total_nanos() % 1_000_000_000,
{
}

} // verus!
