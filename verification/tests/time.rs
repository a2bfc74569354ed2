use chrono::{DateTime, Utc};
use rebuilderd::time::{Elapsed, Timestamp, FIRST_SECOND, LAST_SECOND};

fn at(secs: i64, nanos: u32) -> Timestamp {
    Timestamp::new(secs, nanos).unwrap()
}

fn total(elapsed: Elapsed) -> i128 {
    elapsed.seconds as i128 * 1_000_000_000 + elapsed.subsec_nanos as i128
}

const SECONDS: [i64; 14] = [
    -8334601228801,
    -8334601228800,
    -86401,
    -61,
    -60,
    -1,
    0,
    1,
    59,
    119,
    86399,
    1483228799,
    8210266876799,
    8210266876800,
];

const NANOS: [u32; 7] = [0, 1, 999_999_999, 1_000_000_000, 1_500_000_000, 1_999_999_999, 2_000_000_000];

#[test]
fn range_is_that_of_chrono() {
    assert_eq!(FIRST_SECOND, DateTime::<Utc>::MIN_UTC.timestamp());
    assert_eq!(LAST_SECOND, DateTime::<Utc>::MAX_UTC.timestamp());
    for secs in SECONDS {
        for nanos in NANOS {
            let ours = Timestamp::new(secs, nanos);
            let theirs = DateTime::from_timestamp(secs, nanos);
            assert_eq!(ours.is_some(), theirs.is_some(), "{secs} {nanos}");
            if let Some(t) = ours {
                assert_eq!((t.secs(), t.nanos()), (secs, nanos));
            }
        }
    }
}

#[test]
fn order_is_that_of_chrono() {
    for a in SECONDS {
        for b in SECONDS {
            for x in NANOS {
                for y in NANOS {
                    if let (Some(p), Some(q)) = (Timestamp::new(a, x), Timestamp::new(b, y)) {
                        let p_chrono = DateTime::from_timestamp(a, x).unwrap().naive_utc();
                        let q_chrono = DateTime::from_timestamp(b, y).unwrap().naive_utc();
                        assert_eq!(p.at_or_before(&q), p_chrono <= q_chrono);
                    }
                }
            }
        }
    }
}

#[test]
fn elapsed_time_is_the_difference() {
    assert_eq!(at(160, 3).since(&at(100, 5)), Elapsed { seconds: 59, subsec_nanos: 999_999_998 });
    assert_eq!(at(100, 5).since(&at(160, 3)), Elapsed { seconds: -59, subsec_nanos: -999_999_998 });
    assert_eq!(at(-1, 0).since(&at(1, 250)), Elapsed { seconds: -2, subsec_nanos: -250 });
    assert_eq!(at(7, 7).since(&at(7, 7)), Elapsed { seconds: 0, subsec_nanos: 0 });
    let whole = at(LAST_SECOND, 999_999_999).since(&at(FIRST_SECOND, 0));
    assert_eq!(whole, Elapsed { seconds: 16544868105599, subsec_nanos: 999_999_999 });
}

#[test]
fn leap_seconds_add_to_elapsed_time() {
    // From within the leap second at the end of 2016 to the next noon.
    let leap = at(1483228799, 1_250_000_000);
    let noon = at(1483228800 + 43200, 0);
    assert_eq!(total(noon.since(&leap)), 43_199_750_000_000);
    // On the same day, a time of day that is further on counts the leap second.
    let morning = at(1483228799 - 86399, 0);
    assert_eq!(total(leap.since(&morning)), 86_400_250_000_000);
    let leap_at_noon = at(1483228800 + 43199, 1_000_000_000);
    let evening = at(1483228800 + 80000, 0);
    assert_eq!(total(evening.since(&leap_at_noon)), 36_801_000_000_000);
    assert_eq!(total(leap_at_noon.since(&evening)), -36_801_000_000_000);
}

#[test]
fn elapsed_time_agrees_with_the_formula() {
    for a in SECONDS {
        for b in SECONDS {
            for x in NANOS {
                for y in NANOS {
                    if let (Some(now), Some(start)) = (Timestamp::new(a, x), Timestamp::new(b, y)) {
                        let now_of_day = a.rem_euclid(86400);
                        let start_of_day = b.rem_euclid(86400);
                        let adjustment: i128 = if now_of_day > start_of_day && y >= 1_000_000_000 {
                            1
                        } else if now_of_day < start_of_day && x >= 1_000_000_000 {
                            -1
                        } else {
                            0
                        };
                        let expected = (a as i128 - b as i128 + adjustment) * 1_000_000_000
                            + (x as i128 - y as i128);
                        assert_eq!(total(now.since(&start)), expected, "{a} {x} {b} {y}");
                    }
                }
            }
        }
    }
}

#[test]
fn elapsed_times_add_up() {
    let (start, middle, now) = (at(-5, 999_999_999), at(59, 1), at(1483228800, 500));
    assert_eq!(
        total(now.since(&middle)) + total(middle.since(&start)),
        total(now.since(&start))
    );
    assert_eq!(total(start.since(&now)), -total(now.since(&start)));
}

#[test]
fn clock_is_read() {
    let before = Utc::now();
    let now = Timestamp::now();
    let after = Utc::now();
    let read = DateTime::from_timestamp(now.secs(), now.nanos()).unwrap();
    assert!(before <= read && read <= after);
}

#[test]
fn build_times_are_parsed() {
    let format = "%Y-%m-%dT%H:%M:%S%z";
    assert_eq!(Timestamp::parse("2025-10-24T19:14:30+0000", format), Some(at(1761333270, 0)));
    assert_eq!(Timestamp::parse("2025-10-24T21:14:30+0200", format), Some(at(1761333270, 0)));
    assert_eq!(
        Timestamp::parse("2016-12-31T23:59:60+0000", format),
        Some(at(1483228799, 1_000_000_000))
    );
    assert_eq!(Timestamp::parse("2025-10-24T19:14:30", format), None);
    assert_eq!(Timestamp::parse("2025-10-24 19:14:30+0000", format), None);
    assert_eq!(Timestamp::parse("", format), None);
}

#[test]
fn commit_times_are_parsed() {
    assert_eq!(Timestamp::parse_rfc3339("2024-02-29T12:00:00Z"), Some(at(1709208000, 0)));
    assert_eq!(
        Timestamp::parse_rfc3339("2024-02-29T13:00:00.25+01:00"),
        Some(at(1709208000, 250_000_000))
    );
    assert_eq!(Timestamp::parse_rfc3339("2023-02-29T12:00:00Z"), None);
    assert_eq!(Timestamp::parse_rfc3339("2024-02-29T12:00:00+0000"), None);
}
