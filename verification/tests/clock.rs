use web_gateway::clock::{optional_rfc3339, Timestamp, FIRST_SECOND, LAST_SECOND};

fn at(secs: i64, nanos: u32) -> Timestamp {
    Timestamp::new(secs, nanos).unwrap()
}

#[test]
fn times_are_written_by_rfc_3339() {
    assert_eq!(at(0, 0).to_rfc3339(), "1970-01-01T00:00:00+00:00");
    assert_eq!(at(0, 500_000_000).to_rfc3339(), "1970-01-01T00:00:00.500+00:00");
    assert_eq!(at(1_700_000_000, 1).to_rfc3339(), "2023-11-14T22:13:20.000000001+00:00");
    assert_eq!(optional_rfc3339(&Some(at(60, 0))), Some("1970-01-01T00:01:00+00:00".to_string()));
    assert_eq!(optional_rfc3339(&None), None);
}

#[test]
fn times_beyond_the_calendar_do_not_exist() {
    assert!(Timestamp::new(FIRST_SECOND, 0).is_some());
    assert!(Timestamp::new(FIRST_SECOND - 1, 0).is_none());
    assert!(Timestamp::new(LAST_SECOND, 999_999_999).is_some());
    assert!(Timestamp::new(LAST_SECOND + 1, 0).is_none());
    assert!(Timestamp::new(0, 2_000_000_000).is_none());
    assert!(Timestamp::new(0, 1_000_000_000).is_none());
    assert!(Timestamp::new(59, 1_000_000_000).is_some());
}

#[test]
fn the_calendar_ends_can_be_written() {
    assert!(!at(FIRST_SECOND, 0).to_rfc3339().is_empty());
    assert!(!at(LAST_SECOND, 1_999_999_999).to_rfc3339().is_empty());
    assert_eq!(at(FIRST_SECOND, 0).elapsed_until(&at(LAST_SECOND, 0)), 16544868105599);
}

#[test]
fn times_are_ordered() {
    let times = [
        at(FIRST_SECOND, 0),
        at(-1, 0),
        at(0, 0),
        at(0, 1),
        at(59, 999_999_999),
        at(59, 1_000_000_000),
        at(60, 0),
        at(LAST_SECOND, 0),
    ];
    for i in 0..times.len() {
        for j in 0..times.len() {
            assert_eq!(times[i].is_before(&times[j]), i < j, "{} {}", i, j);
        }
    }
}

#[test]
fn elapsed_seconds_are_whole_and_never_negative() {
    assert_eq!(at(10, 0).elapsed_until(&at(75, 0)), 65);
    assert_eq!(at(10, 900_000_000).elapsed_until(&at(12, 100_000_000)), 1);
    assert_eq!(at(10, 0).elapsed_until(&at(10, 999_999_999)), 0);
    assert_eq!(at(75, 0).elapsed_until(&at(10, 0)), 0);
    assert_eq!(at(59, 1_500_000_000).elapsed_until(&at(60, 500_000_000)), 1);
}

#[test]
fn the_clock_runs_since_1970() {
    let now = Timestamp::now();
    assert!(now.seconds() > 1_600_000_000);
    assert!(now.nanoseconds() < 1_000_000_000);
}
