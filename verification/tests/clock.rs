use chrono::DateTime;
use slack_log::clock::{is_representable, FIRST_SECOND, LAST_SECOND};

#[test]
fn points_in_time_have_dates() {
    for &(seconds, nanos) in &[
        (FIRST_SECOND, 0),
        (FIRST_SECOND - 1, 0),
        (LAST_SECOND, 999_999_999),
        (LAST_SECOND + 1, 0),
        (LAST_SECOND, 1_999_999_999),
        (0, 1_000_000_000),
        (59, 1_000_000_000),
        (59, 2_000_000_000),
        (-1, 1_500_000_000),
        (-2, 1_500_000_000),
        (i64::MIN, 0),
        (i64::MAX, u32::MAX),
        (1_355_517_523, 5_000),
    ] {
        let dated = DateTime::from_timestamp(seconds, nanos).is_some();
        assert_eq!(is_representable(seconds, nanos), dated, "{} {}", seconds, nanos);
    }
}
