use chrono::{Datelike, TimeZone, Timelike};
use tmux_status::clock::{Timestamp, EARLIEST_SECOND, LATEST_SECOND, SECONDS_PER_DAY};

const FIRST: i64 = -8_334_601_228_800;
const LAST: i64 = 8_210_266_876_799;

fn name_of(days_from_sunday: i64) -> &'static str {
    ["Sunday", "Monday", "Tuesday", "Wednesday", "Thursday", "Friday", "Saturday"]
        [days_from_sunday as usize]
}

fn expected_weekday(secs: i64, offset: i32) -> &'static str {
    let local = secs + offset as i64;
    name_of((local.div_euclid(86_400) + 4).rem_euclid(7))
}

fn expected_clock(secs: i64, offset: i32) -> String {
    let second = (secs + offset as i64).rem_euclid(86_400);
    format!("{:02}:{:02}:{:02}", second / 3600, second / 60 % 60, second % 60)
}

#[test]
fn epoch_was_a_thursday_midnight() {
    let t = Timestamp::new(0, 0).unwrap();
    assert_eq!(t.weekday_name(), "Thursday");
    assert_eq!(t.clock(), "00:00:00");
}

#[test]
fn monday_morning() {
    // 1 January 2024, 09:05:30 UTC
    let t = Timestamp::new(1_704_099_930, 0).unwrap();
    assert_eq!(t.weekday_name(), "Monday");
    assert_eq!(t.clock(), "09:05:30");
}

#[test]
fn each_day_of_a_week_has_its_name() {
    // 7 to 13 January 2024, noon UTC
    let sunday_noon = 1_704_585_600 + 12 * 3600;
    let names = ["Sunday", "Monday", "Tuesday", "Wednesday", "Thursday", "Friday", "Saturday"];
    for (i, name) in names.iter().enumerate() {
        let t = Timestamp::new(sunday_noon + 86_400 * i as i64, 0).unwrap();
        assert_eq!(t.weekday_name(), *name);
        assert_eq!(t.clock(), "12:00:00");
    }
}

#[test]
fn the_zone_moves_day_and_time() {
    // Saturday 23:30:00 UTC is Sunday 01:30:00 two hours east, Saturday 15:30:00 eight hours west.
    let secs = 1_704_583_800;
    assert_eq!(Timestamp::new(secs, 0).unwrap().weekday_name(), "Saturday");
    assert_eq!(Timestamp::new(secs, 0).unwrap().clock(), "23:30:00");
    assert_eq!(Timestamp::new(secs, 7200).unwrap().weekday_name(), "Sunday");
    assert_eq!(Timestamp::new(secs, 7200).unwrap().clock(), "01:30:00");
    assert_eq!(Timestamp::new(secs, -8 * 3600).unwrap().weekday_name(), "Saturday");
    assert_eq!(Timestamp::new(secs, -8 * 3600).unwrap().clock(), "15:30:00");
    // a zone with minutes and seconds in its offset
    assert_eq!(Timestamp::new(secs, 5 * 3600 + 45 * 60 + 7).unwrap().clock(), "05:15:07");
}

#[test]
fn before_the_epoch() {
    let t = Timestamp::new(-1, 0).unwrap();
    assert_eq!(t.weekday_name(), "Wednesday");
    assert_eq!(t.clock(), "23:59:59");
    let t = Timestamp::new(0, -1).unwrap();
    assert_eq!(t.weekday_name(), "Wednesday");
    assert_eq!(t.clock(), "23:59:59");
    // 20 July 1969, 20:17:40 UTC, a Sunday
    let t = Timestamp::new(-14_182_940, 0).unwrap();
    assert_eq!(t.weekday_name(), "Sunday");
    assert_eq!(t.clock(), "20:17:40");
}

#[test]
fn a_reading_keeps_its_seconds_and_offset() {
    let t = Timestamp::new(1_704_099_930, -18_000).unwrap();
    assert_eq!(t.seconds(), 1_704_099_930);
    assert_eq!(t.offset(), -18_000);
    assert_eq!(t, Timestamp::new(1_704_099_930, -18_000).unwrap());
    assert_ne!(t, Timestamp::new(1_704_099_930, 0).unwrap());
    let t = Timestamp::new(EARLIEST_SECOND, 86_399).unwrap();
    assert_eq!((t.seconds(), t.offset()), (EARLIEST_SECOND, 86_399));
}

#[test]
fn range_is_the_one_of_chrono() {
    assert_eq!(EARLIEST_SECOND, FIRST);
    assert_eq!(LATEST_SECOND, LAST);
    assert_eq!(SECONDS_PER_DAY, 86_400);
    assert_eq!(chrono::DateTime::<chrono::Utc>::MIN_UTC.timestamp(), EARLIEST_SECOND);
    assert_eq!(chrono::DateTime::<chrono::Utc>::MAX_UTC.timestamp(), LATEST_SECOND);
    assert!(chrono::DateTime::from_timestamp(EARLIEST_SECOND - 1, 0).is_none());
    assert!(chrono::DateTime::from_timestamp(LATEST_SECOND + 1, 0).is_none());
    assert!(chrono::FixedOffset::east_opt(SECONDS_PER_DAY).is_none());
    assert!(chrono::FixedOffset::east_opt(-SECONDS_PER_DAY).is_none());
}

#[test]
fn range_is_what_can_be_formatted() {
    assert!(Timestamp::new(FIRST, 0).is_some());
    assert!(Timestamp::new(FIRST - 1, 0).is_none());
    assert!(Timestamp::new(LAST, 0).is_some());
    assert!(Timestamp::new(LAST + 1, 0).is_none());
    assert!(Timestamp::new(i64::MIN, 0).is_none());
    assert!(Timestamp::new(i64::MAX, 0).is_none());
    assert!(Timestamp::new(0, 86_399).is_some());
    assert!(Timestamp::new(0, 86_400).is_none());
    assert!(Timestamp::new(0, -86_399).is_some());
    assert!(Timestamp::new(0, -86_400).is_none());
    assert!(Timestamp::new(0, i32::MIN).is_none());
    assert!(Timestamp::new(0, i32::MAX).is_none());
}

#[test]
fn ends_of_the_range_format() {
    for secs in [FIRST, FIRST + 1, FIRST + 86_399, FIRST + 86_400, LAST - 86_400, LAST - 86_399, LAST - 1, LAST] {
        for offset in [-86_399, -43_200, -1, 0, 1, 43_200, 86_399] {
            let t = Timestamp::new(secs, offset).unwrap();
            assert_eq!(t.weekday_name(), expected_weekday(secs, offset), "{} {}", secs, offset);
            assert_eq!(t.clock(), expected_clock(secs, offset), "{} {}", secs, offset);
        }
    }
}

#[test]
fn weekday_and_clock_follow_the_seconds_on_a_sweep() {
    // a stride coprime to the day and the week, across the whole range
    let stride: i64 = 82_700_003;
    let offsets = [-86_399, -39_600, -3_601, 0, 59, 19_800, 50_400, 86_399];
    let mut secs = FIRST;
    let mut i = 0usize;
    while secs <= LAST {
        let offset = offsets[i % offsets.len()];
        let t = Timestamp::new(secs, offset).unwrap();
        assert_eq!(t.weekday_name(), expected_weekday(secs, offset), "{} {}", secs, offset);
        assert_eq!(t.clock(), expected_clock(secs, offset), "{} {}", secs, offset);
        secs += stride;
        i += 1;
    }
    assert!(i > 100_000);
}

#[test]
fn weekday_and_clock_follow_the_seconds_near_now() {
    let start: i64 = 1_700_000_000;
    for k in 0..20_000i64 {
        let secs = start + k * 4_271;
        let offset = ((k * 733) % 172_799 - 86_399) as i32;
        let t = Timestamp::new(secs, offset).unwrap();
        assert_eq!(t.weekday_name(), expected_weekday(secs, offset), "{} {}", secs, offset);
        assert_eq!(t.clock(), expected_clock(secs, offset), "{} {}", secs, offset);
    }
}

#[test]
fn agrees_with_a_reading_taken_by_chrono() {
    let zone = chrono::FixedOffset::east_opt(9 * 3600).unwrap();
    let reading = zone.with_ymd_and_hms(2023, 3, 15, 18, 4, 9).unwrap();
    let t = Timestamp::new(reading.timestamp(), reading.offset().local_minus_utc()).unwrap();
    assert_eq!(reading.weekday(), chrono::Weekday::Wed);
    assert_eq!((reading.hour(), reading.minute(), reading.second()), (18, 4, 9));
    assert_eq!(t.weekday_name(), "Wednesday");
    assert_eq!(t.clock(), "18:04:09");
}
