//! Wall-clock readings: the weekday name and the `HH:MM:SS` text of an instant
//! in its zone, both formatted by chrono.

use vstd::prelude::*;

verus! {

/// The first second chrono can hold: 1 January of the year -262143, 00:00:00 UTC.
pub const EARLIEST_SECOND: i64 = -8_334_601_228_800;

/// The last second chrono can hold: 31 December of the year 262142, 23:59:59 UTC.
pub const LATEST_SECOND: i64 = 8_210_266_876_799;

/// Seconds in a day; a zone is less than this away from UTC.
pub const SECONDS_PER_DAY: i32 = 86_400;

/// What chrono can hold and format: an instant between the earliest and the
/// latest second, in a zone less than a day away from UTC.
pub open spec fn representable(secs: int, offset: int) -> bool {
    &&& EARLIEST_SECOND <= secs <= LATEST_SECOND
    &&& -SECONDS_PER_DAY < offset < SECONDS_PER_DAY
}

/// Days from Sunday (0) to Saturday (6) of the day that holds the given second,
/// counted from 1 January 1970 00:00:00, a Thursday.
pub open spec fn days_from_sunday(local: int) -> int {
    (local / 86_400 + 4) % 7
}

/// Seconds elapsed since the last midnight.
pub open spec fn second_of_day(local: int) -> int {
    local % 86_400
}

/// The English name of a weekday given as days from Sunday.
pub open spec fn english_weekday(days_from_sunday: int) -> Seq<char> {
    if days_from_sunday == 0 {
        "Sunday"@
    } else if days_from_sunday == 1 {
        "Monday"@
    } else if days_from_sunday == 2 {
        "Tuesday"@
    } else if days_from_sunday == 3 {
        "Wednesday"@
    } else if days_from_sunday == 4 {
        "Thursday"@
    } else if days_from_sunday == 5 {
        "Friday"@
    } else {
        "Saturday"@
    }
}

/// The character of a decimal digit.
pub open spec fn digit_char(digit: int) -> char {
    ('0' as int + digit) as char
}

/// A number below 100 as two decimal digits, zero-padded.
pub open spec fn two_digits(n: int) -> Seq<char> {
    seq![digit_char(n / 10), digit_char(n % 10)]
}

/// A second of the day as `HH:MM:SS`.
pub open spec fn clock_text(second_of_day: int) -> Seq<char> {
    two_digits(second_of_day / 3600) + seq![':'] + two_digits(second_of_day / 60 % 60) + seq![':']
        + two_digits(second_of_day % 60)
}

/// An instant together with the UTC offset of the zone it is read in.
#[derive(Clone, Copy, Debug, PartialEq, Eq)]
pub struct Timestamp {
    secs: i64,
    offset: i32,
}

impl Timestamp {
    #[verifier::type_invariant]
    spec fn within_range(self) -> bool {
        representable(self.secs as int, self.offset as int)
    }

    /// Seconds since 1 January 1970 00:00:00 UTC, leap seconds not counted.
    pub closed spec fn utc_seconds(self) -> int {
        self.secs as int
    }

    /// Seconds that the zone's clock is ahead of UTC.
    pub closed spec fn utc_offset(self) -> int {
        self.offset as int
    }

    /// Seconds since 1 January 1970 00:00:00 on the zone's own clock.
    pub open spec fn local_seconds(self) -> int {
        self.utc_seconds() + self.utc_offset()
    }

    /// A reading of `secs` seconds since the epoch in a zone `offset` seconds
    /// east of UTC, or `None` where chrono cannot represent it.
    pub fn new(secs: i64, offset: i32) -> (made: Option<Timestamp>)
        ensures
            made is Some <==> representable(secs as int, offset as int),
            made matches Some(t) ==> t.utc_seconds() == secs && t.utc_offset() == offset,
    {
        if EARLIEST_SECOND <= secs && secs <= LATEST_SECOND && -SECONDS_PER_DAY < offset && offset
            < SECONDS_PER_DAY {
            Some(Timestamp { secs, offset })
        } else {
            None
        }
    }

    /// Seconds since 1 January 1970 00:00:00 UTC.
    pub fn seconds(&self) -> (secs: i64)
        ensures
            secs == self.utc_seconds(),
    {
        self.secs
    }

    /// Seconds that the zone's clock is ahead of UTC.
    pub fn offset(&self) -> (offset: i32)
        ensures
            offset == self.utc_offset(),
    {
        self.offset
    }

    /// The English name of the reading's weekday.
    pub fn weekday_name(&self) -> (name: String)
        ensures
            name@ == english_weekday(days_from_sunday(self.local_seconds())),
    {
        proof {
            use_type_invariant(self);
        }
        format_local(self.secs, self.offset, "%A")
    }

    /// The reading's time of day as `HH:MM:SS`.
    pub fn clock(&self) -> (text: String)
        ensures
            text@ == clock_text(second_of_day(self.local_seconds())),
    {
        proof {
            use_type_invariant(self);
        }
        format_local(self.secs, self.offset, "%H:%M:%S")
    }
}

/// chrono's `DateTime::format` on the instant `secs` (`DateTime::from_timestamp`)
/// seen in the zone `offset` seconds east of UTC (`FixedOffset::east_opt`,
/// `DateTime::with_timezone`), for the two patterns the status line uses.
///
/// Not proved, but taken from chrono: the instant is split into days of
/// 86400 seconds since 1 January 1970, a Thursday, and a second of the day,
/// and the zone's offset is added to the second of the day with a carry into
/// the date. `%A` writes the English name of the local date's weekday, which
/// chrono looks up by the days from Sunday. `%H:%M:%S` writes hour, minute and
/// second of the local time, each padded with a zero to two digits. Inside
/// the range of `representable` neither construction fails.
#[verifier::external_body]
fn format_local(secs: i64, offset: i32, pattern: &str) -> (text: String)
    requires
        representable(secs as int, offset as int),
        pattern@ == "%A"@ || pattern@ == "%H:%M:%S"@,
    ensures
        pattern@ == "%A"@ ==> text@ == english_weekday(days_from_sunday(secs + offset)),
        pattern@ == "%H:%M:%S"@ ==> text@ == clock_text(second_of_day(secs + offset)),
{
    let zone = chrono::FixedOffset::east_opt(offset).unwrap();
    let utc = chrono::DateTime::from_timestamp(secs, 0).unwrap();
    utc.with_timezone(&zone).format(pattern).to_string()
}

} // verus!
