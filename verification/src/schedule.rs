use jiff::ToSpan;
use vstd::prelude::*;
use vstd::string::*;

use crate::wiring::padded;

verus! {

/// Clan Battle nights start at 23:30 UTC.
pub const START_HOUR: i8 = 23;
pub const START_MINUTE: i8 = 30;
pub const HOURS_PER_NIGHT: u8 = 4;
pub const SECONDS_PER_HOUR: i64 = 3600;
/// A sign-up post goes up a day before its night starts.
pub const POST_LEAD_SECONDS: i64 = 24 * SECONDS_PER_HOUR;
/// A sign-up post comes down half an hour after its night ends.
pub const REMOVE_AFTER_END_SECONDS: i64 = 30 * 60;
/// A season has to sit within this many months either side of today.
pub const RANGE_MONTHS: i32 = 6;
pub const DAY_TEXT_LENGTH: usize = 10;

/// The earliest and latest second that a UTC civil datetime can be turned into.
pub const EARLIEST_SECOND: i64 = -377705116800;
pub const LATEST_SECOND: i64 = 253402300799;

// ---------------------------------------------------------------------------
// The Gregorian calendar, as far as the contracts need it.

pub open spec fn leap_year(year: int) -> bool {
    (year % 4 == 0 && year % 100 != 0) || year % 400 == 0
}

pub open spec fn days_in_month(year: int, month: int) -> int {
    if month == 2 {
        if leap_year(year) {
            29
        } else {
            28
        }
    } else if month == 4 || month == 6 || month == 9 || month == 11 {
        30
    } else {
        31
    }
}

/// The dates that a civil date can hold: years -9999 to 9999.
pub open spec fn civil_date_exists(year: int, month: int, day: int) -> bool {
    &&& -9999 <= year <= 9999
    &&& 1 <= month <= 12
    &&& 1 <= day <= days_in_month(year, month)
}

/// Wednesday, Thursday, Saturday and Sunday, with Monday as 1.
pub open spec fn cb_weekday(weekday: int) -> bool {
    weekday == 3 || weekday == 4 || weekday == 6 || weekday == 7
}

// ---------------------------------------------------------------------------
// What the calendar library computes.

/// The earliest and latest Unix second a timestamp can hold: the civil range narrowed by the
/// largest time zone offset, 25:59:59.
pub const TIMESTAMP_MIN: i64 = -377705023201;
pub const TIMESTAMP_MAX: i64 = 253402207200;

/// The number of days from 1970-01-01 to a date of the proleptic Gregorian calendar, negative
/// before it.
#[verifier::opaque]
pub open spec fn civil_days(date: (int, int, int)) -> int {
    let (year, month, day) = date;
    let shifted = if month <= 2 {
        year - 1
    } else {
        year
    };
    let era = shifted / 400;
    let year_of_era = shifted - era * 400;
    let month_from_march = (month + 9) % 12;
    let day_of_year = (153 * month_from_march + 2) / 5 + day - 1;
    let day_of_era = year_of_era * 365 + year_of_era / 4 - year_of_era / 100 + day_of_year;
    era * 146097 + day_of_era - 719468
}

/// The weekday of a civil date, Monday as 1 and Sunday as 7: 1970-01-01 was a Thursday.
pub open spec fn civil_weekday(date: (int, int, int)) -> int {
    (civil_days(date) + 3) % 7 + 1
}

/// The civil date after the given one; none after 9999-12-31.
pub open spec fn civil_tomorrow(date: (int, int, int)) -> Option<(int, int, int)> {
    let (year, month, day) = date;
    if day < days_in_month(year, month) {
        Some((year, month, day + 1))
    } else if month < 12 {
        Some((year, month + 1, 1))
    } else if year < 9999 {
        Some((year + 1, 1, 1))
    } else {
        None
    }
}

/// The Unix second at which the given civil date and time of day happens in UTC, when a
/// timestamp can hold it.
pub open spec fn utc_instant(date: (int, int, int), hour: int, minute: int) -> Option<i64> {
    let second = civil_days(date) * 86400 + hour * 3600 + minute * 60;
    if TIMESTAMP_MIN <= second <= TIMESTAMP_MAX {
        Some(second as i64)
    } else {
        None
    }
}

/// The civil date `days` days after 1970-01-01 (before it, for a negative count).
#[verifier::opaque]
pub open spec fn civil_from_days(days: int) -> (int, int, int) {
    let shifted = days + 719468;
    let era = shifted / 146097;
    let day_of_era = shifted - era * 146097;
    let year_of_era = (day_of_era - day_of_era / 1460 + day_of_era / 36524 - day_of_era / 146096)
        / 365;
    let day_of_year = day_of_era - (365 * year_of_era + year_of_era / 4 - year_of_era / 100);
    let month_from_march = (5 * day_of_year + 2) / 153;
    let day = day_of_year - (153 * month_from_march + 2) / 5 + 1;
    let month = if month_from_march < 10 {
        month_from_march + 3
    } else {
        month_from_march - 9
    };
    let year = year_of_era + era * 400 + if month <= 2 {
        1int
    } else {
        0int
    };
    (year, month, day)
}

/// The UTC civil date at the given Unix second, when a timestamp can hold the second.
pub open spec fn utc_day(second: int) -> Option<(int, int, int)> {
    if TIMESTAMP_MIN <= second <= TIMESTAMP_MAX {
        Some(civil_from_days(second / 86400))
    } else {
        None
    }
}

/// The date `months` months after the given one (before it, for a negative count), with the
/// day clamped to the new month's length; none outside years -9999 to 9999.
pub open spec fn civil_months_shifted(date: (int, int, int), months: int) -> Option<(int, int, int)> {
    let (year, month, day) = date;
    let total = month - 1 + months;
    let new_year = year + total / 12;
    let new_month = total % 12 + 1;
    if -9999 <= new_year <= 9999 {
        Some(
            (
                new_year,
                new_month,
                if day < days_in_month(new_year, new_month) {
                    day
                } else {
                    days_in_month(new_year, new_month)
                },
            ),
        )
    } else {
        None
    }
}

/// The date some months after the given one, with the day clamped to the month's length.
pub open spec fn civil_months_after(date: (int, int, int), months: int) -> Option<(int, int, int)> {
    civil_months_shifted(date, months)
}

/// The date some months before the given one, with the day clamped to the month's length.
pub open spec fn civil_months_before(date: (int, int, int), months: int) -> Option<(int, int, int)> {
    civil_months_shifted(date, -months)
}

/// The `YYYY-MM-DD` text of a civil date: the year in four digits, after `-00` when it is
/// negative, then the month and the day in two.
pub open spec fn date_text(date: (int, int, int)) -> Seq<char> {
    let (year, month, day) = date;
    let sign = if year < 0 {
        "-00"@
    } else {
        Seq::empty()
    };
    let magnitude = if year < 0 {
        -year
    } else {
        year
    };
    sign + padded(magnitude as nat, 4) + "-"@ + padded(month as nat, 2) + "-"@ + padded(
        day as nat,
        2,
    )
}

/// The civil date that the text spells, if it spells one.
pub uninterp spec fn parsed_date(text: Seq<char>) -> Option<(int, int, int)>;

// ---------------------------------------------------------------------------
// Days.

/// A civil date.
#[derive(Debug, Clone, Copy, PartialEq, Eq, Hash, Structural)]
pub struct Day {
    year: i16,
    month: i8,
    day: i8,
}

pub open spec fn day_parts(day: Option<Day>) -> Option<(int, int, int)> {
    match day {
        Some(day) => Some(day.parts()),
        None => None,
    }
}

impl Day {
    #[verifier::type_invariant]
    pub closed spec fn valid_date(self) -> bool {
        civil_date_exists(self.year as int, self.month as int, self.day as int)
    }

    /// Year, month and day.
    pub closed spec fn parts(self) -> (int, int, int) {
        (self.year as int, self.month as int, self.day as int)
    }

    /// A number that orders days as the calendar does.
    pub closed spec fn key(self) -> int {
        self.year as int * 372 + self.month as int * 31 + self.day as int
    }

    pub closed spec fn of_parts(parts: (int, int, int)) -> Day {
        Day { year: parts.0 as i16, month: parts.1 as i8, day: parts.2 as i8 }
    }

    pub proof fn lemma_of_own_parts(self)
        ensures
            Day::of_parts(self.parts()) == self,
    {
    }

    /// A valid day's parts are a date the calendar has.
    pub proof fn lemma_valid_parts(self)
        requires
            self.valid_date(),
        ensures
            civil_date_exists(self.parts().0, self.parts().1, self.parts().2),
    {
    }

    /// A day made from parts the calendar has gives those parts back.
    pub proof fn lemma_parts_of(parts: (int, int, int))
        requires
            civil_date_exists(parts.0, parts.1, parts.2),
        ensures
            Day::of_parts(parts).parts() == parts,
            Day::of_parts(parts).valid_date(),
    {
    }

    /// The day after a valid day is a date the calendar has, and comes later.
    pub proof fn lemma_tomorrow_later(self)
        requires
            self.valid_date(),
        ensures
            civil_tomorrow(self.parts()) matches Some(next) ==> civil_date_exists(
                next.0,
                next.1,
                next.2,
            ) && self.key() < Day::of_parts(next).key(),
    {
        if let Some(next) = civil_tomorrow(self.parts()) {
            Day::lemma_parts_of(next);
        }
    }

    proof fn lemma_key_bounds(self)
        requires
            self.valid_date(),
        ensures
            self.key() == self.year * 372 + self.month * 31 + self.day,
            32 <= self.month * 31 + self.day <= 403,
            -9999 * 372 + 32 <= self.key() <= 9999 * 372 + 403,
    {
    }

    /// Two valid days with the same key are the same day.
    pub proof fn lemma_key_identifies(self, other: Day)
        requires
            self.valid_date(),
            other.valid_date(),
            self.key() == other.key(),
        ensures
            self == other,
    {
        self.lemma_key_bounds();
        other.lemma_key_bounds();
        assert(self.year == other.year) by (nonlinear_arith)
            requires
                self.year * 372 + self.month * 31 + self.day == other.year * 372 + other.month
                    * 31 + other.day,
                32 <= self.month * 31 + self.day <= 403,
                32 <= other.month * 31 + other.day <= 403,
        ;
        assert(self.month == other.month) by (nonlinear_arith)
            requires
                self.month * 31 + self.day == other.month * 31 + other.day,
                1 <= self.day <= 31,
                1 <= other.day <= 31,
        ;
    }

    /// The day's key, computed.
    pub fn ordinal(self) -> (key: i32)
        ensures
            key == self.key(),
    {
        proof {
            use_type_invariant(&self);
            self.lemma_key_bounds();
        }
        self.year as i32 * 372 + self.month as i32 * 31 + self.day as i32
    }

    /// The day's year, month and day of the month.
    pub fn numbers(self) -> (numbers: (i16, i8, i8))
        ensures
            (numbers.0 as int, numbers.1 as int, numbers.2 as int) == self.parts(),
            civil_date_exists(numbers.0 as int, numbers.1 as int, numbers.2 as int),
    {
        proof {
            use_type_invariant(&self);
        }
        (self.year, self.month, self.day)
    }

    /// The day with this year, month and day of the month, if the calendar has it.
    pub fn from_numbers(year: i16, month: i8, day: i8) -> (found: Option<Day>)
        ensures
            found is Some <==> civil_date_exists(year as int, month as int, day as int),
            found matches Some(found) ==> found.parts() == (year as int, month as int, day as int)
                && found == Day::of_parts((year as int, month as int, day as int)),
    {
        if year < -9999 || year > 9999 || month < 1 || month > 12 || day < 1 {
            return None;
        }
        let leap = (year % 4 == 0 && year % 100 != 0) || year % 400 == 0;
        let length: i8 = if month == 2 {
            if leap {
                29
            } else {
                28
            }
        } else if month == 4 || month == 6 || month == 9 || month == 11 {
            30
        } else {
            31
        };
        if day > length {
            return None;
        }
        Some(Day { year, month, day })
    }

    /// Whether this day comes before the other one or is the same day.
    pub fn on_or_before(self, other: Day) -> (b: bool)
        ensures
            b == (self.key() <= other.key()),
    {
        self.ordinal() <= other.ordinal()
    }
}

// ---------------------------------------------------------------------------
// Calls into the calendar library.

/// Calls `jiff::civil::Date::weekday`, as a number with Monday as 1; the contract claims the
/// date's weekday, counted from 1970-01-01, a Thursday.
#[verifier::external_body]
fn weekday_of(day: Day) -> (weekday: i8)
    ensures
        weekday as int == civil_weekday(day.parts()),
{
    jiff::civil::date(day.year, day.month, day.day).weekday().to_monday_one_offset()
}

/// Calls `jiff::civil::Date::tomorrow`; the contract claims the next date of the Gregorian
/// calendar, and none after 9999-12-31.
#[verifier::external_body]
fn tomorrow_of(day: Day) -> (next: Option<Day>)
    ensures
        day_parts(next) == civil_tomorrow(day.parts()),
{
    jiff::civil::date(day.year, day.month, day.day).tomorrow().ok().map(
        |next| Day { year: next.year(), month: next.month(), day: next.day() },
    )
}

/// Calls `jiff::tz::Offset::to_timestamp` with the UTC offset; the contract claims the Unix
/// second of that date and time, when a timestamp can hold it.
#[verifier::external_body]
fn utc_seconds(day: Day, hour: i8, minute: i8) -> (second: Option<i64>)
    requires
        0 <= hour <= 23,
        0 <= minute <= 59,
    ensures
        second == utc_instant(day.parts(), hour as int, minute as int),
{
    let datetime = jiff::civil::date(day.year, day.month, day.day).at(hour, minute, 0, 0);
    jiff::tz::Offset::UTC.to_timestamp(datetime).ok().map(|stamp| stamp.as_second())
}

/// Calls `jiff::tz::Offset::to_datetime` with the UTC offset on the timestamp of a Unix second;
/// the contract claims the UTC date of that second, and none where `Timestamp::from_second`
/// refuses it.
#[verifier::external_body]
fn utc_date_at(second: i64) -> (day: Option<Day>)
    ensures
        day_parts(day) == utc_day(second as int),
{
    jiff::Timestamp::from_second(second).ok().map(
        |stamp| {
            let date = jiff::tz::Offset::UTC.to_datetime(stamp).date();
            Day { year: date.year(), month: date.month(), day: date.day() }
        },
    )
}

/// Calls `jiff::civil::Date::checked_add` with a span of months; the contract claims the date
/// that many months later, its day clamped to the month's length.
#[verifier::external_body]
fn months_after(day: Day, months: i32) -> (later: Option<Day>)
    requires
        0 <= months <= 1200,
    ensures
        day_parts(later) == civil_months_after(day.parts(), months as int),
{
    jiff::civil::date(day.year, day.month, day.day).checked_add(months.months()).ok().map(
        |later| Day { year: later.year(), month: later.month(), day: later.day() },
    )
}

/// Calls `jiff::civil::Date::checked_sub` with a span of months; the contract claims the date
/// that many months earlier, its day clamped to the month's length.
#[verifier::external_body]
fn months_before(day: Day, months: i32) -> (earlier: Option<Day>)
    requires
        0 <= months <= 1200,
    ensures
        day_parts(earlier) == civil_months_before(day.parts(), months as int),
{
    jiff::civil::date(day.year, day.month, day.day).checked_sub(months.months()).ok().map(
        |earlier| Day { year: earlier.year(), month: earlier.month(), day: earlier.day() },
    )
}

/// Calls `jiff::civil::Date`'s `Display`; the contract claims the zero-padded `YYYY-MM-DD`
/// text.
#[verifier::external_body]
fn date_label(day: Day) -> (text: String)
    ensures
        text@ == date_text(day.parts()),
{
    jiff::civil::date(day.year, day.month, day.day).to_string()
}

/// Calls `jiff::civil::Date`'s `FromStr`; the contract claims the named date.
#[verifier::external_body]
fn parse_date(text: &str) -> (day: Option<Day>)
    ensures
        day_parts(day) == parsed_date(text@),
{
    text.parse::<jiff::civil::Date>().ok().map(
        |date| Day { year: date.year(), month: date.month(), day: date.day() },
    )
}

// ---------------------------------------------------------------------------

/// The UTC date at the given Unix second.
pub fn today(now_unix: i64) -> (day: Option<Day>)
    ensures
        day_parts(day) == utc_day(now_unix as int),
{
    utc_date_at(now_unix)
}

/// A date written as ten characters, such as `2026-09-16`.
pub fn parse_day(text: &str) -> (day: Option<Day>)
    ensures
        day_parts(day) == (if text.spec_bytes().len() as usize == DAY_TEXT_LENGTH {
            parsed_date(text@)
        } else {
            None
        }),
{
    if text.len() != DAY_TEXT_LENGTH {
        return None;
    }
    parse_date(text)
}

/// The `YYYY-MM-DD` text of a day.
pub fn day_label(day: Day) -> (text: String)
    ensures
        text@ == date_text(day.parts()),
{
    date_label(day)
}

// ---------------------------------------------------------------------------
// Hours of a night.

/// One of the four hours of a Clan Battle night.
#[derive(Debug, Clone, Copy, PartialEq, Eq, Hash, Structural)]
pub struct Hour(u8);

impl Hour {
    /// The four hours in order.
    pub fn all() -> (hours: [Hour; 4])
        ensures
            forall|i: int| 0 <= i < 4 ==> #[trigger] hours[i].number() == i + 1,
    {
        [Hour(1), Hour(2), Hour(3), Hour(4)]
    }

    #[verifier::type_invariant]
    pub closed spec fn in_night(self) -> bool {
        1 <= self.0 <= HOURS_PER_NIGHT
    }

    /// The hour's number, 1 to 4.
    pub closed spec fn number(self) -> int {
        self.0 as int
    }

    pub proof fn lemma_number(self)
        requires
            self.in_night(),
        ensures
            1 <= self.number() <= 4,
    {
    }

    /// The hour with this number.
    pub closed spec fn numbered(number: int) -> Hour {
        Hour(number as u8)
    }

    pub proof fn lemma_numbered(number: int)
        requires
            1 <= number <= HOURS_PER_NIGHT,
        ensures
            Hour::numbered(number).number() == number,
            Hour::numbered(number).in_night(),
    {
    }

    /// Hours with the same number are the same hour.
    pub proof fn lemma_number_identifies(self, other: Hour)
        requires
            self.number() == other.number(),
        ensures
            self == other,
    {
    }

    pub fn new(value: u8) -> (hour: Option<Self>)
        ensures
            hour is Some <==> 1 <= value <= HOURS_PER_NIGHT,
            hour matches Some(hour) ==> hour.number() == value,
    {
        if 1 <= value && value <= HOURS_PER_NIGHT {
            Some(Hour(value))
        } else {
            None
        }
    }

    pub fn get(self) -> (value: u8)
        ensures
            value == self.number(),
            1 <= value <= HOURS_PER_NIGHT,
    {
        proof {
            use_type_invariant(&self);
        }
        self.0
    }
}

// ---------------------------------------------------------------------------
// Nights.

/// A night of sign-ups: a day whose play starts at 23:30 UTC. A season's nights fall on Clan
/// Battle days (Wednesday, Thursday, Saturday and Sunday), a rehearsal's on every day.
#[derive(Debug, Clone, Copy, PartialEq, Eq, Hash, Structural)]
pub struct Night {
    date: Day,
    start_unix: i64,
}

impl Night {
    #[verifier::type_invariant]
    pub closed spec fn well_timed(self) -> bool {
        &&& utc_instant(self.date.parts(), START_HOUR as int, START_MINUTE as int) == Some(
            self.start_unix,
        )
        &&& EARLIEST_SECOND <= self.start_unix <= LATEST_SECOND
    }

    pub closed spec fn day(self) -> Day {
        self.date
    }

    /// The Unix second at which the night's play starts.
    pub closed spec fn start(self) -> int {
        self.start_unix as int
    }

    /// The night on a day, whatever its weekday, if its start can be told.
    pub closed spec fn at(date: Day) -> Option<Night> {
        match utc_instant(date.parts(), START_HOUR as int, START_MINUTE as int) {
            Some(start) => if EARLIEST_SECOND <= start <= LATEST_SECOND {
                Some(Night { date, start_unix: start })
            } else {
                None
            },
            None => None,
        }
    }

    /// The night on a day, if the day is a Clan Battle day.
    pub open spec fn cb(date: Day) -> Option<Night> {
        if cb_weekday(civil_weekday(date.parts())) {
            Night::at(date)
        } else {
            None
        }
    }

    pub open spec fn hour_start(self, hour: Hour) -> int {
        self.start() + (hour.number() - 1) * SECONDS_PER_HOUR
    }

    pub open spec fn end(self) -> int {
        self.start() + HOURS_PER_NIGHT * SECONDS_PER_HOUR
    }

    pub open spec fn post_at(self) -> int {
        self.start() - POST_LEAD_SECONDS
    }

    pub open spec fn remove_at(self) -> int {
        self.end() + REMOVE_AFTER_END_SECONDS
    }

    pub proof fn lemma_start_bounds(self)
        requires
            self.well_timed(),
        ensures
            EARLIEST_SECOND <= self.start() <= LATEST_SECOND,
            Night::at(self.day()) == Some(self),
    {
    }

    /// The night on a day, when there is one, falls on that day and starts at 23:30 UTC: its
    /// start is the day's count from 1970-01-01 in seconds, plus 84600. There is one exactly
    /// when a timestamp can hold that second.
    pub proof fn lemma_at(date: Day)
        ensures
            Night::at(date) is Some <==> TIMESTAMP_MIN <= civil_days(date.parts()) * 86400 + 84600
                <= TIMESTAMP_MAX,
            Night::at(date) matches Some(night) ==> night.day() == date && night.start()
                == civil_days(date.parts()) * 86400 + 84600,
    {
    }

    /// The night on a day falls on that day.
    pub proof fn lemma_on_day(date: Day)
        ensures
            Night::at(date) matches Some(night) ==> night.day() == date && night.well_timed(),
    {
    }

    /// The Clan Battle night on a day: none on the other weekdays.
    pub fn new(date: Day) -> (night: Option<Self>)
        ensures
            night == Night::cb(date),
    {
        let weekday = weekday_of(date);
        if !(weekday == 3 || weekday == 4 || weekday == 6 || weekday == 7) {
            return None;
        }
        Night::on(date)
    }

    /// The night on a day, whatever its weekday.
    pub fn on(date: Day) -> (night: Option<Self>)
        ensures
            night == Night::at(date),
    {
        match utc_seconds(date, START_HOUR, START_MINUTE) {
            Some(start_unix) => Some(Night { date, start_unix }),
            None => None,
        }
    }

    /// The night on the day a `YYYY-MM-DD` text spells, whatever its weekday, since a stored
    /// or clicked night may belong to a rehearsal.
    pub fn parse(text: &str) -> (night: Option<Self>)
        ensures
            night == (if text.spec_bytes().len() as usize == DAY_TEXT_LENGTH {
                match parsed_date(text@) {
                    Some(parts) => Night::at(Day::of_parts(parts)),
                    None => None,
                }
            } else {
                None
            }),
    {
        match parse_day(text) {
            Some(date) => {
                proof {
                    date.lemma_of_own_parts();
                }
                Night::on(date)
            },
            None => None,
        }
    }

    pub fn date(self) -> (date: Day)
        ensures
            date == self.day(),
    {
        self.date
    }

    /// The night's date as `YYYY-MM-DD`.
    pub fn label(self) -> (text: String)
        ensures
            text@ == date_text(self.day().parts()),
    {
        date_label(self.date)
    }

    pub fn start_unix(self) -> (start: i64)
        ensures
            start == self.start(),
    {
        self.start_unix
    }

    pub fn hour_start_unix(self, hour: Hour) -> (start: i64)
        ensures
            start == self.hour_start(hour),
    {
        proof {
            use_type_invariant(&self);
        }
        self.start_unix + (hour.get() - 1) as i64 * SECONDS_PER_HOUR
    }

    pub fn hour_end_unix(self, hour: Hour) -> (end: i64)
        ensures
            end == self.hour_start(hour) + SECONDS_PER_HOUR,
    {
        proof {
            use_type_invariant(&self);
            use_type_invariant(&hour);
        }
        self.hour_start_unix(hour) + SECONDS_PER_HOUR
    }

    pub fn end_unix(self) -> (end: i64)
        ensures
            end == self.end(),
    {
        proof {
            use_type_invariant(&self);
        }
        self.start_unix + HOURS_PER_NIGHT as i64 * SECONDS_PER_HOUR
    }

    pub fn post_at_unix(self) -> (at: i64)
        ensures
            at == self.post_at(),
    {
        proof {
            use_type_invariant(&self);
        }
        self.start_unix - POST_LEAD_SECONDS
    }

    pub fn remove_at_unix(self) -> (at: i64)
        ensures
            at == self.remove_at(),
    {
        proof {
            use_type_invariant(&self);
        }
        self.end_unix() + REMOVE_AFTER_END_SECONDS
    }
}

// ---------------------------------------------------------------------------
// Ranges of days.

/// Which days of a range hold a night.
#[derive(Debug, Clone, Copy, PartialEq, Eq, Structural)]
pub enum Days {
    /// Wednesdays, Thursdays, Saturdays and Sundays.
    ClanBattle,
    /// Every calendar day, as a rehearsal runs.
    Every,
}

impl Days {
    /// The night that a day holds under this rule.
    pub open spec fn night_on(self, date: Day) -> Option<Night> {
        match self {
            Days::ClanBattle => Night::cb(date),
            Days::Every => Night::at(date),
        }
    }
}

/// The nights from `from` through `last` under the rule `days`, in calendar order.
pub closed spec fn nights_between(from: Day, last: Day, days: Days) -> Seq<Night>
    decreases last.key() - from.key(),
{
    if from.key() > last.key() {
        Seq::empty()
    } else {
        let here = match days.night_on(from) {
            Some(night) => seq![night],
            None => Seq::empty(),
        };
        let rest = match civil_tomorrow(from.parts()) {
            Some(parts) => if from.key() < Day::of_parts(parts).key() && Day::of_parts(parts).key()
                <= last.key() {
                nights_between(Day::of_parts(parts), last, days)
            } else {
                Seq::empty()
            },
            None => Seq::empty(),
        };
        here + rest
    }
}

/// The first night at or after position `from` whose play starts after `now`.
pub open spec fn first_after(nights: Seq<Night>, now: int, from: int) -> Option<Night>
    decreases nights.len() - from,
{
    if from < 0 || from >= nights.len() {
        None
    } else if nights[from].start() > now {
        Some(nights[from])
    } else {
        first_after(nights, now, from + 1)
    }
}

/// How many nights at or after position `from` start after `now`.
pub open spec fn count_after(nights: Seq<Night>, now: int, from: int) -> nat
    decreases nights.len() - from,
{
    if from < 0 || from >= nights.len() {
        0
    } else {
        (if nights[from].start() > now {
            1nat
        } else {
            0nat
        }) + count_after(nights, now, from + 1)
    }
}

/// A span of days, first to last, with the rule for which of them hold a night.
#[derive(Debug, Clone, Copy, PartialEq, Eq, Structural)]
pub struct Range {
    first_day: Day,
    last_day: Day,
    days: Days,
}

impl Range {
    #[verifier::type_invariant]
    pub closed spec fn ordered(self) -> bool {
        self.first_day.key() <= self.last_day.key()
    }

    pub closed spec fn first(self) -> Day {
        self.first_day
    }

    pub closed spec fn last(self) -> Day {
        self.last_day
    }

    pub closed spec fn kind(self) -> Days {
        self.days
    }

    /// The range's nights, in calendar order.
    pub open spec fn night_list(self) -> Seq<Night> {
        nights_between(self.first(), self.last(), self.kind())
    }

    pub open spec fn holds_day(self, day: Day) -> bool {
        self.first().key() <= day.key() <= self.last().key()
    }

    /// The range from `first_day` to `last_day` whose nights fall on Clan Battle days.
    pub fn new(first_day: Day, last_day: Day) -> (range: Option<Self>)
        ensures
            range is Some <==> first_day.key() <= last_day.key(),
            range matches Some(range) ==> range.first() == first_day && range.last() == last_day
                && range.kind() == Days::ClanBattle,
    {
        Range::with_days(first_day, last_day, Days::ClanBattle)
    }

    /// The range from `first_day` to `last_day` with a night on every day, as a rehearsal runs.
    pub fn every_day(first_day: Day, last_day: Day) -> (range: Option<Self>)
        ensures
            range is Some <==> first_day.key() <= last_day.key(),
            range matches Some(range) ==> range.first() == first_day && range.last() == last_day
                && range.kind() == Days::Every,
    {
        Range::with_days(first_day, last_day, Days::Every)
    }

    /// The range from `first_day` to `last_day` whose nights follow the rule `days`.
    pub fn with_days(first_day: Day, last_day: Day, days: Days) -> (range: Option<Self>)
        ensures
            range is Some <==> first_day.key() <= last_day.key(),
            range matches Some(range) ==> range.first() == first_day && range.last() == last_day
                && range.kind() == days,
    {
        if first_day.on_or_before(last_day) {
            Some(Range { first_day, last_day, days })
        } else {
            None
        }
    }

    /// Which days of the range hold a night.
    pub fn days(self) -> (days: Days)
        ensures
            days == self.kind(),
    {
        self.days
    }

    /// Whether the range sits within six months either side of `today`.
    pub fn near(self, today: Day) -> (near: bool)
        ensures
            near == match (
                civil_months_before(today.parts(), RANGE_MONTHS as int),
                civil_months_after(today.parts(), RANGE_MONTHS as int),
            ) {
                (Some(earliest), Some(latest)) => Day::of_parts(earliest).key()
                    <= self.first().key() && self.last().key() <= Day::of_parts(latest).key(),
                _ => false,
            },
    {
        let earliest = match months_before(today, RANGE_MONTHS) {
            Some(earliest) => earliest,
            None => return false,
        };
        let latest = match months_after(today, RANGE_MONTHS) {
            Some(latest) => latest,
            None => return false,
        };
        proof {
            earliest.lemma_of_own_parts();
            latest.lemma_of_own_parts();
        }
        earliest.on_or_before(self.first_day) && self.last_day.on_or_before(latest)
    }

    pub fn first_day(self) -> (day: Day)
        ensures
            day == self.first(),
    {
        self.first_day
    }

    pub fn last_day(self) -> (day: Day)
        ensures
            day == self.last(),
    {
        self.last_day
    }

    /// The nights of the range, in calendar order.
    pub fn nights(self) -> (nights: Vec<Night>)
        ensures
            nights@ == self.night_list(),
    {
        proof {
            use_type_invariant(&self);
        }
        let ghost total = self.night_list();
        let last = self.last_day;
        let days = self.days;
        let mut found: Vec<Night> = Vec::new();
        let mut day = self.first_day;
        loop
            invariant_except_break
                day.key() <= last.key(),
                found@ + nights_between(day, last, days) == total,
            invariant
                last == self.last(),
                days == self.kind(),
                total == nights_between(self.first(), self.last(), self.kind()),
            ensures
                found@ == total,
            decreases last.key() - day.key(),
        {
            let ghost before = found@;
            let ghost here = match days.night_on(day) {
                Some(night) => seq![night],
                None => Seq::<Night>::empty(),
            };
            let night = match days {
                Days::ClanBattle => Night::new(day),
                Days::Every => Night::on(day),
            };
            match night {
                Some(night) => found.push(night),
                None => {},
            }
            assert(found@ == before + here);
            proof {
                use_type_invariant(&day);
                day.lemma_tomorrow_later();
            }
            match tomorrow_of(day) {
                Some(next) => {
                    proof {
                        next.lemma_of_own_parts();
                    }
                    if next.on_or_before(last) {
                        assert(nights_between(day, last, days) == here + nights_between(next, last, days));
                        assert(found@ + nights_between(next, last, days) == total) by {
                            assert(before + (here + nights_between(next, last, days)) == (before + here)
                                + nights_between(next, last, days));
                        }
                        day = next;
                    } else {
                        assert(nights_between(day, last, days) == here + Seq::<Night>::empty());
                        assert(found@ == total) by {
                            assert(before + (here + Seq::<Night>::empty()) == before + here);
                        }
                        break;
                    }
                },
                None => {
                    assert(nights_between(day, last, days) == here + Seq::<Night>::empty());
                    assert(found@ == total) by {
                        assert(before + (here + Seq::<Night>::empty()) == before + here);
                    }
                    break;
                },
            }
        }
        found
    }

    pub fn night_count(self) -> (count: usize)
        ensures
            count == self.night_list().len(),
    {
        self.nights().len()
    }

    /// How many of the range's nights start after `now_unix`.
    pub fn nights_left(self, now_unix: i64) -> (count: usize)
        ensures
            count == count_after(self.night_list(), now_unix as int, 0),
    {
        let nights = self.nights();
        let mut count: usize = 0;
        let mut index: usize = 0;
        while index < nights.len()
            invariant
                nights@ == self.night_list(),
                index <= nights.len(),
                count <= index,
                count + count_after(nights@, now_unix as int, index as int) == count_after(
                    nights@,
                    now_unix as int,
                    0,
                ),
            decreases nights.len() - index,
        {
            if nights[index].start_unix() > now_unix {
                count = count + 1;
            }
            index = index + 1;
        }
        count
    }

    /// Whether the night falls on one of the range's days.
    pub fn holds(self, night: Night) -> (held: bool)
        ensures
            held == self.holds_day(night.day()),
    {
        self.first_day.on_or_before(night.date()) && night.date().on_or_before(self.last_day)
    }

    /// The first of the range's nights that starts after `now_unix`.
    pub fn next_night(self, now_unix: i64) -> (night: Option<Night>)
        ensures
            night == first_after(self.night_list(), now_unix as int, 0),
    {
        let nights = self.nights();
        let mut index: usize = 0;
        while index < nights.len()
            invariant
                nights@ == self.night_list(),
                index <= nights.len(),
                first_after(nights@, now_unix as int, index as int) == first_after(
                    nights@,
                    now_unix as int,
                    0,
                ),
            decreases nights.len() - index,
        {
            if nights[index].start_unix() > now_unix {
                return Some(nights[index]);
            }
            index = index + 1;
        }
        None
    }

    /// The next night, if its sign-up post is due by `now_unix`.
    pub fn due_night(self, now_unix: i64) -> (night: Option<Night>)
        ensures
            night == match first_after(self.night_list(), now_unix as int, 0) {
                Some(next) => if next.post_at() <= now_unix {
                    Some(next)
                } else {
                    None
                },
                None => None,
            },
    {
        match self.next_night(now_unix) {
            Some(next) => if next.post_at_unix() <= now_unix {
                Some(next)
            } else {
                None
            },
            None => None,
        }
    }

    /// Whether the two ranges share a day.
    pub fn overlaps(self, other: Range) -> (shared: bool)
        ensures
            shared == (self.first().key() <= other.last().key() && other.first().key()
                <= self.last().key()),
    {
        self.first_day.on_or_before(other.last_day) && other.first_day.on_or_before(self.last_day)
    }

    /// When the post of the range's last night comes down.
    pub fn last_moment_unix(self) -> (moment: Option<i64>)
        ensures
            match moment {
                Some(moment) => self.night_list().len() > 0 && moment
                    == self.night_list().last().remove_at(),
                None => self.night_list().len() == 0,
            },
    {
        let nights = self.nights();
        if nights.len() == 0 {
            None
        } else {
            Some(nights[nights.len() - 1].remove_at_unix())
        }
    }
}

// ---------------------------------------------------------------------------
// Rehearsal seasons.

/// A rehearsal runs three nights unless told otherwise, and never more than seven.
pub const REHEARSAL_NIGHTS: u32 = 3;
pub const REHEARSAL_NIGHTS_MAX: u32 = 7;

/// The day `count` days after `day`, as far as the calendar goes.
pub open spec fn days_later(day: Day, count: nat) -> Option<Day>
    decreases count,
{
    if count == 0 {
        Some(day)
    } else {
        match days_later(day, (count - 1) as nat) {
            Some(earlier) => match civil_tomorrow(earlier.parts()) {
                Some(parts) => Some(Day::of_parts(parts)),
                None => None,
            },
            None => None,
        }
    }
}

/// The number of days a rehearsal asked for `nights` spans: between one and seven.
pub open spec fn rehearsal_length(nights: u32) -> nat {
    if nights < 1 {
        1
    } else if nights > REHEARSAL_NIGHTS_MAX {
        REHEARSAL_NIGHTS_MAX as nat
    } else {
        nights as nat
    }
}

/// A rehearsal's first and last day: it starts tomorrow, or the day after when tomorrow's
/// sign-up post would already be due at `now`, and spans `rehearsal_length(nights)` days.
pub open spec fn rehearsal_days(today: Day, nights: u32, now: int) -> Option<(Day, Day)> {
    match days_later(today, 1) {
        Some(tomorrow) => {
            let first = match Night::at(tomorrow) {
                Some(night) => if night.post_at() <= now {
                    days_later(today, 2)
                } else {
                    Some(tomorrow)
                },
                None => Some(tomorrow),
            };
            match first {
                Some(first) => match days_later(first, (rehearsal_length(nights) - 1) as nat) {
                    Some(last) => Some((first, last)),
                    None => None,
                },
                None => None,
            }
        },
        None => None,
    }
}

/// Once the calendar runs out, later days stay out of it.
proof fn lemma_days_later_stays_none(day: Day, count: nat, later: nat)
    requires
        days_later(day, count) is None,
        count <= later,
    ensures
        days_later(day, later) is None,
    decreases later - count,
{
    if count < later {
        lemma_days_later_stays_none(day, count, (later - 1) as nat);
    }
}

/// The next day, with its place in the calendar stated through `days_later`.
fn day_after(day: Day, Ghost(start): Ghost<Day>, Ghost(count): Ghost<nat>) -> (next: Option<Day>)
    requires
        days_later(start, count) == Some(day),
    ensures
        days_later(start, count + 1) == next,
        next matches Some(next) ==> day.key() < next.key(),
{
    let next = tomorrow_of(day);
    proof {
        use_type_invariant(&day);
        day.lemma_tomorrow_later();
        if let Some(found) = next {
            found.lemma_of_own_parts();
        }
    }
    next
}

/// The days of a rehearsal season that starts from `today`, asked to run `nights` days, with a
/// night on each of them; `None` where they would leave the calendar.
pub fn rehearsal_range(today: Day, nights: u32, now_unix: i64) -> (range: Option<Range>)
    ensures
        match rehearsal_days(today, nights, now_unix as int) {
            Some((first, last)) => range matches Some(range) && range.first() == first
                && range.last() == last && range.kind() == Days::Every,
            None => range is None,
        },
{
    let length: u32 = if nights < 1 {
        1
    } else if nights > REHEARSAL_NIGHTS_MAX {
        REHEARSAL_NIGHTS_MAX
    } else {
        nights
    };
    let tomorrow = match day_after(today, Ghost(today), Ghost(0)) {
        Some(day) => day,
        None => return None,
    };
    let posting_passed = match Night::on(tomorrow) {
        Some(night) => night.post_at_unix() <= now_unix,
        None => false,
    };
    let first = if posting_passed {
        match day_after(tomorrow, Ghost(today), Ghost(1)) {
            Some(day) => day,
            None => return None,
        }
    } else {
        tomorrow
    };
    assert(length == rehearsal_length(nights));
    let mut last = first;
    let mut added: u32 = 0;
    while added + 1 < length
        invariant
            1 <= length <= REHEARSAL_NIGHTS_MAX,
            rehearsal_days(today, nights, now_unix as int) == match days_later(
                first,
                (length - 1) as nat,
            ) {
                Some(last) => Some((first, last)),
                None => None,
            },
            added + 1 <= length,
            days_later(first, added as nat) == Some(last),
            first.key() <= last.key(),
        decreases length - added,
    {
        last = match day_after(last, Ghost(first), Ghost(added as nat)) {
            Some(day) => day,
            None => {
                proof {
                    lemma_days_later_stays_none(first, (added + 1) as nat, (length - 1) as nat);
                }
                return None;
            },
        };
        added = added + 1;
    }
    Range::every_day(first, last)
}

/// A night's hours follow one another without gaps, the post goes up a day before the night
/// starts, and it comes down half an hour after the last hour ends.
pub proof fn lemma_night_timeline(night: Night, hour: Hour)
    requires
        hour.in_night(),
    ensures
        night.hour_start(hour) + SECONDS_PER_HOUR <= night.end(),
        night.start() <= night.hour_start(hour),
        night.post_at() == night.start() - 86400,
        night.remove_at() == night.end() + 1800,
        night.post_at() < night.start() < night.end() < night.remove_at(),
{
    hour.lemma_number();
}

proof fn lemma_first_after_iff_count(nights: Seq<Night>, now: int, from: int)
    requires
        0 <= from,
    ensures
        first_after(nights, now, from) is Some <==> count_after(nights, now, from) > 0,
    decreases nights.len() - from,
{
    if from < nights.len() {
        lemma_first_after_iff_count(nights, now, from + 1);
    }
}

/// A range has a next night after `now` exactly when some of its nights are still ahead.
pub proof fn law_next_night_iff_nights_left(range: Range, now: int)
    ensures
        first_after(range.night_list(), now, 0) is Some <==> count_after(range.night_list(), now, 0)
            > 0,
{
    lemma_first_after_iff_count(range.night_list(), now, 0);
}

proof fn lemma_nights_between_bounds(from: Day, last: Day, days: Days)
    ensures
        forall|i: int|
            0 <= i < nights_between(from, last, days).len() ==> {
                let night = #[trigger] nights_between(from, last, days)[i];
                &&& from.key() <= night.day().key() <= last.key()
                &&& days.night_on(night.day()) == Some(night)
            },
        forall|i: int, j: int|
            0 <= i < j < nights_between(from, last, days).len() ==> (#[trigger] nights_between(
                from,
                last,
                days,
            )[i]).day().key() < (#[trigger] nights_between(from, last, days)[j]).day().key(),
    decreases last.key() - from.key(),
{
    if from.key() <= last.key() {
        let here = match days.night_on(from) {
            Some(night) => seq![night],
            None => Seq::<Night>::empty(),
        };
        match civil_tomorrow(from.parts()) {
            Some(parts) => {
                let next = Day::of_parts(parts);
                if from.key() < next.key() && next.key() <= last.key() {
                    lemma_nights_between_bounds(next, last, days);
                    let rest = nights_between(next, last, days);
                    assert(nights_between(from, last, days) == here + rest);
                } else {
                    assert(nights_between(from, last, days) == here + Seq::<Night>::empty());
                }
            },
            None => {
                assert(nights_between(from, last, days) == here + Seq::<Night>::empty());
            },
        }
    }
}

/// Every night of a range falls on one of its days and is the night that day holds under the
/// range's rule (a Clan Battle day's, or any day's for a rehearsal), and the nights come in
/// calendar order.
pub proof fn law_nights_in_range_and_order(range: Range)
    ensures
        forall|i: int|
            0 <= i < range.night_list().len() ==> {
                let night = #[trigger] range.night_list()[i];
                &&& range.holds_day(night.day())
                &&& range.kind().night_on(night.day()) == Some(night)
            },
        forall|i: int, j: int|
            0 <= i < j < range.night_list().len() ==> (#[trigger] range.night_list()[i]).day().key()
                < (#[trigger] range.night_list()[j]).day().key(),
{
    lemma_nights_between_bounds(range.first(), range.last(), range.kind());
}

/// Overlapping is symmetric.
pub proof fn law_overlaps_symmetric(a: Range, b: Range)
    ensures
        (a.first().key() <= b.last().key() && b.first().key() <= a.last().key()) == (b.first().key()
            <= a.last().key() && a.first().key() <= b.last().key()),
{
}

} // verus!
