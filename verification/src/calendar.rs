//! Civil dates of the proleptic Gregorian calendar.
//!
//! A [`Date`] is a valid year-month-day triple between -9999-01-01 and
//! 9999-12-31. Its mathematical model is its day number: the number of days
//! since 1970-01-01, negative before it.

use vstd::prelude::*;

verus! {

/// The day number of -9999-01-01, the first date that can be represented.
pub const MIN_DAY: i32 = -4371587;

/// The day number of 9999-12-31, the last date that can be represented.
pub const MAX_DAY: i32 = 2932896;

/// Whether `year` has a 29th of February.
pub open spec fn is_leap_year(year: int) -> bool {
    year % 4 == 0 && (year % 100 != 0 || year % 400 == 0)
}

/// The number of days of `month` in `year`.
pub open spec fn days_in_month(year: int, month: int) -> int {
    if month == 2 {
        if is_leap_year(year) {
            29
        } else {
            28
        }
    } else if month == 4 || month == 6 || month == 9 || month == 11 {
        30
    } else {
        31
    }
}

/// Whether year, month and day name a date that a [`Date`] can hold.
pub open spec fn is_valid_date(year: int, month: int, day: int) -> bool {
    &&& -9999 <= year <= 9999
    &&& 1 <= month <= 12
    &&& 1 <= day <= days_in_month(year, month)
}

/// The number of days from 0001-01-01 to the first of January of `year`.
pub open spec fn days_before_year(year: int) -> int {
    let y = year - 1;
    365 * y + y / 4 - y / 100 + y / 400
}

/// The number of days from the first of January of `year` to the first of
/// `month` in that year.
pub open spec fn days_before_month(year: int, month: int) -> int {
    let leap: int = if month > 2 && is_leap_year(year) {
        1
    } else {
        0
    };
    leap + if month <= 1 {
        0int
    } else if month == 2 {
        31
    } else if month == 3 {
        59
    } else if month == 4 {
        90
    } else if month == 5 {
        120
    } else if month == 6 {
        151
    } else if month == 7 {
        181
    } else if month == 8 {
        212
    } else if month == 9 {
        243
    } else if month == 10 {
        273
    } else if month == 11 {
        304
    } else {
        334
    }
}

/// The day number of a year-month-day triple: the number of days from
/// 1970-01-01 to it.
#[verifier::opaque]
pub open spec fn day_number(year: int, month: int, day: int) -> int {
    days_before_year(year) + days_before_month(year, month) + (day - 1) - 719162
}

/// Whether `day` is the day number of a date that can be represented.
pub open spec fn in_range(day: int) -> bool {
    MIN_DAY <= day <= MAX_DAY
}

/// Whether `year`, a year from -9999 to 9999, has a 29th of February.
fn leap_year(year: i16) -> (r: bool)
    requires
        -9999 <= year <= 9999,
    ensures
        r == is_leap_year(year as int),
{
    // Counted from the year -10000, so that no remainder is taken of a
    // negative number.
    let y: i16 = year + 10000;
    y % 4 == 0 && (y % 100 != 0 || y % 400 == 0)
}

/// The number of days from 0001-01-01 to the first of January of `year`, a
/// year from -9999 to 9999.
fn year_start(year: i16) -> (r: i32)
    requires
        -9999 <= year <= 9999,
    ensures
        r == days_before_year(year as int),
{
    // Counted from the year -10000, so that no negative number is divided;
    // 10000 years are 3652425 days.
    let y: i32 = year as i32 + 9999;
    365 * y + y / 4 - y / 100 + y / 400 - 3652425
}

/// The number of days from the first of January of `year` to the first of
/// `month` in that year.
fn month_start(year: i16, month: i8) -> (r: i32)
    requires
        -9999 <= year <= 9999,
        1 <= month <= 12,
    ensures
        r == days_before_month(year as int, month as int),
{
    let leap_day: i32 = if month > 2 && leap_year(year) {
        1
    } else {
        0
    };
    let days: i32 = if month == 1 {
        0
    } else if month == 2 {
        31
    } else if month == 3 {
        59
    } else if month == 4 {
        90
    } else if month == 5 {
        120
    } else if month == 6 {
        151
    } else if month == 7 {
        181
    } else if month == 8 {
        212
    } else if month == 9 {
        243
    } else if month == 10 {
        273
    } else if month == 11 {
        304
    } else {
        334
    };
    leap_day + days
}

/// A civil date.
#[derive(Clone, Copy, Debug, PartialEq, Eq, Structural)]
pub struct Date {
    year: i16,
    month: i8,
    day: i8,
}

impl View for Date {
    type V = int;

    /// The day number of the date.
    open spec fn view(&self) -> int {
        day_number(self.spec_year() as int, self.spec_month() as int, self.spec_day() as int)
    }
}

impl Date {
    /// The year of the date.
    pub closed spec fn spec_year(self) -> i16 {
        self.year
    }

    /// The month of the date, from 1.
    pub closed spec fn spec_month(self) -> i8 {
        self.month
    }

    /// The day of the month, from 1.
    pub closed spec fn spec_day(self) -> i8 {
        self.day
    }

    /// Whether the fields name a date of the calendar. Every `Date` that
    /// executable code holds is well formed.
    #[verifier::type_invariant]
    pub open spec fn wf(self) -> bool {
        is_valid_date(self.spec_year() as int, self.spec_month() as int, self.spec_day() as int)
    }

    /// The date with the given year, month and day, if there is one.
    pub fn new(year: i16, month: i8, day: i8) -> (r: Option<Date>)
        ensures
            r is Some <==> is_valid_date(year as int, month as int, day as int),
            r matches Some(d) ==> d.wf() && d.spec_year() == year && d.spec_month() == month
                && d.spec_day() == day,
    {
        if year < -9999 || year > 9999 || month < 1 || month > 12 || day < 1 {
            return None;
        }
        let last: i8 = if month == 2 {
            if leap_year(year) {
                29
            } else {
                28
            }
        } else if month == 4 || month == 6 || month == 9 || month == 11 {
            30
        } else {
            31
        };
        if day > last {
            None
        } else {
            Some(Date { year, month, day })
        }
    }

    /// The first date that can be represented, -9999-01-01.
    pub closed spec fn spec_min() -> Date {
        Date { year: (-9999) as i16, month: 1, day: 1 }
    }

    /// The first date that can be represented, -9999-01-01.
    #[verifier::when_used_as_spec(spec_min)]
    pub fn min() -> (r: Date)
        ensures
            r == Date::spec_min(),
            r.wf(),
            r.spec_year() == -9999,
            r.spec_month() == 1,
            r.spec_day() == 1,
            r@ == MIN_DAY,
    {
        proof {
            reveal(day_number);
        }
        Date { year: -9999, month: 1, day: 1 }
    }

    /// The day number of the date: the number of days from 1970-01-01 to it.
    pub fn epoch_day(self) -> (r: i32)
        ensures
            r == self@,
            in_range(r as int),
    {
        proof {
            use_type_invariant(&self);
            lemma_day_number_in_range(self);
            reveal(day_number);
        }
        let before_year: i32 = year_start(self.year);
        let before_month: i32 = month_start(self.year, self.month);
        before_year + before_month + (self.day as i32 - 1) - 719162
    }

    /// Whether this date comes after `other`.
    pub fn is_after(self, other: Date) -> (r: bool)
        ensures
            r == (self@ > other@),
    {
        let later_month = self.month > other.month || (self.month == other.month && self.day
            > other.day);
        let r = self.year > other.year || (self.year == other.year && later_month);
        proof {
            use_type_invariant(&self);
            use_type_invariant(&other);
            if r {
                lemma_day_number_ascends(other, self);
            } else if self != other {
                lemma_day_number_ascends(self, other);
            }
        }
        r
    }

    /// The day of the week of the date.
    pub fn weekday(self) -> (r: Weekday)
        ensures
            r == weekday_of(self@),
    {
        proof {
            use_type_invariant(&self);
        }
        date_weekday(self)
    }

    /// The number of days from `earlier` to this date, negative when this
    /// date comes first.
    pub fn days_since(self, earlier: Date) -> (r: i32)
        ensures
            r == self@ - earlier@,
    {
        proof {
            use_type_invariant(&self);
            use_type_invariant(&earlier);
        }
        date_days_since(self, earlier)
    }

    /// The year of the date.
    #[verifier::when_used_as_spec(spec_year)]
    pub fn year(self) -> (r: i16)
        ensures
            r == self.spec_year(),
    {
        self.year
    }

    /// The month of the date, from 1.
    #[verifier::when_used_as_spec(spec_month)]
    pub fn month(self) -> (r: i8)
        ensures
            r == self.spec_month(),
    {
        self.month
    }

    /// The day of the month, from 1.
    #[verifier::when_used_as_spec(spec_day)]
    pub fn day(self) -> (r: i8)
        ensures
            r == self.spec_day(),
    {
        self.day
    }
}

/// The date with day number `day`. It is meant for the day numbers of dates
/// that can be represented.
pub open spec fn date_of_day(day: int) -> Date {
    choose|date: Date| date.wf() && date@ == day
}

/// A day of the week.
#[derive(Clone, Copy, Debug, PartialEq, Eq, Structural)]
pub enum Weekday {
    Monday,
    Tuesday,
    Wednesday,
    Thursday,
    Friday,
    Saturday,
    Sunday,
}

/// The number of days from the latest Sunday on or before day `day` to
/// `day` itself: 0 on a Sunday, 6 on a Saturday. Day 0 is a Thursday.
pub open spec fn days_since_sunday(day: int) -> int {
    (day + 4) % 7
}

/// The day of the week of the date with day number `day`.
pub open spec fn weekday_of(day: int) -> Weekday {
    let k = days_since_sunday(day);
    if k == 0 {
        Weekday::Sunday
    } else if k == 1 {
        Weekday::Monday
    } else if k == 2 {
        Weekday::Tuesday
    } else if k == 3 {
        Weekday::Wednesday
    } else if k == 4 {
        Weekday::Thursday
    } else if k == 5 {
        Weekday::Friday
    } else {
        Weekday::Saturday
    }
}

/// A civil date with a time of day and an offset from UTC, as an instant that
/// is shown on a clock in some place.
#[derive(Clone, Copy, Debug, PartialEq, Eq, Structural)]
pub struct ZonedDate {
    /// The civil date.
    pub date: Date,
    /// The hour of the day, from 0.
    pub hour: i8,
    /// The minute of the hour, from 0.
    pub minute: i8,
    /// The second of the minute, from 0.
    pub second: i8,
    /// The offset from UTC in seconds, positive to the east.
    pub offset_seconds: i32,
}

impl ZonedDate {
    /// The same time of day and offset on another date.
    pub open spec fn on(self, date: Date) -> ZonedDate {
        ZonedDate { date, ..self }
    }

    /// The seven numbers that make up the value: year, month, day, hour,
    /// minute, second and offset.
    pub open spec fn fields(self) -> (int, int, int, int, int, int, int) {
        (
            self.date.spec_year() as int,
            self.date.spec_month() as int,
            self.date.spec_day() as int,
            self.hour as int,
            self.minute as int,
            self.second as int,
            self.offset_seconds as int,
        )
    }
}

/// The zoned date with the given year, month, day, hour, minute, second and
/// offset. It is meant for numbers that make up a zoned date.
pub open spec fn zoned_of_fields(fields: (int, int, int, int, int, int, int)) -> ZonedDate {
    choose|z: ZonedDate| z.date.wf() && z.fields() == fields
}

/// The format of a date followed by an offset from UTC, such as
/// `2024-06-15+0900`.
pub open spec fn date_format() -> Seq<char> {
    "%Y-%m-%d%z"@
}

/// The largest number of weeks that a span of time holds.
pub const MAX_SPAN_WEEKS: u32 = 1_043_497;

/// The largest number of days that a span of time holds.
pub const MAX_SPAN_DAYS: u32 = 7_304_484;

/// Whether a span of `weeks` weeks and `days` days can be formed.
pub open spec fn is_span(weeks: int, days: int) -> bool {
    &&& 0 <= weeks <= MAX_SPAN_WEEKS
    &&& 0 <= days <= MAX_SPAN_DAYS
}

/// The first date is the first of January of the year -9999.
pub proof fn lemma_first_date()
    ensures
        Date::spec_min().wf(),
        Date::spec_min().spec_year() == -9999,
        Date::spec_min().spec_month() == 1,
        Date::spec_min().spec_day() == 1,
        Date::spec_min()@ == MIN_DAY,
{
    reveal(day_number);
}

/// From one year to the next the count of days grows by the length of the
/// year.
pub proof fn lemma_year_length(year: int)
    ensures
        days_before_year(year + 1) - days_before_year(year) == if is_leap_year(year) {
            366int
        } else {
            365int
        },
{
}

/// A later year starts on a later day.
pub proof fn lemma_years_ascend(earlier: int, later: int)
    requires
        earlier < later,
    ensures
        days_before_year(earlier + 1) <= days_before_year(later),
{
}

/// The day number of a date lies between those of the first and the last
/// date that can be represented.
pub proof fn lemma_day_number_in_range(date: Date)
    requires
        date.wf(),
    ensures
        in_range(date@),
{
    reveal(day_number);
    let year = date.spec_year() as int;
    lemma_year_length(year);
    if year > -9999 {
        lemma_years_ascend(-9999, year);
    }
    if year < 9999 {
        lemma_years_ascend(year, 9999);
    }
}

/// Dates are ordered as their day numbers are: of two dates the one with
/// the earlier year, or in one year the earlier month, or in one month the
/// earlier day, has the smaller day number.
pub proof fn lemma_day_number_ascends(a: Date, b: Date)
    requires
        a.wf(),
        b.wf(),
        a.spec_year() < b.spec_year() || (a.spec_year() == b.spec_year() && (a.spec_month()
            < b.spec_month() || (a.spec_month() == b.spec_month() && a.spec_day()
            < b.spec_day()))),
    ensures
        a@ < b@,
{
    reveal(day_number);
    lemma_year_length(a.spec_year() as int);
    if a.spec_year() < b.spec_year() {
        lemma_years_ascend(a.spec_year() as int, b.spec_year() as int);
    }
}

/// Two dates with one day number are one date.
pub proof fn lemma_day_number_injective(a: Date, b: Date)
    requires
        a.wf(),
        b.wf(),
        a@ == b@,
    ensures
        a == b,
{
    if a.spec_year() < b.spec_year() || (a.spec_year() == b.spec_year() && (a.spec_month()
        < b.spec_month() || (a.spec_month() == b.spec_month() && a.spec_day() < b.spec_day()))) {
        lemma_day_number_ascends(a, b);
    } else if b.spec_year() < a.spec_year() || (b.spec_year() == a.spec_year() && (b.spec_month()
        < a.spec_month() || (b.spec_month() == a.spec_month() && b.spec_day() < a.spec_day()))) {
        lemma_day_number_ascends(b, a);
    }
}

/// The day after a date that is not the last one is a date too.
proof fn lemma_next_day(date: Date) -> (next: Date)
    requires
        date.wf(),
        date@ < MAX_DAY,
    ensures
        next.wf(),
        next@ == date@ + 1,
{
    reveal(day_number);
    let year = date.year as int;
    let month = date.month as int;
    let day = date.day as int;
    lemma_year_length(year);
    if day < days_in_month(year, month) {
        Date { year: date.year, month: date.month, day: (day + 1) as i8 }
    } else if month < 12 {
        Date { year: date.year, month: (month + 1) as i8, day: 1 }
    } else {
        if year == 9999 {
            assert(date@ == MAX_DAY);
        }
        Date { year: (year + 1) as i16, month: 1, day: 1 }
    }
}

/// Every day number from that of the first date to that of the last is the
/// day number of a date.
pub proof fn lemma_every_day_is_a_date(day: int)
    requires
        in_range(day),
    ensures
        date_of_day(day).wf(),
        date_of_day(day)@ == day,
    decreases day - MIN_DAY,
{
    if day == MIN_DAY {
        reveal(day_number);
        let first = Date { year: (-9999) as i16, month: 1, day: 1 };
        assert(first.wf() && first@ == day);
    } else {
        lemma_every_day_is_a_date(day - 1);
        let next = lemma_next_day(date_of_day(day - 1));
        assert(next.wf() && next@ == day);
    }
}

/// A date is the date of its own day number.
pub proof fn lemma_date_of_day(date: Date)
    requires
        date.wf(),
    ensures
        date_of_day(date@) == date,
{
    let other = date_of_day(date@);
    assert(other.wf() && other@ == date@);
    lemma_day_number_injective(other, date);
}

/// Among seven days in a row that end with day `day`, the one that lies
/// `back` days before `day` is a Sunday just when `back` is the number of
/// days since the latest Sunday.
pub proof fn lemma_sunday_within_week(day: int, back: int)
    requires
        0 <= back < 7,
    ensures
        0 <= days_since_sunday(day) < 7,
        days_since_sunday(day - back) == 0 <==> back == days_since_sunday(day),
{
}

/// Among seven days in a row that start with day `day`, the one that lies
/// `ahead` days after `day` is a Saturday just when `ahead` is the number of
/// days until the earliest Saturday.
pub proof fn lemma_saturday_within_week(day: int, ahead: int)
    requires
        0 <= ahead < 7,
    ensures
        0 <= days_since_sunday(day) < 7,
        days_since_sunday(day + ahead) == 6 <==> ahead == 6 - days_since_sunday(day),
{
}

/// A zoned date is the zoned date of its own seven numbers.
pub proof fn lemma_zoned_of_fields(z: ZonedDate)
    requires
        z.date.wf(),
    ensures
        zoned_of_fields(z.fields()) == z,
{
    let other = zoned_of_fields(z.fields());
    assert(other.date.wf() && other.fields() == z.fields());
    assert(other.date == z.date);
}

/// `jiff::Error`, the error of every call into jiff that fails. Nothing is
/// known of what it holds.
#[verifier::external_type_specification]
#[verifier::external_body]
pub struct ExJiffError(jiff::Error);

/// `jiff::civil::Date::checked_add` with a span of `weeks` weeks and `days`
/// days, neither of them negative. The weeks are added first and the days
/// second, on day numbers: the call fails when either sum leaves the range
/// of dates, and otherwise gives the date that many days later.
#[verifier::external_body]
pub(crate) fn date_checked_add(date: Date, weeks: u32, days: u32) -> (r: Result<Date, jiff::Error>)
    requires
        date.wf(),
        is_span(weeks as int, days as int),
    ensures
        match r {
            Ok(sum) => sum.wf() && sum@ == date@ + 7 * weeks + days && in_range(
                date@ + 7 * weeks,
            ),
            Err(_) => !in_range(date@ + 7 * weeks) || !in_range(date@ + 7 * weeks + days),
        },
{
    let span = jiff::Span::new().weeks(weeks).days(days);
    let sum = jiff::civil::date(date.year, date.month, date.day).checked_add(span)?;
    Ok(Date { year: sum.year(), month: sum.month(), day: sum.day() })
}

/// `jiff::civil::Date::checked_sub` with a span of `weeks` weeks and `days`
/// days, neither of them negative. The weeks are taken off first and the
/// days second, on day numbers: the call fails when either difference leaves
/// the range of dates, and otherwise gives the date that many days earlier.
#[verifier::external_body]
pub(crate) fn date_checked_sub(date: Date, weeks: u32, days: u32) -> (r: Result<Date, jiff::Error>)
    requires
        date.wf(),
        is_span(weeks as int, days as int),
    ensures
        match r {
            Ok(diff) => diff.wf() && diff@ == date@ - 7 * weeks - days && in_range(
                date@ - 7 * weeks,
            ),
            Err(_) => !in_range(date@ - 7 * weeks) || !in_range(date@ - 7 * weeks - days),
        },
{
    let span = jiff::Span::new().weeks(weeks).days(days);
    let diff = jiff::civil::date(date.year, date.month, date.day).checked_sub(span)?;
    Ok(Date { year: diff.year(), month: diff.month(), day: diff.day() })
}

/// `jiff::civil::Date::weekday`: the day of the week of `date`, which goes by
/// its day number, day 0 being a Thursday.
#[verifier::external_body]
pub(crate) fn date_weekday(date: Date) -> (r: Weekday)
    requires
        date.wf(),
    ensures
        r == weekday_of(date@),
{
    match jiff::civil::date(date.year, date.month, date.day).weekday() {
        jiff::civil::Weekday::Monday => Weekday::Monday,
        jiff::civil::Weekday::Tuesday => Weekday::Tuesday,
        jiff::civil::Weekday::Wednesday => Weekday::Wednesday,
        jiff::civil::Weekday::Thursday => Weekday::Thursday,
        jiff::civil::Weekday::Friday => Weekday::Friday,
        jiff::civil::Weekday::Saturday => Weekday::Saturday,
        jiff::civil::Weekday::Sunday => Weekday::Sunday,
    }
}

/// The subtraction of one `jiff::civil::Date` from another, read in days
/// with `jiff::Span::get_days`: the number of days from `earlier` to `later`,
/// negative when `later` comes first.
#[verifier::external_body]
pub(crate) fn date_days_since(later: Date, earlier: Date) -> (r: i32)
    requires
        later.wf(),
        earlier.wf(),
    ensures
        r == later@ - earlier@,
{
    let a = jiff::civil::date(later.year, later.month, later.day);
    let b = jiff::civil::date(earlier.year, earlier.month, earlier.day);
    (a - b).get_days()
}

/// What `jiff::fmt::strtime::parse` followed by
/// `jiff::fmt::strtime::BrokenDownTime::to_zoned` makes of `input` under
/// `format`: the year, month, day, hour, minute, second and offset of the
/// zoned date-time, or `None` where either of the two fails.
pub uninterp spec fn strtime_zoned(format: Seq<char>, input: Seq<char>) -> Option<
    (int, int, int, int, int, int, int),
>;

/// `jiff::fmt::strtime::parse` and, on what it gives,
/// `jiff::fmt::strtime::BrokenDownTime::to_zoned`, for the format of a date
/// with an offset. That format has no name of a time zone in it, so the
/// outcome depends on the text alone. Nothing is claimed of which texts are
/// accepted; a date that comes out is a date of the calendar.
#[verifier::external_body]
pub(crate) fn strtime_parse_zoned(format: &str, input: &str) -> (r: Result<ZonedDate, jiff::Error>)
    requires
        format@ == date_format(),
    ensures
        match r {
            Ok(z) => z.date.wf() && strtime_zoned(format@, input@) == Some(z.fields()),
            Err(_) => strtime_zoned(format@, input@) is None,
        },
{
    let z = jiff::fmt::strtime::parse(format, input)?.to_zoned()?;
    let date = Date { year: z.year(), month: z.month(), day: z.day() };
    Ok(
        ZonedDate {
            date,
            hour: z.hour(),
            minute: z.minute(),
            second: z.second(),
            offset_seconds: z.offset().seconds(),
        },
    )
}

/// What `jiff::fmt::strtime::format` writes under `format` for the zoned
/// date-time with the given year, month, day, hour, minute, second and
/// offset, or `None` where there is no such date-time or the format cannot
/// be followed.
pub uninterp spec fn strftime_text(
    format: Seq<char>,
    fields: (int, int, int, int, int, int, int),
) -> Option<Seq<char>>;

/// `jiff::fmt::strtime::format` for the date-time that `z` stands for, at
/// its fixed offset. The call fails where the time of day or the offset is
/// none, where the instant cannot be represented and where the format
/// cannot be followed. Nothing is claimed of the text that is written.
#[verifier::external_body]
pub(crate) fn zoned_strftime(format: &str, z: &ZonedDate) -> (r: Result<String, jiff::Error>)
    requires
        z.date.wf(),
    ensures
        match r {
            Ok(text) => strftime_text(format@, z.fields()) == Some(text@),
            Err(_) => strftime_text(format@, z.fields()) is None,
        },
{
    let offset = jiff::tz::Offset::from_seconds(z.offset_seconds)?;
    let time = jiff::civil::Time::new(z.hour, z.minute, z.second, 0)?;
    let moment = jiff::civil::date(z.date.year, z.date.month, z.date.day).to_datetime(time);
    let zoned = offset.to_timestamp(moment)?.to_zoned(jiff::tz::TimeZone::fixed(offset));
    jiff::fmt::strtime::format(format, &zoned)
}

} // verus!
