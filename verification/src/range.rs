//! The window of dates over which contributions are asked for.
//!
//! Unless both of its bounds are given, the window is a year of whole weeks:
//! fifty-three of them, from a Sunday to a Saturday.

use vstd::prelude::*;
use vstd::string::StringExecFns;
use crate::calendar::{
    date_checked_add, date_checked_sub, date_format, date_of_day, days_since_sunday, in_range,
    is_span, lemma_date_of_day, lemma_day_number_in_range, lemma_every_day_is_a_date,
    lemma_saturday_within_week, lemma_sunday_within_week, lemma_zoned_of_fields, strftime_text,
    strtime_parse_zoned, strtime_zoned, weekday_of, zoned_of_fields, zoned_strftime, Weekday,
    ZonedDate, MAX_SPAN_DAYS, MAX_SPAN_WEEKS,
};

verus! {

/// Why no window of dates could be worked out.
#[derive(Clone, Copy, Debug, PartialEq, Eq, Structural)]
pub enum DateError {
    /// A date or an offset could not be read.
    Parse,
    /// No day of the wanted weekday was found among seven days.
    Search,
    /// A year away from a date there is no date that can be represented.
    OutOfRange,
    /// A date could not be written.
    Format,
}

impl DateError {
    /// What the error says.
    pub open spec fn spec_message(self) -> Seq<char> {
        match self {
            DateError::Parse => "Invalid date or offset"@,
            DateError::Search => "No Sunday found"@,
            DateError::OutOfRange => "Date out of range"@,
            DateError::Format => "Date cannot be written"@,
        }
    }

    /// What the error says.
    pub fn message(&self) -> (r: &'static str)
        ensures
            r@ == self.spec_message(),
    {
        match self {
            DateError::Parse => "Invalid date or offset",
            DateError::Search => "No Sunday found",
            DateError::OutOfRange => "Date out of range",
            DateError::Format => "Date cannot be written",
        }
    }
}

/// The format of the start and the end of a window as they are sent, such
/// as `2024-06-15T00:00:00.000+0900`.
pub const TIMESTAMP_FORMAT: &'static str = "%Y-%m-%dT%H:%M:%S.000%z";

/// The format of a date as it is shown, such as `2024-06-15`.
pub const DAY_FORMAT: &'static str = "%Y-%m-%d";

/// The number of days in the fifty-two weeks that lie between the two
/// anchors of a window.
pub const YEAR_OF_WEEKS: i32 = 364;

/// The day number of the latest Sunday on or before day `day`.
pub open spec fn sunday_on_or_before(day: int) -> int {
    day - days_since_sunday(day)
}

/// The day number of the earliest Saturday on or after day `day`.
pub open spec fn saturday_on_or_after(day: int) -> int {
    day + (6 - days_since_sunday(day))
}

/// What a date and an offset, written one after the other, are read as: a
/// zoned date, or nothing where the text is not accepted.
pub open spec fn parsed_date(date: Seq<char>, offset: Seq<char>) -> Option<ZonedDate> {
    match strtime_zoned(date_format(), date + offset) {
        Some(fields) => Some(zoned_of_fields(fields)),
        None => None,
    }
}

/// The window that starts with the week of day `from`: from the Sunday on or
/// before it to the Saturday on or after the day fifty-two weeks later.
pub open spec fn window_from(from: int) -> Result<(int, int), DateError> {
    let start = sunday_on_or_before(from);
    if !in_range(start) {
        Err(DateError::Search)
    } else if !in_range(start + YEAR_OF_WEEKS) {
        Err(DateError::OutOfRange)
    } else if !in_range(saturday_on_or_after(start + YEAR_OF_WEEKS)) {
        Err(DateError::Search)
    } else {
        Ok((start, saturday_on_or_after(start + YEAR_OF_WEEKS)))
    }
}

/// The window that ends with the week of day `to`: from the Sunday on or
/// before the day fifty-two weeks earlier to the Saturday on or after `to`.
pub open spec fn window_to(to: int) -> Result<(int, int), DateError> {
    let end = saturday_on_or_after(to);
    if !in_range(end) {
        Err(DateError::Search)
    } else if !in_range(end - YEAR_OF_WEEKS) {
        Err(DateError::OutOfRange)
    } else if !in_range(sunday_on_or_before(end - YEAR_OF_WEEKS)) {
        Err(DateError::Search)
    } else {
        Ok((sunday_on_or_before(end - YEAR_OF_WEEKS), end))
    }
}

/// The window that ends with the week of day `today`: from the Sunday on or
/// before the day fifty-two weeks before `today` to the Saturday on or after
/// `today`.
pub open spec fn window_now(today: int) -> Result<(int, int), DateError> {
    if !in_range(today - YEAR_OF_WEEKS) {
        Err(DateError::OutOfRange)
    } else if !in_range(sunday_on_or_before(today - YEAR_OF_WEEKS)) {
        Err(DateError::Search)
    } else if !in_range(saturday_on_or_after(today)) {
        Err(DateError::Search)
    } else {
        Ok((sunday_on_or_before(today - YEAR_OF_WEEKS), saturday_on_or_after(today)))
    }
}

/// The two ends of a window of day numbers as zoned dates with the time of
/// day and the offset of `anchor`.
pub open spec fn at_clock_of(anchor: ZonedDate, days: Result<(int, int), DateError>) -> Result<
    (ZonedDate, ZonedDate),
    DateError,
> {
    match days {
        Ok((start, end)) => Ok((anchor.on(date_of_day(start)), anchor.on(date_of_day(end)))),
        Err(e) => Err(e),
    }
}

/// The window for the bounds that were given. Two bounds are taken as they
/// are. One bound, or none, gives a window of whole weeks around it, or
/// around `today`.
pub open spec fn window(today: ZonedDate, from: Option<ZonedDate>, to: Option<ZonedDate>) -> Result<
    (ZonedDate, ZonedDate),
    DateError,
> {
    match (from, to) {
        (Some(f), Some(t)) => Ok((f, t)),
        (Some(f), None) => at_clock_of(f, window_from(f.date@)),
        (None, Some(t)) => at_clock_of(t, window_to(t.date@)),
        (None, None) => at_clock_of(today, window_now(today.date@)),
    }
}

/// The window for bounds that are still text: each bound that is given is
/// read with the offset behind it, the lower one first.
pub open spec fn window_of_text(
    today: ZonedDate,
    from: Option<Seq<char>>,
    to: Option<Seq<char>>,
    offset: Seq<char>,
) -> Result<(ZonedDate, ZonedDate), DateError> {
    let from_date = match from {
        Some(text) => parsed_date(text, offset),
        None => None,
    };
    let to_date = match to {
        Some(text) => parsed_date(text, offset),
        None => None,
    };
    if (from is Some && from_date is None) || (to is Some && to_date is None) {
        Err(DateError::Parse)
    } else {
        window(today, from_date, to_date)
    }
}

impl ZonedDate {
    /// The zoned date written under `format`, or nothing where it cannot be
    /// written.
    pub open spec fn written(self, format: Seq<char>) -> Option<Seq<char>> {
        strftime_text(format, self.fields())
    }

    /// The zoned date written under `format`, with the directives of
    /// `strftime`. It is an error where the time of day or the offset is
    /// none, where the instant cannot be represented and where the format
    /// cannot be followed.
    pub fn strftime(&self, format: &str) -> (r: Result<String, DateError>)
        ensures
            match self.written(format@) {
                Some(text) => r matches Ok(s) && s@ == text,
                None => r matches Err(e) && e == DateError::Format,
            },
    {
        proof {
            use_type_invariant(&self.date);
        }
        match zoned_strftime(format, self) {
            Ok(text) => Ok(text),
            Err(_) => Err(DateError::Format),
        }
    }

    /// The zoned date as it is sent as the start or the end of a window:
    /// date, time of day with three zeros for the fraction of the second,
    /// and offset.
    pub fn timestamp(&self) -> (r: Result<String, DateError>)
        ensures
            match self.written(TIMESTAMP_FORMAT@) {
                Some(text) => r matches Ok(s) && s@ == text,
                None => r matches Err(e) && e == DateError::Format,
            },
    {
        self.strftime(TIMESTAMP_FORMAT)
    }

    /// The zoned date `weeks` weeks and then `days` days later, with the
    /// same time of day and offset. It is an error where the weeks or the
    /// days are more than a span of time holds, and where the date after the
    /// weeks or the date after the days cannot be represented.
    pub fn checked_add(&self, weeks: u32, days: u32) -> (r: Result<ZonedDate, DateError>)
        ensures
            r == (if is_span(weeks as int, days as int) && in_range(self.date@ + 7 * weeks)
                && in_range(self.date@ + 7 * weeks + days) {
                Ok(self.on(date_of_day(self.date@ + 7 * weeks + days)))
            } else {
                Err(DateError::OutOfRange)
            }),
            r matches Ok(later) ==> later.date@ == self.date@ + 7 * weeks + days,
    {
        if weeks > MAX_SPAN_WEEKS || days > MAX_SPAN_DAYS {
            return Err(DateError::OutOfRange);
        }
        proof {
            use_type_invariant(&self.date);
        }
        match date_checked_add(self.date, weeks, days) {
            Ok(date) => {
                proof {
                    lemma_date_of_day(date);
                    lemma_day_number_in_range(date);
                }
                Ok(
                    ZonedDate {
                        date,
                        hour: self.hour,
                        minute: self.minute,
                        second: self.second,
                        offset_seconds: self.offset_seconds,
                    },
                )
            },
            Err(_) => Err(DateError::OutOfRange),
        }
    }

    /// The zoned date `weeks` weeks and then `days` days earlier, with the
    /// same time of day and offset. It is an error where the weeks or the
    /// days are more than a span of time holds, and where the date before
    /// the weeks or the date before the days cannot be represented.
    pub fn checked_sub(&self, weeks: u32, days: u32) -> (r: Result<ZonedDate, DateError>)
        ensures
            r == (if is_span(weeks as int, days as int) && in_range(self.date@ - 7 * weeks)
                && in_range(self.date@ - 7 * weeks - days) {
                Ok(self.on(date_of_day(self.date@ - 7 * weeks - days)))
            } else {
                Err(DateError::OutOfRange)
            }),
            r matches Ok(earlier) ==> earlier.date@ == self.date@ - 7 * weeks - days,
    {
        if weeks > MAX_SPAN_WEEKS || days > MAX_SPAN_DAYS {
            return Err(DateError::OutOfRange);
        }
        proof {
            use_type_invariant(&self.date);
        }
        match date_checked_sub(self.date, weeks, days) {
            Ok(date) => {
                proof {
                    lemma_date_of_day(date);
                    lemma_day_number_in_range(date);
                }
                Ok(
                    ZonedDate {
                        date,
                        hour: self.hour,
                        minute: self.minute,
                        second: self.second,
                        offset_seconds: self.offset_seconds,
                    },
                )
            },
            Err(_) => Err(DateError::OutOfRange),
        }
    }
}

/// Reads a date and an offset from UTC, such as `2024-06-15` and `+0900`,
/// as the start of that day at that offset.
pub fn parse_date(date: &str, offset: &str) -> (r: Result<ZonedDate, DateError>)
    ensures
        r == match parsed_date(date@, offset@) {
            Some(z) => Ok::<ZonedDate, DateError>(z),
            None => Err(DateError::Parse),
        },
{
    let mut input = date.to_owned();
    input.append(offset);
    match strtime_parse_zoned("%Y-%m-%d%z", input.as_str()) {
        Ok(z) => {
            proof {
                lemma_zoned_of_fields(z);
            }
            Ok(z)
        },
        Err(_) => Err(DateError::Parse),
    }
}

/// The latest Sunday on or before `date`, looked for among `date` and the
/// six days before it. The search fails where that Sunday is no date that
/// can be represented.
pub fn find_first_sunday_before(date: &ZonedDate) -> (r: Result<ZonedDate, DateError>)
    ensures
        r == (if in_range(sunday_on_or_before(date.date@)) {
            Ok(date.on(date_of_day(sunday_on_or_before(date.date@))))
        } else {
            Err(DateError::Search)
        }),
        r matches Ok(sunday) ==> sunday.date@ == sunday_on_or_before(date.date@) && weekday_of(
            sunday.date@,
        ) == Weekday::Sunday && date.date@ - 7 < sunday.date@ <= date.date@,
{
    proof {
        use_type_invariant(&date.date);
        lemma_day_number_in_range(date.date);
    }
    let mut back: u32 = 0;
    while back < 7
        invariant
            0 <= back <= 7,
            in_range(date.date@),
            back <= days_since_sunday(date.date@) || !in_range(sunday_on_or_before(date.date@)),
        decreases 7 - back,
    {
        proof {
            lemma_sunday_within_week(date.date@, back as int);
        }
        match date.checked_sub(0, back) {
            Ok(day) => {
                if day.date.weekday() == Weekday::Sunday {
                    proof {
                        use_type_invariant(&day.date);
                        lemma_date_of_day(day.date);
                        lemma_day_number_in_range(day.date);
                    }
                    return Ok(day);
                }
            },
            Err(_) => {},
        }
        back += 1;
    }
    Err(DateError::Search)
}

/// The earliest Saturday on or after `date`, looked for among `date` and
/// the six days after it. The search fails where that Saturday is no date
/// that can be represented.
pub fn find_first_saturday_after(date: &ZonedDate) -> (r: Result<ZonedDate, DateError>)
    ensures
        r == (if in_range(saturday_on_or_after(date.date@)) {
            Ok(date.on(date_of_day(saturday_on_or_after(date.date@))))
        } else {
            Err(DateError::Search)
        }),
        r matches Ok(saturday) ==> saturday.date@ == saturday_on_or_after(date.date@)
            && weekday_of(saturday.date@) == Weekday::Saturday && date.date@ <= saturday.date@
            < date.date@ + 7,
{
    proof {
        use_type_invariant(&date.date);
        lemma_day_number_in_range(date.date);
    }
    let mut ahead: u32 = 0;
    while ahead < 7
        invariant
            0 <= ahead <= 7,
            in_range(date.date@),
            ahead <= 6 - days_since_sunday(date.date@) || !in_range(
                saturday_on_or_after(date.date@),
            ),
        decreases 7 - ahead,
    {
        proof {
            lemma_saturday_within_week(date.date@, ahead as int);
        }
        match date.checked_add(0, ahead) {
            Ok(day) => {
                if day.date.weekday() == Weekday::Saturday {
                    proof {
                        use_type_invariant(&day.date);
                        lemma_date_of_day(day.date);
                        lemma_day_number_in_range(day.date);
                    }
                    return Ok(day);
                }
            },
            Err(_) => {},
        }
        ahead += 1;
    }
    Err(DateError::Search)
}

/// Whether days `start` and `end` bound a year of whole weeks: a Sunday and
/// the Saturday 370 days after it, which are fifty-three weeks with both
/// ends counted.
pub open spec fn is_aligned(start: int, end: int) -> bool {
    &&& weekday_of(start) == Weekday::Sunday
    &&& weekday_of(end) == Weekday::Saturday
    &&& end - start == 370
}

/// A window that is worked out from a lower bound alone starts on a Sunday
/// and ends on a Saturday 370 days later, and the bound lies in its first
/// week.
pub proof fn lemma_window_from_is_aligned(from: int)
    requires
        window_from(from) is Ok,
    ensures
        ({
            let (start, end) = window_from(from)->Ok_0;
            is_aligned(start, end) && start <= from < start + 7
        }),
{
}

/// A window that is worked out from an upper bound alone starts on a Sunday
/// and ends on a Saturday 370 days later, and the bound lies in its last
/// week.
pub proof fn lemma_window_to_is_aligned(to: int)
    requires
        window_to(to) is Ok,
    ensures
        ({
            let (start, end) = window_to(to)->Ok_0;
            is_aligned(start, end) && end - 7 < to <= end
        }),
{
}

/// A window that is worked out from today alone starts on a Sunday and ends
/// on a Saturday 370 days later, and today lies in its last week.
pub proof fn lemma_window_now_is_aligned(today: int)
    requires
        window_now(today) is Ok,
    ensures
        ({
            let (start, end) = window_now(today)->Ok_0;
            is_aligned(start, end) && end - 7 < today <= end
        }),
{
}

/// Unless both bounds are given, a window that could be worked out starts
/// on a Sunday, ends on a Saturday and spans 370 days, so that the start
/// does not come after the end and the days of the window are whole weeks.
pub proof fn lemma_window_is_aligned(
    today: ZonedDate,
    from: Option<ZonedDate>,
    to: Option<ZonedDate>,
)
    requires
        from is None || to is None,
        window(today, from, to) is Ok,
    ensures
        ({
            let (start, end) = window(today, from, to)->Ok_0;
            &&& is_aligned(start.date@, end.date@)
            &&& 364 <= end.date@ - start.date@ <= 370
            &&& (end.date@ - start.date@ + 1) % 7 == 0
            &&& start.date.wf()
            &&& end.date.wf()
        }),
{
    let days = match (from, to) {
        (Some(f), None) => window_from(f.date@),
        (None, Some(t)) => window_to(t.date@),
        _ => window_now(today.date@),
    };
    let (start, end) = days->Ok_0;
    match (from, to) {
        (Some(f), None) => lemma_window_from_is_aligned(f.date@),
        (None, Some(t)) => lemma_window_to_is_aligned(t.date@),
        _ => lemma_window_now_is_aligned(today.date@),
    }
    lemma_every_day_is_a_date(start);
    lemma_every_day_is_a_date(end);
}

/// The window of dates for the bounds that were given, as [`window`] says:
/// both bounds as they are, or else a year of whole weeks around the one
/// bound or around `today`.
pub fn resolve_range(today: &ZonedDate, from: Option<ZonedDate>, to: Option<ZonedDate>) -> (r:
    Result<(ZonedDate, ZonedDate), DateError>)
    ensures
        r == window(*today, from, to),
        (from is None || to is None) ==> (r matches Ok((start, end)) ==> is_aligned(
            start.date@,
            end.date@,
        )),
{
    let r = match (from, to) {
        (Some(from), Some(to)) => Ok((from, to)),
        (Some(from), None) => {
            match find_first_sunday_before(&from) {
                Err(e) => Err(e),
                Ok(start) => match start.checked_add(52, 0) {
                    Err(e) => Err(e),
                    Ok(year_later) => match find_first_saturday_after(&year_later) {
                        Err(e) => Err(e),
                        Ok(end) => Ok((start, end)),
                    },
                },
            }
        },
        (None, Some(to)) => {
            match find_first_saturday_after(&to) {
                Err(e) => Err(e),
                Ok(end) => match end.checked_sub(52, 0) {
                    Err(e) => Err(e),
                    Ok(year_earlier) => match find_first_sunday_before(&year_earlier) {
                        Err(e) => Err(e),
                        Ok(start) => Ok((start, end)),
                    },
                },
            }
        },
        (None, None) => {
            match today.checked_sub(52, 0) {
                Err(e) => Err(e),
                Ok(year_earlier) => match find_first_sunday_before(&year_earlier) {
                    Err(e) => Err(e),
                    Ok(start) => match find_first_saturday_after(today) {
                        Err(e) => Err(e),
                        Ok(end) => Ok((start, end)),
                    },
                },
            }
        },
    };
    proof {
        if (from is None || to is None) && r is Ok {
            lemma_window_is_aligned(*today, from, to);
        }
    }
    r
}

/// The text of a bound that may be missing.
pub open spec fn text_of(bound: Option<String>) -> Option<Seq<char>> {
    match bound {
        Some(text) => Some(text@),
        None => None,
    }
}

/// The window of dates for bounds given as text, each a date such as
/// `2024-06-15`, read at the offset `offset`, such as `+0900`.
///
/// A bound that cannot be read is an error. Both bounds are taken as they
/// are; one bound, or none, gives a year of whole weeks around it or around
/// `today`, with the time of day and the offset of that anchor.
pub fn calc_start_and_end(
    today: &ZonedDate,
    from: &Option<String>,
    to: &Option<String>,
    offset: &str,
) -> (r: Result<(ZonedDate, ZonedDate), DateError>)
    ensures
        r == window_of_text(*today, text_of(*from), text_of(*to), offset@),
        (from is None || to is None) ==> (r matches Ok((start, end)) ==> is_aligned(
            start.date@,
            end.date@,
        )),
{
    let from_date = match from {
        Some(text) => match parse_date(text.as_str(), offset) {
            Ok(z) => Some(z),
            Err(e) => {
                return Err(e);
            },
        },
        None => None,
    };
    let to_date = match to {
        Some(text) => match parse_date(text.as_str(), offset) {
            Ok(z) => Some(z),
            Err(e) => {
                return Err(e);
            },
        },
        None => None,
    };
    resolve_range(today, from_date, to_date)
}

} // verus!
