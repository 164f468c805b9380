//! The query for the contribution calendar of a user: what is asked and
//! what comes back.

use vstd::prelude::*;

verus! {

/// What the query asks for.
#[derive(Debug)]
pub struct Variables {
    /// The login name of the user.
    pub login: String,
    /// The start of the window, as a timestamp.
    pub from: Option<String>,
    /// The end of the window, as a timestamp.
    pub to: Option<String>,
}

/// One day of the calendar as it is sent: the date is text.
#[derive(Debug)]
pub struct ContributionDay {
    /// Number of contributions on that date
    pub contribution_count: i64,
    /// The date, such as `2024-06-15`.
    pub date: String,
}

/// One week of the calendar, from Sunday on.
#[derive(Debug)]
pub struct Week {
    /// The days of the week in the order of their dates.
    pub contribution_days: Vec<ContributionDay>,
}

/// The calendar of contributions.
#[derive(Debug)]
pub struct ContributionCalendar {
    /// The weeks of the calendar in the order of their dates.
    pub weeks: Vec<Week>,
}

/// The contributions of a user in the window.
#[derive(Debug)]
pub struct ContributionsCollection {
    /// The calendar of contributions.
    pub contribution_calendar: ContributionCalendar,
}

/// The user that the query was about.
#[derive(Debug)]
pub struct User {
    /// The contributions of the user in the window.
    pub contributions_collection: ContributionsCollection,
}

/// What comes back.
#[derive(Debug)]
pub struct ResponseData {
    /// The user, if there is one of that login name.
    pub user: Option<User>,
}

/// The days of the first `n` weeks, one week after the other.
pub open spec fn days_of_first(weeks: Seq<Week>, n: int) -> Seq<ContributionDay>
    decreases n,
{
    if n <= 0 || n > weeks.len() {
        Seq::empty()
    } else {
        days_of_first(weeks, n - 1) + weeks[n - 1].contribution_days@
    }
}

/// The days of the weeks, one week after the other.
pub open spec fn days_of(weeks: Seq<Week>) -> Seq<ContributionDay> {
    days_of_first(weeks, weeks.len() as int)
}

impl ResponseData {
    /// The days of the calendar that came back, in order; none where no
    /// user came back.
    pub open spec fn days(self) -> Seq<ContributionDay> {
        match self.user {
            Some(user) => days_of(user.contributions_collection.contribution_calendar.weeks@),
            None => Seq::empty(),
        }
    }
}

} // verus!
