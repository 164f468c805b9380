//! The client of the contribution calendar and the statistics it works out.

use vstd::prelude::*;
use vstd::string::StringExecFns;
use crate::calendar::{Date, ZonedDate};
use crate::range::{parse_date, parsed_date, DateError};
use crate::types::streak_query::{days_of_first, ContributionDay};
use crate::types::{streak_query, user_query, viewer_query, FetchError, User};
use crate::streak::{
    is_current_streak_of, is_longest_streak_of, is_stats_of, last_active,
    lemma_streaks_are_streaks, lemma_total_ascends, longest_end, run_length, streak_ending_at,
    total_contributions, total_of_first,
};
use crate::types::{Contribution, Stats, Streak};

verus! {

/// The address of the GitHub GraphQL API.
pub const ENDPOINT: &'static str = "https://api.github.com/graphql";

/// What the client calls itself where nothing else is said.
pub const USER_AGENT: &'static str = "github-streaks-stats-lib/0.0.0";

/// The offset at which the dates of the calendar are read.
pub open spec fn utc() -> Seq<char> {
    "+0000"@
}

/// Whether the date of every day can be read.
pub open spec fn all_dated(raw: Seq<ContributionDay>) -> bool {
    forall|i: int| 0 <= i < raw.len() ==> parsed_date((#[trigger] raw[i]).date@, utc()) is Some
}

/// The contributions of a day as it was sent, with its date read.
pub open spec fn contribution_of(day: ContributionDay) -> Contribution {
    Contribution {
        date: parsed_date(day.date@, utc())->Some_0.date,
        contribution_count: day.contribution_count,
    }
}

/// The contributions of the days as they were sent, in the same order.
pub open spec fn contributions_of(raw: Seq<ContributionDay>) -> Seq<Contribution> {
    raw.map_values(|day: ContributionDay| contribution_of(day))
}

/// The days of the calendar that came back, week after week in order.
///
/// It is an error where nothing came back and where no user came back.
pub fn contribution_days(data: Option<streak_query::ResponseData>) -> (r: Result<
    Vec<ContributionDay>,
    FetchError,
>)
    ensures
        match data {
            None => r matches Err(e) && e == FetchError::NoData,
            Some(d) => if d.user is None {
                r matches Err(e) && e == FetchError::NoUser
            } else {
                r matches Ok(days) && days@ == d.days()
            },
        },
{
    let response = match data {
        Some(response) => response,
        None => {
            return Err(FetchError::NoData);
        },
    };
    let user = match response.user {
        Some(user) => user,
        None => {
            return Err(FetchError::NoUser);
        },
    };
    let weeks = &user.contributions_collection.contribution_calendar.weeks;
    let mut days: Vec<ContributionDay> = Vec::new();
    let mut w: usize = 0;
    while w < weeks.len()
        invariant
            0 <= w <= weeks.len(),
            days@ == days_of_first(weeks@, w as int),
        decreases weeks.len() - w,
    {
        let week = &weeks[w];
        let ghost before = days@;
        let mut d: usize = 0;
        while d < week.contribution_days.len()
            invariant
                0 <= d <= week.contribution_days.len(),
                days@ == before + week.contribution_days@.take(d as int),
            decreases week.contribution_days.len() - d,
        {
            let day = &week.contribution_days[d];
            days.push(
                ContributionDay {
                    contribution_count: day.contribution_count,
                    date: day.date.clone(),
                },
            );
            proof {
                assert(week.contribution_days@.take(d + 1) == week.contribution_days@.take(
                    d as int,
                ).push(*day));
            }
            d += 1;
        }
        proof {
            assert(week.contribution_days@.take(d as int) == week.contribution_days@);
        }
        w += 1;
    }
    Ok(days)
}

/// The contributions of a day as it was sent, with the date that its text
/// was read as. It is an error where the text could not be read.
pub fn contribution_on(day: &ContributionDay, date: Result<ZonedDate, DateError>) -> (r: Result<
    Contribution,
    FetchError,
>)
    ensures
        match date {
            Ok(z) => r == Ok::<Contribution, FetchError>(
                Contribution { date: z.date, contribution_count: day.contribution_count },
            ),
            Err(_) => r == Err::<Contribution, FetchError>(FetchError::MalformedDate),
        },
{
    match date {
        Ok(z) => Ok(Contribution { date: z.date, contribution_count: day.contribution_count }),
        Err(_) => Err(FetchError::MalformedDate),
    }
}

/// Simple GitHub client
#[derive(Debug)]
pub struct GitHubClient {
    /// The address that queries are sent to.
    pub endpoint: String,
    /// What the client calls itself in each query.
    pub user_agent: String,
    /// The token that each query is authorized with.
    pub token: String,
}

impl GitHubClient {
    /// Create a new instance
    ///
    /// # Arguments
    ///
    /// - `endpoint` - GitHub GraphQL API endpoint
    /// - `user_agent` - User agent string
    /// - `token` - GitHub API token
    pub fn new(endpoint: &str, user_agent: &str, token: &str) -> (r: Self)
        ensures
            r.endpoint@ == endpoint@,
            r.user_agent@ == user_agent@,
            r.token@ == token@,
    {
        Self {
            endpoint: endpoint.to_owned(),
            user_agent: user_agent.to_owned(),
            token: token.to_owned(),
        }
    }

    /// A client of the GitHub GraphQL API under the usual name, with the
    /// given token.
    pub fn with_token(token: &str) -> (r: Self)
        ensures
            r.endpoint@ == ENDPOINT@,
            r.user_agent@ == USER_AGENT@,
            r.token@ == token@,
    {
        Self::new(ENDPOINT, USER_AGENT, token)
    }

    /// The value of the header that authorizes each query: the word
    /// `Bearer`, a space and the token.
    pub fn authorization(&self) -> (r: String)
        ensures
            r@ == "Bearer "@ + self.token@,
    {
        let mut value = "Bearer ".to_owned();
        value.append(self.token.as_str());
        value
    }

    /// Get contributions for a given user from what came back for the
    /// calendar: the days of all weeks in order, each with its date read.
    ///
    /// It is an error where nothing came back, where no user came back, and
    /// where the date of a day cannot be read.
    pub fn get_contributions(&self, data: Option<streak_query::ResponseData>) -> (r: Result<
        Vec<Contribution>,
        FetchError,
    >)
        ensures
            match data {
                None => r matches Err(e) && e == FetchError::NoData,
                Some(d) => if d.user is None {
                    r matches Err(e) && e == FetchError::NoUser
                } else if all_dated(d.days()) {
                    r matches Ok(days) && days@ == contributions_of(d.days())
                } else {
                    r matches Err(e) && e == FetchError::MalformedDate
                },
            },
    {
        let raw = match contribution_days(data) {
            Ok(raw) => raw,
            Err(e) => {
                return Err(e);
            },
        };
        let mut days: Vec<Contribution> = Vec::new();
        let mut i: usize = 0;
        while i < raw.len()
            invariant
                data matches Some(d) && d.user is Some && d.days() == raw@,
                0 <= i <= raw.len(),
                all_dated(raw@.take(i as int)),
                days@ == contributions_of(raw@.take(i as int)),
            decreases raw.len() - i,
        {
            let day = &raw[i];
            proof {
                assert(raw@.take(i + 1) == raw@.take(i as int).push(*day));
            }
            match contribution_on(day, parse_date(day.date.as_str(), "+0000")) {
                Ok(contribution) => {
                    days.push(contribution);
                    proof {
                        assert(days@ == contributions_of(raw@.take(i + 1)));
                    }
                },
                Err(e) => {
                    proof {
                        assert(raw@[i as int] == *day);
                    }
                    return Err(e);
                },
            }
            i += 1;
        }
        proof {
            assert(raw@.take(i as int) == raw@);
        }
        Ok(days)
    }

    /// The user that came back for a login name.
    ///
    /// It is an error where nothing came back and where no user came back.
    pub fn get_user(&self, data: Option<user_query::ResponseData>) -> (r: Result<User, FetchError>)
        ensures
            match data {
                None => r matches Err(e) && e == FetchError::NoLogin,
                Some(d) => match d.user {
                    None => r matches Err(e) && e == FetchError::NoSuchUser,
                    Some(u) => r matches Ok(user) && user.name@ == u.login@
                        && user.public_repositories == u.repositories.total_count,
                },
            },
    {
        let data = match data {
            Some(data) => data,
            None => {
                return Err(FetchError::NoLogin);
            },
        };
        let response = match data.user {
            Some(user) => user,
            None => {
                return Err(FetchError::NoSuchUser);
            },
        };
        let login = response.login;
        let public_repositories: i64 = response.repositories.total_count;
        Ok(User { name: login, public_repositories })
    }

    /// Get login name of the GitHub API token owner from what came back for
    /// the owner of the token.
    ///
    /// It is an error where nothing came back.
    pub fn get_viewer(&self, data: Option<viewer_query::ResponseData>) -> (r: Result<
        User,
        FetchError,
    >)
        ensures
            match data {
                None => r matches Err(e) && e == FetchError::NoLogin,
                Some(d) => r matches Ok(user) && user.name@ == d.viewer.login@
                    && user.public_repositories == d.viewer.repositories.total_count,
            },
    {
        let response = match data {
            Some(data) => data,
            None => {
                return Err(FetchError::NoLogin);
            },
        };
        let login = response.viewer.login;
        let public_repositories: i64 = response.viewer.repositories.total_count;
        Ok(User { name: login, public_repositories })
    }

    /// Calculate streak stats from the contributions of each day, given in
    /// the order of their dates.
    ///
    /// The total is that of the days with a positive count. The longest
    /// streak is the run of such days that is longest, the latest of them
    /// where several are that long. The current streak is the last run, also
    /// where days without contributions follow it. Where no day has a
    /// positive count, both streaks are the range from the first date to the
    /// first date.
    pub fn calc_streak_from_contributions(&self, contributions: &[Contribution]) -> (stats: Stats)
        requires
            total_contributions(contributions@) <= i64::MAX,
        ensures
            is_stats_of(contributions@, stats),
            is_longest_streak_of(contributions@, stats.longest_streak),
            is_current_streak_of(contributions@, stats.current_streak),
    {
        let ghost days = contributions@;
        let mut longest_streak: usize = 0;
        let mut current_streak: usize = 0;
        let mut longest_streak_start = Date::min();
        let mut longest_streak_end = Date::min();
        let mut current_streak_start = Date::min();
        let mut current_streak_end = Date::min();
        let mut total_contributions: i64 = 0;

        let mut i: usize = 0;
        while i < contributions.len()
            invariant
                days == contributions@,
                0 <= i <= days.len(),
                total_of_first(days, days.len() as int) <= i64::MAX,
                total_contributions == total_of_first(days, i as int),
                current_streak == run_length(days, i - 1),
                longest_streak == run_length(days, longest_end(days, i as int)),
                -1 <= longest_end(days, i as int) < i,
                -1 <= last_active(days, i as int) < i,
                current_streak > 0 ==> last_active(days, i as int) == i - 1,
                0 <= current_streak <= i,
                streak_ending_at(days, longest_end(days, i as int)) == (Streak {
                    start: longest_streak_start,
                    end: longest_streak_end,
                }),
                streak_ending_at(days, last_active(days, i as int)) == (Streak {
                    start: current_streak_start,
                    end: current_streak_end,
                }),
            decreases days.len() - i,
        {
            let c = contributions[i];
            if c.contribution_count > 0 {
                proof {
                    lemma_total_ascends(days, i + 1, days.len() as int);
                }
                total_contributions += c.contribution_count;
                current_streak += 1;
                if current_streak == 1 {
                    current_streak_start = c.date;
                }
                current_streak_end = c.date;
                if current_streak >= longest_streak {
                    longest_streak = current_streak;
                    longest_streak_start = current_streak_start;
                    longest_streak_end = current_streak_end;
                }
            } else {
                current_streak = 0;
            }
            i += 1;
        }

        proof {
            lemma_streaks_are_streaks(days);
        }
        Stats {
            total_contributions,
            longest_streak: (longest_streak_start, longest_streak_end).into(),
            current_streak: (current_streak_start, current_streak_end).into(),
        }
    }
}

} // verus!
