//! The values that the statistics are made of, and what is asked of the
//! contribution calendar and comes back from it.

use vstd::prelude::*;
use vstd::string::StringExecFns;
use crate::calendar::Date;

pub mod streak_query;
pub mod user_query;
pub mod viewer_query;

verus! {

/// The contributions of one day.
#[derive(Clone, Copy, Debug, PartialEq, Eq, Structural)]
pub struct Contribution {
    /// Date of the contribution
    pub date: Date,
    /// Number of contributions on that date
    pub contribution_count: i64,
}

/// Simple date range
#[derive(Clone, Copy, Debug, PartialEq, Eq, Structural)]
pub struct Streak {
    /// Start date
    pub start: Date,
    /// End date
    pub end: Date,
}

/// Stats of the user
#[derive(Clone, Copy, Debug, PartialEq, Eq, Structural)]
pub struct Stats {
    /// Total contributions
    pub total_contributions: i64,
    /// Longest streak
    pub longest_streak: Streak,
    /// Current streak
    pub current_streak: Streak,
}

impl Streak {
    /// Whether the range does not end before it starts.
    pub open spec fn wf(self) -> bool {
        self.start@ <= self.end@
    }

    /// The number of days of the range, both ends counted.
    pub open spec fn spec_days(self) -> int {
        self.end@ - self.start@ + 1
    }

    /// The number of days of the range, both ends counted.
    pub fn days(&self) -> (r: i32)
        ensures
            r == self.spec_days(),
    {
        let apart: i32 = self.end.days_since(self.start);
        proof {
            use_type_invariant(&self.start);
            use_type_invariant(&self.end);
            crate::calendar::lemma_day_number_in_range(self.start);
            crate::calendar::lemma_day_number_in_range(self.end);
        }
        apart + 1
    }
}

/// Converts a tuple of (Date, Date) to Streak
impl From<(Date, Date)> for Streak {
    fn from(value: (Date, Date)) -> (r: Self) {
        Self { start: value.0, end: value.1 }
    }
}

impl vstd::std_specs::convert::FromSpecImpl<(Date, Date)> for Streak {
    open spec fn obeys_from_spec() -> bool {
        true
    }

    open spec fn from_spec(value: (Date, Date)) -> Self {
        Streak { start: value.0, end: value.1 }
    }
}

/// The query for the contribution calendar of a user.
#[derive(Clone, Copy, Debug)]
pub struct StreakQuery;

/// The query for the owner of the token.
#[derive(Clone, Copy, Debug)]
pub struct ViewerQuery;

/// The query for a user by login name.
#[derive(Clone, Copy, Debug)]
pub struct UserQuery;

impl StreakQuery {
    /// What to ask for the contributions of `user` between the timestamps
    /// `from` and `to`.
    pub fn variables(user: &User, from: &str, to: &str) -> (r: streak_query::Variables)
        ensures
            r.login@ == user.name@,
            r.from matches Some(text) && text@ == from@,
            r.to matches Some(text) && text@ == to@,
    {
        streak_query::Variables {
            login: user.name.clone(),
            from: Some(from.to_owned()),
            to: Some(to.to_owned()),
        }
    }
}

impl ViewerQuery {
    /// What to ask for the owner of the token.
    pub fn variables() -> viewer_query::Variables {
        viewer_query::Variables {  }
    }
}

impl UserQuery {
    /// What to ask for the user with the login name `login`.
    pub fn variables(login: &str) -> (r: user_query::Variables)
        ensures
            r.login@ == login@,
    {
        user_query::Variables { login: login.to_owned() }
    }
}

/// Why what came back holds no answer.
#[derive(Clone, Copy, Debug, PartialEq, Eq, Structural)]
pub enum FetchError {
    /// Nothing came back for the calendar.
    NoData,
    /// No user came back for the calendar.
    NoUser,
    /// Nothing came back for the user or for the owner of the token.
    NoLogin,
    /// There is no user of that login name.
    NoSuchUser,
    /// A day of the calendar has a date that cannot be read.
    MalformedDate,
}

impl FetchError {
    /// What the error says.
    pub open spec fn spec_message(self) -> Seq<char> {
        match self {
            FetchError::NoData => "No data"@,
            FetchError::NoUser => "No user"@,
            FetchError::NoLogin => "No login information. Check your GitHub API token."@,
            FetchError::NoSuchUser => "No such user"@,
            FetchError::MalformedDate => "Malformed date"@,
        }
    }

    /// What the error says.
    pub fn message(&self) -> (r: &'static str)
        ensures
            r@ == self.spec_message(),
    {
        match self {
            FetchError::NoData => "No data",
            FetchError::NoUser => "No user",
            FetchError::NoLogin => "No login information. Check your GitHub API token.",
            FetchError::NoSuchUser => "No such user",
            FetchError::MalformedDate => "Malformed date",
        }
    }
}

/// A user and what is shown of them.
#[derive(Debug)]
pub struct User {
    /// Login name
    pub name: String,
    /// Total number of public repositories owned
    pub public_repositories: i64,
}

/// The character of a digit from 0 to 9.
pub open spec fn digit(d: int) -> char {
    if d == 0 {
        '0'
    } else if d == 1 {
        '1'
    } else if d == 2 {
        '2'
    } else if d == 3 {
        '3'
    } else if d == 4 {
        '4'
    } else if d == 5 {
        '5'
    } else if d == 6 {
        '6'
    } else if d == 7 {
        '7'
    } else if d == 8 {
        '8'
    } else {
        '9'
    }
}

/// The digits of a natural number in base ten, without leading zeros.
pub open spec fn digits(n: nat) -> Seq<char>
    decreases n,
{
    if n < 10 {
        seq![digit(n as int)]
    } else {
        digits(n / 10).push(digit((n % 10) as int))
    }
}

/// An integer in base ten, with a minus sign before the digits of a
/// negative one.
pub open spec fn decimal(n: int) -> Seq<char> {
    if n < 0 {
        seq!['-'] + digits((-n) as nat)
    } else {
        digits(n as nat)
    }
}

/// `i64`'s `to_string`: the integer in base ten, with a minus sign before
/// the digits of a negative one.
#[verifier::external_body]
fn i64_to_string(n: i64) -> (r: String)
    ensures
        r@ == decimal(n as int),
{
    n.to_string()
}

impl User {
    /// The text that is shown of the user, such as `octocat (8 public
    /// repos)`.
    pub open spec fn spec_to_string(self) -> Seq<char> {
        self.name@ + " ("@ + decimal(self.public_repositories as int) + " public repos)"@
    }

    /// The text that is shown of the user: the login name and the number of
    /// public repositories.
    pub fn to_string(&self) -> (r: String)
        ensures
            r@ == self.spec_to_string(),
    {
        let mut text = self.name.clone();
        text.append(" (");
        text.append(i64_to_string(self.public_repositories).as_str());
        text.append(" public repos)");
        text
    }
}

} // verus!
