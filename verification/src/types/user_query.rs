//! The query for a user by login name: what is asked and what comes back.

use vstd::prelude::*;

verus! {

/// What the query asks for.
#[derive(Debug)]
pub struct Variables {
    /// The login name of the user.
    pub login: String,
}

/// The repositories of a user.
#[derive(Debug)]
pub struct Repositories {
    /// How many there are.
    pub total_count: i64,
}

/// The user that the query was about.
#[derive(Debug)]
pub struct User {
    /// Login name
    pub login: String,
    /// The public repositories that the user owns.
    pub repositories: Repositories,
}

/// What comes back.
#[derive(Debug)]
pub struct ResponseData {
    /// The user, if there is one of that login name.
    pub user: Option<User>,
}

} // verus!
