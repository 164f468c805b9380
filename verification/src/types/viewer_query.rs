//! The query for the owner of the token: what is asked and what comes back.

use vstd::prelude::*;

verus! {

/// What the query asks for: nothing.
#[derive(Clone, Copy, Debug)]
pub struct Variables {}

/// The repositories of a user.
#[derive(Debug)]
pub struct Repositories {
    /// How many there are.
    pub total_count: i64,
}

/// The owner of the token.
#[derive(Debug)]
pub struct Viewer {
    /// Login name
    pub login: String,
    /// The public repositories that the user owns.
    pub repositories: Repositories,
}

/// What comes back.
#[derive(Debug)]
pub struct ResponseData {
    /// The owner of the token.
    pub viewer: Viewer,
}

} // verus!
