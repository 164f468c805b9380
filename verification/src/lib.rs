//! Contribution streak statistics.
//!
//! The crate computes, from a day-by-day list of contribution counts, the
//! total number of contributions, the longest streak of active days and the
//! most recent streak, and it resolves the week-aligned window of dates over
//! which the counts are requested.
//!
//! - [`calendar`]: civil dates, their day numbers and weekdays, and the
//!   calls into jiff that the rest is built on.
//! - [`range`]: the window of dates, from optional bounds and today.
//! - [`streak`]: what the statistics of a list of days are, and what holds
//!   of them.
//! - [`github_client`]: the client, which reads what came back from the
//!   contribution calendar and works out the statistics.
//! - [`types`]: the values that go in and out.
//! - [`args`]: what the user asks for, and the themes of the matrix.
//! - [`matrix`]: the layout of the contribution matrix.

pub mod args;
pub mod calendar;
pub mod github_client;
pub mod matrix;
pub mod range;
pub mod streak;
pub mod types;
