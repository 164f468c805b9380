//! What the statistics of a list of days are.
//!
//! A day with a positive count is active. A run is a stretch of active days
//! one after the other in the list, and a streak is a run that cannot be made
//! longer on either side. The longest streak is the one of the most days, the
//! latest of them where several are that long; the current streak is the last
//! one in the list.

use vstd::prelude::*;
use crate::calendar::Date;
use crate::types::{Contribution, Stats, Streak};

verus! {

/// Whether anything was contributed on the day.
pub open spec fn is_active(day: Contribution) -> bool {
    day.contribution_count > 0
}

/// The contributions of the active days among the first `n` days.
pub open spec fn total_of_first(days: Seq<Contribution>, n: int) -> int
    decreases n,
{
    if n <= 0 || n > days.len() {
        0
    } else if is_active(days[n - 1]) {
        total_of_first(days, n - 1) + days[n - 1].contribution_count
    } else {
        total_of_first(days, n - 1)
    }
}

/// The contributions of all active days.
pub open spec fn total_contributions(days: Seq<Contribution>) -> int {
    total_of_first(days, days.len() as int)
}

/// The sum of the counts of the first `n` days.
pub open spec fn sum_of_first(days: Seq<Contribution>, n: int) -> int
    decreases n,
{
    if n <= 0 || n > days.len() {
        0
    } else {
        sum_of_first(days, n - 1) + days[n - 1].contribution_count
    }
}

/// The sum of the counts of all days.
pub open spec fn sum_of_counts(days: Seq<Contribution>) -> int {
    sum_of_first(days, days.len() as int)
}

/// The number of active days in a row that end with the day at index `end`;
/// 0 where that day is not active or `end` is no index.
pub open spec fn run_length(days: Seq<Contribution>, end: int) -> int
    decreases end + 1,
{
    if 0 <= end < days.len() && is_active(days[end]) {
        1 + run_length(days, end - 1)
    } else {
        0
    }
}

/// The index of the last active day among the first `n` days, or -1 where
/// none of them is active.
pub open spec fn last_active(days: Seq<Contribution>, n: int) -> int
    decreases n,
{
    if n <= 0 || n > days.len() {
        -1
    } else if is_active(days[n - 1]) {
        n - 1
    } else {
        last_active(days, n - 1)
    }
}

/// The index at which the longest run among the first `n` days ends, the
/// latest such index where several runs are that long, or -1 where none of
/// the days is active.
pub open spec fn longest_end(days: Seq<Contribution>, n: int) -> int
    decreases n,
{
    if n <= 0 || n > days.len() {
        -1
    } else {
        let before = longest_end(days, n - 1);
        if is_active(days[n - 1]) && run_length(days, n - 1) >= run_length(days, before) {
            n - 1
        } else {
            before
        }
    }
}

/// The dates of the run that ends with the day at index `end`, or the range
/// from the first date to the first date where `end` is -1.
pub open spec fn streak_ending_at(days: Seq<Contribution>, end: int) -> Streak {
    if 0 <= end < days.len() && is_active(days[end]) {
        Streak { start: days[end - run_length(days, end) + 1].date, end: days[end].date }
    } else {
        Streak { start: Date::spec_min(), end: Date::spec_min() }
    }
}

/// The longest streak of the days, the latest where several are that long.
pub open spec fn longest_streak(days: Seq<Contribution>) -> Streak {
    streak_ending_at(days, longest_end(days, days.len() as int))
}

/// The last streak of the days.
pub open spec fn current_streak(days: Seq<Contribution>) -> Streak {
    streak_ending_at(days, last_active(days, days.len() as int))
}

/// Whether `stats` are the statistics of `days`.
pub open spec fn is_stats_of(days: Seq<Contribution>, stats: Stats) -> bool {
    &&& stats.total_contributions == total_contributions(days)
    &&& stats.longest_streak == longest_streak(days)
    &&& stats.current_streak == current_streak(days)
}

/// Whether each day is the day after the one before it in the list.
pub open spec fn is_consecutive(days: Seq<Contribution>) -> bool {
    forall|i: int| 0 < i < days.len() ==> (#[trigger] days[i]).date@ == days[i - 1].date@ + 1
}

/// Whether no count is negative.
pub open spec fn has_counts(days: Seq<Contribution>) -> bool {
    forall|i: int| 0 <= i < days.len() ==> (#[trigger] days[i]).contribution_count >= 0
}

/// Whether the days from index `start` to index `end` are a streak: all of
/// them active, with no active day right before or right after them.
pub open spec fn is_streak(days: Seq<Contribution>, start: int, end: int) -> bool {
    &&& 0 <= start <= end < days.len()
    &&& forall|i: int| start <= i <= end ==> is_active(#[trigger] days[i])
    &&& start > 0 ==> !is_active(days[start - 1])
    &&& end + 1 < days.len() ==> !is_active(days[end + 1])
}


/// The active days among more of the days have contributed no less.
pub proof fn lemma_total_ascends(days: Seq<Contribution>, fewer: int, more: int)
    requires
        0 <= fewer <= more <= days.len(),
    ensures
        0 <= total_of_first(days, fewer) <= total_of_first(days, more),
    decreases more,
{
    if fewer < more {
        lemma_total_ascends(days, fewer, more - 1);
    } else if fewer > 0 {
        lemma_total_ascends(days, fewer - 1, fewer - 1);
    }
}


/// Whether any of the days is active.
pub open spec fn has_active(days: Seq<Contribution>) -> bool {
    exists|i: int| 0 <= i < days.len() && is_active(#[trigger] days[i])
}

/// Whether `streak` holds the dates of the streak of the most days, the
/// latest of them where several have as many; or, where no day is active,
/// the first date twice.
pub open spec fn is_longest_streak_of(days: Seq<Contribution>, streak: Streak) -> bool {
    if has_active(days) {
        exists|start: int, end: int|
            {
                &&& #[trigger] is_streak(days, start, end)
                &&& streak.start == days[start].date
                &&& streak.end == days[end].date
                &&& forall|s: int, e: int| #[trigger]
                    is_streak(days, s, e) ==> e - s < end - start || (e - s == end - start && e
                        <= end)
            }
    } else {
        streak.start == Date::spec_min() && streak.end == Date::spec_min()
    }
}

/// Whether `streak` holds the dates of the last streak; or, where no day is
/// active, the first date twice.
pub open spec fn is_current_streak_of(days: Seq<Contribution>, streak: Streak) -> bool {
    if has_active(days) {
        exists|start: int, end: int|
            {
                &&& #[trigger] is_streak(days, start, end)
                &&& streak.start == days[start].date
                &&& streak.end == days[end].date
                &&& forall|i: int| end < i < days.len() ==> !is_active(#[trigger] days[i])
            }
    } else {
        streak.start == Date::spec_min() && streak.end == Date::spec_min()
    }
}

/// The contributions of all active days, where the total is no more than
/// the largest number that the statistics can hold.
pub fn checked_total(contributions: &[Contribution]) -> (r: Option<i64>)
    ensures
        r is Some <==> total_contributions(contributions@) <= i64::MAX,
        r matches Some(total) ==> total == total_contributions(contributions@),
{
    let mut total: i64 = 0;
    let mut i: usize = 0;
    while i < contributions.len()
        invariant
            0 <= i <= contributions@.len(),
            total == total_of_first(contributions@, i as int),
        decreases contributions@.len() - i,
    {
        let count: i64 = contributions[i].contribution_count;
        if count > 0 {
            match total.checked_add(count) {
                Some(sum) => {
                    total = sum;
                },
                None => {
                    proof {
                        lemma_total_ascends(
                            contributions@,
                            i + 1,
                            contributions@.len() as int,
                        );
                    }
                    return None;
                },
            }
        }
        i += 1;
    }
    Some(total)
}

/// Where no count is negative, the total is the sum of all counts.
pub proof fn lemma_total_is_sum(days: Seq<Contribution>)
    requires
        has_counts(days),
    ensures
        total_contributions(days) == sum_of_counts(days),
{
    lemma_total_is_sum_of_first(days, days.len() as int);
}

/// Where no count is negative, the total of the first days is the sum of
/// their counts.
pub proof fn lemma_total_is_sum_of_first(days: Seq<Contribution>, n: int)
    requires
        has_counts(days),
        0 <= n <= days.len(),
    ensures
        total_of_first(days, n) == sum_of_first(days, n),
    decreases n,
{
    if n > 0 {
        lemma_total_is_sum_of_first(days, n - 1);
        assert(days[n - 1].contribution_count >= 0);
    }
}

/// A run has no days where it ends with a day that is not active, and at
/// least one day where it ends with an active day.
pub proof fn lemma_run_length(days: Seq<Contribution>, end: int)
    ensures
        0 <= run_length(days, end),
        run_length(days, end) > 0 <==> 0 <= end < days.len() && is_active(days[end]),
    decreases end + 1,
{
    if 0 <= end < days.len() && is_active(days[end]) {
        lemma_run_length(days, end - 1);
    }
}

/// The run that ends with an active day is made of active days only, as
/// many as its length says, and the day before it, if there is one, is not
/// active.
pub proof fn lemma_run(days: Seq<Contribution>, end: int)
    requires
        0 <= end < days.len(),
        is_active(days[end]),
    ensures
        1 <= run_length(days, end) <= end + 1,
        forall|i: int| end - run_length(days, end) < i <= end ==> is_active(#[trigger] days[i]),
        end - run_length(days, end) >= 0 ==> !is_active(days[end - run_length(days, end)]),
    decreases end,
{
    lemma_run_length(days, end - 1);
    if end > 0 && is_active(days[end - 1]) {
        lemma_run(days, end - 1);
    }
}

/// The last active day among the first `n` days is active, and no day after
/// it among them is; it is -1 just when none of them is active.
pub proof fn lemma_last_active(days: Seq<Contribution>, n: int)
    requires
        0 <= n <= days.len(),
    ensures
        -1 <= last_active(days, n) < n,
        last_active(days, n) >= 0 ==> is_active(days[last_active(days, n)]),
        forall|i: int| last_active(days, n) < i < n ==> !is_active(#[trigger] days[i]),
    decreases n,
{
    if n > 0 && !is_active(days[n - 1]) {
        lemma_last_active(days, n - 1);
    }
}

/// Among the first `n` days no run is longer than the one that ends at
/// `longest_end`, and none that ends later is as long. That run ends with an
/// active day, unless none of the days is active.
pub proof fn lemma_longest_end(days: Seq<Contribution>, n: int)
    requires
        0 <= n <= days.len(),
    ensures
        -1 <= longest_end(days, n) < n,
        longest_end(days, n) >= 0 ==> is_active(days[longest_end(days, n)]),
        forall|i: int|
            0 <= i < n ==> #[trigger] run_length(days, i) <= run_length(
                days,
                longest_end(days, n),
            ),
        forall|i: int|
            longest_end(days, n) < i < n ==> #[trigger] run_length(days, i) < run_length(
                days,
                longest_end(days, n),
            ) || !is_active(days[i]),
    decreases n,
{
    if n > 0 {
        lemma_longest_end(days, n - 1);
        lemma_run_length(days, n - 1);
        lemma_run_length(days, longest_end(days, n - 1));
    }
}

/// The current streak is a streak, and no day after it is active. Where no
/// day is active, it is the range from the first date to the first date.
pub proof fn lemma_current_is_last_streak(days: Seq<Contribution>)
    ensures
        ({
            let end = last_active(days, days.len() as int);
            if end >= 0 {
                &&& is_streak(days, end - run_length(days, end) + 1, end)
                &&& forall|i: int| end < i < days.len() ==> !is_active(#[trigger] days[i])
                &&& current_streak(days).start == days[end - run_length(days, end) + 1].date
                &&& current_streak(days).end == days[end].date
            } else {
                &&& forall|i: int| 0 <= i < days.len() ==> !is_active(#[trigger] days[i])
                &&& current_streak(days).start == Date::spec_min()
                &&& current_streak(days).end == Date::spec_min()
            }
        }),
{
    let end = last_active(days, days.len() as int);
    lemma_last_active(days, days.len() as int);
    if end >= 0 {
        lemma_run(days, end);
    }
}

/// The longest streak is a streak, no streak has more days, and none that
/// has as many days comes later. Where no day is active, it is the range
/// from the first date to the first date.
pub proof fn lemma_longest_is_longest_streak(days: Seq<Contribution>)
    ensures
        ({
            let end = longest_end(days, days.len() as int);
            let length = run_length(days, end);
            if end >= 0 {
                &&& is_streak(days, end - length + 1, end)
                &&& longest_streak(days).start == days[end - length + 1].date
                &&& longest_streak(days).end == days[end].date
                &&& forall|s: int, e: int| #[trigger]
                    is_streak(days, s, e) ==> e - s + 1 <= length && (e - s + 1 == length ==> e
                        <= end)
            } else {
                &&& forall|i: int| 0 <= i < days.len() ==> !is_active(#[trigger] days[i])
                &&& longest_streak(days).start == Date::spec_min()
                &&& longest_streak(days).end == Date::spec_min()
            }
        }),
{
    let n = days.len() as int;
    let end = longest_end(days, n);
    let length = run_length(days, end);
    lemma_longest_end(days, n);
    if end >= 0 {
        lemma_run(days, end);
        if end + 1 < n && is_active(days[end + 1]) {
            assert(run_length(days, end + 1) == length + 1);
        }
        assert forall|s: int, e: int| #[trigger] is_streak(days, s, e) implies e - s + 1 <= length
            && (e - s + 1 == length ==> e <= end) by {
            lemma_streak_is_run(days, s, e);
            assert(run_length(days, e) <= length);
        }
    } else {
        assert forall|i: int| 0 <= i < n implies !is_active(#[trigger] days[i]) by {
            assert(run_length(days, i) <= run_length(days, end));
            lemma_run_length(days, i);
        }
    }
}

/// The longest streak is the streak of the most days, the latest of them
/// where several have as many, and the current streak is the last streak.
pub proof fn lemma_streaks_are_streaks(days: Seq<Contribution>)
    ensures
        is_longest_streak_of(days, longest_streak(days)),
        is_current_streak_of(days, current_streak(days)),
{
    let n = days.len() as int;
    lemma_longest_is_longest_streak(days);
    lemma_current_is_last_streak(days);
    let longest = longest_end(days, n);
    let last = last_active(days, n);
    if has_active(days) {
        assert(longest >= 0);
        assert(last >= 0);
        assert(is_streak(days, longest - run_length(days, longest) + 1, longest));
        assert(is_streak(days, last - run_length(days, last) + 1, last));
    } else {
        if longest >= 0 {
            lemma_longest_end(days, n);
            assert(is_active(days[longest]));
        }
        if last >= 0 {
            lemma_last_active(days, n);
            assert(is_active(days[last]));
        }
    }
}

/// Only one range of dates is that of the longest streak.
pub proof fn lemma_longest_streak_is_unique(days: Seq<Contribution>, first: Streak, second: Streak)
    requires
        is_longest_streak_of(days, first),
        is_longest_streak_of(days, second),
    ensures
        first == second,
{
    if has_active(days) {
        let (s1, e1) = choose|start: int, end: int|
            {
                &&& #[trigger] is_streak(days, start, end)
                &&& first.start == days[start].date
                &&& first.end == days[end].date
                &&& forall|s: int, e: int| #[trigger]
                    is_streak(days, s, e) ==> e - s < end - start || (e - s == end - start && e
                        <= end)
            };
        let (s2, e2) = choose|start: int, end: int|
            {
                &&& #[trigger] is_streak(days, start, end)
                &&& second.start == days[start].date
                &&& second.end == days[end].date
                &&& forall|s: int, e: int| #[trigger]
                    is_streak(days, s, e) ==> e - s < end - start || (e - s == end - start && e
                        <= end)
            };
        assert(is_streak(days, s1, e1));
        assert(is_streak(days, s2, e2));
        assert(e1 == e2 && s1 == s2);
    }
}

/// Only one range of dates is that of the last streak.
pub proof fn lemma_current_streak_is_unique(days: Seq<Contribution>, first: Streak, second: Streak)
    requires
        is_current_streak_of(days, first),
        is_current_streak_of(days, second),
    ensures
        first == second,
{
    if has_active(days) {
        let (s1, e1) = choose|start: int, end: int|
            {
                &&& #[trigger] is_streak(days, start, end)
                &&& first.start == days[start].date
                &&& first.end == days[end].date
                &&& forall|i: int| end < i < days.len() ==> !is_active(#[trigger] days[i])
            };
        let (s2, e2) = choose|start: int, end: int|
            {
                &&& #[trigger] is_streak(days, start, end)
                &&& second.start == days[start].date
                &&& second.end == days[end].date
                &&& forall|i: int| end < i < days.len() ==> !is_active(#[trigger] days[i])
            };
        assert(is_active(days[e1]) && is_active(days[e2]));
        assert(e1 == e2);
        lemma_streak_is_run(days, s1, e1);
        lemma_streak_is_run(days, s2, e2);
    }
}

/// A streak is the whole run that ends with its last day.
pub proof fn lemma_streak_is_run(days: Seq<Contribution>, start: int, end: int)
    requires
        is_streak(days, start, end),
    ensures
        run_length(days, end) == end - start + 1,
{
    lemma_run_from(days, start, end);
}

/// A stretch of active days with no active day right before it is the whole
/// run that ends with its last day.
proof fn lemma_run_from(days: Seq<Contribution>, start: int, end: int)
    requires
        0 <= start <= end < days.len(),
        forall|i: int| start <= i <= end ==> is_active(#[trigger] days[i]),
        start > 0 ==> !is_active(days[start - 1]),
    ensures
        run_length(days, end) == end - start + 1,
    decreases end - start,
{
    assert(is_active(days[end]));
    if start < end {
        lemma_run_from(days, start, end - 1);
    } else {
        assert(run_length(days, start - 1) == 0);
    }
}

/// When the last day is reached, the longest run is no shorter than the run
/// that is still going on, and no shorter than the last run.
pub proof fn lemma_longest_covers_current(days: Seq<Contribution>)
    ensures
        run_length(days, days.len() - 1) <= run_length(
            days,
            longest_end(days, days.len() as int),
        ),
        run_length(days, last_active(days, days.len() as int)) <= run_length(
            days,
            longest_end(days, days.len() as int),
        ),
{
    let n = days.len() as int;
    lemma_longest_end(days, n);
    lemma_last_active(days, n);
    if last_active(days, n) >= 0 {
        assert(run_length(days, last_active(days, n)) <= run_length(days, longest_end(days, n)));
    }
    if n > 0 {
        assert(run_length(days, n - 1) <= run_length(days, longest_end(days, n)));
    }
}

/// Where each day is the day after the one before it, the run that ends
/// with an active day spans as many days of the calendar as it has days.
pub proof fn lemma_streak_days(days: Seq<Contribution>, end: int)
    requires
        is_consecutive(days),
        0 <= end < days.len(),
        is_active(days[end]),
    ensures
        streak_ending_at(days, end).spec_days() == run_length(days, end),
        streak_ending_at(days, end).wf(),
{
    lemma_run(days, end);
    lemma_days_apart(days, end - run_length(days, end) + 1, end);
}

/// Where each day is the day after the one before it, two days of the list
/// are as many days apart as their indices are.
pub proof fn lemma_days_apart(days: Seq<Contribution>, earlier: int, later: int)
    requires
        is_consecutive(days),
        0 <= earlier <= later < days.len(),
    ensures
        days[later].date@ - days[earlier].date@ == later - earlier,
    decreases later - earlier,
{
    if earlier < later {
        lemma_days_apart(days, earlier, later - 1);
        assert(days[later].date@ == days[later - 1].date@ + 1);
    }
}

/// Where each day is the day after the one before it, the longest streak
/// has no fewer days than the current streak, both ends counted, and neither
/// range ends before it starts.
pub proof fn lemma_longest_is_no_shorter(days: Seq<Contribution>)
    requires
        is_consecutive(days),
    ensures
        longest_streak(days).spec_days() >= current_streak(days).spec_days(),
        longest_streak(days).wf(),
        current_streak(days).wf(),
{
    let n = days.len() as int;
    lemma_longest_end(days, n);
    lemma_last_active(days, n);
    lemma_longest_covers_current(days);
    if longest_end(days, n) >= 0 {
        lemma_streak_days(days, longest_end(days, n));
    }
    if last_active(days, n) >= 0 {
        lemma_streak_days(days, last_active(days, n));
        assert(run_length(days, last_active(days, n)) >= 1);
    }
}

/// The statistics of a list of days are fixed by the list: what is worked
/// out from the same days twice is the same.
pub proof fn lemma_stats_are_unique(days: Seq<Contribution>, first: Stats, second: Stats)
    requires
        is_stats_of(days, first),
        is_stats_of(days, second),
    ensures
        first == second,
{
}

} // verus!
