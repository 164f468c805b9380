use github_streak_stats_lib::calendar::Date;
use github_streak_stats_lib::github_client::GitHubClient;
use github_streak_stats_lib::streak::checked_total;
use github_streak_stats_lib::types::{Contribution, Stats, Streak};

fn client() -> GitHubClient {
    GitHubClient::new("https://api.github.com/graphql", "github-streaks-stats-lib/0.0.0", "token")
}

fn january(day: i8) -> Date {
    Date::new(2024, 1, day).unwrap()
}

/// Days in a row from 2024-01-01 with the given counts.
fn days(counts: &[i64]) -> Vec<Contribution> {
    let mut date = jiff::civil::date(2024, 1, 1);
    let mut out = Vec::new();
    for count in counts {
        out.push(Contribution {
            date: Date::new(date.year(), date.month(), date.day()).unwrap(),
            contribution_count: *count,
        });
        date = date.tomorrow().unwrap();
    }
    out
}

fn stats(counts: &[i64]) -> Stats {
    client().calc_streak_from_contributions(&days(counts))
}

fn range(start: i8, end: i8) -> Streak {
    Streak { start: january(start), end: january(end) }
}

fn nothing() -> Streak {
    Streak { start: Date::min(), end: Date::min() }
}

#[test]
fn test() {}

#[test]
fn five_days_with_two_streaks() {
    let input = vec![
        Contribution { date: january(1), contribution_count: 0 },
        Contribution { date: january(2), contribution_count: 3 },
        Contribution { date: january(3), contribution_count: 1 },
        Contribution { date: january(4), contribution_count: 0 },
        Contribution { date: january(5), contribution_count: 2 },
    ];
    let stats = client().calc_streak_from_contributions(&input);
    assert_eq!(stats.total_contributions, 6);
    assert_eq!(stats.longest_streak, Streak { start: january(2), end: january(3) });
    assert_eq!(stats.longest_streak.days(), 2);
    assert_eq!(stats.current_streak, Streak { start: january(5), end: january(5) });
    assert_eq!(stats.current_streak.days(), 1);
}

#[test]
fn five_days_without_contributions() {
    let stats = stats(&[0, 0, 0, 0, 0]);
    assert_eq!(stats.total_contributions, 0);
    assert_eq!(stats.longest_streak.start, Date::min());
    assert_eq!(stats.longest_streak.end, Date::min());
    assert_eq!(stats.longest_streak.start, stats.longest_streak.end);
    assert_eq!(stats.current_streak, stats.longest_streak);
    assert_eq!(stats.current_streak, nothing());
}

#[test]
fn of_equal_streaks_the_later_one_is_the_longest() {
    let stats = stats(&[1, 0, 1, 1, 0, 0]);
    assert_eq!(stats.longest_streak, range(3, 4));
    assert_eq!(stats.current_streak, range(3, 4));
    assert_eq!(stats.total_contributions, 3);
}

#[test]
fn of_two_streaks_of_two_days_the_later_one_is_the_longest() {
    let stats = stats(&[2, 2, 0, 5, 5, 0, 1]);
    assert_eq!(stats.longest_streak, range(4, 5));
    assert_eq!(stats.current_streak, range(7, 7));
    assert_eq!(stats.total_contributions, 15);
}

#[test]
fn a_shorter_streak_later_does_not_replace_the_longest() {
    let stats = stats(&[1, 1, 1, 0, 1, 1, 0]);
    assert_eq!(stats.longest_streak, range(1, 3));
    assert_eq!(stats.current_streak, range(5, 6));
    assert_eq!(stats.longest_streak.days(), 3);
    assert_eq!(stats.current_streak.days(), 2);
}

#[test]
fn no_days() {
    let stats = stats(&[]);
    assert_eq!(stats.total_contributions, 0);
    assert_eq!(stats.longest_streak, nothing());
    assert_eq!(stats.current_streak, nothing());
    assert_eq!(stats.longest_streak.days(), 1);
}

#[test]
fn a_single_active_day() {
    let stats = stats(&[4]);
    assert_eq!(stats.total_contributions, 4);
    assert_eq!(stats.longest_streak, range(1, 1));
    assert_eq!(stats.current_streak, range(1, 1));
    assert_eq!(stats.longest_streak.days(), 1);
}

#[test]
fn a_single_day_without_contributions() {
    let stats = stats(&[0]);
    assert_eq!(stats, Stats { total_contributions: 0, longest_streak: nothing(), current_streak: nothing() });
}

#[test]
fn every_day_active() {
    let stats = stats(&[1, 2, 3, 4, 5, 6, 7, 8, 9, 10]);
    assert_eq!(stats.total_contributions, 55);
    assert_eq!(stats.longest_streak, range(1, 10));
    assert_eq!(stats.current_streak, range(1, 10));
    assert_eq!(stats.longest_streak.days(), 10);
}

#[test]
fn the_current_streak_stays_when_days_without_contributions_follow() {
    let stats = stats(&[0, 1, 1, 1, 0, 0, 1, 1, 0, 0, 0]);
    assert_eq!(stats.longest_streak, range(2, 4));
    assert_eq!(stats.current_streak, range(7, 8));
}

#[test]
fn the_current_streak_is_the_longest_when_it_is_the_only_one() {
    let stats = stats(&[0, 0, 7, 7, 7]);
    assert_eq!(stats.longest_streak, range(3, 5));
    assert_eq!(stats.current_streak, range(3, 5));
    assert_eq!(stats.total_contributions, 21);
}

#[test]
fn negative_counts_are_days_without_contributions() {
    let stats = stats(&[1, -5, 2, 3]);
    assert_eq!(stats.total_contributions, 6);
    assert_eq!(stats.longest_streak, range(3, 4));
    assert_eq!(stats.current_streak, range(3, 4));
}

#[test]
fn a_streak_over_the_end_of_a_month() {
    let input = days(&[0; 29].iter().chain([1, 1, 1, 1].iter()).copied().collect::<Vec<i64>>());
    let stats = client().calc_streak_from_contributions(&input);
    let start = Date::new(2024, 1, 30).unwrap();
    let end = Date::new(2024, 2, 2).unwrap();
    assert_eq!(stats.longest_streak, Streak { start, end });
    assert_eq!(stats.longest_streak.days(), 4);
}

#[test]
fn the_total_is_the_sum_of_the_counts() {
    let lists: [&[i64]; 5] = [&[5], &[0, 0], &[1, 2, 3], &[10, 0, 20, 0, 30], &[7, 7, 7, 0, 0, 1]];
    for counts in lists {
        let sum: i64 = counts.iter().sum();
        assert_eq!(stats(counts).total_contributions, sum);
        assert_eq!(checked_total(&days(counts)), Some(sum));
    }
}

#[test]
fn the_longest_streak_is_no_shorter_than_the_current_one() {
    let lists: [&[i64]; 7] = [
        &[],
        &[0],
        &[1],
        &[1, 0, 1, 1, 0, 0],
        &[1, 1, 1, 0, 1],
        &[0, 1, 0, 1, 1, 0, 1, 1, 1],
        &[3, 3, 0, 3, 3, 0, 3, 3],
    ];
    for counts in lists {
        let stats = stats(counts);
        assert!(stats.longest_streak.days() >= stats.current_streak.days());
        assert!(stats.longest_streak.days() >= 1);
    }
}

#[test]
fn the_same_days_give_the_same_stats() {
    let input = days(&[0, 3, 1, 0, 2, 2, 2, 0]);
    let client = client();
    let first = client.calc_streak_from_contributions(&input);
    let second = client.calc_streak_from_contributions(&input);
    assert_eq!(first, second);
    assert_eq!(first, Stats { total_contributions: 10, longest_streak: range(5, 7), current_streak: range(5, 7) });
}

#[test]
fn a_total_that_does_not_fit_is_found() {
    let input = days(&[i64::MAX, 0, 1]);
    assert_eq!(checked_total(&input), None);
    let input = days(&[i64::MAX - 1, 0, 1]);
    assert_eq!(checked_total(&input), Some(i64::MAX));
    assert_eq!(client().calc_streak_from_contributions(&input).total_contributions, i64::MAX);
    let input = days(&[i64::MAX, -1, i64::MIN]);
    assert_eq!(checked_total(&input), Some(i64::MAX));
}

#[test]
fn a_streak_counts_both_ends() {
    let streak = Streak { start: Date::new(2023, 12, 31).unwrap(), end: Date::new(2025, 1, 4).unwrap() };
    assert_eq!(streak.days(), 371);
    let streak = Streak { start: january(5), end: january(5) };
    assert_eq!(streak.days(), 1);
    let streak = Streak::from((january(1), january(31)));
    assert_eq!(streak.days(), 31);
    assert_eq!(streak, Streak { start: january(1), end: january(31) });
}
