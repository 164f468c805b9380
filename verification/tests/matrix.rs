use github_streak_stats_lib::calendar::Date;
use github_streak_stats_lib::matrix::{matrix_rows, max_count, ROWS};
use github_streak_stats_lib::types::Contribution;

#[test]
fn a_week_has_seven_rows() {
    assert_eq!(ROWS, 7);
}

#[test]
fn rows_of_two_weeks() {
    let cells: Vec<String> = (0..14).map(|i| format!("c{i}")).collect();
    let rows = matrix_rows(&cells);
    assert_eq!(rows.len(), 7);
    assert_eq!(rows[0], vec!["c0", "c7"]);
    assert_eq!(rows[1], vec!["c1", "c8"]);
    assert_eq!(rows[6], vec!["c6", "c13"]);
}

#[test]
fn rows_of_no_weeks() {
    let rows = matrix_rows(&Vec::new());
    assert_eq!(rows, vec![Vec::<String>::new(); 7]);
}

#[test]
fn rows_of_a_year() {
    let cells: Vec<String> = (0..371).map(|i| i.to_string()).collect();
    let rows = matrix_rows(&cells);
    assert_eq!(rows.len(), 7);
    for (r, row) in rows.iter().enumerate() {
        assert_eq!(row.len(), 53);
        for (w, cell) in row.iter().enumerate() {
            assert_eq!(*cell, (7 * w + r).to_string());
        }
    }
}

#[test]
fn the_largest_count() {
    let day = Date::new(2024, 1, 1).unwrap();
    let of = |counts: &[i64]| -> Vec<Contribution> {
        counts.iter().map(|c| Contribution { date: day, contribution_count: *c }).collect()
    };
    assert_eq!(max_count(&of(&[])), None);
    assert_eq!(max_count(&of(&[3])), Some(3));
    assert_eq!(max_count(&of(&[0, 0, 0])), Some(0));
    assert_eq!(max_count(&of(&[1, 9, 4, 9, 2])), Some(9));
    assert_eq!(max_count(&of(&[-4, -2, -7])), Some(-2));
    assert_eq!(max_count(&of(&[5, 4, 3])), Some(5));
    assert_eq!(max_count(&of(&[3, 4, 5])), Some(5));
}
