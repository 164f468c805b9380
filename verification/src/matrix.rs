//! The layout of the contribution matrix: one column for each week and one
//! row for each day of the week.

use vstd::prelude::*;
use crate::types::Contribution;

verus! {

/// The number of rows of the matrix: the days of a week.
pub const ROWS: usize = 7;

/// The largest count among the days, or nothing where there are no days.
pub fn max_count(contributions: &[Contribution]) -> (r: Option<i64>)
    ensures
        r is None <==> contributions@.len() == 0,
        r matches Some(max) ==> (forall|i: int|
            0 <= i < contributions@.len() ==> (#[trigger] contributions@[i]).contribution_count
                <= max) && (exists|i: int|
            0 <= i < contributions@.len() && (#[trigger] contributions@[i]).contribution_count
                == max),
{
    if contributions.len() == 0 {
        return None;
    }
    let mut max: i64 = contributions[0].contribution_count;
    let mut i: usize = 1;
    while i < contributions.len()
        invariant
            1 <= i <= contributions@.len(),
            forall|k: int|
                0 <= k < i ==> (#[trigger] contributions@[k]).contribution_count <= max,
            exists|k: int| 0 <= k < i && (#[trigger] contributions@[k]).contribution_count == max,
        decreases contributions@.len() - i,
    {
        if contributions[i].contribution_count > max {
            max = contributions[i].contribution_count;
        }
        i += 1;
    }
    Some(max)
}

/// The cells of the matrix by rows, from cells given day by day, seven to a
/// week: row `r` holds the `r`-th day of each week, in the order of the
/// weeks.
pub fn matrix_rows(cells: &Vec<String>) -> (rows: Vec<Vec<String>>)
    requires
        cells.len() % ROWS == 0,
    ensures
        rows.len() == ROWS,
        forall|r: int| 0 <= r < ROWS ==> (#[trigger] rows[r]).len() == cells.len() / ROWS,
        forall|r: int, w: int|
            0 <= r < ROWS && 0 <= w < cells.len() / ROWS ==> #[trigger] rows[r][w] == cells[ROWS
                * w + r],
{
    let weeks: usize = cells.len() / ROWS;
    let mut rows: Vec<Vec<String>> = Vec::new();
    let mut r: usize = 0;
    while r < ROWS
        invariant
            0 <= r <= ROWS,
            weeks == cells.len() / ROWS,
            cells.len() % ROWS == 0,
            rows.len() == r,
            forall|k: int| 0 <= k < r ==> (#[trigger] rows[k]).len() == weeks,
            forall|k: int, w: int|
                0 <= k < r && 0 <= w < weeks ==> #[trigger] rows[k][w] == cells[ROWS * w + k],
        decreases ROWS - r,
    {
        let mut row: Vec<String> = Vec::new();
        let mut w: usize = 0;
        while w < weeks
            invariant
                0 <= r < ROWS,
                0 <= w <= weeks,
                weeks == cells.len() / ROWS,
                cells.len() % ROWS == 0,
                row.len() == w,
                forall|k: int| 0 <= k < w ==> #[trigger] row[k] == cells[ROWS * k + r],
            decreases weeks - w,
        {
            row.push(cells[ROWS * w + r].clone());
            w += 1;
        }
        rows.push(row);
        r += 1;
    }
    rows
}

} // verus!
