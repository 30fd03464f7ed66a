use vstd::prelude::*;
use crate::rat::{Qr, Rat, mid_ok, grid_q, GRID, VAL_GRID_MAX};

verus! {

/// The `k`-th of the five tick values over the grid range `(ys, ye)`:
/// `ys + k * (ye - ys) / 4`, written over the common denominator `4 * GRID`.
pub open spec fn spec_tick(ys: int, ye: int, k: int) -> Qr {
    Qr { n: 4 * ys + k * (ye - ys), d: 4 * (GRID as int) }
}

/// Whether a grid amount is within the persistent view-state bounds.
pub open spec fn grid_ok(n: i64) -> bool {
    -VAL_GRID_MAX <= n <= VAL_GRID_MAX
}

/// Produces the axis tick values for the vertical range from `y_start` to
/// `y_end`, both given as grid amounts. For a non-degenerate range the result
/// is exactly five evenly spaced values from `y_start` to `y_end` inclusive,
/// in the direction of the range. For a degenerate range (`y_start == y_end`,
/// where the evenly spaced step would be zero) the result is the single value
/// `y_start`, so the generator always terminates.
pub fn calc_tick4(y_start: i64, y_end: i64) -> (ticks: Vec<Rat>)
    requires
        grid_ok(y_start),
        grid_ok(y_end),
    ensures
        forall|k: int| 0 <= k < ticks@.len() ==> (#[trigger] ticks@[k]).wf() && mid_ok(ticks@[k]),
        y_start == y_end ==> ticks@.len() == 1 && ticks@[0]@ == grid_q(y_start as int),
        y_start != y_end ==> ticks@.len() == 5 && forall|k: int|
            0 <= k < 5 ==> (#[trigger] ticks@[k])@ == spec_tick(y_start as int, y_end as int, k),
{
    let mut ticks: Vec<Rat> = Vec::new();
    if y_start == y_end {
        ticks.push(Rat { num: y_start as i128, den: GRID as i128 });
        ticks
    } else {
        let base: i128 = y_start as i128;
        let diff: i128 = y_end as i128 - base;
        ticks.push(Rat { num: 4 * base, den: 4 * (GRID as i128) });
        ticks.push(Rat { num: 4 * base + diff, den: 4 * (GRID as i128) });
        ticks.push(Rat { num: 4 * base + 2 * diff, den: 4 * (GRID as i128) });
        ticks.push(Rat { num: 4 * base + 3 * diff, den: 4 * (GRID as i128) });
        ticks.push(Rat { num: 4 * base + 4 * diff, den: 4 * (GRID as i128) });
        proof {
            assert forall|k: int| 0 <= k < 5 implies (#[trigger] ticks@[k])@ == spec_tick(
                y_start as int,
                y_end as int,
                k,
            ) by {
                if k == 0 {
                    assert(ticks@[0]@ == spec_tick(y_start as int, y_end as int, 0));
                } else if k == 1 {
                    assert(ticks@[1]@ == spec_tick(y_start as int, y_end as int, 1));
                } else if k == 2 {
                    assert(ticks@[2]@ == spec_tick(y_start as int, y_end as int, 2));
                } else if k == 3 {
                    assert(ticks@[3]@ == spec_tick(y_start as int, y_end as int, 3));
                } else {
                    assert(ticks@[4]@ == spec_tick(y_start as int, y_end as int, 4));
                }
            }
        }
        ticks
    }
}

} // verus!
