use vstd::prelude::*;

use crate::config::{CHECK_SIZE, MAX_FIELD};
use crate::obstacle::{all_wf, first_index, near_pred, nearest, Obstacle, MAX_COORD};

verus! {

/// Outcome of a collision test.
#[derive(Debug, PartialEq, Eq)]
pub enum Collision {
    Clear,
    /// The body reaches into the upper obstacle or above the field.
    Upper,
    /// The body reaches into the lower obstacle or below the field.
    Lower,
}

/// The open band `(lo, hi)` that the body at `ox` must stay in: the gap of
/// the first obstacle whose widened span holds `ox`, within the field, or the
/// whole field height `0..h` where there is none.
pub open spec fn gap_bounds(obs: Seq<Obstacle>, ox: int, h: int) -> (int, int) {
    match first_index(obs, near_pred(ox)) {
        Some(i) => (
            if obs[i].y1 > 0 { obs[i].y1 as int } else { 0 },
            if obs[i].y2 < h { obs[i].y2 as int } else { h },
        ),
        None => (0, h),
    }
}

/// The body, the square of half side `CHECK_SIZE` centred at `(ox, y)`, against
/// the band of `gap_bounds`: below it comes first, then above.
pub open spec fn collision_at(obs: Seq<Obstacle>, ox: int, y: int, h: int) -> Collision {
    let (lo, hi) = gap_bounds(obs, ox, h);
    if y + CHECK_SIZE > hi {
        Collision::Lower
    } else if y - CHECK_SIZE < lo {
        Collision::Upper
    } else {
        Collision::Clear
    }
}

/// Tests the body centred at `(ox, y)` against the obstacles and the edges of
/// a field of height `h`. The body is taken as the upright square of half
/// side `CHECK_SIZE` (half the sprite and a five-pixel margin) at every angle,
/// in place of the outline of its rotated sprite; the obstacles are the
/// rectangles above `y1` and below `y2`.
pub fn check_collision(obstacles: &Vec<Obstacle>, ox: i64, y: i64, h: i64) -> (r: Collision)
    requires
        all_wf(obstacles@),
        0 <= ox <= MAX_FIELD,
        0 < h <= MAX_FIELD,
        -MAX_COORD <= y <= MAX_COORD,
    ensures
        r == collision_at(obstacles@, ox as int, y as int, h as int),
{
    let (lo, hi): (i64, i64) = match nearest(obstacles, ox) {
        Some(i) => {
            let o = &obstacles[i];
            assert(o.wf());
            (if o.y1 > 0 { o.y1 } else { 0 }, if o.y2 < h { o.y2 } else { h })
        },
        None => (0, h),
    };
    if y + CHECK_SIZE > hi {
        Collision::Lower
    } else if y - CHECK_SIZE < lo {
        Collision::Upper
    } else {
        Collision::Clear
    }
}

} // verus!
