use vstd::prelude::*;

use crate::config::{HISTORY_COLOR_CHANGE, HISTORY_LEN, MAX_FIELD, ROTATE_UP, SCALE, V_MAX_2, V_MIN_2};

verus! {

/// Largest horizontal or vertical step per tick that a tick accepts.
pub const MAX_STEP: i64 = 16 * SCALE;

/// The motion of one tick, worked out by the caller from the body's angle and
/// speed: the step vector `(dx, dy)`, and `glide`, the angle of the vector
/// `(dx, dy + ROTATE_DOWN_D)`, which the body takes when it is not flying.
pub struct Step {
    pub dx: i64,
    pub dy: i64,
    pub glide: i64,
}

impl Step {
    /// Both components of the step are within `MAX_STEP`.
    pub open spec fn wf(&self) -> bool {
        &&& -MAX_STEP <= self.dx <= MAX_STEP
        &&& -MAX_STEP <= self.dy <= MAX_STEP
    }
}

/// `y` clamped to the field's height range `0..=h`.
pub open spec fn clamp_to_field(y: int, h: int) -> int {
    if y < 0 {
        0
    } else if y > h {
        h
    } else {
        y
    }
}

/// Squared speed of the body at height `y` in a field of height `h`: it grows
/// linearly from `V_MIN_2` at the top to `V_MAX_2` at the bottom. Heights
/// beyond the field count as its edges.
pub open spec fn speed_squared_at(y: int, h: int) -> int {
    V_MIN_2 + clamp_to_field(y, h) * (V_MAX_2 - V_MIN_2) / h
}

/// Executable `speed_squared_at`.
pub fn speed_squared(y: i64, h: i64) -> (r: i64)
    requires
        0 < h <= MAX_FIELD,
    ensures
        r == speed_squared_at(y as int, h as int),
        V_MIN_2 <= r <= V_MAX_2,
{
    let c: i64 = if y < 0 {
        0
    } else if y > h {
        h
    } else {
        y
    };
    assert(c * (V_MAX_2 - V_MIN_2) <= h * (V_MAX_2 - V_MIN_2)) by (nonlinear_arith)
        requires 0 <= c <= h;
    assert(h * (V_MAX_2 - V_MIN_2) <= MAX_FIELD * 72_000_000) by (nonlinear_arith)
        requires 0 < h <= MAX_FIELD;
    let q: i128 = c as i128 * (V_MAX_2 - V_MIN_2) as i128 / h as i128;
    assert(0 <= q <= V_MAX_2 - V_MIN_2) by (nonlinear_arith)
        requires q == c * (V_MAX_2 - V_MIN_2) / (h as int), 0 <= c <= h, 0 < h;
    V_MIN_2 + q as i64
}

/// The body's angle after one tick: while flying it turns by `ROTATE_UP`
/// (stopping at the least `i64`), otherwise it takes the glide angle.
pub open spec fn turned(angle: int, flying: bool, glide: int) -> int {
    if flying {
        if angle + ROTATE_UP >= i64::MIN {
            angle + ROTATE_UP
        } else {
            i64::MIN as int
        }
    } else {
        glide
    }
}

/// Executable `turned`.
pub fn turn(angle: i64, flying: bool, glide: i64) -> (r: i64)
    ensures
        r == turned(angle as int, flying, glide as int),
{
    if flying {
        if angle >= i64::MIN - ROTATE_UP {
            angle + ROTATE_UP
        } else {
            i64::MIN
        }
    } else {
        glide
    }
}

/// A point of the trail, relative to the body.
#[derive(Debug, PartialEq, Eq)]
pub struct TrailPoint {
    pub x: i64,
    pub y: i64,
}

/// The trail point at the body.
pub open spec fn origin() -> TrailPoint {
    TrailPoint { x: 0, y: 0 }
}

/// `p` moved back by the step `(dx, dy)`.
pub open spec fn shifted(p: TrailPoint, dx: int, dy: int) -> TrailPoint {
    TrailPoint { x: (p.x - dx) as i64, y: (p.y - dy) as i64 }
}

/// The trail after a step `(dx, dy)`: a new point at the body in front, the
/// others moved back by the step, and the oldest dropped beyond `HISTORY_LEN`.
pub open spec fn advance_trail(t: Seq<TrailPoint>, dx: int, dy: int) -> Seq<TrailPoint> {
    let s = seq![origin()] + t.map_values(|p: TrailPoint| shifted(p, dx, dy));
    if s.len() > HISTORY_LEN {
        s.take(HISTORY_LEN as int)
    } else {
        s
    }
}

/// At most `HISTORY_LEN` points, the `i`-th of them within `i` steps of the body.
pub open spec fn trail_wf(t: Seq<TrailPoint>) -> bool {
    &&& t.len() <= HISTORY_LEN
    &&& forall|i: int|
        0 <= i < t.len() ==> -i * MAX_STEP <= (#[trigger] t[i]).x <= i * MAX_STEP && -i * MAX_STEP
            <= t[i].y <= i * MAX_STEP
}

/// Moves the trail by the step `(dx, dy)`, as `advance_trail` says.
pub fn push_trail(trail: &mut Vec<TrailPoint>, dx: i64, dy: i64)
    requires
        trail_wf(old(trail)@),
        -MAX_STEP <= dx <= MAX_STEP,
        -MAX_STEP <= dy <= MAX_STEP,
    ensures
        final(trail)@ == advance_trail(old(trail)@, dx as int, dy as int),
        trail_wf(final(trail)@),
{
    let ghost t = trail@;
    let keep: usize = if trail.len() < HISTORY_LEN { trail.len() } else { HISTORY_LEN - 1 };
    let mut next: Vec<TrailPoint> = Vec::new();
    next.push(TrailPoint { x: 0, y: 0 });
    let mut i: usize = 0;
    while i < keep
        invariant
            keep <= t.len(),
            keep < HISTORY_LEN,
            t == trail@,
            trail_wf(t),
            -MAX_STEP <= dx <= MAX_STEP,
            -MAX_STEP <= dy <= MAX_STEP,
            i <= keep,
            next@ == seq![origin()] + t.take(i as int).map_values(
                |p: TrailPoint| shifted(p, dx as int, dy as int),
            ),
        decreases keep - i,
    {
        let p = &trail[i];
        assert(-i * MAX_STEP <= p.x <= i * MAX_STEP && -i * MAX_STEP <= p.y <= i * MAX_STEP);
        next.push(TrailPoint { x: p.x - dx, y: p.y - dy });
        i = i + 1;
        assert(t.take(i as int) == t.take(i - 1).push(t[i - 1]));
    }
    let ghost s = seq![origin()] + t.map_values(|p: TrailPoint| shifted(p, dx as int, dy as int));
    assert(next@ =~= advance_trail(t, dx as int, dy as int)) by {
        assert(t.take(keep as int).map_values(|p: TrailPoint| shifted(p, dx as int, dy as int))
            =~= t.map_values(|p: TrailPoint| shifted(p, dx as int, dy as int)).take(keep as int));
        if s.len() > HISTORY_LEN {
            assert(s.take(HISTORY_LEN as int) =~= next@);
        } else {
            assert(s =~= next@);
        }
    }
    assert forall|j: int| 0 <= j < next@.len() implies -j * MAX_STEP <= (#[trigger] next@[j]).x
        <= j * MAX_STEP && -j * MAX_STEP <= next@[j].y <= j * MAX_STEP by {
        if j > 0 {
            assert(next@[j] == shifted(t[j - 1], dx as int, dy as int));
        }
    }
    *trail = next;
}

/// The trail after each of `steps` in turn.
pub open spec fn trail_after_steps(t: Seq<TrailPoint>, steps: Seq<Step>) -> Seq<TrailPoint>
    decreases steps.len(),
{
    if steps.len() == 0 {
        t
    } else {
        let before = trail_after_steps(t, steps.drop_last());
        advance_trail(before, steps.last().dx as int, steps.last().dy as int)
    }
}

/// The trail never holds more than `HISTORY_LEN` points, and after `n` steps
/// from a trail of `m` points it holds `m + n` of them, or `HISTORY_LEN` where
/// that is fewer: from an empty trail, `HISTORY_LEN + k` steps leave exactly
/// `HISTORY_LEN`.
pub proof fn lemma_trail_len(t: Seq<TrailPoint>, steps: Seq<Step>)
    requires
        t.len() <= HISTORY_LEN,
    ensures
        trail_after_steps(t, steps).len() <= HISTORY_LEN,
        trail_after_steps(t, steps).len() == if t.len() + steps.len() < HISTORY_LEN {
            (t.len() + steps.len()) as int
        } else {
            HISTORY_LEN as int
        },
    decreases steps.len(),
{
    if steps.len() > 0 {
        lemma_trail_len(t, steps.drop_last());
    }
}

/// Grey level of the trail after its first `count` points: white at the
/// body, one level darker for each `HISTORY_COLOR_CHANGE` points, and never
/// below black.
pub fn trail_shade(count: usize) -> (r: u8)
    ensures
        count as int / (HISTORY_COLOR_CHANGE as int) <= 255 ==> r == 255 - count as int / (HISTORY_COLOR_CHANGE as int),
        count as int / (HISTORY_COLOR_CHANGE as int) > 255 ==> r == 0,
{
    let bands = count / HISTORY_COLOR_CHANGE;
    if bands > 255 {
        0
    } else {
        255 - bands as u8
    }
}

} // verus!
