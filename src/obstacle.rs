use vstd::prelude::*;

use crate::config::{
    MapConfig, BIRD_SIZE, CHECK_SIZE, MAX_FIELD, MIN_SPACE, NEXT_OB_WIDTH, OB_WIDTH, SCALE,
};
use crate::rng::draw;

verus! {

/// Largest distance from the origin at which an obstacle's leading edge is kept.
pub const MAX_COORD: i64 = 1_152_921_504_606_846_976;

/// A pair of blocking regions with an open gap between them: the upper one
/// ends at `y1`, the lower one begins at `y2`, and both start at `x`.
#[derive(Debug, PartialEq, Eq)]
pub struct Obstacle {
    pub x: i64,
    pub y1: i64,
    pub y2: i64,
}

impl Obstacle {
    /// The gap lies within the field's largest size and is at least
    /// `MIN_SPACE` high; the leading edge is within `MAX_COORD`.
    pub open spec fn wf(&self) -> bool {
        &&& 0 <= self.y1
        &&& self.y1 + MIN_SPACE <= self.y2 <= MAX_FIELD
        &&& -MAX_COORD <= self.x <= MAX_COORD
    }

    /// Horizontal position of the trailing edge.
    pub open spec fn trailing(&self) -> int {
        self.x + OB_WIDTH
    }
}

/// Every obstacle of the list is well formed.
pub open spec fn all_wf(obs: Seq<Obstacle>) -> bool {
    forall|i: int| 0 <= i < obs.len() ==> (#[trigger] obs[i]).wf()
}

/// Leading edges in ascending order: the nearest obstacle comes first.
pub open spec fn sorted(obs: Seq<Obstacle>) -> bool {
    forall|i: int, j: int| 0 <= i <= j < obs.len() ==> obs[i].x <= obs[j].x
}

/// Index of the first obstacle of `obs` that meets `p`.
pub open spec fn first_index(obs: Seq<Obstacle>, p: spec_fn(Obstacle) -> bool) -> Option<int>
    decreases obs.len(),
{
    if obs.len() == 0 {
        None
    } else if p(obs[0]) {
        Some(0)
    } else {
        match first_index(obs.drop_first(), p) {
            Some(i) => Some(i + 1),
            None => None,
        }
    }
}

/// `first_index` is the least index that meets the predicate.
pub proof fn lemma_first_index(obs: Seq<Obstacle>, p: spec_fn(Obstacle) -> bool)
    ensures
        first_index(obs, p) matches Some(i) ==> {
            &&& 0 <= i < obs.len()
            &&& p(obs[i])
            &&& forall|j: int| 0 <= j < i ==> !p(#[trigger] obs[j])
        },
        first_index(obs, p) is None ==> forall|j: int| 0 <= j < obs.len() ==> !p(#[trigger] obs[j]),
    decreases obs.len(),
{
    if obs.len() > 0 {
        lemma_first_index(obs.drop_first(), p);
        if !p(obs[0]) {
            assert forall|j: int| 1 <= j < obs.len() implies obs.drop_first()[j - 1] == obs[j] by {}
        }
    }
}

/// The obstacle's span, widened by the body's half size on each side, holds
/// the horizontal position `ox`.
pub open spec fn near(o: Obstacle, ox: int) -> bool {
    o.x - CHECK_SIZE < ox < o.x + OB_WIDTH + CHECK_SIZE
}

/// `near` as a predicate on obstacles.
pub open spec fn near_pred(ox: int) -> spec_fn(Obstacle) -> bool {
    |o: Obstacle| near(o, ox)
}

/// Index of the first obstacle whose widened span holds `ox`: the one the
/// body at `ox` is tested against.
pub fn nearest(obstacles: &Vec<Obstacle>, ox: i64) -> (r: Option<usize>)
    requires
        all_wf(obstacles@),
    ensures
        r matches Some(i) ==> first_index(obstacles@, near_pred(ox as int)) == Some(i as int),
        r matches Some(i) ==> i < obstacles@.len() && near(obstacles@[i as int], ox as int),
        r is None ==> first_index(obstacles@, near_pred(ox as int)) is None,
{
    proof {
        lemma_first_index(obstacles@, near_pred(ox as int));
    }
    let mut i: usize = 0;
    while i < obstacles.len()
        invariant
            i <= obstacles@.len(),
            all_wf(obstacles@),
            forall|j: int| 0 <= j < i ==> !near_pred(ox as int)(#[trigger] obstacles@[j]),
        decreases obstacles@.len() - i,
    {
        let o = &obstacles[i];
        assert(o.wf());
        if o.x - CHECK_SIZE < ox && ox < o.x + OB_WIDTH + CHECK_SIZE {
            assert(near_pred(ox as int)(obstacles@[i as int]));
            proof {
                lemma_first_index(obstacles@, near_pred(ox as int));
            }
            return Some(i);
        }
        i = i + 1;
    }
    None
}

/// Smallest spawn distance at the given score: three obstacle widths at
/// first, one fewer for each point, and never below zero.
pub open spec fn distance_floor(score: int) -> int {
    if score < 3 {
        (3 - score) * OB_WIDTH
    } else {
        0
    }
}

/// Width of the range of spawn distances at the given score: six obstacle
/// widths at first, one fewer for each point, and never below four.
pub open spec fn distance_span(score: int) -> int {
    if score < 2 {
        (6 - score) * OB_WIDTH
    } else {
        4 * OB_WIDTH
    }
}

/// The range `lo..hi` from which the distance between the field's right edge
/// and the next obstacle (beyond two obstacle widths) is drawn.
pub fn gap_distance_range(score: u32) -> (r: (i64, i64))
    ensures
        r.0 == distance_floor(score as int),
        r.1 == distance_floor(score as int) + distance_span(score as int),
{
    let floor: i64 = if score < 3 { (3 - score as i64) * OB_WIDTH } else { 0 };
    let span: i64 = if score < 2 { (6 - score as i64) * OB_WIDTH } else { 4 * OB_WIDTH };
    (floor, floor + span)
}

/// How far the gap may move up or down from the previous one for a spawn
/// distance `dis`: one and a half body sizes times the square of `dis` in
/// obstacle widths.
pub open spec fn max_dy(dis: int) -> int {
    dis * dis * (3 * BIRD_SIZE) / (2 * OB_WIDTH * OB_WIDTH)
}

/// Upper edge of the reference gap: the previous obstacle's, or a third of
/// the field height where there is none.
pub open spec fn reference_y1(last: Option<Obstacle>, h: int) -> int {
    match last {
        Some(o) => o.y1 as int,
        None => h / 3,
    }
}

/// The window `lo..hi` from which the upper edge of a gap of height `space`
/// is drawn: `max_dy(dis)` around `last_y1`, kept within the field. Where it
/// is empty the gap's upper edge is `lo`.
pub open spec fn gap_window(last_y1: int, dis: int, space: int, h: int) -> (int, int) {
    let dy = max_dy(dis);
    let below = if last_y1 - dy > 0 { last_y1 - dy } else { 0 };
    let lo = if below < h - space - 1 { below } else { h - space - 1 };
    let hi = if last_y1 + dy < h - space { last_y1 + dy } else { h - space };
    (lo, hi)
}

/// Largest spawn distance at any score.
pub open spec fn max_distance() -> int {
    9 * OB_WIDTH
}

/// Executable `gap_window`.
pub fn window(last_y1: i64, dis: i64, space: i64, h: i64) -> (r: (i64, i64))
    requires
        0 <= last_y1 <= MAX_FIELD,
        0 <= dis <= max_distance(),
        MIN_SPACE <= space < MIN_SPACE * 3 / 2,
        MIN_SPACE * 3 / 2 <= h <= MAX_FIELD,
    ensures
        r.0 == gap_window(last_y1 as int, dis as int, space as int, h as int).0,
        r.1 == gap_window(last_y1 as int, dis as int, space as int, h as int).1,
{
    assert(0 <= dis * dis * (3 * BIRD_SIZE) <= 900_000 * 900_000 * 384_000) by (nonlinear_arith)
        requires 0 <= dis <= 900_000;
    let dy: i64 = dis * dis * (3 * BIRD_SIZE) / (2 * OB_WIDTH * OB_WIDTH);
    let below: i64 = if last_y1 - dy > 0 { last_y1 - dy } else { 0 };
    let lo: i64 = if below < h - space - 1 { below } else { h - space - 1 };
    let hi: i64 = if last_y1 + dy < h - space { last_y1 + dy } else { h - space };
    (lo, hi)
}

/// What holds of an obstacle spawned for a field of width `w` and height `h`,
/// at the given score, after a gap whose upper edge was `last_y1`: its
/// distance beyond two obstacle widths past the right edge lies in the
/// score's range, its gap height in `MIN_SPACE..MIN_SPACE * 3 / 2`, and its
/// upper edge in the window that these give.
pub open spec fn spawned(o: Obstacle, last_y1: int, w: int, h: int, score: int) -> bool {
    let dis = o.x - w - 2 * OB_WIDTH;
    let space = o.y2 - o.y1;
    let (lo, hi) = gap_window(last_y1, dis, space, h);
    &&& distance_floor(score) <= dis < distance_floor(score) + distance_span(score)
    &&& MIN_SPACE <= space < MIN_SPACE * 3 / 2
    &&& if lo < hi {
        lo <= o.y1 < hi
    } else {
        o.y1 == lo
    }
}

impl Obstacle {
    /// The next obstacle after `last` (if any) for a field of width `w` and
    /// height `h` at the given score. The gap lies within the field and its
    /// height within `MIN_SPACE..=MIN_SPACE * 3 / 2`; the obstacle starts
    /// beyond the right edge.
    pub fn random_gen(last: Option<&Obstacle>, w: i64, h: i64, score: u32) -> (r: Obstacle)
        requires
            (MapConfig { w, h }).wf(),
            last matches Some(o) ==> o.wf(),
        ensures
            spawned(
                r,
                match last {
                    Some(o) => o.y1 as int,
                    None => h / 3,
                },
                w as int,
                h as int,
                score as int,
            ),
            0 <= r.y1,
            r.y2 <= h,
            MIN_SPACE <= r.y2 - r.y1 <= MIN_SPACE * 3 / 2,
            r.x > w,
            r.wf(),
    {
        let (dlo, dhi) = gap_distance_range(score);
        let dis = draw(0, dhi - dlo) + dlo;
        let last_y1: i64 = match last {
            Some(o) => o.y1,
            None => h / 3,
        };
        let space = draw(MIN_SPACE, MIN_SPACE * 3 / 2);
        let (lo, hi) = window(last_y1, dis, space, h);
        let y1 = if lo < hi { draw(lo, hi) } else { lo };
        Obstacle { x: w + dis + 2 * OB_WIDTH, y1, y2: y1 + space }
    }
}

/// The obstacle's trailing edge lies beyond the right edge `w`.
pub open spec fn entering_pred(w: int) -> spec_fn(Obstacle) -> bool {
    |o: Obstacle| o.x + OB_WIDTH > w
}

/// What the field shows of the obstacle that comes next.
#[derive(Debug, PartialEq, Eq)]
pub enum Incoming {
    /// No obstacle reaches beyond the right edge.
    Clear,
    /// The next obstacle is already partly in the field.
    Entering,
    /// The next obstacle, `obstacles[index]`, is still wholly beyond the right
    /// edge, by `distance` hundreds of pixels.
    Ahead { index: usize, distance: u64 },
}

/// The `Incoming` for the obstacles `obs` and a field of width `w`.
pub open spec fn incoming_of(obs: Seq<Obstacle>, w: int) -> Incoming {
    match first_index(obs, entering_pred(w)) {
        None => Incoming::Clear,
        Some(i) => if obs[i].x > w {
            Incoming::Ahead { index: i as usize, distance: ((obs[i].x - w) / (100 * SCALE as int)) as u64 }
        } else {
            Incoming::Entering
        },
    }
}

/// Finds the next obstacle to come into a field of width `w`, as
/// `incoming_of` says.
pub fn incoming(obstacles: &Vec<Obstacle>, w: i64) -> (r: Incoming)
    requires
        all_wf(obstacles@),
        0 < w <= MAX_FIELD,
    ensures
        r == incoming_of(obstacles@, w as int),
{
    let mut i: usize = 0;
    while i < obstacles.len()
        invariant
            i <= obstacles@.len(),
            all_wf(obstacles@),
            0 < w <= MAX_FIELD,
            forall|j: int| 0 <= j < i ==> !entering_pred(w as int)(#[trigger] obstacles@[j]),
        decreases obstacles@.len() - i,
    {
        let o = &obstacles[i];
        assert(o.wf());
        if o.x + OB_WIDTH > w {
            assert(entering_pred(w as int)(obstacles@[i as int]));
            proof {
                lemma_first_index(obstacles@, entering_pred(w as int));
            }
            if o.x > w {
                return Incoming::Ahead { index: i, distance: ((o.x - w) / (100 * SCALE)) as u64 };
            } else {
                return Incoming::Entering;
            }
        }
        i = i + 1;
    }
    proof {
        lemma_first_index(obstacles@, entering_pred(w as int));
    }
    Incoming::Clear
}

/// `o` moved left by `dx`.
pub open spec fn moved(o: Obstacle, dx: int) -> Obstacle {
    Obstacle { x: (o.x - dx) as i64, y1: o.y1, y2: o.y2 }
}

/// The obstacles after the field scrolls by `dx`: each moved left by `dx`,
/// and those whose leading edge is then at or beyond `-w` dropped.
pub open spec fn aged(obs: Seq<Obstacle>, dx: int, w: int) -> Seq<Obstacle> {
    obs.map_values(|o: Obstacle| moved(o, dx)).filter(|o: Obstacle| o.x > -w)
}

/// A new obstacle is due when there is none, or when the last one's leading
/// edge has come within the field of width `w`.
pub open spec fn spawn_due(obs: Seq<Obstacle>, w: int) -> bool {
    obs.len() == 0 || obs.last().x < w
}

/// Moving by `dx` would take the farthest obstacle beyond `MAX_COORD`.
pub open spec fn too_far(obs: Seq<Obstacle>, dx: int) -> bool {
    obs.len() > 0 && obs.last().x - dx > MAX_COORD
}

/// Scrolls the obstacles by `dx` in a field of width `w`, as `aged` says.
pub fn age_obstacles(obstacles: &Vec<Obstacle>, dx: i64, w: i64) -> (r: Vec<Obstacle>)
    requires
        all_wf(obstacles@),
        sorted(obstacles@),
        !too_far(obstacles@, dx as int),
        -MAX_FIELD <= dx <= MAX_FIELD,
        0 < w <= MAX_FIELD,
    ensures
        r@ == aged(obstacles@, dx as int, w as int),
        all_wf(r@),
        sorted(r@),
        forall|k: int| 0 <= k < r@.len() ==> (#[trigger] r@[k]).x + dx <= obstacles@.last().x,
{
    let ghost f = |o: Obstacle| moved(o, dx as int);
    let ghost p = |o: Obstacle| o.x > -w;
    let mut r: Vec<Obstacle> = Vec::new();
    let mut i: usize = 0;
    while i < obstacles.len()
        invariant
            i <= obstacles@.len(),
            all_wf(obstacles@),
            sorted(obstacles@),
            !too_far(obstacles@, dx as int),
            -MAX_FIELD <= dx <= MAX_FIELD,
            0 < w <= MAX_FIELD,
            f == (|o: Obstacle| moved(o, dx as int)),
            p == (|o: Obstacle| o.x > -w),
            r@ == obstacles@.take(i as int).map_values(f).filter(p),
            all_wf(r@),
            sorted(r@),
            i == 0 ==> r@.len() == 0,
            i > 0 ==> forall|k: int| 0 <= k < r@.len() ==> (#[trigger] r@[k]).x + dx <= obstacles@[i - 1].x,
        decreases obstacles@.len() - i,
    {
        let o = &obstacles[i];
        assert(o.wf());
        assert(o.x <= obstacles@.last().x);
        let m = Obstacle { x: o.x - dx, y1: o.y1, y2: o.y2 };
        let ghost before = obstacles@.take(i as int).map_values(f);
        let ghost after = obstacles@.take(i + 1).map_values(f);
        assert(f(obstacles@[i as int]) == m);
        assert(after =~= before.push(m));
        assert(after.drop_last() =~= before);
        assert(after.last() == m);
        assert(after.filter(p) == if p(m) { before.filter(p).push(m) } else { before.filter(p) }) by {
            reveal(Seq::filter);
        }
        if m.x > -w {
            r.push(m);
        }
        i = i + 1;
    }
    assert(obstacles@.take(obstacles@.len() as int) =~= obstacles@);
    r
}

/// An axis-aligned rectangle to draw: corner `(x, y)`, width `w`, height `h`.
#[derive(Debug, PartialEq, Eq)]
pub struct Rect {
    pub x: i64,
    pub y: i64,
    pub w: i64,
    pub h: i64,
}

impl Obstacle {
    /// The two blocking regions in a field of height `h`: above the gap from
    /// the top down to `y1`, and below it from `y2` down to the bottom.
    pub fn rects(&self, h: i64) -> (r: (Rect, Rect))
        requires
            self.wf(),
            0 < h <= MAX_FIELD,
        ensures
            r.0 == (Rect { x: self.x, y: 0, w: OB_WIDTH, h: self.y1 }),
            r.1 == (Rect { x: self.x, y: self.y2, w: OB_WIDTH, h: (h - self.y2) as i64 }),
    {
        (
            Rect { x: self.x, y: 0, w: OB_WIDTH, h: self.y1 },
            Rect { x: self.x, y: self.y2, w: OB_WIDTH, h: h - self.y2 },
        )
    }

    /// The preview of this obstacle at the right edge of a field of width `w`
    /// and height `h`: a strip of `NEXT_OB_WIDTH` with the same gap.
    pub fn preview_rects(&self, w: i64, h: i64) -> (r: (Rect, Rect))
        requires
            self.wf(),
            0 < w <= MAX_FIELD,
            0 < h <= MAX_FIELD,
        ensures
            r.0 == (Rect { x: (w - NEXT_OB_WIDTH) as i64, y: 0, w: NEXT_OB_WIDTH, h: self.y1 }),
            r.1 == (Rect { x: (w - NEXT_OB_WIDTH) as i64, y: self.y2, w: NEXT_OB_WIDTH, h: (h - self.y2) as i64 }),
    {
        (
            Rect { x: w - NEXT_OB_WIDTH, y: 0, w: NEXT_OB_WIDTH, h: self.y1 },
            Rect { x: w - NEXT_OB_WIDTH, y: self.y2, w: NEXT_OB_WIDTH, h: h - self.y2 },
        )
    }
}

} // verus!
