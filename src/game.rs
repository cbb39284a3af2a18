use vstd::prelude::*;

use crate::collision::{check_collision, collision_at, Collision};
use crate::config::{
    MapConfig, HISTORY_LEN, INTERV, MAX_FIELD, N_LIFES, OB_WIDTH, RESTART_WAITING_TIME, ROTATE_UP,
};
use crate::flight::{
    advance_trail, lemma_trail_len, push_trail, trail_after_steps, trail_wf, turn, turned, Step,
    TrailPoint, MAX_STEP,
};
use crate::obstacle::{
    age_obstacles, aged, all_wf, first_index, incoming, incoming_of, near_pred, nearest,
    reference_y1, sorted, spawn_due, spawned, too_far, Incoming, Obstacle, MAX_COORD,
};

verus! {

/// The flying body: its angle, its vertical offset from the middle of the
/// field, and whether the player holds it flying.
pub struct Body {
    pub angle: i64,
    pub pos: i64,
    pub is_flying: bool,
}

/// What a tick did.
#[derive(Debug, PartialEq, Eq)]
pub enum Tick {
    /// Between rounds after a collision (or with no life left): only the
    /// restart countdown ran.
    Waiting,
    /// Before the first round: the frame is shown and nothing moves.
    Idle,
    /// The body hit an obstacle or an edge of the field: the round is over.
    Collided,
    /// The step was out of range: nothing moved.
    Rejected,
    /// The world moved by one step; `scored` tells whether an obstacle was passed.
    Moved { scored: bool },
}

/// State of a game: the field, the body and its trail, the obstacles, and
/// the life, score and round flags.
pub struct Game {
    pub config: MapConfig,
    pub body: Body,
    pub trail: Vec<TrailPoint>,
    pub obstacles: Vec<Obstacle>,
    pub life: i32,
    pub score: u32,
    pub best_score: u32,
    pub is_playing: bool,
    /// Milliseconds left before a new round may start.
    pub restart_waiting: u32,
    /// Distance to the next obstacle, in hundreds of pixels, as last shown.
    pub incoming_distance: u64,
}

/// The obstacle's trailing edge passes the body's position `ox` during a
/// step `dx`: it is ahead of `ox` before and at or behind it after.
pub open spec fn crosses(ox: int, trailing: int, dx: int) -> bool {
    ox < trailing <= ox + dx
}

/// A step `dx` scores: the obstacle that the body at `ox` is tested against
/// has its trailing edge cross `ox`.
pub open spec fn scores(obs: Seq<Obstacle>, ox: int, dx: int) -> bool {
    match first_index(obs, near_pred(ox)) {
        Some(i) => crosses(ox, obs[i].trailing(), dx),
        None => false,
    }
}

/// The distance shown for the next obstacle: updated while it is wholly
/// beyond the right edge, kept while it enters, zero when there is none.
pub open spec fn incoming_distance_after(obs: Seq<Obstacle>, w: int, d: u64) -> u64 {
    match incoming_of(obs, w) {
        Incoming::Clear => 0,
        Incoming::Entering => d,
        Incoming::Ahead { distance, .. } => distance,
    }
}

/// `post` is the obstacle list `pre` after a step `dx` in a field of size
/// `w` by `h` at the given score: `pre` aged, and one spawned obstacle
/// appended where one was due.
pub open spec fn obstacles_after(
    pre: Seq<Obstacle>,
    post: Seq<Obstacle>,
    dx: int,
    w: int,
    h: int,
    score: int,
) -> bool {
    let kept = aged(pre, dx, w);
    if spawn_due(pre, w) {
        &&& post.len() == kept.len() + 1
        &&& post.drop_last() == kept
        &&& spawned(
            post.last(),
            reference_y1(if pre.len() > 0 { Some(pre.last()) } else { None }, h),
            w,
            h,
            score,
        )
    } else {
        post == kept
    }
}

impl Game {
    /// The field is valid, the offset within the field's largest size, the
    /// trail within its bounds, the obstacles valid and in order, life
    /// between zero and `N_LIFES`, and the best score at least the score.
    pub open spec fn wf(&self) -> bool {
        &&& self.config.wf()
        &&& -MAX_FIELD <= self.body.pos <= MAX_FIELD
        &&& trail_wf(self.trail@)
        &&& all_wf(self.obstacles@)
        &&& sorted(self.obstacles@)
        &&& 0 <= self.life <= N_LIFES
        &&& self.is_playing ==> self.life > 0
        &&& self.score <= self.best_score
    }

    /// Horizontal position of the body, a third of the field's width.
    pub open spec fn ox(&self) -> int {
        self.config.w / 3
    }

    /// Vertical position of the body's centre.
    pub open spec fn body_y(&self) -> int {
        self.config.h / 2 + self.body.pos
    }

    /// No life is left and no round runs: no further round can start.
    pub open spec fn is_game_over(&self) -> bool {
        !self.is_playing && self.life == 0
    }

    /// A tick shows a frame: during a round, and before the first one.
    pub open spec fn shows_frame(&self) -> bool {
        self.is_playing || self.life == N_LIFES
    }

    /// The round's own values (body, trail, obstacles, score) and the field
    /// are those of `other`.
    pub open spec fn same_round(&self, other: Game) -> bool {
        &&& self.config == other.config
        &&& self.body == other.body
        &&& self.trail@ == other.trail@
        &&& self.obstacles@ == other.obstacles@
        &&& self.score == other.score
        &&& self.best_score == other.best_score
    }

    /// Life, round flag and countdown are those of `other`.
    pub open spec fn same_status(&self, other: Game) -> bool {
        &&& self.life == other.life
        &&& self.is_playing == other.is_playing
        &&& self.restart_waiting == other.restart_waiting
    }

    /// The state at the start of a round: the body level at the middle of the
    /// field, no trail, no obstacles, no score, and the round running.
    pub open spec fn round_start(&self) -> bool {
        &&& self.is_playing
        &&& self.body.pos == 0
        &&& self.body.angle == 0
        &&& self.trail@.len() == 0
        &&& self.obstacles@.len() == 0
        &&& self.score == 0
    }
}

/// One step of a round with no collision: the body moves by the step and
/// turns, the trail follows, the obstacles age and a new one may come, and a
/// passed obstacle adds one to the score.
pub open spec fn moved(pre: Game, post: Game, step: Step, r: Tick) -> bool {
    let scored = scores(pre.obstacles@, pre.ox(), step.dx as int);
    &&& r == Tick::Moved { scored }
    &&& post.same_status(pre)
    &&& post.config == pre.config
    &&& post.incoming_distance == incoming_distance_after(pre.obstacles@, pre.config.w as int, pre.incoming_distance)
    &&& post.body.is_flying == pre.body.is_flying
    &&& post.body.pos == pre.body.pos + step.dy
    &&& post.body.angle == turned(pre.body.angle as int, pre.body.is_flying, step.glide as int)
    &&& post.trail@ == advance_trail(pre.trail@, step.dx as int, step.dy as int)
    &&& post.score == if scored && pre.score < u32::MAX { pre.score + 1 } else { pre.score as int }
    &&& post.best_score == if post.score > pre.best_score { post.score } else { pre.best_score }
    &&& obstacles_after(
        pre.obstacles@,
        post.obstacles@,
        step.dx as int,
        pre.config.w as int,
        pre.config.h as int,
        pre.score as int,
    )
}

/// `post` is `pre` after one tick with the step `step`, which returned `r`.
pub open spec fn ticked(pre: Game, post: Game, step: Step, r: Tick) -> bool {
    if !pre.shows_frame() {
        &&& r == Tick::Waiting
        &&& post.same_round(pre)
        &&& post.life == pre.life
        &&& !post.is_playing
        &&& post.incoming_distance == pre.incoming_distance
        &&& post.restart_waiting == if pre.restart_waiting >= INTERV {
            pre.restart_waiting - INTERV
        } else {
            0
        }
    } else if !pre.is_playing {
        &&& r == Tick::Idle
        &&& post.same_round(pre)
        &&& post.same_status(pre)
        &&& post.incoming_distance == incoming_distance_after(pre.obstacles@, pre.config.w as int, pre.incoming_distance)
    } else if collision_at(pre.obstacles@, pre.ox(), pre.body_y(), pre.config.h as int) != Collision::Clear {
        &&& r == Tick::Collided
        &&& post.same_round(pre)
        &&& post.life == pre.life - 1
        &&& !post.is_playing
        &&& post.restart_waiting == RESTART_WAITING_TIME
        &&& post.incoming_distance == incoming_distance_after(pre.obstacles@, pre.config.w as int, pre.incoming_distance)
    } else if !step.wf() || too_far(pre.obstacles@, step.dx as int) {
        &&& r == Tick::Rejected
        &&& post.same_round(pre)
        &&& post.same_status(pre)
        &&& post.incoming_distance == incoming_distance_after(pre.obstacles@, pre.config.w as int, pre.incoming_distance)
    } else {
        moved(pre, post, step, r)
    }
}

/// `post` is `pre` after the player pressed to fly, which returned `r`.
pub open spec fn flew(pre: Game, post: Game, r: bool) -> bool {
    if pre.body.is_flying {
        &&& !r
        &&& post.same_round(pre)
        &&& post.same_status(pre)
        &&& post.body.is_flying
        &&& post.incoming_distance == pre.incoming_distance
    } else {
        &&& post.body.is_flying
        &&& post.config == pre.config
        &&& post.best_score == pre.best_score
        &&& post.life == pre.life
        &&& post.restart_waiting == pre.restart_waiting
        &&& post.incoming_distance == pre.incoming_distance
        &&& r == (pre.restart_waiting == 0 && !pre.is_playing && pre.life > 0)
        &&& if r {
            post.round_start()
        } else {
            &&& post.is_playing == pre.is_playing
            &&& post.body.pos == pre.body.pos
            &&& post.body.angle == pre.body.angle
            &&& post.trail@ == pre.trail@
            &&& post.obstacles@ == pre.obstacles@
            &&& post.score == pre.score
        }
    }
}

impl Game {
    /// A game on the given field before its first round, with all lives and
    /// the best score so far.
    pub fn new(config: MapConfig, best_score: u32) -> (r: Game)
        requires
            config.wf(),
        ensures
            r.wf(),
            r.config == config,
            r.best_score == best_score,
            r.life == N_LIFES,
            !r.is_playing,
            !r.body.is_flying,
            r.body.pos == 0,
            r.body.angle == 0,
            r.trail@.len() == 0,
            r.obstacles@.len() == 0,
            r.score == 0,
            r.restart_waiting == 0,
            r.incoming_distance == 0,
    {
        Game {
            config,
            body: Body { angle: 0, pos: 0, is_flying: false },
            trail: Vec::new(),
            obstacles: Vec::new(),
            life: N_LIFES,
            score: 0,
            best_score,
            is_playing: false,
            restart_waiting: 0,
            incoming_distance: 0,
        }
    }

    /// The player presses to fly. Where no round runs, the countdown is over
    /// and a life is left, this starts a round, and returns whether it did.
    pub fn start_fly(&mut self) -> (r: bool)
        requires
            old(self).wf(),
        ensures
            final(self).wf(),
            flew(*old(self), *final(self), r),
    {
        if self.body.is_flying {
            return false;
        }
        self.body.is_flying = true;
        if self.restart_waiting == 0 && !self.is_playing && self.life > 0 {
            self.is_playing = true;
            self.body.pos = 0;
            self.body.angle = 0;
            self.trail = Vec::new();
            self.obstacles = Vec::new();
            self.score = 0;
            true
        } else {
            false
        }
    }

    /// Position of the body's centre in the field: a third of the width
    /// across, and its offset below the middle.
    pub fn body_position(&self) -> (r: (i64, i64))
        requires
            self.wf(),
        ensures
            r.0 == self.ox(),
            r.1 == self.body_y(),
    {
        (self.config.w / 3, self.config.h / 2 + self.body.pos)
    }

    /// Whether a tick now shows a frame, as `shows_frame` says.
    pub fn is_showing(&self) -> (r: bool)
        ensures
            r == self.shows_frame(),
    {
        self.is_playing || self.life == N_LIFES
    }

    /// Whether the game is over, as `is_game_over` says.
    pub fn is_over(&self) -> (r: bool)
        ensures
            r == self.is_game_over(),
    {
        !self.is_playing && self.life == 0
    }

    /// The field changes size; the round goes on in the new field.
    pub fn resize(&mut self, config: MapConfig)
        requires
            old(self).wf(),
            config.wf(),
        ensures
            final(self).wf(),
            final(self).config == config,
            final(self).body == old(self).body,
            final(self).trail@ == old(self).trail@,
            final(self).obstacles@ == old(self).obstacles@,
            final(self).score == old(self).score,
            final(self).best_score == old(self).best_score,
            final(self).same_status(*old(self)),
            final(self).incoming_distance == old(self).incoming_distance,
    {
        self.config = config;
    }

    /// The player lets go: the body glides.
    pub fn end_fly(&mut self)
        requires
            old(self).wf(),
        ensures
            final(self).wf(),
            !final(self).body.is_flying,
            final(self).body.pos == old(self).body.pos,
            final(self).body.angle == old(self).body.angle,
            final(self).config == old(self).config,
            final(self).trail@ == old(self).trail@,
            final(self).obstacles@ == old(self).obstacles@,
            final(self).score == old(self).score,
            final(self).best_score == old(self).best_score,
            final(self).same_status(*old(self)),
            final(self).incoming_distance == old(self).incoming_distance,
    {
        self.body.is_flying = false;
    }

    /// Advances the game by one tick, as `ticked` says. `step` is the motion
    /// of the body for this tick, worked out from its angle and from
    /// `speed_squared` at its height.
    pub fn tick(&mut self, step: Step) -> (r: Tick)
        requires
            old(self).wf(),
        ensures
            final(self).wf(),
            ticked(*old(self), *final(self), step, r),
    {
        if !self.is_playing && self.life < N_LIFES {
            let rw = self.restart_waiting;
            self.restart_waiting = if rw >= INTERV { rw - INTERV } else { 0 };
            return Tick::Waiting;
        }
        let w = self.config.w;
        let h = self.config.h;
        self.incoming_distance = match incoming(&self.obstacles, w) {
            Incoming::Clear => 0,
            Incoming::Entering => self.incoming_distance,
            Incoming::Ahead { distance, .. } => distance,
        };
        if !self.is_playing {
            return Tick::Idle;
        }
        let ox = w / 3;
        let y = h / 2 + self.body.pos;
        match check_collision(&self.obstacles, ox, y, h) {
            Collision::Clear => {},
            _ => {
                self.is_playing = false;
                self.life = self.life - 1;
                self.restart_waiting = RESTART_WAITING_TIME;
                return Tick::Collided;
            },
        }
        let n = self.obstacles.len();
        if step.dx < -MAX_STEP || step.dx > MAX_STEP || step.dy < -MAX_STEP || step.dy > MAX_STEP {
            return Tick::Rejected;
        }
        if n > 0 && self.obstacles[n - 1].x > MAX_COORD + step.dx {
            return Tick::Rejected;
        }
        let ghost pre = *self;
        self.body.pos = self.body.pos + step.dy;
        self.body.angle = turn(self.body.angle, self.body.is_flying, step.glide);
        push_trail(&mut self.trail, step.dx, step.dy);
        let scored = match nearest(&self.obstacles, ox) {
            Some(i) => {
                let trailing = self.obstacles[i].x + OB_WIDTH;
                ox < trailing && trailing <= ox + step.dx
            },
            None => false,
        };
        let old_score = self.score;
        if scored && self.score < u32::MAX {
            self.score = self.score + 1;
        }
        if self.score > self.best_score {
            self.best_score = self.score;
        }
        let mut next = age_obstacles(&self.obstacles, step.dx, w);
        if n == 0 || self.obstacles[n - 1].x < w {
            let last = if n > 0 { Some(&self.obstacles[n - 1]) } else { None };
            let o = Obstacle::random_gen(last, w, h, old_score);
            let ghost kept = next@;
            next.push(o);
            assert(next@.drop_last() =~= kept);
            assert(spawned(
                next@.last(),
                reference_y1(if pre.obstacles@.len() > 0 { Some(pre.obstacles@.last()) } else { None }, h as int),
                w as int,
                h as int,
                pre.score as int,
            ));
        }
        self.obstacles = next;
        Tick::Moved { scored }
    }
}

/// `games[i + 1]` is `games[i]` after a tick with `steps[i]` that returned
/// `outcomes[i]`, for each `i`.
pub open spec fn run(games: Seq<Game>, steps: Seq<Step>, outcomes: Seq<Tick>) -> bool {
    &&& games.len() == steps.len() + 1
    &&& outcomes.len() == steps.len()
    &&& forall|i: int| 0 <= i < steps.len() ==> ticked(games[i], games[i + 1], #[trigger] steps[i], outcomes[i])
}

/// Every tick of the run moved the world.
pub open spec fn all_moved(outcomes: Seq<Tick>) -> bool {
    forall|i: int| 0 <= i < outcomes.len() ==> (#[trigger] outcomes[i]) is Moved
}

/// While the body is held flying, each tick that moves it turns it by exactly
/// `ROTATE_UP`: after `k` such ticks its angle is the first one plus
/// `k * ROTATE_UP`, with no drift, as long as that stays within `i64`.
pub proof fn lemma_flying_turns_steadily(games: Seq<Game>, steps: Seq<Step>, outcomes: Seq<Tick>)
    requires
        run(games, steps, outcomes),
        all_moved(outcomes),
        games[0].body.is_flying,
        games[0].body.angle + steps.len() * ROTATE_UP >= i64::MIN,
    ensures
        forall|k: int|
            0 <= k <= steps.len() ==> (#[trigger] games[k]).body.angle == games[0].body.angle + k * ROTATE_UP
                && games[k].body.is_flying,
{
    assert forall|k: int| 0 <= k <= steps.len() implies (#[trigger] games[k]).body.angle == games[0].body.angle
        + k * ROTATE_UP && games[k].body.is_flying by {
        lemma_flying_prefix(games, steps, outcomes, k);
    }
}

proof fn lemma_flying_prefix(games: Seq<Game>, steps: Seq<Step>, outcomes: Seq<Tick>, k: int)
    requires
        run(games, steps, outcomes),
        all_moved(outcomes),
        games[0].body.is_flying,
        games[0].body.angle + steps.len() * ROTATE_UP >= i64::MIN,
        0 <= k <= steps.len(),
    ensures
        games[k].body.angle == games[0].body.angle + k * ROTATE_UP,
        games[k].body.is_flying,
    decreases k,
{
    if k > 0 {
        lemma_flying_prefix(games, steps, outcomes, k - 1);
        assert(ticked(games[k - 1], games[k], steps[k - 1], outcomes[k - 1]));
        assert(outcomes[k - 1] is Moved);
        let n = steps.len() as int;
        assert(k * ROTATE_UP >= n * ROTATE_UP) by (nonlinear_arith)
            requires k <= n, ROTATE_UP < 0;
    }
}

/// Over ticks that all move the world, the trail is the first trail advanced
/// by each step in turn, so it never holds more than `HISTORY_LEN` points and,
/// from an empty trail, holds exactly `HISTORY_LEN` after `HISTORY_LEN + k`
/// ticks.
pub proof fn lemma_trail_over_run(games: Seq<Game>, steps: Seq<Step>, outcomes: Seq<Tick>)
    requires
        run(games, steps, outcomes),
        all_moved(outcomes),
        games[0].trail@.len() <= HISTORY_LEN,
    ensures
        games.last().trail@ == trail_after_steps(games[0].trail@, steps),
        games.last().trail@.len() == if games[0].trail@.len() + steps.len() < HISTORY_LEN {
            (games[0].trail@.len() + steps.len()) as int
        } else {
            HISTORY_LEN as int
        },
{
    lemma_trail_prefix(games, steps, outcomes, steps.len() as int);
    assert(steps.take(steps.len() as int) =~= steps);
    lemma_trail_len(games[0].trail@, steps);
}

proof fn lemma_trail_prefix(games: Seq<Game>, steps: Seq<Step>, outcomes: Seq<Tick>, k: int)
    requires
        run(games, steps, outcomes),
        all_moved(outcomes),
        0 <= k <= steps.len(),
    ensures
        games[k].trail@ == trail_after_steps(games[0].trail@, steps.take(k)),
    decreases k,
{
    if k == 0 {
        assert(steps.take(0) =~= Seq::<Step>::empty());
    } else {
        lemma_trail_prefix(games, steps, outcomes, k - 1);
        assert(ticked(games[k - 1], games[k], steps[k - 1], outcomes[k - 1]));
        assert(outcomes[k - 1] is Moved);
        assert(steps.take(k).drop_last() =~= steps.take(k - 1));
    }
}

/// Sum of the first `n` steps.
pub open spec fn travelled(steps: Seq<int>, n: int) -> int
    decreases n,
{
    if n <= 0 {
        0
    } else {
        travelled(steps, n - 1) + steps[n - 1]
    }
}

proof fn lemma_travelled_grows(steps: Seq<int>, i: int, j: int)
    requires
        0 <= i <= j <= steps.len(),
        forall|k: int| 0 <= k < steps.len() ==> steps[k] >= 0,
    ensures
        travelled(steps, i) <= travelled(steps, j),
    decreases j - i,
{
    if i < j {
        lemma_travelled_grows(steps, i, j - 1);
    }
}

/// An obstacle whose trailing edge starts at `trailing` and moves back by
/// each of `steps` in turn crosses the body's position `ox` during at most
/// one of them, so it scores at most once, where no step goes backwards.
pub proof fn lemma_crossed_once(ox: int, trailing: int, steps: Seq<int>, i: int, j: int)
    requires
        forall|k: int| 0 <= k < steps.len() ==> steps[k] >= 0,
        0 <= i < j < steps.len(),
    ensures
        !(crosses(ox, trailing - travelled(steps, i), steps[i]) && crosses(
            ox,
            trailing - travelled(steps, j),
            steps[j],
        )),
{
    lemma_travelled_grows(steps, i + 1, j);
}

/// A collision ends the round and takes exactly one life; until the next
/// round starts, further ticks only count down and take no more.
pub proof fn lemma_collision_takes_one_life(games: Seq<Game>, steps: Seq<Step>, outcomes: Seq<Tick>)
    requires
        run(games, steps, outcomes),
        steps.len() > 0,
        games[0].wf(),
        outcomes[0] == Tick::Collided,
    ensures
        forall|k: int| 1 <= k < games.len() ==> (#[trigger] games[k]).life == games[0].life - 1 && !games[k].is_playing,
        forall|k: int| 1 <= k < outcomes.len() ==> #[trigger] outcomes[k] == Tick::Waiting,
{
    assert forall|k: int| 1 <= k < games.len() implies (#[trigger] games[k]).life == games[0].life - 1
        && !games[k].is_playing && (k < outcomes.len() ==> outcomes[k] == Tick::Waiting) by {
        lemma_collision_prefix(games, steps, outcomes, k);
    }
    assert forall|k: int| 1 <= k < outcomes.len() implies #[trigger] outcomes[k] == Tick::Waiting by {
        lemma_collision_prefix(games, steps, outcomes, k);
    }
}

proof fn lemma_collision_prefix(games: Seq<Game>, steps: Seq<Step>, outcomes: Seq<Tick>, k: int)
    requires
        run(games, steps, outcomes),
        games[0].wf(),
        outcomes[0] == Tick::Collided,
        1 <= k < games.len(),
    ensures
        games[k].life == games[0].life - 1,
        !games[k].is_playing,
        k < outcomes.len() ==> outcomes[k] == Tick::Waiting,
    decreases k,
{
    assert(ticked(games[0], games[1], steps[0], outcomes[0]));
    if k > 1 {
        lemma_collision_prefix(games, steps, outcomes, k - 1);
        assert(ticked(games[k - 1], games[k], steps[k - 1], outcomes[k - 1]));
    }
    if k < outcomes.len() {
        assert(ticked(games[k], games[k + 1], steps[k], outcomes[k]));
    }
}

/// Starting a round puts the body, trail, obstacles and score back to their
/// starting values, whatever the rounds before left: two games that both
/// start a round agree on all of them.
pub proof fn lemma_round_start_resets(a: Game, a_next: Game, b: Game, b_next: Game)
    requires
        flew(a, a_next, true),
        flew(b, b_next, true),
    ensures
        a_next.round_start(),
        b_next.round_start(),
        a_next.body.pos == b_next.body.pos,
        a_next.body.angle == b_next.body.angle,
        a_next.trail@ == b_next.trail@,
        a_next.obstacles@ == b_next.obstacles@,
        a_next.score == b_next.score,
{
    assert(a_next.trail@ =~= b_next.trail@);
    assert(a_next.obstacles@ =~= b_next.obstacles@);
}

/// With no life left the game is over for good: pressing to fly starts no
/// round, and ticks leave it over.
pub proof fn lemma_game_over_is_final(pre: Game, flown: Game, r: bool, ticked_to: Game, step: Step, t: Tick)
    requires
        pre.is_game_over(),
        flew(pre, flown, r),
        ticked(pre, ticked_to, step, t),
    ensures
        !r,
        flown.is_game_over(),
        ticked_to.is_game_over(),
{
}

} // verus!
