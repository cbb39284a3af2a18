use vstd::prelude::*;

verus! {

/// Length units per field pixel.
pub const SCALE: i64 = 1000;

/// Angle units per radian.
pub const ANGLE_SCALE: i64 = 1_000_000;

/// Side of the body's square sprite.
pub const BIRD_SIZE: i64 = 128 * SCALE;

/// The field is at least this many body sizes high.
pub const H_BIRD_RATIO: i64 = 8;

/// Screen pixels that one body size may take at most.
pub const MAX_BIRD_PX: i64 = 96;

/// Half side of the square that stands for the body in collision tests: half
/// the sprite and a margin of five pixels.
pub const CHECK_SIZE: i64 = 64 * SCALE + 5 * SCALE;

/// Width of an obstacle.
pub const OB_WIDTH: i64 = 100 * SCALE;

/// Width of the preview strip drawn for an incoming obstacle.
pub const NEXT_OB_WIDTH: i64 = 30 * SCALE;

/// Most points that the trail keeps.
pub const HISTORY_LEN: usize = 250;

/// Number of trail points drawn in one shade.
pub const HISTORY_COLOR_CHANGE: usize = 15;

/// Milliseconds between two ticks.
pub const INTERV: u32 = 8;

/// Squared speed (in squared length units per tick) at the top of the field.
pub const V_MIN_2: i64 = 9 * SCALE * SCALE;

/// Squared speed (in squared length units per tick) at the bottom of the field.
pub const V_MAX_2: i64 = 81 * SCALE * SCALE;

/// Angle change per tick while flying: the nose pitches up.
pub const ROTATE_UP: i64 = -22_000;

/// Downward bias added to the vertical step when the glide angle is computed.
pub const ROTATE_DOWN_D: i64 = 120;

/// Lives at the start of a game.
pub const N_LIFES: i32 = 10;

/// Milliseconds to wait after a collision before a new round may start.
pub const RESTART_WAITING_TIME: u32 = 1500;

/// Smallest field height that `calc` gives.
pub const MIN_FIELD: i64 = BIRD_SIZE * H_BIRD_RATIO;

/// Smallest gap height between the two halves of an obstacle.
pub const MIN_SPACE: i64 = 3 * BIRD_SIZE;

/// Largest field width or height that the integer model holds.
pub const MAX_FIELD: i64 = 1_099_511_627_776;

/// Size of the playing field, in length units.
#[derive(Debug, Clone, Copy, PartialEq, Eq)]
pub struct MapConfig {
    pub w: i64,
    pub h: i64,
}

impl MapConfig {
    /// A field of positive width, high enough for the tallest gap, and
    /// within `MAX_FIELD`.
    pub open spec fn wf(&self) -> bool {
        &&& 0 < self.w <= MAX_FIELD
        &&& MIN_SPACE * 3 / 2 <= self.h <= MAX_FIELD
    }

    /// Field height for a screen of the given height, in pixels.
    pub open spec fn height_for(screen_height: int) -> int {
        if MIN_FIELD >= screen_height * BIRD_SIZE / (MAX_BIRD_PX as int) {
            MIN_FIELD as int
        } else {
            screen_height * BIRD_SIZE / (MAX_BIRD_PX as int)
        }
    }

    /// Field width for a screen of the given size, in pixels: the screen's
    /// aspect ratio kept.
    pub open spec fn width_for(screen_width: int, screen_height: int) -> int {
        Self::height_for(screen_height) * screen_width / screen_height
    }

    /// Field size for a screen of the given size in pixels: one body size is
    /// an eighth of the field height, and takes at most `MAX_BIRD_PX` screen
    /// pixels. `None` where a side of the screen is zero, or where the field
    /// would exceed `MAX_FIELD`.
    pub fn calc(screen_width: u32, screen_height: u32) -> (r: Option<MapConfig>)
        ensures
            r is None <==> (screen_width == 0 || screen_height == 0
                || Self::width_for(screen_width as int, screen_height as int) > MAX_FIELD
                || Self::height_for(screen_height as int) > MAX_FIELD),
            r matches Some(c) ==> {
                &&& c.wf()
                &&& c.h == Self::height_for(screen_height as int)
                &&& c.w == Self::width_for(screen_width as int, screen_height as int)
            },
    {
        if screen_width == 0 || screen_height == 0 {
            return None;
        }
        let sh: u128 = screen_height as u128;
        let sw: u128 = screen_width as u128;
        assert(sh * 128000 <= 0x1_0000_0000 * 128000) by (nonlinear_arith)
            requires sh < 0x1_0000_0000;
        let scaled: u128 = sh * BIRD_SIZE as u128 / MAX_BIRD_PX as u128;
        let h: u128 = if MIN_FIELD as u128 >= scaled { MIN_FIELD as u128 } else { scaled };
        assert(h * sw <= 0x1_0000_0000 * 0x1_0000_0000 * 128000) by (nonlinear_arith)
            requires h <= 0x1_0000_0000 * 128000, sw < 0x1_0000_0000;
        let w: u128 = h * sw / sh;
        if h > MAX_FIELD as u128 || w > MAX_FIELD as u128 {
            return None;
        }
        proof {
            let (hi, wi, si) = (h as int, screen_width as int, screen_height as int);
            assert(hi * wi / si >= 1) by (nonlinear_arith)
                requires hi >= MIN_FIELD, wi >= 1, si >= 1,
                    hi >= si * 128000 / 96;
        }
        Some(MapConfig { w: w as i64, h: h as i64 })
    }
}

} // verus!
