use flying_bird::config::{HISTORY_LEN, ROTATE_UP, V_MAX_2, V_MIN_2};
use flying_bird::flight::{push_trail, speed_squared, trail_shade, turn, TrailPoint};

#[test]
fn speed_grows_towards_bottom() {
    let h = 1_024_000;
    assert_eq!(speed_squared(0, h), V_MIN_2);
    assert_eq!(speed_squared(0, h), 9_000_000);
    assert_eq!(speed_squared(h, h), V_MAX_2);
    assert_eq!(speed_squared(h / 2, h), 45_000_000);
    assert_eq!(speed_squared(256_000, h), 27_000_000);
    assert_eq!(speed_squared(-5, h), V_MIN_2);
    assert_eq!(speed_squared(h + 5, h), V_MAX_2);
}

#[test]
fn turn_while_flying_and_gliding() {
    assert_eq!(turn(0, true, 999), ROTATE_UP);
    assert_eq!(turn(100_000, true, 999), 78_000);
    assert_eq!(turn(100_000, false, 11_999), 11_999);
    assert_eq!(turn(i64::MIN + 5, true, 0), i64::MIN);
}

#[test]
fn angle_drops_by_fixed_step_while_flying() {
    let mut a: i64 = 0;
    for k in 1..=1000i64 {
        a = turn(a, true, 12_345);
        assert_eq!(a, k * ROTATE_UP);
    }
}

#[test]
fn trail_moves_back_by_step() {
    let mut t: Vec<TrailPoint> = Vec::new();
    push_trail(&mut t, 10_000, 2_000);
    assert_eq!(t, vec![TrailPoint { x: 0, y: 0 }]);
    push_trail(&mut t, 10_000, -1_000);
    assert_eq!(t, vec![TrailPoint { x: 0, y: 0 }, TrailPoint { x: -10_000, y: 1_000 }]);
    push_trail(&mut t, 3_000, 4_000);
    assert_eq!(
        t,
        vec![
            TrailPoint { x: 0, y: 0 },
            TrailPoint { x: -3_000, y: -4_000 },
            TrailPoint { x: -13_000, y: -3_000 }
        ]
    );
}

#[test]
fn trail_length_is_capped() {
    let mut t: Vec<TrailPoint> = Vec::new();
    for n in 1..=HISTORY_LEN + 10 {
        push_trail(&mut t, 5_000, 0);
        assert_eq!(t.len(), n.min(HISTORY_LEN));
    }
    assert_eq!(t.len(), HISTORY_LEN);
    assert_eq!(t[0], TrailPoint { x: 0, y: 0 });
    assert_eq!(t[HISTORY_LEN - 1], TrailPoint { x: -5_000 * (HISTORY_LEN as i64 - 1), y: 0 });
}

#[test]
fn trail_shade_bands() {
    assert_eq!(trail_shade(0), 255);
    assert_eq!(trail_shade(14), 255);
    assert_eq!(trail_shade(15), 254);
    assert_eq!(trail_shade(30), 253);
    assert_eq!(trail_shade(250), 239);
    assert_eq!(trail_shade(usize::MAX), 0);
}
