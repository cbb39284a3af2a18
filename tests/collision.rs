use flying_bird::collision::{check_collision, Collision};
use flying_bird::obstacle::Obstacle;

const H: i64 = 1_024_000;
const OX: i64 = 455_111;

#[test]
fn open_sky_is_clear() {
    assert_eq!(check_collision(&Vec::new(), OX, 512_000, H), Collision::Clear);
    assert_eq!(check_collision(&Vec::new(), OX, 69_000, H), Collision::Clear);
    assert_eq!(check_collision(&Vec::new(), OX, H - 69_000, H), Collision::Clear);
}

#[test]
fn field_edges_collide() {
    assert_eq!(check_collision(&Vec::new(), OX, 68_999, H), Collision::Upper);
    assert_eq!(check_collision(&Vec::new(), OX, H - 68_999, H), Collision::Lower);
    assert_eq!(check_collision(&Vec::new(), OX, -500_000, H), Collision::Upper);
    assert_eq!(check_collision(&Vec::new(), OX, 5_000_000, H), Collision::Lower);
}

#[test]
fn obstacle_gap_bounds_body() {
    let obs = vec![Obstacle { x: 400_000, y1: 300_000, y2: 700_000 }];
    assert_eq!(check_collision(&obs, OX, 500_000, H), Collision::Clear);
    assert_eq!(check_collision(&obs, OX, 369_000, H), Collision::Clear);
    assert_eq!(check_collision(&obs, OX, 368_999, H), Collision::Upper);
    assert_eq!(check_collision(&obs, OX, 631_001, H), Collision::Lower);
}

#[test]
fn obstacle_out_of_span_is_ignored() {
    let obs = vec![
        Obstacle { x: 200_000, y1: 300_000, y2: 700_000 },
        Obstacle { x: 600_000, y1: 300_000, y2: 700_000 },
    ];
    assert_eq!(check_collision(&obs, OX, 200_000, H), Collision::Clear);
    let obs = vec![Obstacle { x: 524_110, y1: 300_000, y2: 700_000 }];
    assert_eq!(check_collision(&obs, OX, 200_000, H), Collision::Upper);
}
