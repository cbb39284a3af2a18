use flying_bird::config::{MIN_SPACE, NEXT_OB_WIDTH, OB_WIDTH};
use flying_bird::obstacle::{
    age_obstacles, gap_distance_range, incoming, nearest, window, Incoming, Obstacle, Rect,
};

fn ob(x: i64, y1: i64, y2: i64) -> Obstacle {
    Obstacle { x, y1, y2 }
}

#[test]
fn distance_range_by_score() {
    assert_eq!(gap_distance_range(0), (300_000, 900_000));
    assert_eq!(gap_distance_range(1), (200_000, 700_000));
    assert_eq!(gap_distance_range(2), (100_000, 500_000));
    assert_eq!(gap_distance_range(3), (0, 400_000));
    assert_eq!(gap_distance_range(5), (0, 400_000));
    assert_eq!(gap_distance_range(1000), (0, 400_000));
}

#[test]
fn distance_range_shrinks_with_score() {
    let (lo0, hi0) = gap_distance_range(0);
    let (lo5, hi5) = gap_distance_range(5);
    assert!(hi5 - lo5 < hi0 - lo0);
    assert!(hi5 < hi0);
    assert!(lo5 < lo0);
    assert_eq!(hi0 - lo0, 6 * OB_WIDTH);
    assert_eq!(hi5 - lo5, 4 * OB_WIDTH);
}

#[test]
fn window_wide_for_far_obstacle() {
    assert_eq!(window(400_000, 200_000, 384_000, 1_024_000), (0, 640_000));
}

#[test]
fn window_empty_for_zero_distance() {
    assert_eq!(window(300_000, 0, 400_000, 1_024_000), (300_000, 300_000));
}

#[test]
fn window_clamped_at_bottom() {
    assert_eq!(window(1_000_000, 100_000, 384_000, 1_024_000), (639_999, 640_000));
}

#[test]
fn random_gen_stays_in_band() {
    let (w, h) = (1_365_333, 1_024_000);
    let mut last: Option<Obstacle> = None;
    for i in 0..3000u32 {
        let score = i % 9;
        let o = Obstacle::random_gen(last.as_ref(), w, h, score);
        assert!(0 <= o.y1, "{:?}", o);
        assert!(o.y2 <= h, "{:?}", o);
        assert!(MIN_SPACE <= o.y2 - o.y1 && o.y2 - o.y1 <= MIN_SPACE * 3 / 2, "{:?}", o);
        let (dlo, dhi) = gap_distance_range(score);
        let dis = o.x - w - 2 * OB_WIDTH;
        assert!(dlo <= dis && dis < dhi, "{:?}", o);
        let last_y1 = last.as_ref().map(|l| l.y1).unwrap_or(h / 3);
        let (lo, hi) = window(last_y1, dis, o.y2 - o.y1, h);
        if lo < hi {
            assert!(lo <= o.y1 && o.y1 < hi, "{:?}", o);
        } else {
            assert_eq!(o.y1, lo);
        }
        last = Some(o);
    }
}

#[test]
fn random_gen_small_field() {
    let (w, h) = (800_000, 600_000);
    for _ in 0..500 {
        let o = Obstacle::random_gen(Some(&ob(500_000, 200_000, 400_000)), w, h, 0);
        assert!(0 <= o.y1 && o.y2 <= h, "{:?}", o);
        assert!(o.x > w);
    }
}

#[test]
fn random_gen_draws_vary() {
    let mut xs = Vec::new();
    let mut spaces = Vec::new();
    for _ in 0..200 {
        let o = Obstacle::random_gen(None, 1_365_333, 1_024_000, 0);
        xs.push(o.x);
        spaces.push(o.y2 - o.y1);
    }
    xs.sort();
    xs.dedup();
    spaces.sort();
    spaces.dedup();
    assert!(xs.len() > 1);
    assert!(spaces.len() > 1);
    assert!(xs.iter().any(|x| *x > 1_365_333 + 2 * OB_WIDTH + 300_000));
}

#[test]
fn nearest_picks_first_in_span() {
    let obs = vec![ob(0, 100_000, 500_000), ob(400_000, 100_000, 500_000), ob(450_000, 0, 400_000)];
    assert_eq!(nearest(&obs, 455_000), Some(1));
    assert_eq!(nearest(&obs, 100_000), Some(0));
    assert_eq!(nearest(&obs, 168_999), Some(0));
    assert_eq!(nearest(&obs, 169_000), None);
    assert_eq!(nearest(&Vec::new(), 10), None);
}

#[test]
fn incoming_reports_next_obstacle() {
    let w = 800_000;
    assert_eq!(incoming(&Vec::new(), w), Incoming::Clear);
    let obs = vec![ob(100_000, 0, 400_000), ob(1_050_000, 0, 400_000)];
    assert_eq!(incoming(&obs, w), Incoming::Ahead { index: 1, distance: 2 });
    let obs = vec![ob(750_000, 0, 400_000), ob(1_050_000, 0, 400_000)];
    assert_eq!(incoming(&obs, w), Incoming::Entering);
    let obs = vec![ob(100_000, 0, 400_000)];
    assert_eq!(incoming(&obs, w), Incoming::Clear);
}

#[test]
fn age_moves_and_drops() {
    let w = 800_000;
    let obs = vec![ob(-790_000, 0, 400_000), ob(-785_000, 0, 400_000), ob(300_000, 10, 400_010)];
    let r = age_obstacles(&obs, 10_000, w);
    assert_eq!(r, vec![ob(-795_000, 0, 400_000), ob(290_000, 10, 400_010)]);
    let back = age_obstacles(&obs, -5_000, w);
    assert_eq!(back.len(), 3);
    assert_eq!(back[0].x, -785_000);
}

#[test]
fn obstacle_rects() {
    let o = ob(300_000, 200_000, 600_000);
    assert_eq!(
        o.rects(1_024_000),
        (
            Rect { x: 300_000, y: 0, w: OB_WIDTH, h: 200_000 },
            Rect { x: 300_000, y: 600_000, w: OB_WIDTH, h: 424_000 }
        )
    );
    assert_eq!(
        o.preview_rects(800_000, 1_024_000),
        (
            Rect { x: 800_000 - NEXT_OB_WIDTH, y: 0, w: NEXT_OB_WIDTH, h: 200_000 },
            Rect { x: 770_000, y: 600_000, w: NEXT_OB_WIDTH, h: 424_000 }
        )
    );
}
