use flying_bird::config::{MapConfig, MAX_FIELD, MIN_FIELD};

#[test]
fn calc_keeps_screen_aspect() {
    let c = MapConfig::calc(1920, 1080).unwrap();
    assert_eq!(c.h, 1_440_000);
    assert_eq!(c.w, 2_560_000);
}

#[test]
fn calc_small_screen_uses_floor_height() {
    let c = MapConfig::calc(800, 600).unwrap();
    assert_eq!(c.h, MIN_FIELD);
    assert_eq!(c.h, 1_024_000);
    assert_eq!(c.w, 1_365_333);
}

#[test]
fn calc_rejects_empty_screen() {
    assert!(MapConfig::calc(0, 600).is_none());
    assert!(MapConfig::calc(800, 0).is_none());
    assert!(MapConfig::calc(0, 0).is_none());
}

#[test]
fn calc_rejects_field_beyond_model() {
    assert!(MapConfig::calc(u32::MAX, 1).is_none());
    let c = MapConfig::calc(3000, 2000).unwrap();
    assert!(c.w <= MAX_FIELD && c.h <= MAX_FIELD);
}
