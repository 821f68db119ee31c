use jumpy_core::geom::{floor_div, mod_euclid, scale_by_frac, Rect, Vec2, FP_ONE};

#[test]
fn scale_by_frac_exact_values() {
    assert_eq!(scale_by_frac(4000, 500), 2000);
    assert_eq!(scale_by_frac(-4000, 500), -2000);
    assert_eq!(scale_by_frac(999, 500), 499);
    assert_eq!(scale_by_frac(-999, 500), -499);
    assert_eq!(scale_by_frac(2000, -500), -1000);
    assert_eq!(scale_by_frac(123_456, 0), 0);
    assert_eq!(scale_by_frac(0, 777), 0);
    assert_eq!(scale_by_frac(123_456, FP_ONE), 123_456);
    assert_eq!(scale_by_frac(-123_456, FP_ONE), -123_456);
}

#[test]
fn floor_div_rounds_toward_negative_infinity() {
    assert_eq!(floor_div(999, 1000), 0);
    assert_eq!(floor_div(1000, 1000), 1);
    assert_eq!(floor_div(-1, 1000), -1);
    assert_eq!(floor_div(-1000, 1000), -1);
    assert_eq!(floor_div(-1001, 1000), -2);
}

#[test]
fn mod_euclid_is_non_negative() {
    assert_eq!(mod_euclid(-100, 360_000), 359_900);
    assert_eq!(mod_euclid(360_100, 360_000), 100);
    assert_eq!(mod_euclid(0, 360_000), 0);
}

#[test]
fn rect_new_is_centred() {
    let r = Rect::new(0, 0, 1000, 2000);
    assert_eq!(r.min, Vec2 { x: -500, y: -1000 });
    assert_eq!(r.max, Vec2 { x: 500, y: 1000 });
}

#[test]
fn rect_overlap_counts_touching_edges() {
    let a = Rect { min: Vec2 { x: 0, y: 0 }, max: Vec2 { x: 1000, y: 1000 } };
    let b = Rect { min: Vec2 { x: 1000, y: 0 }, max: Vec2 { x: 2000, y: 1000 } };
    let c = Rect { min: Vec2 { x: 1001, y: 0 }, max: Vec2 { x: 2000, y: 1000 } };
    assert!(a.overlaps(&b));
    assert!(b.overlaps(&a));
    assert!(!a.overlaps(&c));
}
