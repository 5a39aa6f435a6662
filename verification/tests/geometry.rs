use ai_drivers::geometry::{get_intersection, lerp_milli, Point};
use ai_drivers::trig::{cos_mdeg, normalize_mdeg, sin_mdeg};
use ai_drivers::units::{m_to_px, px_to_m, Unit};

fn p(x: i64, y: i64) -> Point {
    Point { x, y }
}

#[test]
fn intersection_crossing_diagonals() {
    // Two diagonals of a square cross exactly in the middle.
    let r = get_intersection(p(0, 0), p(10_000, 10_000), p(0, 10_000), p(10_000, 0));
    let hit = r.expect("diagonals must cross");
    assert_eq!(hit.t, 500);
    assert_eq!(hit.point, p(5_000, 5_000));
}

#[test]
fn intersection_symmetry_reports_same_point() {
    // Swapping the segments swaps the parameter roles but reports the
    // same intersection point.
    let a = p(0, 0);
    let b = p(10_000, 10_000);
    let c = p(0, 10_000);
    let d = p(10_000, 0);
    let h1 = get_intersection(a, b, c, d).expect("hit");
    let h2 = get_intersection(c, d, a, b).expect("hit");
    assert_eq!(h1.point, h2.point);

    // An asymmetric crossing: both calls still agree on the point
    // within one fixed-point step per coordinate.
    let a = p(-3_000, 1_000);
    let b = p(9_000, 5_000);
    let c = p(1_000, 9_000);
    let d = p(3_000, -7_000);
    let h1 = get_intersection(a, b, c, d).expect("hit");
    let h2 = get_intersection(c, d, a, b).expect("hit");
    assert!((h1.point.x - h2.point.x).abs() <= 1);
    assert!((h1.point.y - h2.point.y).abs() <= 1);
}

#[test]
fn parallel_segments_never_intersect() {
    // Parallel, offset segments.
    assert!(get_intersection(p(0, 0), p(10_000, 10_000), p(5_000, 0), p(15_000, 10_000)).is_none());
    // Collinear, non-overlapping segments.
    assert!(get_intersection(p(0, 0), p(1_000, 0), p(2_000, 0), p(3_000, 0)).is_none());
    // Collinear, overlapping segments: the parametric form still
    // reports no single intersection point.
    assert!(get_intersection(p(0, 0), p(2_000, 0), p(1_000, 0), p(3_000, 0)).is_none());
}

#[test]
fn endpoint_touch_counts_as_hit() {
    // Shared start point: t == 0.
    let h = get_intersection(p(0, 0), p(1_000, 0), p(0, 0), p(0, 1_000)).expect("touch");
    assert_eq!(h.t, 0);
    // First segment's end on the other segment's start: t == 1000.
    let h = get_intersection(p(0, 0), p(1_000, 0), p(1_000, 0), p(1_000, 1_000)).expect("touch");
    assert_eq!(h.t, 1000);
    // First segment's end on the other segment's end: t == 1000.
    let h = get_intersection(p(0, 0), p(1_000, 0), p(1_000, 1_000), p(1_000, 0)).expect("touch");
    assert_eq!(h.t, 1000);
}

#[test]
fn intersection_outside_segment_is_none() {
    // The infinite lines cross, but beyond the first segment's end.
    assert!(get_intersection(p(0, 0), p(1_000, 0), p(5_000, -1_000), p(5_000, 1_000)).is_none());
}

#[test]
fn lerp_milli_values() {
    assert_eq!(lerp_milli(0, 1000, 500), 500);
    assert_eq!(lerp_milli(0, 1000, 0), 0);
    assert_eq!(lerp_milli(0, 1000, 1000), 1000);
    assert_eq!(lerp_milli(2000, 1000, 500), 1500);
    assert_eq!(lerp_milli(-1000, 1000, 250), -500);
}

#[test]
fn sine_and_cosine_anchor_values() {
    assert_eq!(sin_mdeg(0), 0);
    assert_eq!(sin_mdeg(90_000), 1000);
    assert_eq!(sin_mdeg(30_000), 500);
    assert_eq!(sin_mdeg(180_000), 0);
    assert_eq!(sin_mdeg(270_000), -1000);
    assert_eq!(cos_mdeg(0), 1000);
    assert_eq!(cos_mdeg(90_000), 0);
    assert_eq!(cos_mdeg(180_000), -1000);
    assert_eq!(cos_mdeg(270_000), 0);
}

#[test]
fn normalize_heading_into_full_turn() {
    assert_eq!(normalize_mdeg(0), 0);
    assert_eq!(normalize_mdeg(360_000), 0);
    assert_eq!(normalize_mdeg(-90_000), 270_000);
    assert_eq!(normalize_mdeg(725_000), 5_000);
    assert_eq!(normalize_mdeg(-725_000), 355_000);
}

#[test]
fn unit_conversions() {
    // One pixel is 37.798 millimeters.
    assert_eq!(Unit::px(1_000).as_mm(), 37_798);
    assert_eq!(Unit::mm(37_798).as_px(), 1_000);
    assert_eq!(Unit::m(1_000).as_mm(), 1_000_000);
    assert_eq!(Unit::cm(100_000).as_m(), 1_000);
    assert_eq!(Unit::px(0).as_m(), 0);
    // One meter is about 26.456 pixels.
    assert_eq!(m_to_px(1_000), 26_456);
    assert_eq!(px_to_m(26_456), 999);
    assert_eq!(px_to_m(1_000), 37);
}
