//! Geometry primitives: construction and the circle-versus-box test.
use flappyboi::geometry::{intersects, make_aabb, make_circle};
use flappyboi::pipes::pipe_to_aabb2d;
use flappyboi::UNIT;

#[test]
fn make_aabb_corners() {
    let b = make_aabb(10 * UNIT, 20 * UNIT, 3 * UNIT, 4 * UNIT);
    assert_eq!(b.min_x, 7 * UNIT);
    assert_eq!(b.max_x, 13 * UNIT);
    assert_eq!(b.min_y, 16 * UNIT);
    assert_eq!(b.max_y, 24 * UNIT);
}

#[test]
fn make_circle_fields() {
    let c = make_circle(5 * UNIT, -6 * UNIT, 2 * UNIT);
    assert_eq!(c.x, 5 * UNIT);
    assert_eq!(c.y, -6 * UNIT);
    assert_eq!(c.radius, 2 * UNIT);
}

#[test]
fn circle_overlapping_box_hits() {
    // Circle center 4 units left of the box edge, radius 5: distance 4 < 5.
    let c = make_circle(0, 0, 5 * UNIT);
    let b = make_aabb(14 * UNIT, 0, 10 * UNIT, 10 * UNIT);
    assert!(intersects(&c, &b));
}

#[test]
fn circle_touching_box_edge_hits() {
    // Distance from center to the nearest box point is exactly the radius.
    let c = make_circle(0, 0, 5 * UNIT);
    let b = make_aabb(15 * UNIT, 0, 10 * UNIT, 10 * UNIT);
    assert!(intersects(&c, &b));
}

#[test]
fn circle_clear_of_box_misses() {
    let c = make_circle(0, 0, 5 * UNIT);
    let b = make_aabb(16 * UNIT, 0, 10 * UNIT, 10 * UNIT);
    assert!(!intersects(&c, &b));
}

#[test]
fn circle_inside_box_hits() {
    let c = make_circle(0, 0, UNIT);
    let b = make_aabb(0, 0, 10 * UNIT, 10 * UNIT);
    assert!(intersects(&c, &b));
}

#[test]
fn corner_distance_uses_both_axes() {
    // Box corner at (3, 4) units from the center: distance 5.
    let c = make_circle(0, 0, 5 * UNIT);
    let b = make_aabb(13 * UNIT, 14 * UNIT, 10 * UNIT, 10 * UNIT);
    assert!(intersects(&c, &b));
    let b_far = make_aabb(13 * UNIT + 1, 14 * UNIT + 1, 10 * UNIT, 10 * UNIT);
    assert!(!intersects(&c, &b_far));
}

#[test]
fn mirrored_configuration_gives_same_result() {
    // Mirror circle and box across the horizontal axis through y = 50 units.
    let m = 50 * UNIT;
    let c = make_circle(0, 30 * UNIT, 5 * UNIT);
    let b = make_aabb(2 * UNIT, 38 * UNIT, 3 * UNIT, 4 * UNIT);
    let c_m = make_circle(0, 2 * m - 30 * UNIT, 5 * UNIT);
    let b_m = make_aabb(2 * UNIT, 2 * m - 38 * UNIT, 3 * UNIT, 4 * UNIT);
    assert_eq!(intersects(&c, &b), intersects(&c_m, &b_m));
    assert!(intersects(&c, &b));
}

#[test]
fn pipe_box_unflipped_extends_upward_anchored_below() {
    let b = pipe_to_aabb2d(100 * UNIT, 200 * UNIT, false);
    assert_eq!(b.min_x, 74 * UNIT);
    assert_eq!(b.max_x, 126 * UNIT);
    assert_eq!(b.min_y, -120 * UNIT);
    assert_eq!(b.max_y, 200 * UNIT);
}

#[test]
fn pipe_box_flipped_extends_downward_from_anchor() {
    let b = pipe_to_aabb2d(100 * UNIT, 200 * UNIT, true);
    assert_eq!(b.min_x, 74 * UNIT);
    assert_eq!(b.max_x, 126 * UNIT);
    assert_eq!(b.min_y, 200 * UNIT);
    assert_eq!(b.max_y, 520 * UNIT);
}

#[test]
fn flip_mirror_symmetry_concrete() {
    // The flipped box at an anchor is the mirror of the unflipped box
    // across the anchor line; mirrored circles see identical results.
    let anchor_y = 200 * UNIT;
    let flipped = pipe_to_aabb2d(100 * UNIT, anchor_y, true);
    let unflipped = pipe_to_aabb2d(100 * UNIT, anchor_y, false);
    for probe in [150 * UNIT, 199 * UNIT, 205 * UNIT, 350 * UNIT] {
        let c = make_circle(90 * UNIT, probe, 11 * UNIT);
        let c_mirror = make_circle(90 * UNIT, 2 * anchor_y - probe, 11 * UNIT);
        assert_eq!(intersects(&c, &flipped), intersects(&c_mirror, &unflipped));
    }
}
