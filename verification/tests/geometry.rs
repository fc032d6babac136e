use last_giant_standing::geom::{
    aabb_from_center_scale, aabbs_overlap, clamp_coord, clamp_scale, isqrt, isqrt_ceil,
    scale_component, Vec2I,
};
use last_giant_standing::sampling::{random_offset, random_point_in_bounds, random_unit_vector_2d};
use last_giant_standing::{POS_LIMIT, UNIT};

#[test]
fn aabb_overlap_symmetry() {
    let a = aabb_from_center_scale(Vec2I { x: 0, y: 0 }, 3_000);
    let b = aabb_from_center_scale(Vec2I { x: 30_000, y: 10_000 }, 2_000);
    let c = aabb_from_center_scale(Vec2I { x: 900_000, y: 900_000 }, 1_000);
    assert_eq!(aabbs_overlap(a, b), aabbs_overlap(b, a));
    assert_eq!(aabbs_overlap(a, c), aabbs_overlap(c, a));
    assert!(aabbs_overlap(a, b));
    assert!(!aabbs_overlap(a, c));
}

#[test]
fn aabb_touching_edges_do_not_overlap() {
    // player box spans [-24000, 24000]; a box starting exactly at 24000
    // touches but must not count as overlapping (strict test)
    let a = aabb_from_center_scale(Vec2I { x: 0, y: 0 }, 3_000);
    let b = aabb_from_center_scale(Vec2I { x: 40_000, y: 0 }, 2_000);
    assert_eq!(b.min_x, 24_000);
    assert!(!aabbs_overlap(a, b));
    assert!(!aabbs_overlap(b, a));
}

#[test]
fn isqrt_exact_values() {
    assert_eq!(isqrt(0), 0);
    assert_eq!(isqrt(1), 1);
    assert_eq!(isqrt(3), 1);
    assert_eq!(isqrt(4), 2);
    assert_eq!(isqrt(99), 9);
    assert_eq!(isqrt(100), 10);
    assert_eq!(isqrt(4_000_000), 2_000);
    assert_eq!(isqrt(8_000_000_000_000_000_000), 2_828_427_124);
    assert_eq!(isqrt_ceil(0), 0);
    assert_eq!(isqrt_ceil(2), 2);
    assert_eq!(isqrt_ceil(4), 2);
    assert_eq!(isqrt_ceil(5), 3);
}

#[test]
fn clamping_saturates_at_the_limits() {
    assert_eq!(clamp_coord(0), 0);
    assert_eq!(clamp_coord(POS_LIMIT + 1), POS_LIMIT);
    assert_eq!(clamp_coord(-POS_LIMIT - 77), -POS_LIMIT);
    assert_eq!(clamp_scale(0), 1);
    assert_eq!(clamp_scale(500), 500);
}

#[test]
fn scale_component_rescales_toward_target() {
    // a vector of length 10000 rescaled to 2900 per axis share
    assert_eq!(scale_component(10_000, 2_900, 10_000), 2_900);
    assert_eq!(scale_component(-10_000, 2_900, 10_000), -2_900);
    assert_eq!(scale_component(0, 2_900, 10_000), 0);
    // 3-4-5 triangle: components scale proportionally (rounded down)
    assert_eq!(scale_component(3_000, 1_000, 5_000), 600);
    assert_eq!(scale_component(-4_000, 1_000, 5_000), -800);
}

#[test]
fn unit_vector_magnitude_is_positive_and_bounded() {
    for _ in 0..200 {
        let v = random_unit_vector_2d();
        let m2 = v.x * v.x + v.y * v.y;
        assert!(m2 > 0);
        assert!(m2 >= 490_000, "a normalized direction is at least 0.7 of a unit long");
        assert!(m2 <= UNIT * UNIT);
    }
}

#[test]
fn random_point_respects_bounds() {
    for _ in 0..200 {
        let p = random_point_in_bounds(1_000, 600);
        assert!(-500 <= p.x && p.x < 500);
        assert!(-300 <= p.y && p.y < 300);
    }
}

#[test]
fn random_offset_stays_within_the_distance_band() {
    for _ in 0..200 {
        let o = random_offset(140_000, 550_000);
        assert!(-550_000 <= o.x && o.x <= 550_000);
        assert!(-550_000 <= o.y && o.y <= 550_000);
        let m2 = o.x * o.x + o.y * o.y;
        assert!(5 * m2 >= 140_000i64 * 140_000, "never scattered on top of the anchor");
        assert!(o.x != 0 || o.y != 0);
    }
}
