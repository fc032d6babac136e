//! Random sampling utilities: bounds-aware random points, rejection-sampled
//! random unit vectors, and random offsets used to scatter spawned enemies.
//!
//! The only randomness source is the process RNG behind `random_in_range`;
//! everything layered on top is verified for every value it can return.

use rand::Rng;
use vstd::prelude::*;

verus! {

use crate::POS_LIMIT;
use crate::UNIT;
use crate::geom::Vec2I;
use crate::geom::iabs;
use crate::geom::isqrt_ceil;
use crate::geom::scale_component;
use crate::geom::scaled_toward;

/// Relies on `rand::thread_rng` and `rand::Rng::gen_range`: a draw from the
/// half-open range `lo..hi` lies in that range; `gen_range` panics only on an
/// empty range, which the precondition rules out.
#[verifier::external_body]
pub(crate) fn random_in_range(lo: i64, hi: i64) -> (r: i64)
    requires
        lo < hi,
    ensures
        lo <= r < hi,
{
    rand::thread_rng().gen_range(lo..hi)
}

/// A uniform random point in the centered rectangle
/// `[-width/2, width/2) x [-height/2, height/2)`.
pub fn random_point_in_bounds(width: i64, height: i64) -> (r: Vec2I)
    requires
        2 <= width <= 2 * POS_LIMIT,
        2 <= height <= 2 * POS_LIMIT,
    ensures
        r.in_world(),
        -(width as int) / 2 <= r.x < (width as int) / 2,
        -(height as int) / 2 <= r.y < (height as int) / 2,
{
    let half_width = width / 2;
    let half_height = height / 2;
    let x = random_in_range(-half_width, half_width);
    let y = random_in_range(-half_height, half_height);
    Vec2I { x, y }
}

/// How many draws the unit-vector sampler tolerates before it falls back to
/// a fixed axis direction (a run of this length of too-short draws has
/// probability below `(1 / 5) ^ 64`).
pub const MAX_UNIT_VECTOR_DRAWS: u32 = 64;

/// Draws shorter (squared) than this are rejected: they carry no reliable
/// direction (half a map unit; a zero vector has no direction at all, and
/// integer normalization of a near-zero one loses it).
pub const MIN_DIRECTION_SQUARED: i64 = 250_000;

/// Squared magnitude every normalized direction is proved to reach (0.7 of
/// a unit); the true value is closer to one, this is what the integer
/// rounding argument gives.
pub const MIN_UNIT_SQUARED: i64 = 490_000;

/// A random direction: a fixed-point vector of squared magnitude in
/// `[MIN_UNIT_SQUARED, UNIT^2]`, drawn by rejection-sampling `[-1, 1)^2`
/// until the draw is normalizable, then normalizing it to (at most) unit
/// length.
pub fn random_unit_vector_2d() -> (r: Vec2I)
    ensures
        0 < r.x * r.x + r.y * r.y,
        MIN_UNIT_SQUARED <= r.x * r.x + r.y * r.y <= UNIT * UNIT,
        -UNIT <= r.x <= UNIT,
        -UNIT <= r.y <= UNIT,
{
    let mut x: i64 = 0;
    let mut y: i64 = 0;
    let mut n: i64 = 0;
    let mut tries: u32 = 0;
    while n < MIN_DIRECTION_SQUARED && tries < MAX_UNIT_VECTOR_DRAWS
        invariant
            -UNIT <= x < UNIT,
            -UNIT <= y < UNIT,
            n == x * x + y * y,
            0 <= n <= 2_000_000,
            tries <= MAX_UNIT_VECTOR_DRAWS,
        decreases MAX_UNIT_VECTOR_DRAWS - tries,
    {
        x = random_in_range(-UNIT, UNIT);
        y = random_in_range(-UNIT, UNIT);
        assert(0 <= x * x <= 1_000_000 && 0 <= y * y <= 1_000_000) by (nonlinear_arith)
            requires
                -1000 <= x <= 1000,
                -1000 <= y <= 1000,
        ;
        n = x * x + y * y;
        tries = tries + 1;
    }
    if n < MIN_DIRECTION_SQUARED {
        x = UNIT;
        y = 0;
        n = UNIT * UNIT;
    }
    let ax = if x < 0 {
        -x
    } else {
        x
    };
    let ay = if y < 0 {
        -y
    } else {
        y
    };
    assert(n == ax * ax + ay * ay) by (nonlinear_arith)
        requires
            n == x * x + y * y,
            ax == iabs(x as int),
            ay == iabs(y as int),
    ;
    let len = isqrt_ceil(n);
    assert(ax <= len && ay <= len) by (nonlinear_arith)
        requires
            len * len >= n,
            n == ax * ax + ay * ay,
            0 <= ax,
            0 <= ay,
            0 <= len,
    ;
    let ux = scale_component(x, UNIT, len);
    let uy = scale_component(y, UNIT, len);
    proof {
        lemma_normalized_magnitude_bound(
            ax as int,
            ay as int,
            len as int,
            iabs(ux as int),
            iabs(uy as int),
        );
        lemma_normalized_lower_bound(
            ax as int,
            ay as int,
            n as int,
            len as int,
            iabs(ux as int),
            iabs(uy as int),
        );
        assert(ux * ux + uy * uy == iabs(ux as int) * iabs(ux as int) + iabs(uy as int) * iabs(
            uy as int,
        )) by (nonlinear_arith);
    }
    Vec2I { x: ux, y: uy }
}

/// A vector rescaled to length at most `UNIT` keeps squared magnitude at
/// most `UNIT^2`.
proof fn lemma_normalized_magnitude_bound(ax: int, ay: int, len: int, qx: int, qy: int)
    by (nonlinear_arith)
    requires
        1 <= len,
        0 <= qx,
        0 <= qy,
        qx * len <= ax * 1000,
        qy * len <= ay * 1000,
        0 <= ax,
        0 <= ay,
        ax * ax + ay * ay <= len * len,
    ensures
        qx * qx + qy * qy <= 1_000_000,
{
    assert((qx * len) * (qx * len) <= (ax * 1000) * (ax * 1000));
    assert((qy * len) * (qy * len) <= (ay * 1000) * (ay * 1000));
}

/// Rescaling a vector of squared length at least `MIN_DIRECTION_SQUARED` by
/// its own (rounded-up) length keeps squared magnitude at least
/// `MIN_UNIT_SQUARED`: the dominant component alone already reaches 0.7 of
/// a unit.
proof fn lemma_normalized_lower_bound(ax: int, ay: int, n: int, len: int, qx: int, qy: int)
    requires
        0 <= ax,
        0 <= ay,
        250_000 <= n <= 2_000_000,
        n == ax * ax + ay * ay,
        1 <= len,
        (len - 1) * (len - 1) < n,
        ax * 1000 < (qx + 1) * len,
        ay * 1000 < (qy + 1) * len,
        0 <= qx,
        0 <= qy,
    ensures
        qx * qx + qy * qy >= 490_000,
{
    let m = if ax >= ay {
        ax
    } else {
        ay
    };
    assert(2 * m * m >= n && m >= 354) by (nonlinear_arith)
        requires
            n == ax * ax + ay * ay,
            m == if ax >= ay {
                ax
            } else {
                ay
            },
            0 <= ax,
            0 <= ay,
            n >= 250_000,
    ;
    assert(50 * (len - 1) < 71 * m) by (nonlinear_arith)
        requires
            (len - 1) * (len - 1) < n,
            n <= 2 * m * m,
            len >= 1,
            m >= 1,
    ;
    assert(1000 * m >= 701 * len);
    let qm = if ax >= ay {
        qx
    } else {
        qy
    };
    assert(qm >= 701) by (nonlinear_arith)
        requires
            m * 1000 < (qm + 1) * len,
            1000 * m >= 701 * len,
            len >= 1,
            qm >= 0,
    ;
    assert(qx * qx + qy * qy >= 490_000) by (nonlinear_arith)
        requires
            qm >= 701,
            qm == qx || qm == qy,
            qx >= 0,
            qy >= 0,
    ;
}

/// Stretching a direction whose dominant component is at least 0.495 of a
/// unit by a distance `d` of at least one unit leaves an offset of squared
/// magnitude above `d^2 / 5`.
proof fn lemma_offset_magnitude_floor(m: int, d: int, q: int)
    by (nonlinear_arith)
    requires
        m >= 495,
        d >= 1000,
        q >= 0,
        m * d < (q + 1) * 1000,
    ensures
        5 * (q * q) >= d * d,
{
    assert(1000 * q >= 495 * d - 999);
    assert((1000 * q) * (1000 * q) >= (495 * d - 999) * (495 * d - 999));
    assert(5 * ((495 * d - 999) * (495 * d - 999)) >= (1000 * d) * (1000 * d));
}

/// A random offset: a random (near-)unit direction stretched by a uniform
/// random distance in `[min_dist, max_dist)`, so each axis stays within
/// `max_dist` and (for a distance of at least one unit) the offset's squared
/// magnitude stays above a fifth of the squared distance.
pub fn random_offset(min_dist: i64, max_dist: i64) -> (r: Vec2I)
    requires
        0 <= min_dist < max_dist <= 1_000_000,
    ensures
        -max_dist <= r.x <= max_dist,
        -max_dist <= r.y <= max_dist,
        min_dist >= 1000 ==> 5 * (r.x * r.x + r.y * r.y) >= min_dist * min_dist,
        exists|ux: int, uy: int, d: int|
            #![trigger scaled_toward(ux, d, UNIT as int), scaled_toward(uy, d, UNIT as int)]
            {
                &&& MIN_UNIT_SQUARED <= ux * ux + uy * uy <= (UNIT as int) * (UNIT as int)
                &&& min_dist <= d < max_dist
                &&& r.x == scaled_toward(ux, d, UNIT as int)
                &&& r.y == scaled_toward(uy, d, UNIT as int)
                &&& -d <= r.x <= d
                &&& -d <= r.y <= d
                &&& (d >= 1000 ==> 5 * (r.x * r.x + r.y * r.y) >= d * d)
            },
{
    let unit = random_unit_vector_2d();
    let dist = random_in_range(min_dist, max_dist);
    proof {
        assert(iabs(unit.x as int) <= UNIT && iabs(unit.y as int) <= UNIT);
    }
    let x = scale_component(unit.x, dist, UNIT);
    let y = scale_component(unit.y, dist, UNIT);
    proof {
        assert(x == scaled_toward(unit.x as int, dist as int, UNIT as int) && y == scaled_toward(
            unit.y as int,
            dist as int,
            UNIT as int,
        ));
        if dist >= 1000 {
            let am = if iabs(unit.x as int) >= iabs(unit.y as int) {
                iabs(unit.x as int)
            } else {
                iabs(unit.y as int)
            };
            let qm = if iabs(unit.x as int) >= iabs(unit.y as int) {
                iabs(x as int)
            } else {
                iabs(y as int)
            };
            assert(am >= 495) by (nonlinear_arith)
                requires
                    unit.x * unit.x + unit.y * unit.y >= 490_000,
                    am == if iabs(unit.x as int) >= iabs(unit.y as int) {
                        iabs(unit.x as int)
                    } else {
                        iabs(unit.y as int)
                    },
            ;
            lemma_offset_magnitude_floor(am, dist as int, qm);
            assert(iabs(x as int) * iabs(x as int) == x * x && iabs(y as int) * iabs(y as int) == y
                * y && x * x >= 0 && y * y >= 0) by (nonlinear_arith);
            assert(5 * (x * x + y * y) >= dist * dist) by (nonlinear_arith)
                requires
                    5 * (qm * qm) >= dist * dist,
                    qm == iabs(x as int) || qm == iabs(y as int),
                    iabs(x as int) * iabs(x as int) == x * x,
                    iabs(y as int) * iabs(y as int) == y * y,
                    x * x >= 0,
                    y * y >= 0,
            ;
            assert(dist * dist >= min_dist * min_dist) by (nonlinear_arith)
                requires
                    dist >= min_dist >= 0,
            ;
        }
    }
    Vec2I { x, y }
}

} // verus!
