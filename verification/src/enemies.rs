//! Roaming enemies and the one-shot timers that spawn them in waves.

use vstd::prelude::*;

verus! {

use crate::ARRIVAL_DISTANCE_SQUARED;
use crate::ENEMY_SPEED;
use crate::POS_LIMIT;
use crate::SCALE_LIMIT;
use crate::SPAWN_TIMER_MS;
use crate::World;
use crate::geom::Vec2I;
use crate::geom::clamp_coord;
use crate::geom::clamped;
use crate::geom::dist_squared;
use crate::geom::isqrt;
use crate::geom::scale_component;
use crate::geom::scaled_toward;
use crate::geom::sqrt_floor;
use crate::sampling::random_point_in_bounds;

/// A roaming entity: a stable handle, a position, a uniform scale, the
/// wander destination it seeks, and its sprite-variant index.
#[derive(Clone, Copy, Debug, PartialEq, Eq, Structural)]
pub struct Enemy {
    pub id: u64,
    pub position: Vec2I,
    pub destination: Vec2I,
    pub scale: i64,
    pub sprite_index: usize,
}

impl Enemy {
    /// Position and destination inside the arena, positive bounded scale.
    pub open spec fn wf(self) -> bool {
        &&& self.position.in_world()
        &&& self.destination.in_world()
        &&& 1 <= self.scale <= SCALE_LIMIT
    }
}

/// A one-shot countdown that materializes one enemy wave when it expires;
/// it is removed in the same tick it fires.
#[derive(Clone, Copy, Debug, PartialEq, Eq, Structural)]
pub struct SpawnEnemiesTimer {
    pub remaining_ms: u64,
}

impl SpawnEnemiesTimer {
    /// A live timer has time left; one that fired is removed at once.
    pub open spec fn wf(self) -> bool {
        self.remaining_ms >= 1
    }
}

impl Default for SpawnEnemiesTimer {
    /// A fresh wave request: the full one-second countdown.
    fn default() -> (t: SpawnEnemiesTimer)
        ensures
            t == (SpawnEnemiesTimer { remaining_ms: SPAWN_TIMER_MS }),
            t.wf(),
    {
        SpawnEnemiesTimer { remaining_ms: SPAWN_TIMER_MS }
    }
}

/// The enemy has arrived: its squared distance to its destination is below
/// the arrival radius (a fudge factor, since discrete steps never converge
/// exactly).
pub open spec fn enemy_arrived(e: Enemy) -> bool {
    dist_squared(e.position, e.destination) < ARRIVAL_DISTANCE_SQUARED
}

/// Where a seeking enemy stands after one tick: one `ENEMY_SPEED`-long step
/// along the (integer-normalized) direction to its destination, saturated at
/// the arena edge.
pub open spec fn seek_stepped_position(e: Enemy) -> Vec2I {
    let dx = e.destination.x - e.position.x;
    let dy = e.destination.y - e.position.y;
    let len = sqrt_floor(dx * dx + dy * dy);
    Vec2I {
        x: clamped(e.position.x + scaled_toward(dx, ENEMY_SPEED as int, len)) as i64,
        y: clamped(e.position.y + scaled_toward(dy, ENEMY_SPEED as int, len)) as i64,
    }
}

/// What one movement tick does to the enemies, and nothing else: every
/// enemy keeps its handle, scale and sprite; one that has arrived keeps its
/// position and gets some fresh destination inside the visible bounds, any
/// other keeps its destination and takes exactly one seek step.
pub open spec fn move_enemies_effect(pre: World, post: World, width: i64, height: i64) -> bool {
    &&& (post == World { enemies: post.enemies, ..pre })
    &&& post.enemies@.len() == pre.enemies@.len()
    &&& forall|i: int|
        0 <= i < pre.enemies@.len() ==> {
            let e = pre.enemies@[i];
            let f = #[trigger] post.enemies@[i];
            &&& f.id == e.id
            &&& f.scale == e.scale
            &&& f.sprite_index == e.sprite_index
            &&& (if enemy_arrived(e) {
                &&& f.position == e.position
                &&& f.destination.in_world()
                &&& -(width as int) / 2 <= f.destination.x < (width as int) / 2
                &&& -(height as int) / 2 <= f.destination.y < (height as int) / 2
            } else {
                &&& f.destination == e.destination
                &&& f.position == seek_stepped_position(e)
            })
        }
}

/// Move every enemy one tick toward its wander destination; one that has
/// arrived picks a fresh random destination in the visible bounds instead of
/// stepping. Handles, scales and sprites never change here.
pub fn move_enemies(w: &mut World, width: i64, height: i64)
    requires
        old(w).wf(),
        2 <= width <= 2 * POS_LIMIT,
        2 <= height <= 2 * POS_LIMIT,
    ensures
        final(w).wf(),
        move_enemies_effect(*old(w), *final(w), width, height),
{
    let n = w.enemies.len();
    let mut moved: Vec<Enemy> = Vec::new();
    let mut i: usize = 0;
    while i < n
        invariant
            0 <= i <= n,
            *w == *old(w),
            old(w).wf(),
            n == w.enemies@.len(),
            2 <= width <= 2 * POS_LIMIT,
            2 <= height <= 2 * POS_LIMIT,
            moved@.len() == i,
            forall|j: int|
                0 <= j < i ==> {
                    let e = old(w).enemies@[j];
                    let f = #[trigger] moved@[j];
                    &&& f.id == e.id
                    &&& f.scale == e.scale
                    &&& f.sprite_index == e.sprite_index
                    &&& f.wf()
                    &&& (if enemy_arrived(e) {
                        &&& f.position == e.position
                        &&& f.destination.in_world()
                        &&& -(width as int) / 2 <= f.destination.x < (width as int) / 2
                        &&& -(height as int) / 2 <= f.destination.y < (height as int) / 2
                    } else {
                        &&& f.destination == e.destination
                        &&& f.position == seek_stepped_position(e)
                    })
                },
        decreases n - i,
    {
        let e = w.enemies[i];
        assert(e.wf());
        let dx = e.destination.x - e.position.x;
        let dy = e.destination.y - e.position.y;
        assert(0 <= dx * dx <= 4_000_000_000_000_000_000 && 0 <= dy * dy
            <= 4_000_000_000_000_000_000) by (nonlinear_arith)
            requires
                -2_000_000_000 <= dx <= 2_000_000_000,
                -2_000_000_000 <= dy <= 2_000_000_000,
        ;
        let d2 = dx * dx + dy * dy;
        if d2 < ARRIVAL_DISTANCE_SQUARED {
            let destination = random_point_in_bounds(width, height);
            moved.push(Enemy { destination, ..e });
        } else {
            let len = isqrt(d2);
            assert(len >= 2000) by (nonlinear_arith)
                requires
                    (len + 1) * (len + 1) > d2,
                    d2 >= 4_000_000,
                    len >= 0,
            ;
            assert(dx <= len && -dx <= len && dy <= len && -dy <= len) by (nonlinear_arith)
                requires
                    d2 == dx * dx + dy * dy,
                    d2 < (len + 1) * (len + 1),
                    len >= 0,
            ;
            let sx = scale_component(dx, ENEMY_SPEED, len);
            let sy = scale_component(dy, ENEMY_SPEED, len);
            let position = Vec2I {
                x: clamp_coord(e.position.x + sx),
                y: clamp_coord(e.position.y + sy),
            };
            moved.push(Enemy { position, ..e });
        }
        i = i + 1;
    }
    w.enemies = moved;
}

/// A fresh wander target, drawn uniformly from the visible bounds.
pub fn random_destination(width: i64, height: i64) -> (r: Vec2I)
    requires
        2 <= width <= 2 * POS_LIMIT,
        2 <= height <= 2 * POS_LIMIT,
    ensures
        r.in_world(),
        -(width as int) / 2 <= r.x < (width as int) / 2,
        -(height as int) / 2 <= r.y < (height as int) / 2,
{
    random_point_in_bounds(width, height)
}

} // verus!
