//! The player entity, its movement-intent handling, and the scale-growth
//! tween animator.

use vstd::prelude::*;

verus! {

use crate::INITIAL_PLAYER_SCALE;
use crate::INITIAL_PLAYER_SPEED;
use crate::SCALE_LIMIT;
use crate::World;
use crate::geom::Vec2I;
use crate::geom::clamp_coord;
use crate::geom::clamped;

/// The single controllable entity: a position, a uniform scale (growth
/// level), a speed, and the current movement-intent vector.
#[derive(Clone, Copy, Debug, PartialEq, Eq, Structural)]
pub struct Player {
    pub position: Vec2I,
    pub direction: Vec2I,
    pub speed: i64,
    pub scale: i64,
}

impl Player {
    /// Position inside the arena, intent components in `{-1, 0, 1}`,
    /// positive bounded speed and scale.
    pub open spec fn wf(self) -> bool {
        &&& self.position.in_world()
        &&& -1 <= self.direction.x <= 1
        &&& -1 <= self.direction.y <= 1
        &&& 1 <= self.speed <= SCALE_LIMIT
        &&& 1 <= self.scale <= SCALE_LIMIT
    }
}

/// A freshly spawned player: centered, idle, at the starting speed and scale.
pub open spec fn initial_player() -> Player {
    Player {
        position: Vec2I { x: 0, y: 0 },
        direction: Vec2I { x: 0, y: 0 },
        speed: INITIAL_PLAYER_SPEED,
        scale: INITIAL_PLAYER_SCALE,
    }
}

impl Default for Player {
    /// A freshly spawned player: centered, idle, at the starting speed and
    /// scale.
    fn default() -> (p: Player)
        ensures
            p == initial_player(),
            p.wf(),
    {
        Player {
            position: Vec2I { x: 0, y: 0 },
            direction: Vec2I { x: 0, y: 0 },
            speed: INITIAL_PLAYER_SPEED,
            scale: INITIAL_PLAYER_SCALE,
        }
    }
}

/// An in-progress scale-growth effect on the player: a per-tick step and the
/// target scale to snap to.
#[derive(Clone, Copy, Debug, PartialEq, Eq, Structural)]
pub struct Tween {
    pub step_value: i64,
    pub destination_scale: i64,
}

impl Tween {
    /// A tween never shrinks its owner: positive step, target at or above
    /// the owner's current scale and within the scale bound.
    pub open spec fn wf_for(self, scale: int) -> bool {
        &&& 1 <= self.step_value <= SCALE_LIMIT
        &&& scale <= self.destination_scale <= SCALE_LIMIT
    }
}

/// The restart signal, emitted by the host while the game is over.
#[derive(Clone, Copy, Debug, PartialEq, Eq, Structural)]
pub struct Restart;

/// Turn the raw restart key state into at most one restart signal.
pub fn listen_for_restart_button(pressed: bool) -> (r: Option<Restart>)
    ensures
        r.is_some() == pressed,
{
    if pressed {
        Some(Restart)
    } else {
        None
    }
}

/// The 8-direction movement intent read off the four direction keys; keys on
/// opposite axes cancel, diagonals are deliberately not normalized.
pub open spec fn intent_from_keys(up: bool, down: bool, left: bool, right: bool) -> Vec2I {
    Vec2I {
        x: ((if right {
            1int
        } else {
            0int
        }) - (if left {
            1int
        } else {
            0int
        })) as i64,
        y: ((if up {
            1int
        } else {
            0int
        }) - (if down {
            1int
        } else {
            0int
        })) as i64,
    }
}

/// What one intent update does to the world: the player's intent vector is
/// recomputed from the key state; without a player nothing changes.
pub open spec fn update_player_direction_effect(
    pre: World,
    post: World,
    up: bool,
    down: bool,
    left: bool,
    right: bool,
) -> bool {
    match pre.player {
        None => post == pre,
        Some(p) => (post == World {
            player: Some(Player { direction: intent_from_keys(up, down, left, right), ..p }),
            ..pre
        }),
    }
}

/// Recompute the player's movement intent from the raw key state; a no-op
/// while no player exists.
pub fn update_player_direction(w: &mut World, up: bool, down: bool, left: bool, right: bool)
    requires
        old(w).wf(),
    ensures
        final(w).wf(),
        update_player_direction_effect(*old(w), *final(w), up, down, left, right),
{
    match w.player {
        Some(p) => {
            let mut x: i64 = 0;
            let mut y: i64 = 0;
            if up {
                y = y + 1;
            }
            if down {
                y = y - 1;
            }
            if left {
                x = x - 1;
            }
            if right {
                x = x + 1;
            }
            w.player = Some(Player { direction: Vec2I { x, y }, ..p });
        },
        None => {},
    }
}

/// Where the player stands after one tick of moving by intent times speed,
/// saturated at the arena edge.
pub open spec fn moved_player_position(p: Player) -> Vec2I {
    Vec2I {
        x: clamped(p.position.x + p.direction.x * p.speed) as i64,
        y: clamped(p.position.y + p.direction.y * p.speed) as i64,
    }
}

/// What one movement tick does to the world: the player steps by intent
/// times speed, saturated at the arena edge; without a player nothing
/// changes.
pub open spec fn move_player_effect(pre: World, post: World) -> bool {
    match pre.player {
        None => post == pre,
        Some(p) => (post == World {
            player: Some(Player { position: moved_player_position(p), ..p }),
            ..pre
        }),
    }
}

/// Move the player by its intent vector times its speed; a no-op while no
/// player exists.
pub fn move_player(w: &mut World)
    requires
        old(w).wf(),
    ensures
        final(w).wf(),
        move_player_effect(*old(w), *final(w)),
{
    match w.player {
        Some(p) => {
            assert(-SCALE_LIMIT <= p.direction.x * p.speed <= SCALE_LIMIT && -SCALE_LIMIT
                <= p.direction.y * p.speed <= SCALE_LIMIT) by (nonlinear_arith)
                requires
                    -1 <= p.direction.x <= 1,
                    -1 <= p.direction.y <= 1,
                    0 <= p.speed <= SCALE_LIMIT,
            ;
            let x = clamp_coord(p.position.x + p.direction.x * p.speed);
            let y = clamp_coord(p.position.y + p.direction.y * p.speed);
            w.player = Some(Player { position: Vec2I { x, y }, ..p });
        },
        None => {},
    }
}

/// The growth tween snaps on this tick: the squared distance from the
/// current scale to the target is below the squared step.
pub open spec fn tween_snaps(scale: int, t: Tween) -> bool {
    (t.destination_scale - scale) * (t.destination_scale - scale) < t.step_value * t.step_value
}

/// What one animator tick does to the world: the player snaps to the tween's
/// target (and the tween is removed) once within one step, otherwise grows
/// by the step; without both a player and a tween nothing changes.
pub open spec fn animate_growth_effect(pre: World, post: World) -> bool {
    match (pre.player, pre.tween) {
        (Some(p), Some(t)) => {
            if tween_snaps(p.scale as int, t) {
                post == World {
                    player: Some(Player { scale: t.destination_scale, ..p }),
                    tween: None,
                    ..pre
                }
            } else {
                post == World {
                    player: Some(Player { scale: (p.scale + t.step_value) as i64, ..p }),
                    ..pre
                }
            }
        },
        _ => post == pre,
    }
}

/// Advance the player's growth tween by one tick: snap to the target scale
/// and drop the tween once the remaining distance falls below one step,
/// otherwise add the step. Linear, non-eased, and a no-op without both a
/// player and a tween.
pub fn animate_growth(w: &mut World)
    requires
        old(w).wf(),
    ensures
        final(w).wf(),
        animate_growth_effect(*old(w), *final(w)),
        // growth only ever raises the scale
        (match (old(w).player, old(w).tween, final(w).player) {
            (Some(p), Some(t), Some(q)) => p.scale <= q.scale <= t.destination_scale,
            _ => true,
        }),
{
    match (w.player, w.tween) {
        (Some(p), Some(t)) => {
            let remaining = t.destination_scale - p.scale;
            assert((remaining < t.step_value) == tween_snaps(p.scale as int, t)) by (
            nonlinear_arith)
                requires
                    remaining == t.destination_scale - p.scale,
                    remaining >= 0,
                    t.step_value >= 1,
            ;
            if remaining < t.step_value {
                w.player = Some(Player { scale: t.destination_scale, ..p });
                w.tween = None;
            } else {
                w.player = Some(Player { scale: p.scale + t.step_value, ..p });
            }
        },
        _ => {},
    }
}

/// One animator tick applied to a scale carrying a tween: snap and drop the
/// tween once within one step of the target, otherwise add the step.
pub open spec fn tween_step(scale: int, t: Tween) -> (int, Option<Tween>) {
    if tween_snaps(scale, t) {
        (t.destination_scale as int, None)
    } else {
        (scale + t.step_value, Some(t))
    }
}

/// The scale and tween after `n` animator ticks; a scale without a tween no
/// longer changes.
pub open spec fn tween_state_after(scale: int, tween: Option<Tween>, n: nat) -> (int, Option<
    Tween,
>)
    decreases n,
{
    if n == 0 {
        (scale, tween)
    } else {
        let prev = tween_state_after(scale, tween, (n - 1) as nat);
        match prev.1 {
            None => prev,
            Some(t) => tween_step(prev.0, t),
        }
    }
}

/// Tween termination: a growth tween whose target lies `GROWTH_AMOUNT` (0.4)
/// above the current scale, stepped by `GROWTH_STEP` (0.08), reaches its
/// target in at most 6 animator ticks, is removed there, and never carries
/// the scale past the target on the way.
pub proof fn lemma_tween_terminates(s: int)
    requires
        1 <= s,
        s + crate::GROWTH_AMOUNT <= SCALE_LIMIT,
    ensures
        tween_state_after(s, Some(crate::grown_tween(s)), 6) == (
            s + crate::GROWTH_AMOUNT as int,
            None::<Tween>,
        ),
        forall|n: nat|
            #![trigger tween_state_after(s, Some(crate::grown_tween(s)), n)]
            tween_state_after(s, Some(crate::grown_tween(s)), n).0 <= s + crate::GROWTH_AMOUNT,
{
    let t = crate::grown_tween(s);
    lemma_tween_ladder(s, t, 6);
    assert forall|n: nat| tween_state_after(s, Some(t), n).0 <= s + 400 by {
        lemma_tween_ladder(s, t, n);
    }
}

/// The ladder `lemma_tween_terminates`'s tween climbs: one `GROWTH_STEP` per
/// tick for five ticks, the snap on the sixth, and a settled state from then
/// on.
proof fn lemma_tween_ladder(s: int, t: Tween, n: nat)
    requires
        t == crate::grown_tween(s),
        1 <= s,
        s + crate::GROWTH_AMOUNT <= SCALE_LIMIT,
    ensures
        n < 6 ==> tween_state_after(s, Some(t), n) == (s + 80 * n, Some(t)),
        n >= 6 ==> tween_state_after(s, Some(t), n) == (s + 400, None::<Tween>),
        tween_state_after(s, Some(t), n).0 <= s + 400,
    decreases n,
{
    if n > 0 {
        lemma_tween_ladder(s, t, (n - 1) as nat);
        if n < 6 {
            let prev_scale = s + 80 * (n - 1);
            assert((t.destination_scale - prev_scale) * (t.destination_scale - prev_scale)
                >= t.step_value * t.step_value) by (nonlinear_arith)
                requires
                    t.destination_scale == s + 400,
                    t.step_value == 80,
                    prev_scale == s + 80 * (n - 1),
                    1 <= n < 6,
            ;
            assert(!tween_snaps(prev_scale, t));
        } else if n == 6 {
            assert(tween_state_after(s, Some(t), 5) == (s + 400, Some(t)));
            assert((t.destination_scale - (s + 400)) * (t.destination_scale - (s + 400))
                < t.step_value * t.step_value) by (nonlinear_arith)
                requires
                    t.destination_scale == s + 400,
                    t.step_value == 80,
            ;
            assert(tween_snaps(s + 400, t));
        }
    }
}

} // verus!
