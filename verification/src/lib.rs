//! Simulation core of a top-down arena survival game: a single growing player
//! absorbs smaller roaming enemies and dies to larger ones, across escalating
//! spawn waves, until eliminated or restarted.
//!
//! All coordinates, scales, speeds and zoom factors are fixed-point values:
//! one map unit is `UNIT` (1000) steps of the integer grid. The host loop owns
//! rendering and input; this crate owns movement integration, axis-aligned
//! collision detection and mass-based resolution, scale-growth tweening,
//! timer-driven wave spawning and the running/dead state machine.

use vstd::prelude::*;

pub mod enemies;
pub mod geom;
pub mod player;
pub mod sampling;

verus! {

use crate::enemies::Enemy;
use crate::enemies::SpawnEnemiesTimer;
use crate::geom::Aabb;
use crate::geom::Vec2I;
use crate::geom::aabb_from_center_scale;
use crate::geom::aabb_overlaps;
use crate::geom::aabbs_overlap;
use crate::geom::imin;
use crate::geom::spec_aabb_from_center_scale;
use crate::player::Player;
use crate::player::Restart;
use crate::player::Tween;

/// Fixed-point scale: one map unit, one whole scale step, one multiplier unit.
pub const UNIT: i64 = 1000;

/// Coordinates of every live entity stay inside `[-POS_LIMIT, POS_LIMIT]`
/// on each axis (the arena); movement saturates at this edge.
pub const POS_LIMIT: i64 = 1_000_000_000;

/// Upper bound on every entity scale, player speed and camera zoom
/// (fixed-point); growth and the wave-clear feedback saturate here.
pub const SCALE_LIMIT: i64 = 1_000_000_000_000;

/// Distance an enemy covers per tick while seeking its destination
/// (2.9 map units).
pub const ENEMY_SPEED: i64 = 2_900;

/// Speed of a freshly spawned player (3 map units per tick).
pub const INITIAL_PLAYER_SPEED: i64 = 3_000;

/// Scale of a freshly spawned player (growth level 3).
pub const INITIAL_PLAYER_SCALE: i64 = 3_000;

/// Per-tick scale step of a growth tween (0.08 scale units).
pub const GROWTH_STEP: i64 = 80;

/// How much an absorbed enemy grows the player (0.4 scale units).
pub const GROWTH_AMOUNT: i64 = 400;

/// An enemy closer (squared) than this to its destination picks a new one:
/// the arrival radius is 2 map units.
pub const ARRIVAL_DISTANCE_SQUARED: i64 = 4_000_000;

/// Spawned enemies scatter at least this far from the player (140 units).
pub const MIN_DISTANCE_TO_ENEMY: i64 = 140_000;

/// Spawned enemies scatter at most this far from the player (550 units).
pub const MAX_DISTANCE_TO_ENEMY: i64 = 550_000;

/// Smallest scale jitter applied to a spawned enemy (factor 0.6).
pub const SCALE_JITTER_MIN: i64 = 600;

/// Largest scale jitter applied to a spawned enemy (factor 1.4, exclusive).
pub const SCALE_JITTER_MAX: i64 = 1_400;

/// Camera zoom multiplier on a cleared wave (factor 1.3).
pub const ZOOM_OUT_FACTOR: i64 = 1_300;

/// Player speed multiplier on a cleared wave (factor 1.2).
pub const SPEED_UP_FACTOR: i64 = 1_200;

/// How many enemies one wave materializes.
pub const WAVE_SIZE: usize = 10;

/// Countdown of a fresh spawn timer, in milliseconds.
pub const SPAWN_TIMER_MS: u64 = 1_000;

/// Sprite-atlas cell of the player.
pub const PLAYER_INDEX: usize = 84;

/// How many sprite variants the enemy palette offers.
pub const ENEMY_SPRITE_COUNT: i64 = 14;

/// The game-over state machine: `Running` until the player loses a
/// collision, `Dead` until the host signals a restart.
#[derive(Clone, Copy, Debug, PartialEq, Eq, Structural, Hash, Default)]
pub enum GameStates {
    #[default]
    Running,
    Dead,
}

/// The authoritative world state: at most one player, the live enemies, the
/// pending growth tween, the pending wave timers, the game state, the camera
/// zoom, and the event queues drained once per tick.
pub struct World {
    /// The player, absent between a death and the next respawn.
    pub player: Option<Player>,
    /// Live enemies, handles strictly increasing along the list.
    pub enemies: Vec<Enemy>,
    /// The in-progress growth effect attached to the player, if any.
    pub tween: Option<Tween>,
    /// Pending wave countdowns; a timer that fires is removed that tick.
    pub spawn_timers: Vec<SpawnEnemiesTimer>,
    /// Running or dead.
    pub state: GameStates,
    /// Camera zoom multiplier, fixed-point, at least `UNIT` (1.0).
    pub camera_zoom: i64,
    /// Pending spawn requests: each asks for a player respawn (if absent)
    /// and a fresh wave timer.
    pub spawn_events: u64,
    /// Pending wave-cleared signals awaiting the camera/speed feedback.
    pub zoom_out_events: u64,
    /// The next unused enemy handle.
    pub next_enemy_id: u64,
}

impl World {
    /// Every entity well-formed, enemy handles strictly increasing and below
    /// `next_enemy_id`, a tween only on a live player, zoom in range, and
    /// the state machine consistent: no player while dead, and a respawn
    /// request outstanding whenever the game runs without a player.
    pub open spec fn wf(self) -> bool {
        &&& (self.player matches Some(p) ==> p.wf())
        &&& (self.tween is Some ==> self.player is Some)
        &&& (match (self.player, self.tween) {
            (Some(p), Some(t)) => t.wf_for(p.scale as int),
            _ => true,
        })
        &&& (forall|i: int| 0 <= i < self.enemies@.len() ==> (#[trigger] self.enemies@[i]).wf())
        &&& (forall|i: int, j: int|
            0 <= i < j < self.enemies@.len() ==> self.enemies@[i].id < self.enemies@[j].id)
        &&& (forall|i: int|
            0 <= i < self.enemies@.len() ==> (#[trigger] self.enemies@[i]).id < self.next_enemy_id)
        &&& (forall|i: int|
            0 <= i < self.spawn_timers@.len() ==> (#[trigger] self.spawn_timers@[i]).wf())
        &&& UNIT <= self.camera_zoom <= SCALE_LIMIT
        &&& (self.state is Dead ==> self.player is None)
        &&& (self.state is Running && self.player is None ==> self.spawn_events >= 1)
    }

    /// The world at startup: empty but for one pending spawn request, so the
    /// first tick spawns the player and requests the first wave.
    pub fn new() -> (w: World)
        ensures
            w.wf(),
            w.player is None,
            w.enemies@.len() == 0,
            w.tween is None,
            w.spawn_timers@.len() == 0,
            w.state == GameStates::Running,
            w.camera_zoom == UNIT,
            w.spawn_events == 1,
            w.zoom_out_events == 0,
            w.next_enemy_id == 0,
    {
        World {
            player: None,
            enemies: Vec::new(),
            tween: None,
            spawn_timers: Vec::new(),
            state: GameStates::Running,
            camera_zoom: UNIT,
            spawn_events: 1,
            zoom_out_events: 0,
            next_enemy_id: 0,
        }
    }
}

/// `n + 1`, held at the counter's ceiling.
pub open spec fn saturating_inc(n: u64) -> u64 {
    if n < u64::MAX {
        (n + 1) as u64
    } else {
        n
    }
}

/// What consuming `events` pending spawn requests does to the player: a
/// fresh one appears exactly when a request is pending, none exists, and the
/// game runs; otherwise nothing changes.
pub open spec fn spawn_player_effect(pre: World, post: World, events: u64) -> bool {
    if pre.state == GameStates::Running && pre.player is None && events >= 1 {
        post == World { player: Some(crate::player::initial_player()), ..pre }
    } else {
        post == pre
    }
}

/// Materialize a pending spawn request as a fresh player. Only the absence
/// of a player lets one appear, and only while the game runs: a restart both
/// returns to `Running` and reissues the request, so it is never lost.
pub fn spawn_player(w: &mut World, events: u64)
    requires
        old(w).wf(),
    ensures
        final(w).wf(),
        spawn_player_effect(*old(w), *final(w), events),
{
    if events >= 1 && w.player.is_none() && w.state == GameStates::Running {
        w.player = Some(Player::default());
    }
}

/// What consuming `events` pending spawn requests does to the wave timers,
/// and nothing else: one fresh full countdown is appended per request.
pub open spec fn spawn_enemies_effect(pre: World, post: World, events: u64) -> bool {
    &&& (post == World { spawn_timers: post.spawn_timers, ..pre })
    &&& post.spawn_timers@ == pre.spawn_timers@ + Seq::new(
        events as nat,
        |i: int| SpawnEnemiesTimer { remaining_ms: SPAWN_TIMER_MS },
    )
}

/// Materialize pending spawn requests as fresh one-second wave timers, one
/// per request.
pub fn spawn_enemies(w: &mut World, events: u64)
    requires
        old(w).wf(),
    ensures
        final(w).wf(),
        spawn_enemies_effect(*old(w), *final(w), events),
{
    let ghost n0 = w.spawn_timers@.len() as int;
    let mut k: u64 = 0;
    while k < events
        invariant
            0 <= k <= events,
            old(w).wf(),
            (*w == World { spawn_timers: w.spawn_timers, ..*old(w) }),
            w.spawn_timers@.len() == n0 + k,
            n0 == old(w).spawn_timers@.len(),
            w.spawn_timers@.subrange(0, n0) == old(w).spawn_timers@,
            forall|i: int|
                n0 <= i < w.spawn_timers@.len() ==> w.spawn_timers@[i] == (SpawnEnemiesTimer {
                    remaining_ms: SPAWN_TIMER_MS,
                }),
        decreases events - k,
    {
        w.spawn_timers.push(SpawnEnemiesTimer::default());
        proof {
            assert(w.spawn_timers@.subrange(0, n0) =~= old(w).spawn_timers@);
        }
        k = k + 1;
    }
    proof {
        assert(final(w).spawn_timers@.subrange(0, n0) =~= old(w).spawn_timers@);
        assert forall|i: int|
            0 <= i < w.spawn_timers@.len() implies (#[trigger] w.spawn_timers@[i]).wf() by {
            if i < n0 {
                assert(w.spawn_timers@[i] == w.spawn_timers@.subrange(0, n0)[i]);
            }
        }
        let target = old(w).spawn_timers@ + Seq::new(
            events as nat,
            |i: int| SpawnEnemiesTimer { remaining_ms: SPAWN_TIMER_MS },
        );
        assert forall|i: int|
            0 <= i < w.spawn_timers@.len() implies w.spawn_timers@[i] == target[i] by {
            if i < n0 {
                assert(w.spawn_timers@[i] == w.spawn_timers@.subrange(0, n0)[i]);
            }
        }
        assert(w.spawn_timers@ =~= target);
    }
}

/// What consuming a restart signal does to the world: while dead, all
/// enemies (and any player remnant) are cleared, the camera zoom is reset,
/// one fresh spawn request is issued and the game runs again; without a
/// signal, or while running, nothing changes. Pending wave timers survive.
pub open spec fn restart_game_effect(pre: World, post: World, has_restart: bool) -> bool {
    if has_restart && pre.state == GameStates::Dead {
        &&& (post == World {
            player: None,
            enemies: post.enemies,
            tween: None,
            state: GameStates::Running,
            camera_zoom: UNIT,
            spawn_events: saturating_inc(pre.spawn_events),
            ..pre
        })
        &&& post.enemies@.len() == 0
    } else {
        post == pre
    }
}

/// Consume a restart signal while dead: atomically clear all enemies, reset
/// the camera zoom, return to `Running`, and issue one fresh spawn request
/// (which respawns the player at its initial speed and requests a new wave
/// on the next tick). Pending wave timers survive a restart.
pub fn restart_game(w: &mut World, restart: Option<Restart>)
    requires
        old(w).wf(),
    ensures
        final(w).wf(),
        restart_game_effect(*old(w), *final(w), restart is Some),
{
    if restart.is_some() && w.state == GameStates::Dead {
        w.player = None;
        w.enemies = Vec::new();
        w.tween = None;
        w.state = GameStates::Running;
        w.camera_zoom = UNIT;
        if w.spawn_events < u64::MAX {
            w.spawn_events = w.spawn_events + 1;
        }
    }
}

/// The player's bounding box: a 16-unit sprite cell scaled by its growth
/// level.
pub open spec fn player_box(p: Player) -> Aabb {
    spec_aabb_from_center_scale(p.position, p.scale as int)
}

/// An enemy's bounding box: a 16-unit sprite cell scaled by its scale.
pub open spec fn enemy_box(e: Enemy) -> Aabb {
    spec_aabb_from_center_scale(e.position, e.scale as int)
}

/// The player's and the enemy's boxes overlap strictly.
pub open spec fn pair_overlaps(p: Player, e: Enemy) -> bool {
    aabb_overlaps(player_box(p), enemy_box(e))
}

/// The player outweighs the enemy: its squared scale is strictly larger.
pub open spec fn player_outweighs(p: Player, e: Enemy) -> bool {
    p.scale * p.scale > e.scale * e.scale
}

/// The contact removes the enemy and grows the player.
pub open spec fn player_absorbs(p: Player, e: Enemy) -> bool {
    pair_overlaps(p, e) && player_outweighs(p, e)
}

/// The contact removes the player: the enemy is at least as heavy.
pub open spec fn player_loses_to(p: Player, e: Enemy) -> bool {
    pair_overlaps(p, e) && !player_outweighs(p, e)
}

/// The position of the first enemy, in scan order, that the player loses to;
/// `es.len()` when the player survives every contact.
pub open spec fn first_loss(p: Player, es: Seq<Enemy>) -> int
    decreases es.len(),
{
    if es.len() == 0 {
        0
    } else if player_loses_to(p, es[0]) {
        0
    } else {
        1 + first_loss(p, es.drop_first())
    }
}

/// `first_loss` points at the first losing contact: nothing before it loses,
/// and it loses itself unless it is the end of the scan.
pub proof fn lemma_first_loss_props(p: Player, es: Seq<Enemy>)
    ensures
        0 <= first_loss(p, es) <= es.len(),
        forall|j: int| 0 <= j < first_loss(p, es) ==> !player_loses_to(p, #[trigger] es[j]),
        first_loss(p, es) < es.len() ==> player_loses_to(p, es[first_loss(p, es)]),
    decreases es.len(),
{
    if es.len() > 0 && !player_loses_to(p, es[0]) {
        lemma_first_loss_props(p, es.drop_first());
        assert forall|j: int| 0 <= j < first_loss(p, es) implies !player_loses_to(
            p,
            #[trigger] es[j],
        ) by {
            if j >= 1 {
                assert(es[j] == es.drop_first()[j - 1]);
                assert(!player_loses_to(p, es.drop_first()[j - 1]));
            }
        }
        if first_loss(p, es) < es.len() {
            assert(es[first_loss(p, es)] == es.drop_first()[first_loss(p, es.drop_first())]);
        }
    }
}

/// The player survives the whole scan: no enemy both overlaps and outweighs
/// it.
pub open spec fn player_survives(p: Player, es: Seq<Enemy>) -> bool {
    first_loss(p, es) == es.len()
}

/// Some enemy is absorbed before the scan stops.
pub open spec fn any_absorbed(p: Player, es: Seq<Enemy>) -> bool {
    exists|j: int| 0 <= j < first_loss(p, es) && player_absorbs(p, #[trigger] es[j])
}

/// The enemies of `es` that do not touch the player.
pub open spec fn non_overlapping(p: Player, es: Seq<Enemy>) -> Seq<Enemy> {
    es.filter(|e: Enemy| !pair_overlaps(p, e))
}

/// The enemies still alive after the scan: overlapped ones before the first
/// loss are absorbed; from the first loss on (the player is gone) every
/// enemy is left untouched.
pub open spec fn surviving_enemies(p: Player, es: Seq<Enemy>) -> Seq<Enemy> {
    non_overlapping(p, es.take(first_loss(p, es))) + es.skip(first_loss(p, es))
}

/// Every enemy of a (non-empty) wave touched the player this tick and the
/// player survived them all: the wave is cleared.
pub open spec fn wave_cleared(p: Player, es: Seq<Enemy>) -> bool {
    &&& es.len() > 0
    &&& player_survives(p, es)
    &&& forall|j: int| 0 <= j < es.len() ==> pair_overlaps(p, #[trigger] es[j])
}

/// The growth effect one absorbed enemy attaches to the player: target 0.4
/// above the current scale (held at the scale bound), approached in 0.08
/// steps.
pub open spec fn grown_tween(scale: int) -> Tween {
    Tween {
        step_value: GROWTH_STEP,
        destination_scale: imin(scale + GROWTH_AMOUNT, SCALE_LIMIT as int) as i64,
    }
}

/// A cleared wave is an eliminated wave: when every enemy of the wave
/// touched a surviving player, the collision scan leaves no enemy behind.
pub proof fn lemma_wave_cleared_removes_all(p: Player, es: Seq<Enemy>)
    requires
        wave_cleared(p, es),
    ensures
        surviving_enemies(p, es).len() == 0,
{
    lemma_first_loss_props(p, es);
    assert(es.take(first_loss(p, es)) =~= es);
    assert(es.skip(first_loss(p, es)) =~= Seq::<Enemy>::empty());
    lemma_all_overlapping_filter_empty(p, es);
}

/// Filtering for untouched enemies in a wave that all touched the player
/// leaves nothing.
proof fn lemma_all_overlapping_filter_empty(p: Player, es: Seq<Enemy>)
    requires
        forall|j: int| 0 <= j < es.len() ==> pair_overlaps(p, #[trigger] es[j]),
    ensures
        non_overlapping(p, es).len() == 0,
    decreases es.len(),
{
    reveal(Seq::filter);
    if es.len() > 0 {
        lemma_all_overlapping_filter_empty(p, es.drop_last());
    }
}

/// Extending the scanned prefix by one enemy keeps the old non-overlapping
/// survivors and appends the enemy exactly when it misses the player.
proof fn lemma_non_overlapping_push(p: Player, s: Seq<Enemy>, e: Enemy)
    ensures
        non_overlapping(p, s.push(e)) == (if !pair_overlaps(p, e) {
            non_overlapping(p, s).push(e)
        } else {
            non_overlapping(p, s)
        }),
{
    reveal(Seq::filter);
    assert(s.push(e).drop_last() =~= s);
    assert(s.push(e).last() == e);
}

/// What one collision scan does to the world: with no enemies, or no player,
/// nothing; otherwise the enemy list becomes the scan's survivors, an
/// absorption attaches the growth tween, the first loss removes the player
/// and ends the game, and a cleared wave queues the camera feedback and one
/// fresh wave timer.
pub open spec fn check_collisions_effect(pre: World, post: World) -> bool {
    &&& (pre.enemies@.len() == 0 ==> post == pre)
    &&& (pre.player is None ==> post == pre)
    &&& (pre.player matches Some(p) ==> pre.enemies@.len() > 0 ==> {
        let es = pre.enemies@;
        &&& post.enemies@ == surviving_enemies(p, es)
        &&& post.camera_zoom == pre.camera_zoom
        &&& post.spawn_events == pre.spawn_events
        &&& post.next_enemy_id == pre.next_enemy_id
        &&& (if player_survives(p, es) {
            &&& post.player == Some(p)
            &&& post.state == pre.state
            &&& post.tween == (if any_absorbed(p, es) {
                Some(grown_tween(p.scale as int))
            } else {
                pre.tween
            })
        } else {
            &&& post.player is None
            &&& post.tween is None
            &&& post.state == GameStates::Dead
        })
        &&& (if wave_cleared(p, es) {
            &&& post.zoom_out_events == saturating_inc(pre.zoom_out_events)
            &&& post.spawn_timers@ == pre.spawn_timers@.push(
                SpawnEnemiesTimer { remaining_ms: SPAWN_TIMER_MS },
            )
        } else {
            &&& post.zoom_out_events == pre.zoom_out_events
            &&& post.spawn_timers == pre.spawn_timers
        })
    })
}

/// Scan every player-enemy pair for strict box overlap and resolve each
/// contact by mass: a lighter enemy is despawned and (re)attaches a growth
/// tween to the player; a heavier one despawns the player and ends the game.
/// Once the player is gone, the remaining pairs are left untouched. When a
/// non-empty wave all touched the player and it survived, signal the wave
/// cleared: queue the camera feedback and request the next wave. With no
/// enemies, or no player, nothing happens at all.
pub fn check_collisions(w: &mut World)
    requires
        old(w).wf(),
    ensures
        final(w).wf(),
        check_collisions_effect(*old(w), *final(w)),
{
    let n = w.enemies.len();
    if n == 0 {
        return ;
    }
    let p = match w.player {
        Some(p) => p,
        None => {
            return ;
        },
    };
    let ghost es = w.enemies@;
    let p_box = aabb_from_center_scale(p.position, p.scale);
    let mut survivors: Vec<Enemy> = Vec::new();
    let mut absorbed = false;
    let mut all_overlap = true;
    let mut death = false;
    let mut i: usize = 0;
    while i < n && !death
        invariant
            0 <= i <= n,
            *w == *old(w),
            old(w).wf(),
            old(w).player == Some(p),
            es == old(w).enemies@,
            n == es.len(),
            p_box == player_box(p),
            !death ==> forall|j: int| 0 <= j < i ==> !player_loses_to(p, #[trigger] es[j]),
            !death ==> survivors@ == non_overlapping(p, es.take(i as int)),
            !death ==> (absorbed == exists|j: int|
                0 <= j < i && player_absorbs(p, #[trigger] es[j])),
            !death ==> (all_overlap <==> forall|j: int|
                0 <= j < i ==> pair_overlaps(p, #[trigger] es[j])),
            death ==> 1 <= i <= n && player_loses_to(p, es[i - 1]),
            death ==> forall|j: int| 0 <= j < i - 1 ==> !player_loses_to(p, #[trigger] es[j]),
            death ==> survivors@ == non_overlapping(p, es.take(i - 1)).push(es[i - 1]),
            forall|a: int| #![trigger survivors@[a]]
                0 <= a < survivors@.len() ==> exists|j: int|
                    0 <= j < i && survivors@[a] == #[trigger] es[j],
            forall|a: int, b: int|
                0 <= a < b < survivors@.len() ==> survivors@[a].id < survivors@[b].id,
        decreases n - i,
    {
        let e = w.enemies[i];
        proof {
            assert(es[i as int].wf());
        }
        let e_box = aabb_from_center_scale(e.position, e.scale);
        let overlap = aabbs_overlap(p_box, e_box);
        assert((p.scale > e.scale) == player_outweighs(p, es[i as int])) by (nonlinear_arith)
            requires
                1 <= p.scale,
                1 <= e.scale,
                e == es[i as int],
        ;
        let ghost pre = survivors@;
        if overlap {
            if p.scale > e.scale {
                absorbed = true;
            } else {
                death = true;
                survivors.push(e);
            }
        } else {
            all_overlap = false;
            survivors.push(e);
        }
        proof {
            assert(es.take(i + 1) =~= es.take(i as int).push(es[i as int]));
            lemma_non_overlapping_push(p, es.take(i as int), es[i as int]);
            assert forall|a: int| #![trigger survivors@[a]] 0 <= a < survivors@.len() implies exists|j: int|
                0 <= j < i + 1 && survivors@[a] == #[trigger] es[j] by {
                if a < pre.len() {
                    let j = choose|j: int| 0 <= j < i && pre[a] == #[trigger] es[j];
                    assert(survivors@[a] == es[j]);
                } else {
                    assert(survivors@[a] == es[i as int]);
                }
            }
            assert forall|a: int, b: int|
                0 <= a < b < survivors@.len() implies survivors@[a].id < survivors@[b].id by {
                if b == pre.len() as int {
                    let j = choose|j: int| 0 <= j < i && pre[a] == #[trigger] es[j];
                    assert(old(w).enemies@[j].id < old(w).enemies@[i as int].id);
                }
            }
        }
        i = i + 1;
    }
    if death {
        let ghost kd = i - 1;
        proof {
            assert(survivors@ =~= non_overlapping(p, es.take(kd)) + es.subrange(kd, i as int));
        }
        while i < n
            invariant
                0 <= kd < i <= n,
                *w == *old(w),
                old(w).wf(),
                old(w).player == Some(p),
                es == old(w).enemies@,
                n == es.len(),
                player_loses_to(p, es[kd]),
                forall|j: int| 0 <= j < kd ==> !player_loses_to(p, #[trigger] es[j]),
                survivors@ == non_overlapping(p, es.take(kd)) + es.subrange(kd, i as int),
                forall|a: int| #![trigger survivors@[a]]
                    0 <= a < survivors@.len() ==> exists|j: int|
                        0 <= j < i && survivors@[a] == #[trigger] es[j],
                forall|a: int, b: int|
                    0 <= a < b < survivors@.len() ==> survivors@[a].id < survivors@[b].id,
            decreases n - i,
        {
            let e = w.enemies[i];
            let ghost pre = survivors@;
            survivors.push(e);
            proof {
                assert(es.subrange(kd, i + 1) =~= es.subrange(kd, i as int).push(es[i as int]));
                assert(survivors@ =~= non_overlapping(p, es.take(kd)) + es.subrange(kd, i + 1));
                assert forall|a: int| #![trigger survivors@[a]] 0 <= a < survivors@.len() implies exists|j: int|
                    0 <= j < i + 1 && survivors@[a] == #[trigger] es[j] by {
                    if a < pre.len() {
                        let j = choose|j: int| 0 <= j < i && pre[a] == #[trigger] es[j];
                        assert(survivors@[a] == es[j]);
                    } else {
                        assert(survivors@[a] == es[i as int]);
                    }
                }
                assert forall|a: int, b: int|
                    0 <= a < b < survivors@.len() implies survivors@[a].id < survivors@[b].id by {
                    if b == pre.len() as int {
                        let j = choose|j: int| 0 <= j < i && pre[a] == #[trigger] es[j];
                        assert(old(w).enemies@[j].id < old(w).enemies@[i as int].id);
                    }
                }
            }
            i = i + 1;
        }
        proof {
            lemma_first_loss_props(p, es);
            let k = first_loss(p, es);
            if k < kd {
                assert(!player_loses_to(p, es[k]));
            }
            if k > kd {
                assert(!player_loses_to(p, es[kd]));
            }
            assert(k == kd);
            assert(es.skip(kd) =~= es.subrange(kd, n as int));
            assert(survivors@ == surviving_enemies(p, es));
        }
        proof {
            lemma_enemy_list_wf(*old(w), survivors@, es);
        }
        w.enemies = survivors;
        w.player = None;
        w.tween = None;
        w.state = GameStates::Dead;
    } else {
        proof {
            lemma_first_loss_props(p, es);
            let k = first_loss(p, es);
            if k < n {
                assert(!player_loses_to(p, es[k]));
            }
            assert(k == n);
            assert(es.take(n as int) =~= es);
            assert(es.skip(n as int) =~= Seq::<Enemy>::empty());
            assert(survivors@ =~= surviving_enemies(p, es));
        }
        proof {
            lemma_enemy_list_wf(*old(w), survivors@, es);
        }
        w.enemies = survivors;
        if absorbed {
            let target = if p.scale + GROWTH_AMOUNT > SCALE_LIMIT {
                SCALE_LIMIT
            } else {
                p.scale + GROWTH_AMOUNT
            };
            w.tween = Some(Tween { step_value: GROWTH_STEP, destination_scale: target });
        }
        if all_overlap {
            if w.zoom_out_events < u64::MAX {
                w.zoom_out_events = w.zoom_out_events + 1;
            }
            let ghost timers_pre = w.spawn_timers@;
            w.spawn_timers.push(SpawnEnemiesTimer::default());
            proof {
                assert forall|t: int|
                    0 <= t < w.spawn_timers@.len() implies (#[trigger] w.spawn_timers@[t]).wf() by {
                    if t < timers_pre.len() {
                        assert(w.spawn_timers@[t] == timers_pre[t]);
                    }
                }
            }
        }
    }
}

/// What draining the spawn-request queue does to the world, and nothing
/// else: a fresh player appears exactly when the game runs without one and a
/// request is pending, one full wave countdown is appended per request, and
/// the queue empties.
pub open spec fn spawn_requests_effect(pre: World, post: World) -> bool {
    &&& (post == World {
        player: post.player,
        spawn_timers: post.spawn_timers,
        spawn_events: 0,
        ..pre
    })
    &&& post.player == (if pre.state == GameStates::Running && pre.player is None
        && pre.spawn_events >= 1 {
        Some(crate::player::initial_player())
    } else {
        pre.player
    })
    &&& post.spawn_timers@ == pre.spawn_timers@ + Seq::new(
        pre.spawn_events as nat,
        |i: int| SpawnEnemiesTimer { remaining_ms: SPAWN_TIMER_MS },
    )
}

/// One whole tick, written as the chain of its stages through the
/// intermediate worlds `mid[0]` to `mid[7]`: while running, the six
/// simulation stages in order (intent, player movement, enemy movement,
/// collision resolution, tween animation, camera feedback); in any state,
/// the spawn-request drain, the wave-timer tick, and the restart handling
/// while dead.
pub open spec fn tick_stages(
    pre: World,
    post: World,
    mid: Seq<World>,
    up: bool,
    down: bool,
    left: bool,
    right: bool,
    restart_pressed: bool,
    delta_ms: u64,
    width: i64,
    height: i64,
) -> bool {
    &&& mid.len() == 8
    &&& (if pre.state == GameStates::Running {
        &&& crate::player::update_player_direction_effect(pre, mid[0], up, down, left, right)
        &&& crate::player::move_player_effect(mid[0], mid[1])
        &&& crate::enemies::move_enemies_effect(mid[1], mid[2], width, height)
        &&& check_collisions_effect(mid[2], mid[3])
        &&& crate::player::animate_growth_effect(mid[3], mid[4])
        &&& expand_camera_effect(mid[4], mid[5])
    } else {
        mid[5] == pre
    })
    &&& spawn_requests_effect(mid[5], mid[6])
    &&& spawn_enemies_timer_effect(mid[6], mid[7], delta_ms, width, height)
    &&& (if mid[7].state == GameStates::Dead {
        restart_game_effect(mid[7], post, restart_pressed)
    } else {
        post == mid[7]
    })
}

/// One whole tick relates its input world to its output world through some
/// chain of intermediate worlds, one per stage.
pub open spec fn tick_effect(
    pre: World,
    post: World,
    up: bool,
    down: bool,
    left: bool,
    right: bool,
    restart_pressed: bool,
    delta_ms: u64,
    width: i64,
    height: i64,
) -> bool {
    exists|mid: Seq<World>|
        #![trigger mid.len()]
        tick_stages(pre, post, mid, up, down, left, right, restart_pressed, delta_ms, width, height)
}

/// One fixed-timestep simulation step, in the authoritative order: read the
/// movement intent, move the player, move the enemies, detect and resolve
/// collisions, advance the growth tween, apply the wave-clear feedback (all
/// only while running); then drain the spawn requests (player respawn and
/// fresh wave timers), tick the wave timers, and finally consume a restart
/// signal while dead.
pub fn tick(
    w: &mut World,
    up: bool,
    down: bool,
    left: bool,
    right: bool,
    restart_pressed: bool,
    delta_ms: u64,
    width: i64,
    height: i64,
)
    requires
        old(w).wf(),
        2 <= width <= 2 * POS_LIMIT,
        2 <= height <= 2 * POS_LIMIT,
        old(w).next_enemy_id + (WAVE_SIZE as int) * (old(w).spawn_timers@.len() + 1 + old(
            w,
        ).spawn_events) <= u64::MAX,
    ensures
        final(w).wf(),
        tick_effect(
            *old(w),
            *final(w),
            up,
            down,
            left,
            right,
            restart_pressed,
            delta_ms,
            width,
            height,
        ),
        final(w).spawn_events <= 1,
        final(w).spawn_timers@.len() <= old(w).spawn_timers@.len() + 1 + old(w).spawn_events,
        final(w).next_enemy_id <= old(w).next_enemy_id + (WAVE_SIZE as int) * (old(
            w,
        ).spawn_timers@.len() + 1 + old(w).spawn_events),
        old(w).state is Dead && restart_pressed ==> {
            &&& final(w).state == GameStates::Running
            &&& final(w).camera_zoom == UNIT
            &&& final(w).enemies@.len() == 0
            &&& final(w).player is None
            &&& final(w).tween is None
            &&& final(w).spawn_events == 1
        },
        old(w).state is Dead && !restart_pressed ==> final(w).state == GameStates::Dead,
        // a pending respawn request is honored within the tick
        old(w).state is Running && old(w).player is None ==> final(w).player == Some(
            crate::player::initial_player(),
        ),
        // the restart aftermath: one request yields exactly one fresh player
        // and one fresh wave countdown
        (old(w).state is Running && old(w).player is None && old(w).spawn_events == 1 && old(
            w,
        ).spawn_timers@.len() == 0 && delta_ms < SPAWN_TIMER_MS) ==> {
            &&& final(w).player == Some(crate::player::initial_player())
            &&& final(w).state == GameStates::Running
            &&& final(w).spawn_events == 0
            &&& final(w).spawn_timers@.len() == 1
            &&& final(w).spawn_timers@[0].remaining_ms == SPAWN_TIMER_MS - delta_ms
            &&& final(w).enemies@.len() == old(w).enemies@.len()
        },
{
    let ghost mut mid: Seq<World> = Seq::new(8, |i: int| *old(w));
    if w.state == GameStates::Running {
        crate::player::update_player_direction(w, up, down, left, right);
        proof {
            mid = mid.update(0, *w);
        }
        crate::player::move_player(w);
        proof {
            mid = mid.update(1, *w);
        }
        crate::enemies::move_enemies(w, width, height);
        proof {
            mid = mid.update(2, *w);
        }
        check_collisions(w);
        proof {
            mid = mid.update(3, *w);
        }
        crate::player::animate_growth(w);
        proof {
            mid = mid.update(4, *w);
        }
        expand_camera(w);
        proof {
            mid = mid.update(5, *w);
        }
    }
    let events = w.spawn_events;
    spawn_player(w, events);
    spawn_enemies(w, events);
    w.spawn_events = 0;
    proof {
        mid = mid.update(6, *w);
        assert(spawn_requests_effect(mid[5], mid[6]));
    }
    let ghost pending = w.spawn_timers@;
    proof {
        lemma_fired_count_bounds(pending, delta_ms);
    }
    spawn_enemies_timer(w, delta_ms, width, height);
    proof {
        mid = mid.update(7, *w);
        lemma_ticked_timers_len(pending, delta_ms);
    }
    if w.state == GameStates::Dead {
        let restart = crate::player::listen_for_restart_button(restart_pressed);
        restart_game(w, restart);
    }
    proof {
        assert(tick_stages(
            *old(w),
            *w,
            mid,
            up,
            down,
            left,
            right,
            restart_pressed,
            delta_ms,
            width,
            height,
        ));
        assert(mid.len() == 8);
        if old(w).state is Running && old(w).player is None && old(w).spawn_events == 1 && old(
            w,
        ).spawn_timers@.len() == 0 && delta_ms < SPAWN_TIMER_MS {
            assert(pending.drop_last() =~= Seq::<SpawnEnemiesTimer>::empty());
            assert(fired_count(pending, delta_ms) == 0);
            assert(ticked_timers(pending, delta_ms) =~= Seq::<SpawnEnemiesTimer>::empty().push(
                SpawnEnemiesTimer { remaining_ms: (SPAWN_TIMER_MS - delta_ms) as u64 },
            ));
        }
    }
}

/// A rebuilt enemy list whose entries all come from a well-formed world's
/// enemy list keeps every per-enemy invariant.
proof fn lemma_enemy_list_wf(pre: World, post: Seq<Enemy>, es: Seq<Enemy>)
    requires
        pre.wf(),
        es == pre.enemies@,
        forall|a: int| #![trigger post[a]]
            0 <= a < post.len() ==> exists|j: int|
                0 <= j < es.len() && post[a] == #[trigger] es[j],
    ensures
        forall|a: int| 0 <= a < post.len() ==> (#[trigger] post[a]).wf(),
        forall|a: int| 0 <= a < post.len() ==> (#[trigger] post[a]).id < pre.next_enemy_id,
{
    assert forall|a: int| 0 <= a < post.len() implies (#[trigger] post[a]).wf() && post[a].id
        < pre.next_enemy_id by {
        let j = choose|j: int| 0 <= j < es.len() && post[a] == #[trigger] es[j];
        assert(pre.enemies@[j].wf());
        assert(pre.enemies@[j].id < pre.next_enemy_id);
    }
}

/// The enemy sprite palette: the `k`-th of the 14 atlas cells enemies are
/// drawn from.
pub open spec fn enemy_sprite_value(k: int) -> int {
    if k == 0 {
        85
    } else if k == 1 {
        86
    } else if k == 2 {
        87
    } else if k == 3 {
        88
    } else if k == 4 {
        96
    } else if k == 5 {
        97
    } else if k == 6 {
        98
    } else if k == 7 {
        99
    } else if k == 8 {
        100
    } else if k == 9 {
        108
    } else if k == 10 {
        109
    } else if k == 11 {
        110
    } else if k == 12 {
        111
    } else {
        112
    }
}

/// Look the `k`-th enemy sprite cell up in the palette.
pub fn enemy_sprite_index(k: i64) -> (r: usize)
    requires
        0 <= k < ENEMY_SPRITE_COUNT,
    ensures
        r == enemy_sprite_value(k as int),
{
    if k == 0 {
        85
    } else if k == 1 {
        86
    } else if k == 2 {
        87
    } else if k == 3 {
        88
    } else if k == 4 {
        96
    } else if k == 5 {
        97
    } else if k == 6 {
        98
    } else if k == 7 {
        99
    } else if k == 8 {
        100
    } else if k == 9 {
        108
    } else if k == 10 {
        109
    } else if k == 11 {
        110
    } else if k == 12 {
        111
    } else {
        112
    }
}

/// The timer fires this tick: the elapsed time covers what remained.
pub open spec fn timer_fires(t: SpawnEnemiesTimer, delta_ms: u64) -> bool {
    t.remaining_ms <= delta_ms
}

/// The timers still pending after `delta_ms` elapsed: fired ones are
/// removed, the rest keep counting down.
pub open spec fn ticked_timers(ts: Seq<SpawnEnemiesTimer>, delta_ms: u64) -> Seq<SpawnEnemiesTimer>
    decreases ts.len(),
{
    if ts.len() == 0 {
        Seq::empty()
    } else {
        let rest = ticked_timers(ts.drop_last(), delta_ms);
        if timer_fires(ts.last(), delta_ms) {
            rest
        } else {
            rest.push(
                SpawnEnemiesTimer { remaining_ms: (ts.last().remaining_ms - delta_ms) as u64 },
            )
        }
    }
}

/// How many of the timers fire when `delta_ms` elapses.
pub open spec fn fired_count(ts: Seq<SpawnEnemiesTimer>, delta_ms: u64) -> int
    decreases ts.len(),
{
    if ts.len() == 0 {
        0
    } else {
        fired_count(ts.drop_last(), delta_ms) + (if timer_fires(ts.last(), delta_ms) {
            1int
        } else {
            0int
        })
    }
}

/// At most every timer fires.
pub proof fn lemma_fired_count_bounds(ts: Seq<SpawnEnemiesTimer>, delta_ms: u64)
    ensures
        0 <= fired_count(ts, delta_ms) <= ts.len(),
    decreases ts.len(),
{
    if ts.len() > 0 {
        lemma_fired_count_bounds(ts.drop_last(), delta_ms);
    }
}

/// Ticking removes exactly the fired timers.
pub proof fn lemma_ticked_timers_len(ts: Seq<SpawnEnemiesTimer>, delta_ms: u64)
    ensures
        ticked_timers(ts, delta_ms).len() == ts.len() - fired_count(ts, delta_ms),
    decreases ts.len(),
{
    if ts.len() > 0 {
        lemma_ticked_timers_len(ts.drop_last(), delta_ms);
    }
}

/// Where a wave scatters around: the player's position, or the origin while
/// no player exists.
pub open spec fn spawn_anchor_position(player: Option<Player>) -> Vec2I {
    match player {
        Some(p) => p.position,
        None => Vec2I { x: 0, y: 0 },
    }
}

/// What a wave's scale jitter applies to: the player's scale, or the initial
/// one while no player exists.
pub open spec fn spawn_anchor_scale(player: Option<Player>) -> int {
    match player {
        Some(p) => p.scale as int,
        None => INITIAL_PLAYER_SCALE as int,
    }
}

/// What holds of every enemy a wave materializes: scattered from the anchor
/// by a random near-unit direction stretched by a random distance in
/// `[MIN_DISTANCE_TO_ENEMY, MAX_DISTANCE_TO_ENEMY)` — so at least a fifth of
/// the squared distance away, saturated at the arena edge — scale jittered
/// by a factor in `[0.6, 1.4)` of the anchor scale (held in the legal
/// interval), a wander destination inside the visible bounds, and a sprite
/// from the palette.
pub open spec fn spawned_enemy_ok(player: Option<Player>, width: i64, height: i64, e: Enemy) -> bool {
    let anchor = spawn_anchor_position(player);
    let ascale = spawn_anchor_scale(player);
    &&& (exists|ux: int, uy: int, d: int|
        #![trigger crate::geom::scaled_toward(ux, d, UNIT as int), crate::geom::scaled_toward(uy, d, UNIT as int)]
        {
            let ox = crate::geom::scaled_toward(ux, d, UNIT as int);
            let oy = crate::geom::scaled_toward(uy, d, UNIT as int);
            &&& crate::sampling::MIN_UNIT_SQUARED <= ux * ux + uy * uy <= (UNIT as int) * (
            UNIT as int)
            &&& MIN_DISTANCE_TO_ENEMY <= d < MAX_DISTANCE_TO_ENEMY
            &&& -d <= ox <= d
            &&& -d <= oy <= d
            &&& 5 * (ox * ox + oy * oy) >= d * d
            &&& e.position == (Vec2I {
                x: crate::geom::clamped(anchor.x + ox) as i64,
                y: crate::geom::clamped(anchor.y + oy) as i64,
            })
        })
    &&& (exists|jit: int|
        #![trigger crate::geom::clamped_scale(ascale * jit / (UNIT as int))]
        {
            &&& SCALE_JITTER_MIN <= jit < SCALE_JITTER_MAX
            &&& e.scale == crate::geom::clamped_scale(ascale * jit / (UNIT as int))
        })
    &&& e.destination.in_world()
    &&& -(width as int) / 2 <= e.destination.x < (width as int) / 2
    &&& -(height as int) / 2 <= e.destination.y < (height as int) / 2
    &&& (exists|k: int| 0 <= k < ENEMY_SPRITE_COUNT && e.sprite_index == enemy_sprite_value(k))
}

/// What one spawner tick does to the world, and nothing else: fired timers
/// are removed and the rest keep counting down; each fired timer appends one
/// wave of `WAVE_SIZE` fresh enemies, each with the next unused handle and
/// satisfying `spawned_enemy_ok` relative to the pre-tick player.
pub open spec fn spawn_enemies_timer_effect(
    pre: World,
    post: World,
    delta_ms: u64,
    width: i64,
    height: i64,
) -> bool {
    &&& (post == World {
        enemies: post.enemies,
        spawn_timers: post.spawn_timers,
        next_enemy_id: post.next_enemy_id,
        ..pre
    })
    &&& post.spawn_timers@ == ticked_timers(pre.spawn_timers@, delta_ms)
    &&& post.enemies@.len() == pre.enemies@.len() + (WAVE_SIZE as int) * fired_count(
        pre.spawn_timers@,
        delta_ms,
    )
    &&& post.enemies@.subrange(0, pre.enemies@.len() as int) == pre.enemies@
    &&& post.next_enemy_id == pre.next_enemy_id + (WAVE_SIZE as int) * fired_count(
        pre.spawn_timers@,
        delta_ms,
    )
    &&& forall|i: int|
        pre.enemies@.len() <= i < post.enemies@.len() ==> {
            let e = #[trigger] post.enemies@[i];
            &&& e.id == pre.next_enemy_id + (i - pre.enemies@.len())
            &&& e.wf()
            &&& spawned_enemy_ok(pre.player, width, height, e)
        }
}

/// Tick every pending wave timer by the elapsed time. A timer that runs out
/// fires exactly once and is removed in the same tick; each firing timer
/// atomically materializes one wave of `WAVE_SIZE` fresh enemies, scattered
/// a random offset from the player (or the origin while no player exists),
/// scale-jittered, and each seeking a random destination in the visible
/// bounds.
pub fn spawn_enemies_timer(w: &mut World, delta_ms: u64, width: i64, height: i64)
    requires
        old(w).wf(),
        2 <= width <= 2 * POS_LIMIT,
        2 <= height <= 2 * POS_LIMIT,
        old(w).next_enemy_id + (WAVE_SIZE as int) * old(w).spawn_timers@.len() <= u64::MAX,
    ensures
        final(w).wf(),
        spawn_enemies_timer_effect(*old(w), *final(w), delta_ms, width, height),
{
    let n_t = w.spawn_timers.len();
    let ghost ts = w.spawn_timers@;
    let ghost es0 = w.enemies@;
    let anchor = match w.player {
        Some(p) => p.position,
        None => Vec2I { x: 0, y: 0 },
    };
    let anchor_scale = match w.player {
        Some(p) => p.scale,
        None => INITIAL_PLAYER_SCALE,
    };
    let mut kept: Vec<SpawnEnemiesTimer> = Vec::new();
    let mut fresh: Vec<Enemy> = Vec::new();
    let mut next_id = w.next_enemy_id;
    let mut ti: usize = 0;
    while ti < n_t
        invariant
            0 <= ti <= n_t,
            *w == *old(w),
            old(w).wf(),
            ts == old(w).spawn_timers@,
            n_t == ts.len(),
            2 <= width <= 2 * POS_LIMIT,
            2 <= height <= 2 * POS_LIMIT,
            anchor == spawn_anchor_position(old(w).player),
            anchor.in_world(),
            anchor_scale == spawn_anchor_scale(old(w).player),
            1 <= anchor_scale <= SCALE_LIMIT,
            old(w).next_enemy_id + (WAVE_SIZE as int) * n_t <= u64::MAX,
            kept@ == ticked_timers(ts.take(ti as int), delta_ms),
            forall|a: int| 0 <= a < kept@.len() ==> (#[trigger] kept@[a]).wf(),
            fresh@.len() == (WAVE_SIZE as int) * fired_count(ts.take(ti as int), delta_ms),
            0 <= fired_count(ts.take(ti as int), delta_ms) <= ti,
            next_id == old(w).next_enemy_id + fresh@.len(),
            forall|a: int|
                0 <= a < fresh@.len() ==> (#[trigger] fresh@[a]).id == old(w).next_enemy_id + a,
            forall|a: int| 0 <= a < fresh@.len() ==> (#[trigger] fresh@[a]).wf(),
            forall|a: int|
                0 <= a < fresh@.len() ==> spawned_enemy_ok(
                    old(w).player,
                    width,
                    height,
                    #[trigger] fresh@[a],
                ),
        decreases n_t - ti,
    {
        let t = w.spawn_timers[ti];
        proof {
            assert(ts.take(ti + 1) =~= ts.take(ti as int).push(ts[ti as int]));
            assert(ts.take(ti + 1).drop_last() =~= ts.take(ti as int));
            lemma_fired_count_bounds(ts.take(ti as int), delta_ms);
        }
        if t.remaining_ms > delta_ms {
            kept.push(SpawnEnemiesTimer { remaining_ms: t.remaining_ms - delta_ms });
        } else {
            let ghost fired_before = fired_count(ts.take(ti as int), delta_ms);
            let mut j: usize = 0;
            while j < WAVE_SIZE
                invariant
                    0 <= j <= WAVE_SIZE,
                    *w == *old(w),
                    old(w).wf(),
                    2 <= width <= 2 * POS_LIMIT,
                    2 <= height <= 2 * POS_LIMIT,
                    anchor == spawn_anchor_position(old(w).player),
                    anchor.in_world(),
                    anchor_scale == spawn_anchor_scale(old(w).player),
                    1 <= anchor_scale <= SCALE_LIMIT,
                    0 <= fired_before <= ti < n_t == ts.len(),
                    ts == old(w).spawn_timers@,
                    old(w).next_enemy_id + (WAVE_SIZE as int) * n_t <= u64::MAX,
                    fresh@.len() == (WAVE_SIZE as int) * fired_before + j,
                    next_id == old(w).next_enemy_id + fresh@.len(),
                    forall|a: int|
                        0 <= a < fresh@.len() ==> (#[trigger] fresh@[a]).id == old(
                            w,
                        ).next_enemy_id + a,
                    forall|a: int| 0 <= a < fresh@.len() ==> (#[trigger] fresh@[a]).wf(),
                    forall|a: int|
                        0 <= a < fresh@.len() ==> spawned_enemy_ok(
                            old(w).player,
                            width,
                            height,
                            #[trigger] fresh@[a],
                        ),
                decreases WAVE_SIZE - j,
            {
                proof {
                    assert((WAVE_SIZE as int) * fired_before + j < (WAVE_SIZE as int) * n_t) by (
                    nonlinear_arith)
                        requires
                            0 <= fired_before <= ti,
                            ti < n_t,
                            0 <= j < WAVE_SIZE,
                            WAVE_SIZE == 10,
                    ;
                }
                let off = crate::sampling::random_offset(
                    MIN_DISTANCE_TO_ENEMY,
                    MAX_DISTANCE_TO_ENEMY,
                );
                let position = Vec2I {
                    x: crate::geom::clamp_coord(anchor.x + off.x),
                    y: crate::geom::clamp_coord(anchor.y + off.y),
                };
                let jit = crate::sampling::random_in_range(SCALE_JITTER_MIN, SCALE_JITTER_MAX);
                assert(1 <= anchor_scale * jit <= 1_400_000_000_000_000) by (nonlinear_arith)
                    requires
                        1 <= anchor_scale <= SCALE_LIMIT,
                        600 <= jit < 1400,
                        SCALE_LIMIT == 1_000_000_000_000,
                ;
                let scale = crate::geom::clamp_scale(anchor_scale * jit / UNIT);
                let k = crate::sampling::random_in_range(0, ENEMY_SPRITE_COUNT);
                let sprite_index = enemy_sprite_index(k);
                let destination = crate::enemies::random_destination(width, height);
                let e = Enemy { id: next_id, position, destination, scale, sprite_index };
                proof {
                    let (ux, uy, d) = choose|ux: int, uy: int, d: int|
                        #![trigger crate::geom::scaled_toward(ux, d, UNIT as int), crate::geom::scaled_toward(uy, d, UNIT as int)]
                        {
                            &&& crate::sampling::MIN_UNIT_SQUARED <= ux * ux + uy * uy <= (
                            UNIT as int) * (UNIT as int)
                            &&& MIN_DISTANCE_TO_ENEMY <= d < MAX_DISTANCE_TO_ENEMY
                            &&& off.x == crate::geom::scaled_toward(ux, d, UNIT as int)
                            &&& off.y == crate::geom::scaled_toward(uy, d, UNIT as int)
                            &&& -d <= off.x <= d
                            &&& -d <= off.y <= d
                            &&& (d >= 1000 ==> 5 * (off.x * off.x + off.y * off.y) >= d * d)
                        };
                    assert(e.position == (Vec2I {
                        x: crate::geom::clamped(anchor.x + off.x as int) as i64,
                        y: crate::geom::clamped(anchor.y + off.y as int) as i64,
                    }));
                    assert(e.scale == crate::geom::clamped_scale(
                        (anchor_scale as int) * (jit as int) / (UNIT as int),
                    ));
                    assert(e.sprite_index == enemy_sprite_value(k as int));
                    assert(spawned_enemy_ok(old(w).player, width, height, e));
                    assert(e.wf());
                }
                fresh.push(e);
                next_id = next_id + 1;
                j = j + 1;
            }
        }
        ti = ti + 1;
    }
    proof {
        assert(ts.take(n_t as int) =~= ts);
    }
    let ghost fresh_snap = fresh@;
    w.spawn_timers = kept;
    w.enemies.append(&mut fresh);
    w.next_enemy_id = next_id;
    proof {
        assert(final(w).enemies@ == es0 + fresh_snap);
        assert(final(w).enemies@.subrange(0, es0.len() as int) =~= es0);
        assert forall|i: int|
            0 <= i < final(w).enemies@.len() implies (#[trigger] final(w).enemies@[i]).wf()
            && final(w).enemies@[i].id < final(w).next_enemy_id by {
            if i < es0.len() {
                assert(final(w).enemies@[i] == es0[i]);
                assert(old(w).enemies@[i].wf());
                assert(old(w).enemies@[i].id < old(w).next_enemy_id);
            } else {
                assert(final(w).enemies@[i] == fresh_snap[i - es0.len()]);
            }
        }
        let post = final(w).enemies@;
        assert forall|i: int, j: int|
            0 <= i < j < post.len() implies post[i].id < post[j].id by {
            if i < es0.len() {
                assert(old(w).enemies@[i].id < old(w).next_enemy_id);
            }
            if j >= es0.len() {
                assert(final(w).enemies@[j] == fresh_snap[j - es0.len()]);
            }
            if j < es0.len() {
                assert(old(w).enemies@[i].id < old(w).enemies@[j].id);
            }
        }
    }
}

/// The camera zoom after one wave-clear feedback step: multiplied by 1.3,
/// saturated at the zoom bound.
pub open spec fn zoom_stepped(z: int) -> int {
    crate::geom::imin(z * (ZOOM_OUT_FACTOR as int) / (UNIT as int), SCALE_LIMIT as int)
}

/// The player speed after one wave-clear feedback step: multiplied by 1.2,
/// saturated at the speed bound.
pub open spec fn speed_stepped(s: int) -> int {
    crate::geom::imin(s * (SPEED_UP_FACTOR as int) / (UNIT as int), SCALE_LIMIT as int)
}

/// The camera zoom after `n` wave-clear feedback steps.
pub open spec fn zoom_after(z: int, n: nat) -> int
    decreases n,
{
    if n == 0 {
        z
    } else {
        zoom_stepped(zoom_after(z, (n - 1) as nat))
    }
}

/// The player speed after `n` wave-clear feedback steps.
pub open spec fn speed_after(s: int, n: nat) -> int
    decreases n,
{
    if n == 0 {
        s
    } else {
        speed_stepped(speed_after(s, (n - 1) as nat))
    }
}

/// One feedback step keeps a zoom or speed value in its working range and
/// never lowers it.
proof fn lemma_feedback_step_range(v: int, factor: int)
    requires
        1 <= v <= SCALE_LIMIT,
        UNIT <= factor <= 2 * (UNIT as int),
    ensures
        v <= crate::geom::imin(v * factor / (UNIT as int), SCALE_LIMIT as int) <= SCALE_LIMIT,
{
    assert(v * (UNIT as int) <= v * factor <= v * (2 * (UNIT as int))) by (nonlinear_arith)
        requires
            1 <= v,
            UNIT <= factor <= 2 * (UNIT as int),
    ;
    assert(v * (UNIT as int) / (UNIT as int) == v);
    vstd::arithmetic::div_mod::lemma_div_is_ordered(v * (UNIT as int), v * factor, UNIT as int);
}

/// What draining the wave-cleared signals does to the world, and nothing
/// else: the camera zoom and the player speed take one saturated feedback
/// step per pending signal, and the signal queue empties.
pub open spec fn expand_camera_effect(pre: World, post: World) -> bool {
    &&& (post == World {
        player: post.player,
        camera_zoom: post.camera_zoom,
        zoom_out_events: 0,
        ..pre
    })
    &&& post.camera_zoom == zoom_after(pre.camera_zoom as int, pre.zoom_out_events as nat)
    &&& (pre.player is None ==> post.player == pre.player)
    &&& (pre.player matches Some(p) ==> post.player == Some(
        Player { speed: speed_after(p.speed as int, pre.zoom_out_events as nat) as i64, ..p },
    ))
}

/// Consume every pending wave-cleared signal: for each one, zoom the camera
/// out by 1.3 and speed the player up by 1.2 (both saturated at their
/// bounds). Escalation compounds multiplicatively across cleared waves.
pub fn expand_camera(w: &mut World)
    requires
        old(w).wf(),
    ensures
        final(w).wf(),
        expand_camera_effect(*old(w), *final(w)),
{
    let n = w.zoom_out_events;
    let mut k: u64 = 0;
    let mut z = w.camera_zoom;
    while k < n
        invariant
            0 <= k <= n,
            UNIT <= z <= SCALE_LIMIT,
            z == zoom_after(old(w).camera_zoom as int, k as nat),
            UNIT <= old(w).camera_zoom <= SCALE_LIMIT,
        decreases n - k,
    {
        proof {
            lemma_feedback_step_range(z as int, ZOOM_OUT_FACTOR as int);
        }
        let stepped = z * ZOOM_OUT_FACTOR / UNIT;
        z = if stepped > SCALE_LIMIT {
            SCALE_LIMIT
        } else {
            stepped
        };
        k = k + 1;
    }
    w.camera_zoom = z;
    match w.player {
        Some(p) => {
            let mut j: u64 = 0;
            let mut s = p.speed;
            while j < n
                invariant
                    0 <= j <= n,
                    1 <= s <= SCALE_LIMIT,
                    s == speed_after(p.speed as int, j as nat),
                    1 <= p.speed <= SCALE_LIMIT,
                decreases n - j,
            {
                proof {
                    lemma_feedback_step_range(s as int, SPEED_UP_FACTOR as int);
                }
                let stepped = s * SPEED_UP_FACTOR / UNIT;
                s = if stepped > SCALE_LIMIT {
                    SCALE_LIMIT
                } else {
                    stepped
                };
                j = j + 1;
            }
            w.player = Some(Player { speed: s, ..p });
        },
        None => {},
    }
    w.zoom_out_events = 0;
}

} // verus!
