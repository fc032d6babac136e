use last_giant_standing::enemies::{move_enemies, random_destination, Enemy, SpawnEnemiesTimer};
use last_giant_standing::geom::Vec2I;
use last_giant_standing::player::{
    animate_growth, listen_for_restart_button, move_player, update_player_direction, Player,
    Restart, Tween,
};
use last_giant_standing::{
    check_collisions, expand_camera, restart_game, spawn_enemies, spawn_enemies_timer,
    spawn_player, tick, GameStates, World, UNIT,
};

fn player_at(x: i64, y: i64, scale: i64) -> Player {
    Player {
        position: Vec2I { x, y },
        scale,
        ..Player::default()
    }
}

fn enemy_at(id: u64, x: i64, y: i64, scale: i64) -> Enemy {
    Enemy {
        id,
        position: Vec2I { x, y },
        destination: Vec2I { x: 0, y: 0 },
        scale,
        sprite_index: 85,
    }
}

fn running_world(player: Option<Player>, enemies: Vec<Enemy>) -> World {
    let mut w = World::new();
    w.spawn_events = if player.is_some() { 0 } else { 1 };
    w.player = player;
    let next = enemies.iter().map(|e| e.id + 1).max().unwrap_or(0);
    w.enemies = enemies;
    w.next_enemy_id = next;
    w
}

#[test]
fn outcome_determinism_player_wins() {
    let p = player_at(0, 0, 3_000);
    let mut w = running_world(Some(p), vec![enemy_at(0, 0, 0, 2_000)]);
    check_collisions(&mut w);
    assert_eq!(w.enemies.len(), 0);
    assert_eq!(w.state, GameStates::Running);
    let t = w.tween.expect("absorbing must attach a growth tween");
    assert_eq!(t.destination_scale, 3_400);
    assert_eq!(t.step_value, 80);
    assert_eq!(w.player.unwrap().scale, 3_000);
}

#[test]
fn outcome_determinism_player_dies() {
    let p = player_at(0, 0, 2_000);
    let mut w = running_world(Some(p), vec![enemy_at(0, 0, 0, 3_000)]);
    check_collisions(&mut w);
    assert!(w.player.is_none());
    assert!(w.tween.is_none());
    assert_eq!(w.state, GameStates::Dead);
    assert_eq!(w.enemies.len(), 1);
    assert_eq!(w.enemies[0].id, 0);
}

#[test]
fn equal_scales_kill_the_player() {
    let p = player_at(0, 0, 2_000);
    let mut w = running_world(Some(p), vec![enemy_at(0, 0, 0, 2_000)]);
    check_collisions(&mut w);
    assert!(w.player.is_none());
    assert_eq!(w.state, GameStates::Dead);
}

#[test]
fn non_overlapping_enemy_is_untouched() {
    let p = player_at(0, 0, 3_000);
    let mut w = running_world(Some(p), vec![enemy_at(0, 500_000, 0, 2_000)]);
    check_collisions(&mut w);
    assert_eq!(w.enemies.len(), 1);
    assert!(w.tween.is_none());
    assert_eq!(w.state, GameStates::Running);
    assert_eq!(w.zoom_out_events, 0);
    assert_eq!(w.spawn_timers.len(), 0);
}

#[test]
fn wave_cleared_not_signaled_without_enemies() {
    let p = player_at(0, 0, 3_000);
    let mut w = running_world(Some(p), vec![]);
    let timers_before = w.spawn_timers.len();
    check_collisions(&mut w);
    assert_eq!(w.zoom_out_events, 0);
    assert_eq!(w.spawn_timers.len(), timers_before);
    assert_eq!(w.state, GameStates::Running);
}

#[test]
fn wave_cleared_feedback_compounds() {
    let p = player_at(0, 0, 3_000);
    let mut w = running_world(Some(p), vec![enemy_at(0, 0, 0, 2_000)]);
    check_collisions(&mut w);
    // the lone enemy overlapped and was absorbed: the wave is cleared
    assert_eq!(w.zoom_out_events, 1);
    assert_eq!(w.spawn_timers.len(), 1);
    assert_eq!(w.spawn_timers[0].remaining_ms, 1_000);
    expand_camera(&mut w);
    assert_eq!(w.zoom_out_events, 0);
    assert_eq!(w.camera_zoom, 1_300);
    assert_eq!(w.player.unwrap().speed, 3_600);
}

#[test]
fn death_stops_the_scan_mid_wave() {
    // first enemy is absorbed, second kills, third is never examined
    let p = player_at(0, 0, 3_000);
    let enemies = vec![
        enemy_at(0, 0, 0, 2_000),
        enemy_at(1, 0, 0, 3_000),
        enemy_at(2, 10_000, 0, 1_000),
    ];
    let mut w = running_world(Some(p), enemies);
    check_collisions(&mut w);
    assert!(w.player.is_none());
    assert_eq!(w.state, GameStates::Dead);
    // the killer and the unexamined enemy survive; the absorbed one is gone
    assert_eq!(w.enemies.len(), 2);
    assert_eq!(w.enemies[0].id, 1);
    assert_eq!(w.enemies[1].id, 2);
}

#[test]
fn tween_terminates_in_six_ticks() {
    let p = player_at(0, 0, 3_000);
    let mut w = running_world(Some(p), vec![]);
    w.tween = Some(Tween {
        step_value: 80,
        destination_scale: 3_400,
    });
    let mut ticks: u32 = 0;
    while w.tween.is_some() {
        animate_growth(&mut w);
        let scale = w.player.unwrap().scale;
        assert!(scale <= 3_400, "growth must never overshoot the target");
        ticks += 1;
        assert!(ticks <= 6, "the tween must terminate within six ticks");
    }
    assert_eq!(w.player.unwrap().scale, 3_400);
    assert_eq!(ticks, 6);
}

#[test]
fn growth_never_shrinks_the_scale() {
    let p = player_at(0, 0, 3_000);
    let mut w = running_world(Some(p), vec![]);
    w.tween = Some(Tween {
        step_value: 80,
        destination_scale: 3_400,
    });
    let mut last: i64 = 3_000;
    for _ in 0..10 {
        animate_growth(&mut w);
        let scale = w.player.unwrap().scale;
        assert!(scale >= last);
        last = scale;
    }
    assert_eq!(last, 3_400);
}

#[test]
fn wave_batch_atomicity() {
    let p = player_at(10_000, -20_000, 3_000);
    let mut w = running_world(Some(p), vec![]);
    w.spawn_timers = vec![SpawnEnemiesTimer { remaining_ms: 1_000 }];
    spawn_enemies_timer(&mut w, 1_000, 1_000_000, 1_000_000);
    assert_eq!(w.enemies.len(), 10, "one firing timer emits exactly ten enemies");
    assert_eq!(w.spawn_timers.len(), 0, "a fired timer is removed the same tick");
    assert_eq!(w.next_enemy_id, 10);
    for (i, e) in w.enemies.iter().enumerate() {
        assert_eq!(e.id, i as u64, "fresh enemies carry fresh increasing handles");
        assert!(e.scale >= 1_800 && e.scale < 4_200, "jitter in [0.6, 1.4) of 3.0");
        assert!((e.position.x - 10_000).abs() <= 550_000);
        assert!((e.position.y + 20_000).abs() <= 550_000);
        let (ox, oy) = (e.position.x - 10_000, e.position.y + 20_000);
        assert!(
            5 * (ox * ox + oy * oy) >= 140_000i64 * 140_000,
            "a spawned enemy never lands on top of the player"
        );
        assert!(e.destination.x.abs() <= 500_000 && e.destination.y.abs() <= 500_000);
        let palette: [usize; 14] = [85, 86, 87, 88, 96, 97, 98, 99, 100, 108, 109, 110, 111, 112];
        assert!(palette.contains(&e.sprite_index));
    }
}

#[test]
fn timer_counts_down_without_firing_early() {
    let p = player_at(0, 0, 3_000);
    let mut w = running_world(Some(p), vec![]);
    w.spawn_timers = vec![SpawnEnemiesTimer { remaining_ms: 1_000 }];
    spawn_enemies_timer(&mut w, 400, 1_000_000, 1_000_000);
    assert_eq!(w.enemies.len(), 0);
    assert_eq!(w.spawn_timers.len(), 1);
    assert_eq!(w.spawn_timers[0].remaining_ms, 600);
    spawn_enemies_timer(&mut w, 600, 1_000_000, 1_000_000);
    assert_eq!(w.enemies.len(), 10);
    assert_eq!(w.spawn_timers.len(), 0);
}

#[test]
fn restart_clears_state() {
    let p = player_at(0, 0, 2_000);
    let mut w = running_world(Some(p), vec![enemy_at(0, 0, 0, 3_000)]);
    w.camera_zoom = 2_197; // three cleared waves
    check_collisions(&mut w);
    assert_eq!(w.state, GameStates::Dead);
    restart_game(&mut w, Some(Restart));
    assert_eq!(w.state, GameStates::Running);
    assert_eq!(w.camera_zoom, UNIT);
    assert_eq!(w.enemies.len(), 0);
    assert!(w.player.is_none());
    assert_eq!(w.spawn_events, 1);
    // the next tick materializes the requested player and wave timer
    tick(&mut w, false, false, false, false, false, 0, 1_000_000, 1_000_000);
    let fresh = w.player.expect("the respawn request must produce a player");
    assert_eq!(fresh.speed, 3_000, "restart resets the player speed");
    assert_eq!(fresh.scale, 3_000);
    assert_eq!(w.spawn_timers.len(), 1);
    assert_eq!(w.spawn_events, 0);
}

#[test]
fn restart_ignored_while_running() {
    let p = player_at(0, 0, 3_000);
    let mut w = running_world(Some(p), vec![]);
    restart_game(&mut w, Some(Restart));
    assert_eq!(w.state, GameStates::Running);
    assert!(w.player.is_some());
    assert_eq!(w.spawn_events, 0);
}

#[test]
fn restart_signal_follows_the_key() {
    assert!(listen_for_restart_button(true).is_some());
    assert!(listen_for_restart_button(false).is_none());
}

#[test]
fn player_moves_by_intent_times_speed() {
    let p = player_at(100, 200, 3_000);
    let mut w = running_world(Some(p), vec![]);
    update_player_direction(&mut w, true, false, false, true);
    move_player(&mut w);
    let moved = w.player.unwrap();
    assert_eq!(moved.position, Vec2I { x: 3_100, y: 3_200 });
    update_player_direction(&mut w, false, true, true, false);
    move_player(&mut w);
    let back = w.player.unwrap();
    assert_eq!(back.position, Vec2I { x: 100, y: 200 });
}

#[test]
fn opposite_keys_cancel() {
    let p = player_at(0, 0, 3_000);
    let mut w = running_world(Some(p), vec![]);
    update_player_direction(&mut w, true, true, true, true);
    move_player(&mut w);
    assert_eq!(w.player.unwrap().position, Vec2I { x: 0, y: 0 });
}

#[test]
fn enemy_steps_toward_its_destination() {
    let mut e = enemy_at(0, 0, 0, 2_000);
    e.destination = Vec2I { x: 10_000, y: 0 };
    let mut w = running_world(Some(player_at(0, 0, 3_000)), vec![e]);
    move_enemies(&mut w, 1_000_000, 1_000_000);
    // one 2.9-unit step straight along the x axis
    assert_eq!(w.enemies[0].position, Vec2I { x: 2_900, y: 0 });
    assert_eq!(w.enemies[0].destination, Vec2I { x: 10_000, y: 0 });
}

#[test]
fn arrived_enemy_picks_a_new_destination() {
    let mut e = enemy_at(0, 700, 700, 2_000);
    e.destination = Vec2I { x: 0, y: 0 }; // squared distance 980000 < 4000000
    let mut w = running_world(Some(player_at(0, 0, 3_000)), vec![e]);
    move_enemies(&mut w, 1_000, 1_000);
    assert_eq!(w.enemies[0].position, Vec2I { x: 700, y: 700 });
    let d = w.enemies[0].destination;
    assert!(-500 <= d.x && d.x < 500);
    assert!(-500 <= d.y && d.y < 500);
}

#[test]
fn spawner_without_player_scatters_around_origin() {
    let mut w = World::new();
    w.spawn_events = 0;
    w.state = GameStates::Dead;
    w.spawn_timers = vec![SpawnEnemiesTimer { remaining_ms: 500 }];
    spawn_enemies_timer(&mut w, 600, 1_000_000, 1_000_000);
    assert_eq!(w.enemies.len(), 10);
    for e in w.enemies.iter() {
        assert!(e.position.x.abs() <= 550_000 && e.position.y.abs() <= 550_000);
        // jitter applies to the initial scale while no player exists
        assert!(e.scale >= 1_800 && e.scale < 4_200);
    }
}

#[test]
fn spawn_requests_drive_player_and_timer() {
    let mut w = World::new();
    assert_eq!(w.spawn_events, 1);
    spawn_player(&mut w, 1);
    spawn_enemies(&mut w, 1);
    assert!(w.player.is_some());
    assert_eq!(w.spawn_timers.len(), 1);
    assert_eq!(w.spawn_timers[0].remaining_ms, 1_000);
}

#[test]
fn full_game_loop_survives_and_escalates() {
    let mut w = World::new();
    // first tick: the startup request spawns the player and a wave timer
    tick(&mut w, false, false, false, false, false, 0, 1_000_000, 1_000_000);
    assert!(w.player.is_some());
    assert_eq!(w.spawn_timers.len(), 1);
    // one second later the wave materializes
    tick(&mut w, true, false, false, false, false, 1_000, 1_000_000, 1_000_000);
    assert_eq!(w.enemies.len(), 10);
    assert_eq!(w.spawn_timers.len(), 0);
    // simulate a while: the world stays consistent
    for _ in 0..50 {
        tick(&mut w, true, false, true, false, false, 16, 1_000_000, 1_000_000);
        assert!(w.camera_zoom >= UNIT);
        if w.state == GameStates::Dead {
            assert!(w.player.is_none());
        }
    }
}

#[test]
fn random_destination_matches_bounds() {
    for _ in 0..100 {
        let d = random_destination(800, 400);
        assert!(-400 <= d.x && d.x < 400);
        assert!(-200 <= d.y && d.y < 200);
    }
}
