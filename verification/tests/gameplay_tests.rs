use rust_shooter::gameplay::{
    calculate_score, check_botton_wall_collsion, check_lazer_collision, check_player_collision,
    cleanup, destroy_system, handle_asteroid_damage_collision, handle_game_over_event,
    handle_input, handle_player_dead, insert_resources, lazer_shooting, move_objects,
    restart_system, setup, spawn_asteroid, take_damage, AsteroidEntity, AsteroidSpawTimer,
    Damage, Direction, GameWorld,
    GameplayState, Health, LazerEntity, LazerShootingTimer, PlayerEntity, Score, ScoreRecord,
    Speed, ASTEROID_MOVE_SPEED, ASTEROID_SPAWN_HEIGHT, ASTEROID_SPAWN_MAX_X,
    ASTEROID_SPAWN_MIN_X, INITIAL_PLAYER_HEALTH, LAZER_SPEED, LAZER_Y_OFFSET,
    PLAYER_MOVE_SPEED, PLAYER_SPAWN_HEIGHT, SCORE_BY_ONE_ASTEROID,
};
use rust_shooter::geometry::{Point, MAX_COORD};
use rust_shooter::timer::{Timer, TimerMode};

fn fresh_world() -> GameWorld {
    GameWorld {
        player: PlayerEntity {
            transform: Point { x: 0, y: PLAYER_SPAWN_HEIGHT },
            direction: Direction { x: 0, y: 0 },
            speed: Speed(PLAYER_MOVE_SPEED),
            health: Health(INITIAL_PLAYER_HEALTH),
            damage: None,
            dead: false,
        },
        asteroids: Vec::new(),
        lazers: Vec::new(),
        score: Score(0),
        record: ScoreRecord(0),
        state: GameplayState::Game,
        spawn_timer: AsteroidSpawTimer(Timer::new(TimerMode::Repeating, 2000)),
        shoot_timer: LazerShootingTimer(Timer::new(TimerMode::Once, 500)),
        lazer_hit_events: 0,
        damage_events: 0,
        game_over_events: 0,
        restart_events: 0,
    }
}

fn asteroid_at(x: i64, y: i64) -> AsteroidEntity {
    AsteroidEntity {
        transform: Point { x, y },
        direction: Direction { x: 0, y: -1 },
        speed: Speed(ASTEROID_MOVE_SPEED),
        destroy: false,
    }
}

fn lazer_at(x: i64, y: i64) -> LazerEntity {
    LazerEntity {
        transform: Point { x, y },
        direction: Direction { x: 0, y: 1 },
        speed: Speed(LAZER_SPEED),
        destroy: false,
    }
}

#[test]
fn setup_spawns_player_at_start() {
    let mut w = fresh_world();
    w.player.health = Health(0);
    w.player.dead = true;
    w.player.transform.x = 12345;
    setup(&mut w);
    assert_eq!(w.player.transform, Point { x: 0, y: PLAYER_SPAWN_HEIGHT });
    assert_eq!(w.player.health, Health(INITIAL_PLAYER_HEALTH));
    assert!(!w.player.dead);
    assert_eq!(w.player.speed, Speed(PLAYER_MOVE_SPEED));
}

#[test]
fn insert_resources_resets_per_game_state() {
    let mut w = fresh_world();
    w.score = Score(55);
    w.state = GameplayState::GameOver;
    w.spawn_timer.0.tick(1700);
    insert_resources(&mut w);
    assert_eq!(w.score, Score(0));
    assert_eq!(w.state, GameplayState::Game);
    assert_eq!(w.spawn_timer.0.elapsed_ms, 0);
    assert_eq!(w.shoot_timer.0.elapsed_ms, 0);
}

#[test]
fn cleanup_despawns_everything() {
    let mut w = fresh_world();
    w.asteroids.push(asteroid_at(0, 0));
    w.lazers.push(lazer_at(0, 0));
    cleanup(&mut w);
    assert!(w.asteroids.is_empty());
    assert!(w.lazers.is_empty());
}

#[test]
fn input_left_wins_over_right() {
    let mut w = fresh_world();
    handle_input(&mut w, true, true);
    assert_eq!(w.player.direction.x, -1);
    handle_input(&mut w, false, true);
    assert_eq!(w.player.direction.x, 1);
    handle_input(&mut w, false, false);
    assert_eq!(w.player.direction.x, 0);
}

#[test]
fn movement_integrates_direction_speed_time() {
    let mut w = fresh_world();
    w.player.direction.x = 1;
    w.asteroids.push(asteroid_at(1000, 100_000));
    w.lazers.push(lazer_at(-5000, 2000));
    move_objects(&mut w, 1000);
    // One second: the player moves its speed to the right, the asteroid
    // falls its speed, the laser climbs its speed.
    assert_eq!(w.player.transform.x, PLAYER_MOVE_SPEED);
    assert_eq!(w.player.transform.y, PLAYER_SPAWN_HEIGHT);
    assert_eq!(w.asteroids[0].transform, Point { x: 1000, y: 100_000 - ASTEROID_MOVE_SPEED });
    assert_eq!(w.lazers[0].transform, Point { x: -5000, y: 2000 + LAZER_SPEED });
}

#[test]
fn movement_rounds_down_partial_steps() {
    let mut w = fresh_world();
    w.player.direction.x = 1;
    // 3 ms at 250 000 steps per second is 750 steps.
    move_objects(&mut w, 3);
    assert_eq!(w.player.transform.x, 750);
}

#[test]
fn movement_clamps_at_world_bound() {
    let mut w = fresh_world();
    w.player.transform.x = MAX_COORD - 10;
    w.player.direction.x = 1;
    move_objects(&mut w, 1000);
    assert_eq!(w.player.transform.x, MAX_COORD);
}

#[test]
fn shooting_waits_for_cooldown() {
    let mut w = fresh_world();
    // 100 ms into a 500 ms cooldown: no shot even though the key is down.
    let fired = lazer_shooting(&mut w, 100, true);
    assert!(!fired);
    assert!(w.lazers.is_empty());
}

#[test]
fn shooting_spawns_lazer_and_restarts_cooldown() {
    let mut w = fresh_world();
    let fired = lazer_shooting(&mut w, 500, true);
    assert!(fired);
    assert_eq!(w.lazers.len(), 1);
    assert_eq!(
        w.lazers[0].transform,
        Point { x: 0, y: PLAYER_SPAWN_HEIGHT + LAZER_Y_OFFSET }
    );
    assert_eq!(w.lazers[0].direction, Direction { x: 0, y: 1 });
    assert_eq!(w.lazers[0].speed, Speed(LAZER_SPEED));
    // The cooldown begins again: an immediate second press does nothing.
    let fired_again = lazer_shooting(&mut w, 0, true);
    assert!(!fired_again);
    assert_eq!(w.lazers.len(), 1);
}

#[test]
fn shooting_without_press_keeps_cooldown_ready() {
    let mut w = fresh_world();
    let fired = lazer_shooting(&mut w, 600, false);
    assert!(!fired);
    assert!(w.lazers.is_empty());
    // The cooldown stays run out, so the next press fires at once.
    let fired_now = lazer_shooting(&mut w, 0, true);
    assert!(fired_now);
    assert_eq!(w.lazers.len(), 1);
}

#[test]
fn asteroid_spawns_when_timer_wraps() {
    let mut w = fresh_world();
    spawn_asteroid(&mut w, 1999);
    assert!(w.asteroids.is_empty());
    spawn_asteroid(&mut w, 1);
    assert_eq!(w.asteroids.len(), 1);
    let a = &w.asteroids[0];
    assert_eq!(a.transform.y, ASTEROID_SPAWN_HEIGHT);
    assert!(ASTEROID_SPAWN_MIN_X <= a.transform.x && a.transform.x <= ASTEROID_SPAWN_MAX_X);
    assert_eq!(a.direction, Direction { x: 0, y: -1 });
    assert_eq!(a.speed, Speed(ASTEROID_MOVE_SPEED));
    assert!(!a.destroy);
}

#[test]
fn lazer_collision_destroys_both_and_counts() {
    let mut w = fresh_world();
    w.asteroids.push(asteroid_at(0, 0));
    w.asteroids.push(asteroid_at(300_000, 0));
    w.lazers.push(lazer_at(0, 0));
    check_lazer_collision(&mut w);
    assert!(w.lazers[0].destroy);
    assert!(w.asteroids[0].destroy);
    assert!(!w.asteroids[1].destroy);
    assert_eq!(w.lazer_hit_events, 1);
}

#[test]
fn lazer_collision_misses_leave_world_alone() {
    let mut w = fresh_world();
    w.asteroids.push(asteroid_at(300_000, 0));
    w.lazers.push(lazer_at(0, 0));
    check_lazer_collision(&mut w);
    assert!(!w.lazers[0].destroy);
    assert!(!w.asteroids[0].destroy);
    assert_eq!(w.lazer_hit_events, 0);
}

#[test]
fn high_lazer_is_destroyed_and_stops_the_scan() {
    let mut w = fresh_world();
    w.asteroids.push(asteroid_at(0, 0));
    w.lazers.push(lazer_at(0, ASTEROID_SPAWN_HEIGHT + 1));
    // This second bolt overlaps an asteroid, but the scan stops at the
    // out-of-play bolt before it.
    w.lazers.push(lazer_at(0, 0));
    check_lazer_collision(&mut w);
    assert!(w.lazers[0].destroy);
    assert!(!w.lazers[1].destroy);
    assert!(!w.asteroids[0].destroy);
    assert_eq!(w.lazer_hit_events, 0);
}

#[test]
fn player_collision_clamps_into_lane() {
    let mut w = fresh_world();
    w.player.transform.x = ASTEROID_SPAWN_MAX_X + 50_000;
    let hits = check_player_collision(&mut w);
    assert_eq!(hits, 0);
    assert_eq!(w.player.transform.x, ASTEROID_SPAWN_MAX_X);
    w.player.transform.x = ASTEROID_SPAWN_MIN_X - 50_000;
    check_player_collision(&mut w);
    assert_eq!(w.player.transform.x, ASTEROID_SPAWN_MIN_X);
}

#[test]
fn player_collision_marks_asteroid_and_raises_damage() {
    let mut w = fresh_world();
    w.asteroids.push(asteroid_at(0, PLAYER_SPAWN_HEIGHT));
    w.asteroids.push(asteroid_at(0, 300_000));
    let hits = check_player_collision(&mut w);
    assert_eq!(hits, 1);
    assert!(w.asteroids[0].destroy);
    assert!(!w.asteroids[1].destroy);
    assert_eq!(w.damage_events, 1);
}

#[test]
fn asteroid_below_wall_raises_damage() {
    let mut w = fresh_world();
    w.asteroids.push(asteroid_at(0, -ASTEROID_SPAWN_HEIGHT - 1));
    w.asteroids.push(asteroid_at(0, 0));
    let hits = check_botton_wall_collsion(&mut w);
    assert_eq!(hits, 1);
    assert!(w.asteroids[0].destroy);
    assert!(!w.asteroids[1].destroy);
    assert_eq!(w.damage_events, 1);
}

#[test]
fn damage_events_become_pending_damage() {
    let mut w = fresh_world();
    w.damage_events = 3;
    handle_asteroid_damage_collision(&mut w);
    assert_eq!(w.player.damage, Some(Damage(3)));
    assert_eq!(w.damage_events, 0);
    // Without pending events nothing changes.
    let mut w2 = fresh_world();
    handle_asteroid_damage_collision(&mut w2);
    assert_eq!(w2.player.damage, None);
}

#[test]
fn take_damage_decrements_health_and_marks_death() {
    let mut w = fresh_world();
    w.player.damage = Some(Damage(1));
    take_damage(&mut w);
    assert_eq!(w.player.health, Health(2));
    assert!(!w.player.dead);
    assert_eq!(w.player.damage, None);
    w.player.damage = Some(Damage(2));
    take_damage(&mut w);
    assert_eq!(w.player.health, Health(0));
    assert!(w.player.dead);
}

#[test]
fn player_death_ends_the_game_once() {
    let mut w = fresh_world();
    handle_player_dead(&mut w);
    assert_eq!(w.state, GameplayState::Game);
    assert_eq!(w.game_over_events, 0);
    w.player.dead = true;
    handle_player_dead(&mut w);
    assert_eq!(w.state, GameplayState::GameOver);
    assert_eq!(w.game_over_events, 1);
    // A second resolution raises no second event.
    handle_player_dead(&mut w);
    assert_eq!(w.game_over_events, 1);
}

#[test]
fn game_over_updates_record_only_when_beaten() {
    let mut w = fresh_world();
    w.game_over_events = 1;
    w.score = Score(40);
    w.record = ScoreRecord(100);
    let to_save = handle_game_over_event(&mut w);
    assert_eq!(to_save, None);
    assert_eq!(w.record, ScoreRecord(100));
    assert_eq!(w.state, GameplayState::GameOver);
    assert_eq!(w.game_over_events, 0);

    let mut w2 = fresh_world();
    w2.game_over_events = 1;
    w2.score = Score(140);
    w2.record = ScoreRecord(100);
    let to_save2 = handle_game_over_event(&mut w2);
    assert_eq!(to_save2, Some(140));
    assert_eq!(w2.record, ScoreRecord(140));
}

#[test]
fn game_over_without_event_changes_nothing() {
    let mut w = fresh_world();
    w.score = Score(140);
    w.record = ScoreRecord(100);
    let to_save = handle_game_over_event(&mut w);
    assert_eq!(to_save, None);
    assert_eq!(w.record, ScoreRecord(100));
    assert_eq!(w.state, GameplayState::Game);
}

#[test]
fn score_counts_kills() {
    let mut w = fresh_world();
    w.score = Score(10);
    w.lazer_hit_events = 2;
    calculate_score(&mut w);
    assert_eq!(w.score, Score(10 + 2 * SCORE_BY_ONE_ASTEROID));
    assert_eq!(w.lazer_hit_events, 0);
}

#[test]
fn destroy_system_despawns_marked_entities() {
    let mut w = fresh_world();
    w.asteroids.push(asteroid_at(1, 0));
    w.asteroids.push(asteroid_at(2, 0));
    w.asteroids.push(asteroid_at(3, 0));
    w.asteroids[1].destroy = true;
    w.lazers.push(lazer_at(4, 0));
    w.lazers[0].destroy = true;
    destroy_system(&mut w);
    assert_eq!(w.asteroids.len(), 2);
    assert_eq!(w.asteroids[0].transform.x, 1);
    assert_eq!(w.asteroids[1].transform.x, 3);
    assert!(w.lazers.is_empty());
}

#[test]
fn restart_resets_the_game() {
    let mut w = fresh_world();
    w.asteroids.push(asteroid_at(0, 0));
    w.lazers.push(lazer_at(0, 0));
    w.score = Score(55);
    w.state = GameplayState::GameOver;
    w.player.dead = true;
    w.player.health = Health(0);
    w.record = ScoreRecord(99);
    w.restart_events = 1;
    restart_system(&mut w);
    assert!(w.asteroids.is_empty());
    assert!(w.lazers.is_empty());
    assert_eq!(w.score, Score(0));
    assert_eq!(w.state, GameplayState::Game);
    assert!(!w.player.dead);
    assert_eq!(w.player.health, Health(INITIAL_PLAYER_HEALTH));
    // The record survives a restart.
    assert_eq!(w.record, ScoreRecord(99));
    assert_eq!(w.restart_events, 0);
}

#[test]
fn restart_without_request_changes_nothing() {
    let mut w = fresh_world();
    w.score = Score(55);
    restart_system(&mut w);
    assert_eq!(w.score, Score(55));
}

#[test]
fn one_frame_kills_an_asteroid_and_scores() {
    // A whole frame chain around one laser hit: input, shooting, spawning,
    // movement, collisions, damage, scoring, despawning.
    let mut w = fresh_world();
    w.asteroids.push(asteroid_at(0, PLAYER_SPAWN_HEIGHT + 200_000));
    w.lazers.push(lazer_at(0, PLAYER_SPAWN_HEIGHT + 180_000));
    handle_input(&mut w, false, false);
    let fired = lazer_shooting(&mut w, 16, false);
    assert!(!fired);
    spawn_asteroid(&mut w, 16);
    move_objects(&mut w, 16);
    check_lazer_collision(&mut w);
    check_player_collision(&mut w);
    check_botton_wall_collsion(&mut w);
    handle_asteroid_damage_collision(&mut w);
    take_damage(&mut w);
    handle_player_dead(&mut w);
    calculate_score(&mut w);
    destroy_system(&mut w);
    assert_eq!(w.score, Score(SCORE_BY_ONE_ASTEROID));
    assert!(w.asteroids.is_empty());
    assert!(w.lazers.is_empty());
    assert_eq!(w.player.health, Health(INITIAL_PLAYER_HEALTH));
    assert_eq!(w.state, GameplayState::Game);
}
