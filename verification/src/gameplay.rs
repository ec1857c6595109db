//! The per-frame gameplay systems of the shooter: player input, laser and
//! asteroid spawning, kinematic movement, the three collision checks, damage
//! and death resolution, scoring, game-over bookkeeping and the restart.
//!
//! The world is a plain value: one player, the live asteroids and lasers,
//! the score and record, the two timers, the gameplay state and the pending
//! event counters. Each system says exactly how it turns the old world into
//! the new one. The engine shell around the crate polls input, draws, plays
//! sounds and persists the record; it hands these functions booleans, frame
//! times and bytes, nothing more.

use vstd::prelude::*;

use crate::geometry::{
    box_circle_intersect, clamp_i64, spec_box_circle_intersect, spec_clamp, spec_clamp_coord,
    Point, MAX_COORD,
};
use crate::timer::{Timer, TimerMode};

verus! {

// World geometry, in fixed-point coordinates (a step is a thousandth of a
// world unit) and speeds in steps per second.
pub const PLAYER_SPAWN_HEIGHT: i64 = -400_000;

pub const PLAYER_MOVE_SPEED: i64 = 250_000;

pub const PLAYER_BODY_HALF_X: i64 = 17_000;

pub const PLAYER_BODY_HALF_Y: i64 = 37_500;

pub const PLAYER_WINGS_HALF_X: i64 = 49_500;

pub const PLAYER_WINGS_HALF_Y: i64 = 17_500;

pub const LAZER_SPEED: i64 = 600_000;

pub const LAZER_Y_OFFSET: i64 = 40_000;

pub const LAZER_HALF_X: i64 = 500;

pub const LAZER_HALF_Y: i64 = 500;

pub const ASTEROID_MOVE_SPEED: i64 = 350_000;

pub const ASTEROID_SPAWN_HEIGHT: i64 = 550_000;

pub const ASTEROID_SPAWN_MIN_X: i64 = -200_000;

pub const ASTEROID_SPAWN_MAX_X: i64 = 200_000;

pub const ASTEROID_RADIUS: i64 = 41_000;

pub const ASTEROID_DAMAGE: i32 = 1;

pub const SCORE_BY_ONE_ASTEROID: i32 = 5;

pub const INITIAL_PLAYER_HEALTH: i32 = 3;

/// Largest speed any entity may carry.
pub const MAX_SPEED: i64 = 1_000_000;

/// Largest frame time `move_objects` accepts, so that a displacement always
/// fits the coordinate arithmetic.
pub const MAX_TICK_MS: u64 = 1_000_000;

pub const ASTEROID_SPAWN_PERIOD_MS: u64 = 2000;

pub const LAZER_COOLDOWN_MS: u64 = 500;

/// A movement direction; each component is -1, 0 or 1.
#[derive(Clone, Copy, Debug, PartialEq, Eq, Structural)]
pub struct Direction {
    pub x: i64,
    pub y: i64,
}

/// Speed in coordinate steps per second.
#[derive(Clone, Copy, Debug, PartialEq, Eq, Structural)]
pub struct Speed(pub i64);

/// Remaining hit points of the player.
#[derive(Clone, Copy, Debug, PartialEq, Eq, Structural)]
pub struct Health(pub i32);

/// Damage pending against the player, gathered from this frame's collision
/// events and consumed by `take_damage`.
#[derive(Clone, Copy, Debug, PartialEq, Eq, Structural)]
pub struct Damage(pub i32);

/// The running score of the current game.
#[derive(Clone, Copy, Debug, PartialEq, Eq, Structural)]
pub struct Score(pub i32);

/// The best score seen so far, persisted between games.
#[derive(Clone, Copy, Debug, PartialEq, Eq, Structural)]
pub struct ScoreRecord(pub i32);

/// Whether a game is being played or has ended.
#[derive(Clone, Copy, Debug, PartialEq, Eq, Structural)]
pub enum GameplayState {
    Game,
    GameOver,
}

/// The repeating timer that paces asteroid spawning.
#[derive(Clone, Copy, Debug, PartialEq, Eq, Structural)]
pub struct AsteroidSpawTimer(pub Timer);

/// The once timer that enforces the laser fire-rate cooldown.
#[derive(Clone, Copy, Debug, PartialEq, Eq, Structural)]
pub struct LazerShootingTimer(pub Timer);

/// The player ship: where it is, how it moves, how much health it has, what
/// damage is pending against it and whether it has died.
#[derive(Clone, Copy, Debug, PartialEq, Eq)]
pub struct PlayerEntity {
    pub transform: Point,
    pub direction: Direction,
    pub speed: Speed,
    pub health: Health,
    pub damage: Option<Damage>,
    pub dead: bool,
}

/// A laser bolt in flight; `destroy` marks it for despawning.
#[derive(Clone, Copy, Debug, PartialEq, Eq, Structural)]
pub struct LazerEntity {
    pub transform: Point,
    pub direction: Direction,
    pub speed: Speed,
    pub destroy: bool,
}

/// A falling asteroid; `destroy` marks it for despawning.
#[derive(Clone, Copy, Debug, PartialEq, Eq, Structural)]
pub struct AsteroidEntity {
    pub transform: Point,
    pub direction: Direction,
    pub speed: Speed,
    pub destroy: bool,
}

/// Everything the gameplay systems read and write in one frame.
#[derive(Debug, PartialEq, Eq)]
pub struct GameWorld {
    pub player: PlayerEntity,
    pub asteroids: Vec<AsteroidEntity>,
    pub lazers: Vec<LazerEntity>,
    pub score: Score,
    pub record: ScoreRecord,
    pub state: GameplayState,
    pub spawn_timer: AsteroidSpawTimer,
    pub shoot_timer: LazerShootingTimer,
    /// Pending laser-hit-asteroid events, counted for the scorer.
    pub lazer_hit_events: u64,
    /// Pending asteroid-damage events, counted for the damage resolver.
    pub damage_events: u64,
    /// Pending game-over events.
    pub game_over_events: u64,
    /// Pending restart requests.
    pub restart_events: u64,
}

/// Each component of `d` is -1, 0 or 1.
pub open spec fn unit_dir(d: Direction) -> bool {
    -1 <= d.x <= 1 && -1 <= d.y <= 1
}

/// A speed is non-negative and bounded.
pub open spec fn speed_ok(s: Speed) -> bool {
    0 <= s.0 <= MAX_SPEED
}

impl PlayerEntity {
    pub open spec fn wf(self) -> bool {
        &&& self.transform.in_bounds()
        &&& unit_dir(self.direction)
        &&& speed_ok(self.speed)
        &&& match self.damage {
            Some(d) => d.0 >= 0,
            None => true,
        }
    }
}

impl LazerEntity {
    pub open spec fn wf(self) -> bool {
        self.transform.in_bounds() && unit_dir(self.direction) && speed_ok(self.speed)
    }
}

impl AsteroidEntity {
    pub open spec fn wf(self) -> bool {
        self.transform.in_bounds() && unit_dir(self.direction) && speed_ok(self.speed)
    }
}

impl GameWorld {
    /// The world invariant every system preserves: all entities sit inside
    /// the world bound with sane directions and speeds, the score never goes
    /// negative, and the two timers keep their modes and well-formedness.
    pub open spec fn wf(self) -> bool {
        &&& self.player.wf()
        &&& forall|i: int| 0 <= i < self.asteroids@.len() ==> (#[trigger] self.asteroids@[i]).wf()
        &&& forall|i: int| 0 <= i < self.lazers@.len() ==> (#[trigger] self.lazers@[i]).wf()
        &&& self.score.0 >= 0
        &&& self.spawn_timer.0.wf()
        &&& self.spawn_timer.0.mode == TimerMode::Repeating
        &&& self.shoot_timer.0.wf()
        &&& self.shoot_timer.0.mode == TimerMode::Once
    }
}

/// The player as it stands at the start of a game.
pub open spec fn spec_initial_player() -> PlayerEntity {
    PlayerEntity {
        transform: Point { x: 0, y: PLAYER_SPAWN_HEIGHT },
        direction: Direction { x: 0, y: 0 },
        speed: Speed(PLAYER_MOVE_SPEED),
        health: Health(INITIAL_PLAYER_HEALTH),
        damage: None,
        dead: false,
    }
}

/// Spawn the player ship at the spawn height, still, at full health.
/// Everything else in the world is left alone.
pub fn setup(world: &mut GameWorld)
    ensures
        *final(world) == (GameWorld { player: spec_initial_player(), ..*old(world) }),
{
    world.player = PlayerEntity {
        transform: Point { x: 0, y: PLAYER_SPAWN_HEIGHT },
        direction: Direction { x: 0, y: 0 },
        speed: Speed(PLAYER_MOVE_SPEED),
        health: Health(INITIAL_PLAYER_HEALTH),
        damage: None,
        dead: false,
    };
}

/// Fresh per-game resources: the gameplay state, the two timers and a zero
/// score, as they stand when a game begins.
pub fn insert_resources(world: &mut GameWorld)
    ensures
        *final(world) == (GameWorld {
            state: GameplayState::Game,
            spawn_timer: AsteroidSpawTimer(
                Timer {
                    mode: TimerMode::Repeating,
                    duration_ms: ASTEROID_SPAWN_PERIOD_MS,
                    elapsed_ms: 0,
                    just_finished: false,
                },
            ),
            shoot_timer: LazerShootingTimer(
                Timer {
                    mode: TimerMode::Once,
                    duration_ms: LAZER_COOLDOWN_MS,
                    elapsed_ms: 0,
                    just_finished: false,
                },
            ),
            score: Score(0),
            ..*old(world)
        }),
{
    world.state = GameplayState::Game;
    world.spawn_timer = AsteroidSpawTimer(Timer::new(TimerMode::Repeating, ASTEROID_SPAWN_PERIOD_MS));
    world.shoot_timer = LazerShootingTimer(Timer::new(TimerMode::Once, LAZER_COOLDOWN_MS));
    world.score = Score(0);
}

/// Despawn everything that leaves with the game: all asteroids and lasers.
pub fn cleanup(world: &mut GameWorld)
    ensures
        final(world).asteroids@ == Seq::<AsteroidEntity>::empty(),
        final(world).lazers@ == Seq::<LazerEntity>::empty(),
        *final(world) == (GameWorld {
            asteroids: final(world).asteroids,
            lazers: final(world).lazers,
            ..*old(world)
        }),
{
    world.asteroids = Vec::new();
    world.lazers = Vec::new();
}

/// Steer the player from the polled keys: the left key wins over the right
/// one, no key stops the ship. Only the horizontal direction changes.
pub fn handle_input(world: &mut GameWorld, pressed_left: bool, pressed_right: bool)
    ensures
        final(world).player.direction.x == (if pressed_left {
            -1 as i64
        } else if pressed_right {
            1 as i64
        } else {
            0 as i64
        }),
        final(world).player.direction.y == old(world).player.direction.y,
        *final(world) == (GameWorld {
            player: PlayerEntity { direction: final(world).player.direction, ..old(world).player },
            ..*old(world)
        }),
{
    if pressed_left {
        world.player.direction.x = -1;
    } else if pressed_right {
        world.player.direction.x = 1;
    } else {
        world.player.direction.x = 0;
    }
}

/// How far an entity travels in `dt_ms` milliseconds at `speed` steps per
/// second, rounded down.
pub open spec fn spec_displacement(speed: int, dt_ms: int) -> int {
    speed * dt_ms / 1000
}

/// Where a point ends up after one frame of movement: each coordinate is
/// shifted along the direction by the displacement, then clamped into the
/// world bound.
pub open spec fn spec_moved_point(p: Point, d: Direction, speed: int, dt_ms: int) -> Point {
    Point {
        x: spec_clamp_coord(p.x + d.x * spec_displacement(speed, dt_ms)) as i64,
        y: spec_clamp_coord(p.y + d.y * spec_displacement(speed, dt_ms)) as i64,
    }
}

/// Advance one transform by direction times speed times elapsed time.
fn move_point(transform: &mut Point, d: Direction, speed: Speed, dt_ms: u64)
    requires
        old(transform).in_bounds(),
        unit_dir(d),
        speed_ok(speed),
        dt_ms <= MAX_TICK_MS,
    ensures
        *final(transform) == spec_moved_point(*old(transform), d, speed.0 as int, dt_ms as int),
        final(transform).in_bounds(),
{
    proof {
        assert(speed.0 * dt_ms <= MAX_SPEED * MAX_TICK_MS && 0 <= speed.0 * dt_ms)
            by (nonlinear_arith)
            requires
                0 <= speed.0 <= MAX_SPEED,
                0 <= dt_ms <= MAX_TICK_MS,
        ;
    }
    let disp: i64 = speed.0 * (dt_ms as i64) / 1000;
    proof {
        assert(0 <= disp && disp <= MAX_SPEED * MAX_TICK_MS / 1000);
        assert(d.x * disp == (if d.x == 1 {
            disp as int
        } else if d.x == -1 {
            -(disp as int)
        } else {
            0int
        })) by (nonlinear_arith)
            requires
                -1 <= d.x <= 1,
        ;
        assert(d.y * disp == (if d.y == 1 {
            disp as int
        } else if d.y == -1 {
            -(disp as int)
        } else {
            0int
        })) by (nonlinear_arith)
            requires
                -1 <= d.y <= 1,
        ;
    }
    transform.x = clamp_i64(transform.x + d.x * disp, -MAX_COORD, MAX_COORD);
    transform.y = clamp_i64(transform.y + d.y * disp, -MAX_COORD, MAX_COORD);
}

/// One frame of kinematic integration: the player, every asteroid and every
/// laser move along their directions at their speeds for `dt_ms`
/// milliseconds, staying inside the world bound.
pub fn move_objects(world: &mut GameWorld, dt_ms: u64)
    requires
        old(world).wf(),
        dt_ms <= MAX_TICK_MS,
    ensures
        final(world).wf(),
        final(world).player == (PlayerEntity {
            transform: spec_moved_point(
                old(world).player.transform,
                old(world).player.direction,
                old(world).player.speed.0 as int,
                dt_ms as int,
            ),
            ..old(world).player
        }),
        final(world).asteroids@.len() == old(world).asteroids@.len(),
        forall|i: int|
            0 <= i < old(world).asteroids@.len() ==> final(world).asteroids@[i]
                == (AsteroidEntity {
                transform: spec_moved_point(
                    #[trigger] old(world).asteroids@[i].transform,
                    old(world).asteroids@[i].direction,
                    old(world).asteroids@[i].speed.0 as int,
                    dt_ms as int,
                ),
                ..old(world).asteroids@[i]
            }),
        final(world).lazers@.len() == old(world).lazers@.len(),
        forall|i: int|
            0 <= i < old(world).lazers@.len() ==> final(world).lazers@[i]
                == (LazerEntity {
                transform: spec_moved_point(
                    #[trigger] old(world).lazers@[i].transform,
                    old(world).lazers@[i].direction,
                    old(world).lazers@[i].speed.0 as int,
                    dt_ms as int,
                ),
                ..old(world).lazers@[i]
            }),
        *final(world) == (GameWorld {
            player: final(world).player,
            asteroids: final(world).asteroids,
            lazers: final(world).lazers,
            ..*old(world)
        }),
{
    move_point(&mut world.player.transform, world.player.direction, world.player.speed, dt_ms);
    let mut i: usize = 0;
    while i < world.asteroids.len()
        invariant
            old(world).wf(),
            dt_ms <= MAX_TICK_MS,
            0 <= i <= world.asteroids@.len(),
            world.asteroids@.len() == old(world).asteroids@.len(),
            forall|k: int|
                0 <= k < i ==> world.asteroids@[k] == (AsteroidEntity {
                    transform: spec_moved_point(
                        #[trigger] old(world).asteroids@[k].transform,
                        old(world).asteroids@[k].direction,
                        old(world).asteroids@[k].speed.0 as int,
                        dt_ms as int,
                    ),
                    ..old(world).asteroids@[k]
                }),
            forall|k: int|
                i <= k < world.asteroids@.len() ==> world.asteroids@[k] == old(
                    world,
                ).asteroids@[k],
            *world == (GameWorld {
                player: world.player,
                asteroids: world.asteroids,
                ..*old(world)
            }),
            world.player == (PlayerEntity {
                transform: spec_moved_point(
                    old(world).player.transform,
                    old(world).player.direction,
                    old(world).player.speed.0 as int,
                    dt_ms as int,
                ),
                ..old(world).player
            }),
        decreases world.asteroids@.len() - i,
    {
        let d = world.asteroids[i].direction;
        let s = world.asteroids[i].speed;
        move_point(&mut world.asteroids[i].transform, d, s, dt_ms);
        i += 1;
    }
    let mut j: usize = 0;
    while j < world.lazers.len()
        invariant
            old(world).wf(),
            dt_ms <= MAX_TICK_MS,
            0 <= j <= world.lazers@.len(),
            world.lazers@.len() == old(world).lazers@.len(),
            forall|k: int|
                0 <= k < j ==> world.lazers@[k] == (LazerEntity {
                    transform: spec_moved_point(
                        #[trigger] old(world).lazers@[k].transform,
                        old(world).lazers@[k].direction,
                        old(world).lazers@[k].speed.0 as int,
                        dt_ms as int,
                    ),
                    ..old(world).lazers@[k]
                }),
            forall|k: int|
                j <= k < world.lazers@.len() ==> world.lazers@[k] == old(world).lazers@[k],
            world.asteroids@.len() == old(world).asteroids@.len(),
            forall|k: int|
                0 <= k < world.asteroids@.len() ==> world.asteroids@[k] == (AsteroidEntity {
                    transform: spec_moved_point(
                        #[trigger] old(world).asteroids@[k].transform,
                        old(world).asteroids@[k].direction,
                        old(world).asteroids@[k].speed.0 as int,
                        dt_ms as int,
                    ),
                    ..old(world).asteroids@[k]
                }),
            *world == (GameWorld {
                player: world.player,
                asteroids: world.asteroids,
                lazers: world.lazers,
                ..*old(world)
            }),
            world.player == (PlayerEntity {
                transform: spec_moved_point(
                    old(world).player.transform,
                    old(world).player.direction,
                    old(world).player.speed.0 as int,
                    dt_ms as int,
                ),
                ..old(world).player
            }),
        decreases world.lazers@.len() - j,
    {
        let d = world.lazers[j].direction;
        let s = world.lazers[j].speed;
        move_point(&mut world.lazers[j].transform, d, s, dt_ms);
        j += 1;
    }
    proof {
        assert forall|i: int| 0 <= i < world.asteroids@.len() implies (
        #[trigger] world.asteroids@[i]).wf() by {
            assert(old(world).asteroids@[i].wf());
        }
        assert forall|i: int| 0 <= i < world.lazers@.len() implies (
        #[trigger] world.lazers@[i]).wf() by {
            assert(old(world).lazers@[i].wf());
        }
    }
}

/// The laser bolt spawned by a shot from the player at `p`: just above the
/// ship (clamped into the world bound), flying straight up.
pub open spec fn spec_new_lazer(p: Point) -> LazerEntity {
    LazerEntity {
        transform: Point { x: p.x, y: spec_clamp_coord(p.y + LAZER_Y_OFFSET) as i64 },
        direction: Direction { x: 0, y: 1 },
        speed: Speed(LAZER_SPEED),
        destroy: false,
    }
}

/// Fire-rate-limited shooting. The cooldown timer advances by the frame
/// time; only once it has run out and the fire key was just pressed does a
/// laser spawn above the player and the cooldown start over. The result says
/// whether a shot (and so its sound) was fired.
pub fn lazer_shooting(world: &mut GameWorld, dt_ms: u64, fire_just_pressed: bool) -> (fired:
    bool)
    requires
        old(world).wf(),
        old(world).shoot_timer.0.elapsed_ms + dt_ms <= u64::MAX,
    ensures
        final(world).wf(),
        ({
            let ticked = old(world).shoot_timer.0.spec_tick(dt_ms as int);
            &&& fired == (ticked.spec_finished() && fire_just_pressed)
            &&& if fired {
                &&& final(world).lazers@ == old(world).lazers@.push(
                    spec_new_lazer(old(world).player.transform),
                )
                &&& final(world).shoot_timer.0 == ticked.spec_reset()
            } else {
                &&& final(world).lazers@ == old(world).lazers@
                &&& final(world).shoot_timer.0 == ticked
            }
        }),
        *final(world) == (GameWorld {
            lazers: final(world).lazers,
            shoot_timer: final(world).shoot_timer,
            ..*old(world)
        }),
{
    let mut timer = world.shoot_timer.0;
    timer.tick(dt_ms);
    if !timer.finished() {
        world.shoot_timer = LazerShootingTimer(timer);
        return false;
    }
    if fire_just_pressed {
        let p = world.player.transform;
        let y = clamp_i64(p.y + LAZER_Y_OFFSET, -MAX_COORD, MAX_COORD);
        world.lazers.push(
            LazerEntity {
                transform: Point { x: p.x, y },
                direction: Direction { x: 0, y: 1 },
                speed: Speed(LAZER_SPEED),
                destroy: false,
            },
        );
        timer.reset();
        world.shoot_timer = LazerShootingTimer(timer);
        proof {
            assert forall|i: int| 0 <= i < world.lazers@.len() implies (
            #[trigger] world.lazers@[i]).wf() by {
                if i < old(world).lazers@.len() {
                    assert(old(world).lazers@[i].wf());
                }
            }
        }
        true
    } else {
        world.shoot_timer = LazerShootingTimer(timer);
        false
    }
}

/// Relies on rand::random_range over an inclusive integer range: the result
/// lies within the given (non-empty) range.
#[verifier::external_body]
fn random_in_range(min: i64, max: i64) -> (r: i64)
    requires
        min <= max,
    ensures
        min <= r <= max,
{
    rand::random_range(min..=max)
}

/// The asteroid spawned at horizontal position `x`: at the spawn height,
/// falling straight down.
pub open spec fn spec_new_asteroid(x: i64) -> AsteroidEntity {
    AsteroidEntity {
        transform: Point { x, y: ASTEROID_SPAWN_HEIGHT },
        direction: Direction { x: 0, y: -1 as i64 },
        speed: Speed(ASTEROID_MOVE_SPEED),
        destroy: false,
    }
}

/// Timer-driven asteroid spawning. The repeating timer advances by the frame
/// time; on the ticks where it wraps, one asteroid appears at the spawn
/// height, at a randomized horizontal position within the spawn lane.
pub fn spawn_asteroid(world: &mut GameWorld, dt_ms: u64)
    requires
        old(world).wf(),
        old(world).spawn_timer.0.elapsed_ms + dt_ms <= u64::MAX,
    ensures
        final(world).wf(),
        final(world).spawn_timer.0 == old(world).spawn_timer.0.spec_tick(dt_ms as int),
        ({
            let ticked = old(world).spawn_timer.0.spec_tick(dt_ms as int);
            if ticked.just_finished {
                exists|x: i64|
                    ASTEROID_SPAWN_MIN_X <= x <= ASTEROID_SPAWN_MAX_X && final(world).asteroids@
                        == old(world).asteroids@.push(spec_new_asteroid(x))
            } else {
                final(world).asteroids@ == old(world).asteroids@
            }
        }),
        *final(world) == (GameWorld {
            asteroids: final(world).asteroids,
            spawn_timer: final(world).spawn_timer,
            ..*old(world)
        }),
{
    let mut timer = world.spawn_timer.0;
    timer.tick(dt_ms);
    let fired = timer.just_finished;
    world.spawn_timer = AsteroidSpawTimer(timer);
    if fired {
        let x = random_in_range(ASTEROID_SPAWN_MIN_X, ASTEROID_SPAWN_MAX_X);
        world.asteroids.push(
            AsteroidEntity {
                transform: Point { x, y: ASTEROID_SPAWN_HEIGHT },
                direction: Direction { x: 0, y: -1 },
                speed: Speed(ASTEROID_MOVE_SPEED),
                destroy: false,
            },
        );
        proof {
            assert(world.asteroids@ == old(world).asteroids@.push(spec_new_asteroid(x)));
            assert forall|i: int| 0 <= i < world.asteroids@.len() implies (
            #[trigger] world.asteroids@[i]).wf() by {
                if i < old(world).asteroids@.len() {
                    assert(old(world).asteroids@[i].wf());
                }
            }
        }
    }
}

/// Whether a laser bolt (a small axis-aligned box) touches an asteroid (a
/// circle of the asteroid radius).
pub open spec fn spec_lazer_hits_asteroid(l: LazerEntity, a: AsteroidEntity) -> bool {
    spec_box_circle_intersect(
        l.transform,
        Point { x: LAZER_HALF_X, y: LAZER_HALF_Y },
        a.transform,
        ASTEROID_RADIUS as int,
    )
}

/// Whether a laser bolt has flown above the asteroid spawn height and is out
/// of play.
pub open spec fn spec_lazer_is_high(l: LazerEntity) -> bool {
    l.transform.y > ASTEROID_SPAWN_HEIGHT
}

/// Whether a laser bolt touches any asteroid of `asts`.
pub open spec fn spec_lazer_hits_any(l: LazerEntity, asts: Seq<AsteroidEntity>) -> bool {
    exists|j: int| 0 <= j < asts.len() && spec_lazer_hits_asteroid(l, asts[j])
}

/// How many asteroids of `asts` the laser bolt `l` touches.
pub open spec fn spec_count_lazer_hits(l: LazerEntity, asts: Seq<AsteroidEntity>) -> int
    decreases asts.len(),
{
    if asts.len() == 0 {
        0
    } else {
        spec_count_lazer_hits(l, asts.drop_last()) + if spec_lazer_hits_asteroid(
            l,
            asts.last(),
        ) {
            1int
        } else {
            0int
        }
    }
}

/// The laser-asteroid touch count summed over the laser bolts of `ls`.
pub open spec fn spec_total_lazer_hits(ls: Seq<LazerEntity>, asts: Seq<AsteroidEntity>) -> int
    decreases ls.len(),
{
    if ls.len() == 0 {
        0
    } else {
        spec_total_lazer_hits(ls.drop_last(), asts) + spec_count_lazer_hits(ls.last(), asts)
    }
}

proof fn lemma_count_lazer_hits_le_len(l: LazerEntity, asts: Seq<AsteroidEntity>)
    ensures
        0 <= spec_count_lazer_hits(l, asts) <= asts.len(),
    decreases asts.len(),
{
    if asts.len() > 0 {
        lemma_count_lazer_hits_le_len(l, asts.drop_last());
    }
}

proof fn lemma_total_lazer_hits_bound(ls: Seq<LazerEntity>, asts: Seq<AsteroidEntity>)
    ensures
        0 <= spec_total_lazer_hits(ls, asts) <= ls.len() * asts.len(),
    decreases ls.len(),
{
    if ls.len() > 0 {
        lemma_total_lazer_hits_bound(ls.drop_last(), asts);
        lemma_count_lazer_hits_le_len(ls.last(), asts);
        assert((ls.len() - 1) * asts.len() + asts.len() == ls.len() * asts.len())
            by (nonlinear_arith);
    } else {
        assert(ls.len() * asts.len() == 0) by (nonlinear_arith)
            requires
                ls.len() == 0,
        ;
    }
}

/// `k` is where the laser scan stops: every bolt before it is still in play,
/// and `k` is either the first bolt that flew out of the top or the end of
/// the list.
pub open spec fn spec_is_scan_cutoff(ls: Seq<LazerEntity>, k: int) -> bool {
    &&& 0 <= k <= ls.len()
    &&& forall|i: int| 0 <= i < k ==> !spec_lazer_is_high(#[trigger] ls[i])
    &&& k < ls.len() ==> spec_lazer_is_high(ls[k])
}

/// A scan cutoff is unique: `check_lazer_collision`'s contract names the
/// cutoff with an existential, and this pins it down — two positions that
/// both satisfy `spec_is_scan_cutoff` are the same position.
pub proof fn lemma_scan_cutoff_unique(ls: Seq<LazerEntity>, k1: int, k2: int)
    requires
        spec_is_scan_cutoff(ls, k1),
        spec_is_scan_cutoff(ls, k2),
    ensures
        k1 == k2,
{
    if k1 < k2 {
        assert(spec_lazer_is_high(ls[k1]));
        assert(!spec_lazer_is_high(ls[k1]));
    }
    if k2 < k1 {
        assert(spec_lazer_is_high(ls[k2]));
        assert(!spec_lazer_is_high(ls[k2]));
    }
}

/// Laser-against-asteroid collision. Bolts are scanned in order; the first
/// bolt found above the asteroid spawn height is marked for despawning and
/// stops the scan for this frame. Every scanned bolt marks itself and every
/// asteroid it touches for despawning, and each touching pair raises one
/// laser-hit event for the scorer.
pub fn check_lazer_collision(world: &mut GameWorld)
    requires
        old(world).wf(),
        old(world).lazer_hit_events + old(world).lazers@.len() * old(world).asteroids@.len()
            <= u64::MAX,
    ensures
        final(world).wf(),
        final(world).lazers@.len() == old(world).lazers@.len(),
        final(world).asteroids@.len() == old(world).asteroids@.len(),
        exists|k: int|
            {
                &&& #[trigger] spec_is_scan_cutoff(old(world).lazers@, k)
                &&& forall|i: int|
                    0 <= i < k ==> final(world).lazers@[i] == (LazerEntity {
                        destroy: old(world).lazers@[i].destroy || spec_lazer_hits_any(
                            #[trigger] old(world).lazers@[i],
                            old(world).asteroids@,
                        ),
                        ..old(world).lazers@[i]
                    })
                &&& k < old(world).lazers@.len() ==> final(world).lazers@[k] == (LazerEntity {
                    destroy: true,
                    ..old(world).lazers@[k]
                })
                &&& forall|i: int|
                    k < i < old(world).lazers@.len() ==> final(world).lazers@[i] == (
                    #[trigger] old(world).lazers@[i])
                &&& forall|j: int|
                    0 <= j < old(world).asteroids@.len() ==> final(world).asteroids@[j]
                        == (AsteroidEntity {
                        destroy: old(world).asteroids@[j].destroy || (exists|i: int|
                            0 <= i < k && spec_lazer_hits_asteroid(
                                old(world).lazers@[i],
                                #[trigger] old(world).asteroids@[j],
                            )),
                        ..old(world).asteroids@[j]
                    })
                &&& final(world).lazer_hit_events == old(world).lazer_hit_events
                    + spec_total_lazer_hits(old(world).lazers@.subrange(0, k), old(world).asteroids@)
            },
        *final(world) == (GameWorld {
            lazers: final(world).lazers,
            asteroids: final(world).asteroids,
            lazer_hit_events: final(world).lazer_hit_events,
            ..*old(world)
        }),
{
    let ghost old_ls = old(world).lazers@;
    let ghost old_as = old(world).asteroids@;
    let mut i: usize = 0;
    while i < world.lazers.len()
        invariant
            old(world).wf(),
            old(world).lazer_hit_events + old_ls.len() * old_as.len() <= u64::MAX,
            old_ls == old(world).lazers@,
            old_as == old(world).asteroids@,
            0 <= i <= old_ls.len(),
            world.lazers@.len() == old_ls.len(),
            world.asteroids@.len() == old_as.len(),
            forall|t: int| 0 <= t < i ==> !spec_lazer_is_high(#[trigger] old_ls[t]),
            forall|t: int|
                0 <= t < i ==> world.lazers@[t] == (LazerEntity {
                    destroy: old_ls[t].destroy || spec_lazer_hits_any(
                        #[trigger] old_ls[t],
                        old_as,
                    ),
                    ..old_ls[t]
                }),
            forall|t: int| i <= t < old_ls.len() ==> world.lazers@[t] == (#[trigger] old_ls[t]),
            forall|j: int|
                0 <= j < old_as.len() ==> world.asteroids@[j] == (AsteroidEntity {
                    destroy: old_as[j].destroy || (exists|t: int|
                        0 <= t < i && spec_lazer_hits_asteroid(old_ls[t], #[trigger] old_as[j])),
                    ..old_as[j]
                }),
            world.lazer_hit_events == old(world).lazer_hit_events + spec_total_lazer_hits(
                old_ls.subrange(0, i as int),
                old_as,
            ),
            *world == (GameWorld {
                lazers: world.lazers,
                asteroids: world.asteroids,
                lazer_hit_events: world.lazer_hit_events,
                ..*old(world)
            }),
        decreases old_ls.len() - i,
    {
        if world.lazers[i].transform.y > ASTEROID_SPAWN_HEIGHT {
            world.lazers[i].destroy = true;
            proof {
                assert(spec_is_scan_cutoff(old_ls, i as int));
                assert(world.lazers@[i as int] == (LazerEntity {
                    destroy: true,
                    ..old_ls[i as int]
                }));
                assert forall|t: int| 0 <= t < world.lazers@.len() implies (
                #[trigger] world.lazers@[t]).wf() by {
                    assert(old_ls[t].wf());
                }
                assert forall|t: int| 0 <= t < world.asteroids@.len() implies (
                #[trigger] world.asteroids@[t]).wf() by {
                    assert(old_as[t].wf());
                }
            }
            return;
        }
        let ghost events_before_lazer = world.lazer_hit_events;
        let mut j: usize = 0;
        while j < world.asteroids.len()
            invariant
                old(world).wf(),
                old(world).lazer_hit_events + old_ls.len() * old_as.len() <= u64::MAX,
                old_ls == old(world).lazers@,
                old_as == old(world).asteroids@,
                0 <= i < old_ls.len(),
                0 <= j <= old_as.len(),
                world.lazers@.len() == old_ls.len(),
                world.asteroids@.len() == old_as.len(),
                !spec_lazer_is_high(old_ls[i as int]),
                forall|t: int| 0 <= t < i ==> !spec_lazer_is_high(#[trigger] old_ls[t]),
                forall|t: int|
                    0 <= t < i ==> world.lazers@[t] == (LazerEntity {
                        destroy: old_ls[t].destroy || spec_lazer_hits_any(
                            #[trigger] old_ls[t],
                            old_as,
                        ),
                        ..old_ls[t]
                    }),
                world.lazers@[i as int] == (LazerEntity {
                    destroy: old_ls[i as int].destroy || (exists|jj: int|
                        0 <= jj < j && spec_lazer_hits_asteroid(
                            old_ls[i as int],
                            #[trigger] old_as[jj],
                        )),
                    ..old_ls[i as int]
                }),
                forall|t: int|
                    i < t < old_ls.len() ==> world.lazers@[t] == (#[trigger] old_ls[t]),
                forall|jj: int|
                    0 <= jj < old_as.len() ==> world.asteroids@[jj] == (AsteroidEntity {
                        destroy: old_as[jj].destroy || (exists|t: int|
                            0 <= t < i && spec_lazer_hits_asteroid(
                                old_ls[t],
                                #[trigger] old_as[jj],
                            )) || (jj < j && spec_lazer_hits_asteroid(
                            old_ls[i as int],
                            old_as[jj],
                        )),
                        ..old_as[jj]
                    }),
                events_before_lazer == old(world).lazer_hit_events + spec_total_lazer_hits(
                    old_ls.subrange(0, i as int),
                    old_as,
                ),
                world.lazer_hit_events == events_before_lazer + spec_count_lazer_hits(
                    old_ls[i as int],
                    old_as.subrange(0, j as int),
                ),
                *world == (GameWorld {
                    lazers: world.lazers,
                    asteroids: world.asteroids,
                    lazer_hit_events: world.lazer_hit_events,
                    ..*old(world)
                }),
            decreases old_as.len() - j,
        {
            proof {
                assert(old_ls[i as int].wf());
                assert(old_as[j as int].wf());
                assert(world.asteroids@[j as int].transform == old_as[j as int].transform);
                assert(world.lazers@[i as int].transform == old_ls[i as int].transform);
            }
            let l_transform = world.lazers[i].transform;
            let a_transform = world.asteroids[j].transform;
            let hit = box_circle_intersect(
                l_transform,
                Point { x: LAZER_HALF_X, y: LAZER_HALF_Y },
                a_transform,
                ASTEROID_RADIUS,
            );
            if hit {
                proof {
                    lemma_total_lazer_hits_bound(old_ls.subrange(0, i as int), old_as);
                    lemma_count_lazer_hits_le_len(
                        old_ls[i as int],
                        old_as.subrange(0, j as int),
                    );
                    assert((i as int) * old_as.len() + (j as int) < old_ls.len() * old_as.len())
                        by (nonlinear_arith)
                        requires
                            0 <= i < old_ls.len(),
                            0 <= j < old_as.len(),
                    ;
                }
                world.lazers[i].destroy = true;
                world.asteroids[j].destroy = true;
                world.lazer_hit_events = world.lazer_hit_events + 1;
            }
            proof {
                assert(old_as.subrange(0, j + 1).drop_last() =~= old_as.subrange(0, j as int));
                assert(old_as.subrange(0, j + 1).last() == old_as[j as int]);
            }
            j += 1;
        }
        proof {
            assert(old_as.subrange(0, old_as.len() as int) =~= old_as);
            assert(old_ls.subrange(0, i + 1).drop_last() =~= old_ls.subrange(0, i as int));
            assert(old_ls.subrange(0, i + 1).last() == old_ls[i as int]);
        }
        i += 1;
    }
    proof {
        assert(spec_is_scan_cutoff(old_ls, old_ls.len() as int));
        assert(old_ls.subrange(0, old_ls.len() as int) =~= old_ls);
        assert forall|t: int| 0 <= t < world.lazers@.len() implies (
        #[trigger] world.lazers@[t]).wf() by {
            assert(old_ls[t].wf());
        }
        assert forall|t: int| 0 <= t < world.asteroids@.len() implies (
        #[trigger] world.asteroids@[t]).wf() by {
            assert(old_as[t].wf());
        }
    }
}

/// Whether the player ship centered at `p` touches an asteroid: either its
/// body box or its wings box meets the asteroid's circle.
pub open spec fn spec_player_hits_asteroid(p: Point, a: AsteroidEntity) -> bool {
    ||| spec_box_circle_intersect(
        p,
        Point { x: PLAYER_BODY_HALF_X, y: PLAYER_BODY_HALF_Y },
        a.transform,
        ASTEROID_RADIUS as int,
    )
    ||| spec_box_circle_intersect(
        p,
        Point { x: PLAYER_WINGS_HALF_X, y: PLAYER_WINGS_HALF_Y },
        a.transform,
        ASTEROID_RADIUS as int,
    )
}

/// Whether an asteroid has fallen past the bottom of the screen.
pub open spec fn spec_asteroid_below_wall(a: AsteroidEntity) -> bool {
    a.transform.y < -ASTEROID_SPAWN_HEIGHT
}

/// How many asteroids of `asts` the player ship at `p` touches.
pub open spec fn spec_count_player_hits(p: Point, asts: Seq<AsteroidEntity>) -> int
    decreases asts.len(),
{
    if asts.len() == 0 {
        0
    } else {
        spec_count_player_hits(p, asts.drop_last()) + if spec_player_hits_asteroid(
            p,
            asts.last(),
        ) {
            1int
        } else {
            0int
        }
    }
}

/// How many asteroids of `asts` have fallen past the bottom of the screen.
pub open spec fn spec_count_below_wall(asts: Seq<AsteroidEntity>) -> int
    decreases asts.len(),
{
    if asts.len() == 0 {
        0
    } else {
        spec_count_below_wall(asts.drop_last()) + if spec_asteroid_below_wall(asts.last()) {
            1int
        } else {
            0int
        }
    }
}

/// Where the player ship stands after being clamped into the spawn lane.
pub open spec fn spec_clamped_player_pos(p: Point) -> Point {
    Point {
        x: spec_clamp(p.x as int, ASTEROID_SPAWN_MIN_X as int, ASTEROID_SPAWN_MAX_X as int) as i64,
        y: p.y,
    }
}

/// Player-against-asteroid collision. The player is first clamped into the
/// horizontal spawn lane; every asteroid its body or wings touch is marked
/// for despawning and raises one asteroid-damage event. The result counts
/// the hits (one damage sound each).
pub fn check_player_collision(world: &mut GameWorld) -> (hits: usize)
    requires
        old(world).wf(),
        old(world).damage_events + old(world).asteroids@.len() <= u64::MAX,
    ensures
        final(world).wf(),
        final(world).player == (PlayerEntity {
            transform: spec_clamped_player_pos(old(world).player.transform),
            ..old(world).player
        }),
        ASTEROID_SPAWN_MIN_X <= final(world).player.transform.x <= ASTEROID_SPAWN_MAX_X,
        final(world).asteroids@.len() == old(world).asteroids@.len(),
        forall|j: int|
            0 <= j < old(world).asteroids@.len() ==> final(world).asteroids@[j]
                == (AsteroidEntity {
                destroy: old(world).asteroids@[j].destroy || spec_player_hits_asteroid(
                    spec_clamped_player_pos(old(world).player.transform),
                    #[trigger] old(world).asteroids@[j],
                ),
                ..old(world).asteroids@[j]
            }),
        hits == spec_count_player_hits(
            spec_clamped_player_pos(old(world).player.transform),
            old(world).asteroids@,
        ),
        final(world).damage_events == old(world).damage_events + hits,
        *final(world) == (GameWorld {
            player: final(world).player,
            asteroids: final(world).asteroids,
            damage_events: final(world).damage_events,
            ..*old(world)
        }),
{
    if world.player.transform.x < ASTEROID_SPAWN_MIN_X {
        world.player.transform.x = ASTEROID_SPAWN_MIN_X;
    } else if world.player.transform.x > ASTEROID_SPAWN_MAX_X {
        world.player.transform.x = ASTEROID_SPAWN_MAX_X;
    }
    let center = world.player.transform;
    let ghost old_asts = old(world).asteroids@;
    let mut hits: usize = 0;
    let mut j: usize = 0;
    while j < world.asteroids.len()
        invariant
            old(world).wf(),
            old(world).damage_events + old_asts.len() <= u64::MAX,
            old_asts == old(world).asteroids@,
            center == spec_clamped_player_pos(old(world).player.transform),
            0 <= j <= old_asts.len(),
            world.asteroids@.len() == old_asts.len(),
            forall|k: int|
                0 <= k < j ==> world.asteroids@[k] == (AsteroidEntity {
                    destroy: old_asts[k].destroy || spec_player_hits_asteroid(
                        center,
                        #[trigger] old_asts[k],
                    ),
                    ..old_asts[k]
                }),
            forall|k: int| j <= k < old_asts.len() ==> world.asteroids@[k] == old_asts[k],
            hits == spec_count_player_hits(center, old_asts.subrange(0, j as int)),
            0 <= hits <= j,
            world.damage_events == old(world).damage_events + hits,
            world.player == (PlayerEntity { transform: center, ..old(world).player }),
            *world == (GameWorld {
                player: world.player,
                asteroids: world.asteroids,
                damage_events: world.damage_events,
                ..*old(world)
            }),
        decreases old_asts.len() - j,
    {
        let a = world.asteroids[j];
        proof {
            assert(a == old_asts[j as int]);
            assert(old(world).asteroids@[j as int].wf());
        }
        let body_hit = box_circle_intersect(
            center,
            Point { x: PLAYER_BODY_HALF_X, y: PLAYER_BODY_HALF_Y },
            a.transform,
            ASTEROID_RADIUS,
        );
        let wings_hit = box_circle_intersect(
            center,
            Point { x: PLAYER_WINGS_HALF_X, y: PLAYER_WINGS_HALF_Y },
            a.transform,
            ASTEROID_RADIUS,
        );
        if body_hit || wings_hit {
            world.damage_events = world.damage_events + 1;
            world.asteroids[j].destroy = true;
            hits = hits + 1;
        }
        proof {
            assert(old_asts.subrange(0, j + 1).drop_last() =~= old_asts.subrange(0, j as int));
            assert(old_asts.subrange(0, j + 1).last() == old_asts[j as int]);
        }
        j += 1;
    }
    proof {
        assert(old_asts.subrange(0, old_asts.len() as int) =~= old_asts);
        assert forall|i: int| 0 <= i < world.asteroids@.len() implies (
        #[trigger] world.asteroids@[i]).wf() by {
            assert(old(world).asteroids@[i].wf());
        }
    }
    hits
}

/// Death by falling off the screen: every asteroid below the bottom wall is
/// marked for despawning and raises one asteroid-damage event. The result
/// counts them (one damage sound each).
pub fn check_botton_wall_collsion(world: &mut GameWorld) -> (hits: usize)
    requires
        old(world).wf(),
        old(world).damage_events + old(world).asteroids@.len() <= u64::MAX,
    ensures
        final(world).wf(),
        final(world).asteroids@.len() == old(world).asteroids@.len(),
        forall|j: int|
            0 <= j < old(world).asteroids@.len() ==> final(world).asteroids@[j]
                == (AsteroidEntity {
                destroy: old(world).asteroids@[j].destroy || spec_asteroid_below_wall(
                    #[trigger] old(world).asteroids@[j],
                ),
                ..old(world).asteroids@[j]
            }),
        hits == spec_count_below_wall(old(world).asteroids@),
        final(world).damage_events == old(world).damage_events + hits,
        *final(world) == (GameWorld {
            asteroids: final(world).asteroids,
            damage_events: final(world).damage_events,
            ..*old(world)
        }),
{
    let ghost old_asts = old(world).asteroids@;
    let mut hits: usize = 0;
    let mut j: usize = 0;
    while j < world.asteroids.len()
        invariant
            old(world).wf(),
            old(world).damage_events + old_asts.len() <= u64::MAX,
            old_asts == old(world).asteroids@,
            0 <= j <= old_asts.len(),
            world.asteroids@.len() == old_asts.len(),
            forall|k: int|
                0 <= k < j ==> world.asteroids@[k] == (AsteroidEntity {
                    destroy: old_asts[k].destroy || spec_asteroid_below_wall(
                        #[trigger] old_asts[k],
                    ),
                    ..old_asts[k]
                }),
            forall|k: int| j <= k < old_asts.len() ==> world.asteroids@[k] == old_asts[k],
            hits == spec_count_below_wall(old_asts.subrange(0, j as int)),
            0 <= hits <= j,
            world.damage_events == old(world).damage_events + hits,
            *world == (GameWorld {
                asteroids: world.asteroids,
                damage_events: world.damage_events,
                ..*old(world)
            }),
        decreases old_asts.len() - j,
    {
        if world.asteroids[j].transform.y < -ASTEROID_SPAWN_HEIGHT {
            world.damage_events = world.damage_events + 1;
            world.asteroids[j].destroy = true;
            hits = hits + 1;
        }
        proof {
            assert(old_asts.subrange(0, j + 1).drop_last() =~= old_asts.subrange(0, j as int));
            assert(old_asts.subrange(0, j + 1).last() == old_asts[j as int]);
        }
        j += 1;
    }
    proof {
        assert(old_asts.subrange(0, old_asts.len() as int) =~= old_asts);
        assert forall|i: int| 0 <= i < world.asteroids@.len() implies (
        #[trigger] world.asteroids@[i]).wf() by {
            assert(old(world).asteroids@[i].wf());
        }
    }
    hits
}

/// Turn this frame's asteroid-damage events into one pending damage value
/// on the player: one point of damage per event. With no pending event
/// nothing changes; otherwise the events are consumed and any damage still
/// pending on the player is replaced.
pub fn handle_asteroid_damage_collision(world: &mut GameWorld)
    requires
        old(world).wf(),
        old(world).damage_events <= i32::MAX,
    ensures
        final(world).wf(),
        *final(world) == if old(world).damage_events > 0 {
            GameWorld {
                player: PlayerEntity {
                    damage: Some(
                        Damage((old(world).damage_events * ASTEROID_DAMAGE) as i32),
                    ),
                    ..old(world).player
                },
                damage_events: 0,
                ..*old(world)
            }
        } else {
            *old(world)
        },
{
    if world.damage_events > 0 {
        let n = world.damage_events as i32;
        world.player.damage = Some(Damage(n * ASTEROID_DAMAGE));
        world.damage_events = 0;
    }
}

/// Resolve pending damage: the player's health drops by the pending damage,
/// death is marked once health reaches zero or less, and the pending damage
/// is consumed. Without pending damage nothing changes.
pub fn take_damage(world: &mut GameWorld)
    requires
        old(world).wf(),
        match old(world).player.damage {
            Some(d) => old(world).player.health.0 - d.0 >= i32::MIN,
            None => true,
        },
    ensures
        final(world).wf(),
        *final(world) == match old(world).player.damage {
            Some(d) => GameWorld {
                player: PlayerEntity {
                    health: Health((old(world).player.health.0 - d.0) as i32),
                    dead: old(world).player.dead || old(world).player.health.0 - d.0 <= 0,
                    damage: None,
                    ..old(world).player
                },
                ..*old(world)
            },
            None => *old(world),
        },
        old(world).player.damage is Some ==> (final(world).player.health.0 <= 0
            ==> final(world).player.dead),
{
    match world.player.damage {
        Some(d) => {
            let new_health = world.player.health.0 - d.0;
            world.player.health = Health(new_health);
            if new_health <= 0 {
                world.player.dead = true;
            }
            world.player.damage = None;
        },
        None => {},
    }
}

/// Once the player is dead, end the game exactly once: the first call after
/// death flips the state to game over and raises one game-over event;
/// while the player lives, or once the game is already over, nothing
/// changes.
pub fn handle_player_dead(world: &mut GameWorld)
    requires
        old(world).wf(),
        old(world).game_over_events < u64::MAX,
    ensures
        final(world).wf(),
        *final(world) == if old(world).player.dead && old(world).state != GameplayState::GameOver {
            GameWorld {
                state: GameplayState::GameOver,
                game_over_events: (old(world).game_over_events + 1) as u64,
                ..*old(world)
            }
        } else {
            *old(world)
        },
{
    if !world.player.dead {
        return ;
    }
    match world.state {
        GameplayState::GameOver => {},
        GameplayState::Game => {
            world.state = GameplayState::GameOver;
            world.game_over_events = world.game_over_events + 1;
        },
    }
}

/// Consume pending game-over events: the state settles on game over and,
/// exactly when the score beats the record, the record is raised to the
/// score and handed back so the caller can persist it. The record never
/// goes down.
pub fn handle_game_over_event(world: &mut GameWorld) -> (to_save: Option<i32>)
    requires
        old(world).wf(),
    ensures
        final(world).wf(),
        *final(world) == if old(world).game_over_events > 0 {
            GameWorld {
                game_over_events: 0,
                state: GameplayState::GameOver,
                record: if old(world).score.0 > old(world).record.0 {
                    ScoreRecord(old(world).score.0)
                } else {
                    old(world).record
                },
                ..*old(world)
            }
        } else {
            *old(world)
        },
        to_save == if old(world).game_over_events > 0 && old(world).score.0 > old(
            world,
        ).record.0 {
            Some(old(world).score.0)
        } else {
            Option::<i32>::None
        },
        final(world).record.0 >= old(world).record.0,
{
    if world.game_over_events > 0 {
        world.game_over_events = 0;
        world.state = GameplayState::GameOver;
        let score = world.score.0;
        if score > world.record.0 {
            world.record = ScoreRecord(score);
            return Some(score);
        }
    }
    None
}

/// Turn this frame's laser-hit events into points: each downed asteroid is
/// worth `SCORE_BY_ONE_ASTEROID`, and the events are consumed. The score
/// never goes down.
pub fn calculate_score(world: &mut GameWorld)
    requires
        old(world).wf(),
        old(world).score.0 + SCORE_BY_ONE_ASTEROID * old(world).lazer_hit_events <= i32::MAX,
    ensures
        final(world).wf(),
        *final(world) == (GameWorld {
            score: Score(
                (old(world).score.0 + SCORE_BY_ONE_ASTEROID * old(world).lazer_hit_events) as i32,
            ),
            lazer_hit_events: 0,
            ..*old(world)
        }),
        final(world).score.0 >= old(world).score.0,
{
    if world.lazer_hit_events > 0 {
        proof {
            let ev = old(world).lazer_hit_events as int;
            assert(SCORE_BY_ONE_ASTEROID * ev >= ev) by (nonlinear_arith)
                requires
                    ev >= 0,
            ;
        }
        let n = world.lazer_hit_events as i32;
        world.score = Score(world.score.0 + n * SCORE_BY_ONE_ASTEROID);
        world.lazer_hit_events = 0;
    }
}

/// Despawn everything marked for destruction: the asteroids and lasers with
/// the mark disappear, the others keep their order.
pub fn destroy_system(world: &mut GameWorld)
    requires
        old(world).wf(),
    ensures
        final(world).wf(),
        final(world).asteroids@ == old(world).asteroids@.filter(
            |a: AsteroidEntity| !a.destroy,
        ),
        final(world).lazers@ == old(world).lazers@.filter(|l: LazerEntity| !l.destroy),
        *final(world) == (GameWorld {
            asteroids: final(world).asteroids,
            lazers: final(world).lazers,
            ..*old(world)
        }),
{
    let ghost old_as = old(world).asteroids@;
    let ghost old_ls = old(world).lazers@;
    let mut kept_asteroids: Vec<AsteroidEntity> = Vec::new();
    let mut idx: usize = 0;
    while idx < world.asteroids.len()
        invariant
            old(world).wf(),
            old_as == old(world).asteroids@,
            0 <= idx <= old_as.len(),
            world.asteroids@ == old_as,
            kept_asteroids@ == old_as.subrange(0, idx as int).filter(
                |a: AsteroidEntity| !a.destroy,
            ),
            forall|k: int| 0 <= k < kept_asteroids@.len() ==> (#[trigger] kept_asteroids@[k]).wf(),
            *world == *old(world),
        decreases old_as.len() - idx,
    {
        let a = world.asteroids[idx];
        if !a.destroy {
            kept_asteroids.push(a);
        }
        proof {
            reveal(Seq::filter);
            let pred = |a: AsteroidEntity| !a.destroy;
            let prefix = old_as.subrange(0, idx + 1);
            assert(prefix.drop_last() =~= old_as.subrange(0, idx as int));
            assert(prefix.last() == old_as[idx as int]);
            assert(prefix.filter(pred) == if pred(old_as[idx as int]) {
                prefix.drop_last().filter(pred).push(old_as[idx as int])
            } else {
                prefix.drop_last().filter(pred)
            });
        }
        idx += 1;
    }
    proof {
        assert(old_as.subrange(0, old_as.len() as int) =~= old_as);
    }
    world.asteroids = kept_asteroids;
    let mut kept_lazers: Vec<LazerEntity> = Vec::new();
    let mut ldx: usize = 0;
    while ldx < world.lazers.len()
        invariant
            old(world).wf(),
            old_ls == old(world).lazers@,
            old_as == old(world).asteroids@,
            0 <= ldx <= old_ls.len(),
            world.lazers@ == old_ls,
            kept_lazers@ == old_ls.subrange(0, ldx as int).filter(|l: LazerEntity| !l.destroy),
            forall|k: int| 0 <= k < kept_lazers@.len() ==> (#[trigger] kept_lazers@[k]).wf(),
            world.asteroids@ == old_as.filter(|a: AsteroidEntity| !a.destroy),
            forall|k: int|
                0 <= k < world.asteroids@.len() ==> (#[trigger] world.asteroids@[k]).wf(),
            *world == (GameWorld { asteroids: world.asteroids, ..*old(world) }),
        decreases old_ls.len() - ldx,
    {
        let l = world.lazers[ldx];
        if !l.destroy {
            kept_lazers.push(l);
        }
        proof {
            reveal(Seq::filter);
            let pred = |l: LazerEntity| !l.destroy;
            let prefix = old_ls.subrange(0, ldx + 1);
            assert(prefix.drop_last() =~= old_ls.subrange(0, ldx as int));
            assert(prefix.last() == old_ls[ldx as int]);
            assert(prefix.filter(pred) == if pred(old_ls[ldx as int]) {
                prefix.drop_last().filter(pred).push(old_ls[ldx as int])
            } else {
                prefix.drop_last().filter(pred)
            });
        }
        ldx += 1;
    }
    proof {
        assert(old_ls.subrange(0, old_ls.len() as int) =~= old_ls);
    }
    world.lazers = kept_lazers;
}

/// Restart after a game over: on a pending restart request, everything that
/// belongs to the finished game despawns, the score returns to zero, play
/// resumes and the player is spawned afresh. Without a pending request
/// nothing changes.
pub fn restart_system(world: &mut GameWorld)
    requires
        old(world).wf(),
    ensures
        final(world).wf(),
        old(world).restart_events > 0 ==> {
            &&& final(world).asteroids@ == Seq::<AsteroidEntity>::empty()
            &&& final(world).lazers@ == Seq::<LazerEntity>::empty()
            &&& *final(world) == (GameWorld {
                restart_events: 0,
                asteroids: final(world).asteroids,
                lazers: final(world).lazers,
                score: Score(0),
                state: GameplayState::Game,
                player: spec_initial_player(),
                ..*old(world)
            })
        },
        old(world).restart_events == 0 ==> *final(world) == *old(world),
{
    if world.restart_events > 0 {
        world.restart_events = 0;
        world.asteroids = Vec::new();
        world.lazers = Vec::new();
        world.score = Score(0);
        world.state = GameplayState::Game;
        setup(world);
    }
}

} // verus!
