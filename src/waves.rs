use vstd::prelude::*;
use crate::combat::Health;
use crate::combat::HealthView;
use crate::direction::Direction;
use crate::goblin::{Goblin, GoblinState, Waypoint};
use crate::player::{Player, PlayerState};
use crate::Entity;

verus! {

/// Milliseconds without a living goblin before the next wave spawns.
pub const WAVE_DELAY_MS: u64 = 15000;

/// Rest, in milliseconds, of a goblin that has just spawned.
pub const SPAWN_REST_MS: u64 = 5000;

/// Hit points of a goblin.
pub const GOBLIN_HEALTH: usize = 3;

/// Hit points the player starts with.
pub const PLAYER_START_HEALTH: usize = 100;

/// How close, in world units, a goblin must come to a waypoint.
pub const WAYPOINT_MARGIN: i64 = 8;

/// A point where a goblin of each wave spawns, and the waypoint it starts
/// from.
#[derive(PartialEq, Eq, Structural, Clone, Copy, Debug)]
pub struct GoblinSpawner {
    pub waypoint: Entity,
}

/// What the wave counter shows.
#[derive(PartialEq, Eq, Structural, Clone, Copy, Debug)]
pub enum WaveText {
    /// Goblins are alive: how many.
    GoblinsLeft(usize),
    /// None are alive: seconds until the next wave, counting the one
    /// under way.
    NextWaveIn(u64),
    /// The text stays as it is.
    Unchanged,
}

/// The outcome of one tick of the wave timer.
#[derive(PartialEq, Eq, Structural, Clone, Copy, Debug)]
pub struct WaveTick {
    /// Every spawn point is to spawn a goblin now.
    pub spawn_wave: bool,
    /// What the wave counter is to show.
    pub text: WaveText,
}

/// Timer that respawns goblins once none has been alive for a while.
#[derive(PartialEq, Eq, Structural, Clone, Copy, Debug)]
pub struct WaveSystem {
    /// Milliseconds since the last goblin disappeared.
    pub idle_time: u64,
    /// Number of the current wave.
    pub wave_num: usize,
}

/// `a + b`, held at `u64::MAX`.
pub open spec fn add_sat(a: u64, b: u64) -> u64 {
    if a as int + b as int > u64::MAX as int { u64::MAX } else { (a + b) as u64 }
}

/// One tick of the wave timer with `goblin_count` goblins alive and `dt`
/// milliseconds elapsed.
pub open spec fn wave_tick_spec(w: WaveSystem, goblin_count: usize, dt: u64) -> (WaveSystem, WaveTick) {
    let idle = if goblin_count == 0 { add_sat(w.idle_time, dt) } else { 0 };
    let text = if goblin_count > 0 {
        WaveText::GoblinsLeft(goblin_count)
    } else if idle < WAVE_DELAY_MS {
        WaveText::NextWaveIn((WAVE_DELAY_MS / 1000 - idle / 1000) as u64)
    } else {
        WaveText::Unchanged
    };
    (WaveSystem { idle_time: idle, ..w }, WaveTick { spawn_wave: idle > WAVE_DELAY_MS, text })
}

impl WaveSystem {
    /// A timer that spawns the first wave at once.
    pub fn new() -> (r: WaveSystem)
        ensures
            r == (WaveSystem { idle_time: WAVE_DELAY_MS, wave_num: 1 }),
    {
        WaveSystem { idle_time: WAVE_DELAY_MS, wave_num: 1 }
    }

    /// One tick of the wave timer; see `wave_tick_spec`.
    pub fn tick(&mut self, goblin_count: usize, dt: u64) -> (r: WaveTick)
        ensures
            (*final(self), r) == wave_tick_spec(*old(self), goblin_count, dt),
    {
        if goblin_count == 0 {
            self.idle_time = if self.idle_time > u64::MAX - dt {
                u64::MAX
            } else {
                self.idle_time + dt
            };
        } else {
            self.idle_time = 0;
        }
        let text = if goblin_count > 0 {
            WaveText::GoblinsLeft(goblin_count)
        } else if self.idle_time < WAVE_DELAY_MS {
            WaveText::NextWaveIn(WAVE_DELAY_MS / 1000 - self.idle_time / 1000)
        } else {
            WaveText::Unchanged
        };
        WaveTick { spawn_wave: self.idle_time > WAVE_DELAY_MS, text }
    }
}

impl Goblin {
    /// A goblin just spawned at a spawn point, resting before it walks to
    /// `waypoint`.
    pub fn spawned(waypoint: Entity) -> (r: Goblin)
        ensures
            r == (Goblin {
                walk_speed: 40,
                lunge_speed: 120,
                state: GoblinState::Idling(waypoint, SPAWN_REST_MS),
                facing: Direction::South,
                chase_distance: 60,
                attack_distance: 60,
            }),
            r.wf(),
    {
        Goblin {
            walk_speed: 40,
            lunge_speed: 120,
            state: GoblinState::Idling(waypoint, SPAWN_REST_MS),
            facing: Direction::South,
            chase_distance: 60,
            attack_distance: 60,
        }
    }

    /// Health of a goblin just spawned.
    pub fn spawn_health() -> (r: Health)
        ensures
            r@ == (HealthView { friendly: false, current: GOBLIN_HEALTH as nat, hit_by: Seq::empty() }),
    {
        Health::new(false, GOBLIN_HEALTH)
    }
}

impl Player {
    /// The player as it enters the map.
    pub fn spawned() -> (r: Player)
        ensures
            r == (Player { walk_speed: 100, state: PlayerState::Moving, facing: Direction::South }),
            r.wf(),
    {
        Player { walk_speed: 100, state: PlayerState::Moving, facing: Direction::South }
    }

    /// Health of the player as it enters the map.
    pub fn spawn_health() -> (r: Health)
        ensures
            r@ == (HealthView {
                friendly: true,
                current: PLAYER_START_HEALTH as nat,
                hit_by: Seq::empty(),
            }),
    {
        Health::new(true, PLAYER_START_HEALTH)
    }
}

impl Waypoint {
    /// A waypoint that leads nowhere yet.
    pub fn spawned() -> (r: Waypoint)
        ensures
            r == (Waypoint { next: None, margin: WAYPOINT_MARGIN }),
    {
        Waypoint { next: None, margin: WAYPOINT_MARGIN }
    }
}

} // verus!
