use vstd::prelude::*;
use crate::combat::{fresh_attack_id, AttackHitbox, HitType, STAGGER_MS};
use crate::direction::{facing_from_axes_spec, AnimationId, Direction, EndControl};
use crate::goblin::{AnimationRequest, HitboxRequest};
use crate::{Vec2, COORD_LIMIT};

verus! {

/// An input axis reads from `-AXIS_SCALE` (full left or down) to
/// `AXIS_SCALE` (full right or up).
pub const AXIS_SCALE: i64 = 1000;

/// Damage of one swing of the player's sword.
pub const PLAYER_ATTACK_DAMAGE: usize = 1;

/// Behaviour of the player.
#[derive(PartialEq, Eq, Structural, Clone, Copy, Debug)]
pub enum PlayerState {
    /// Walking under input control.
    Moving,
    /// Swinging, with the swing's id.
    Attacking(usize),
    /// Staggered by a hit, with the milliseconds of stagger left.
    Hit(u64),
}

/// The player character.
#[derive(PartialEq, Eq, Structural, Clone, Copy, Debug)]
pub struct Player {
    pub walk_speed: i64,
    pub state: PlayerState,
    pub facing: Direction,
}

/// What the host is to do for the player after the attack controller has
/// decided.
#[derive(PartialEq, Eq, Structural, Clone, Copy, Debug)]
pub struct PlayerCommands {
    /// New velocity of the player's body.
    pub velocity: Option<Vec2>,
    /// Animation to make the active one.
    pub animation: Option<AnimationRequest>,
    /// Attack hitbox to attach to the player.
    pub spawn_hitbox: Option<HitboxRequest>,
    /// Delete the player's attack hitbox.
    pub clear_hitbox: bool,
}

/// Commands that change nothing.
pub open spec fn no_player_commands() -> PlayerCommands {
    PlayerCommands { velocity: None, animation: None, spawn_hitbox: None, clear_hitbox: false }
}

/// Offset of the attack sensor of a player facing `d`: ahead and a little
/// clockwise.
pub open spec fn player_hitbox_offset(d: Direction) -> Vec2 {
    let a = d.unit();
    let c = d.clockwise_spec().unit();
    Vec2 { x: (a.0 * 8 + c.0 * 4) as i64, y: (a.1 * 8 + c.1 * 4) as i64 }
}

/// One tick of the attack controller: the player afterwards and the
/// commands, given whether the animation controller is ready, whether the
/// attack button is down, whether an attack animation is active, the
/// tick's length in milliseconds, and the id a new swing would take.
pub open spec fn attack_step_spec(
    p: Player,
    ready: bool,
    attack_down: bool,
    attack_active: bool,
    dt: u64,
    fresh_id: usize,
) -> (Player, PlayerCommands) {
    if !ready {
        (p, no_player_commands())
    } else {
        match p.state {
            PlayerState::Moving => if attack_down {
                (
                    Player { state: PlayerState::Attacking(fresh_id), ..p },
                    PlayerCommands {
                        velocity: Some(Vec2 { x: 0, y: 0 }),
                        animation: Some(
                            AnimationRequest { id: AnimationId::Attack(p.facing), end: EndControl::Stay },
                        ),
                        spawn_hitbox: Some(
                            HitboxRequest {
                                offset: player_hitbox_offset(p.facing),
                                hitbox: AttackHitbox {
                                    id: fresh_id,
                                    hit_type: HitType::FriendlyAttack,
                                    damage: PLAYER_ATTACK_DAMAGE,
                                },
                            },
                        ),
                        clear_hitbox: true,
                    },
                )
            } else {
                (p, PlayerCommands { clear_hitbox: true, ..no_player_commands() })
            },
            PlayerState::Attacking(_) => if attack_active {
                (p, no_player_commands())
            } else {
                (
                    Player { state: PlayerState::Moving, ..p },
                    PlayerCommands {
                        animation: Some(
                            AnimationRequest { id: AnimationId::Idle(p.facing), end: EndControl::Loop },
                        ),
                        ..no_player_commands()
                    },
                )
            },
            PlayerState::Hit(left) => if left < dt {
                (
                    Player { state: PlayerState::Moving, ..p },
                    PlayerCommands { clear_hitbox: true, ..no_player_commands() },
                )
            } else {
                (
                    Player { state: PlayerState::Hit((left - dt) as u64), ..p },
                    PlayerCommands {
                        animation: Some(
                            AnimationRequest {
                                id: AnimationId::Staggered(p.facing),
                                end: EndControl::Stay,
                            },
                        ),
                        clear_hitbox: true,
                        ..no_player_commands()
                    },
                )
            },
        }
    }
}

/// `a / AXIS_SCALE`, rounded toward zero.
pub open spec fn per_axis_scale(a: int) -> int {
    if a >= 0 { a / AXIS_SCALE as int } else { -((-a) / AXIS_SCALE as int) }
}

/// Velocity asked for by the input axes `(x, y)`: the walking speed scaled
/// by each axis reading.
pub open spec fn axes_velocity(x: int, y: int, walk_speed: int) -> Vec2 {
    Vec2 {
        x: per_axis_scale(x * walk_speed) as i64,
        y: per_axis_scale(y * walk_speed) as i64,
    }
}

/// The velocity, animation and facing that the input axes `(x, y)` ask of
/// a moving player; a player in any other state ignores them.
pub open spec fn movement_step_spec(p: Player, ready: bool, x: int, y: int) -> (
    Player,
    Option<Vec2>,
    Option<AnimationRequest>,
) {
    if p.state != PlayerState::Moving {
        (p, None, None)
    } else {
        let v = axes_velocity(x, y, p.walk_speed as int);
        if !ready {
            (p, Some(v), None)
        } else {
            let d = facing_from_axes_spec(x, y, p.facing);
            let id = if x != 0 || y != 0 {
                AnimationId::Walk(d)
            } else {
                AnimationId::Idle(d)
            };
            (
                Player { facing: d, ..p },
                Some(v),
                Some(AnimationRequest { id, end: EndControl::Loop }),
            )
        }
    }
}

/// An input axis reading.
pub open spec fn axis_ok(v: int) -> bool {
    -(AXIS_SCALE as int) <= v <= AXIS_SCALE as int
}

impl Player {
    /// The walking speed is non-negative and in range.
    pub open spec fn wf(self) -> bool {
        0 <= self.walk_speed <= COORD_LIMIT
    }

    /// One tick of the attack controller; see `attack_step_spec`.
    pub fn attack_step(
        &mut self,
        ready: bool,
        attack_down: bool,
        attack_active: bool,
        dt: u64,
        fresh_id: usize,
    ) -> (c: PlayerCommands)
        ensures
            (*final(self), c) == attack_step_spec(
                *old(self),
                ready,
                attack_down,
                attack_active,
                dt,
                fresh_id,
            ),
    {
        let none = PlayerCommands {
            velocity: None,
            animation: None,
            spawn_hitbox: None,
            clear_hitbox: false,
        };
        if !ready {
            return none;
        }
        match self.state {
            PlayerState::Moving => {
                if attack_down {
                    self.state = PlayerState::Attacking(fresh_id);
                    PlayerCommands {
                        velocity: Some(Vec2 { x: 0, y: 0 }),
                        animation: Some(
                            AnimationRequest {
                                id: AnimationId::Attack(self.facing),
                                end: EndControl::Stay,
                            },
                        ),
                        spawn_hitbox: Some(
                            HitboxRequest {
                                offset: hitbox_offset(self.facing),
                                hitbox: AttackHitbox {
                                    id: fresh_id,
                                    hit_type: HitType::FriendlyAttack,
                                    damage: PLAYER_ATTACK_DAMAGE,
                                },
                            },
                        ),
                        clear_hitbox: true,
                    }
                } else {
                    PlayerCommands { clear_hitbox: true, ..none }
                }
            },
            PlayerState::Attacking(_) => {
                if attack_active {
                    none
                } else {
                    self.state = PlayerState::Moving;
                    PlayerCommands {
                        animation: Some(
                            AnimationRequest { id: AnimationId::Idle(self.facing), end: EndControl::Loop },
                        ),
                        ..none
                    }
                }
            },
            PlayerState::Hit(left) => {
                if left < dt {
                    self.state = PlayerState::Moving;
                    PlayerCommands { clear_hitbox: true, ..none }
                } else {
                    self.state = PlayerState::Hit(left - dt);
                    PlayerCommands {
                        animation: Some(
                            AnimationRequest {
                                id: AnimationId::Staggered(self.facing),
                                end: EndControl::Stay,
                            },
                        ),
                        clear_hitbox: true,
                        ..none
                    }
                }
            },
        }
    }

    /// One tick of the attack controller in which a swing started now takes
    /// a freshly drawn id: the outcome is `attack_step_spec` for some id.
    pub fn attack_tick(&mut self, ready: bool, attack_down: bool, attack_active: bool, dt: u64) -> (c:
        PlayerCommands)
        ensures
            exists|id: usize|
                (*final(self), c) == attack_step_spec(
                    *old(self),
                    ready,
                    attack_down,
                    attack_active,
                    dt,
                    id,
                ),
    {
        let id = fresh_attack_id();
        self.attack_step(ready, attack_down, attack_active, dt, id)
    }

    /// One tick of the movement controller: returns the velocity and the
    /// animation to set; see `movement_step_spec`.
    pub fn movement_step(&mut self, ready: bool, x: i64, y: i64) -> (r: (
        Option<Vec2>,
        Option<AnimationRequest>,
    ))
        requires
            old(self).wf(),
            axis_ok(x as int),
            axis_ok(y as int),
        ensures
            (*final(self), r.0, r.1) == movement_step_spec(*old(self), ready, x as int, y as int),
    {
        if self.state != PlayerState::Moving {
            return (None, None);
        }
        assert(-(AXIS_SCALE * COORD_LIMIT) <= x * self.walk_speed <= AXIS_SCALE * COORD_LIMIT)
            by (nonlinear_arith)
            requires
                axis_ok(x as int),
                self.wf(),
        ;
        assert(-(AXIS_SCALE * COORD_LIMIT) <= y * self.walk_speed <= AXIS_SCALE * COORD_LIMIT)
            by (nonlinear_arith)
            requires
                axis_ok(y as int),
                self.wf(),
        ;
        let v = Vec2 { x: scale_axis(x * self.walk_speed), y: scale_axis(y * self.walk_speed) };
        if !ready {
            return (Some(v), None);
        }
        let d = Direction::from_axes(x, y, self.facing);
        let id = if x != 0 || y != 0 {
            AnimationId::Walk(d)
        } else {
            AnimationId::Idle(d)
        };
        self.facing = d;
        (Some(v), Some(AnimationRequest { id, end: EndControl::Loop }))
    }

    /// A struck player staggers.
    pub fn stagger(&mut self)
        ensures
            *final(self) == (Player { state: PlayerState::Hit(STAGGER_MS), ..*old(self) }),
    {
        self.state = PlayerState::Hit(STAGGER_MS);
    }
}

/// `a / AXIS_SCALE`, rounded toward zero.
fn scale_axis(a: i64) -> (r: i64)
    requires
        -(AXIS_SCALE * COORD_LIMIT) <= a <= AXIS_SCALE * COORD_LIMIT,
    ensures
        r as int == per_axis_scale(a as int),
{
    if a >= 0 { a / AXIS_SCALE } else { -((-a) / AXIS_SCALE) }
}

/// Offset of the attack sensor of a player facing `d`.
fn hitbox_offset(d: Direction) -> (r: Vec2)
    ensures
        r == player_hitbox_offset(d),
{
    let a = d.tilts();
    let c = d.clockwise().tilts();
    Vec2 { x: a.x * 8 + c.x * 4, y: a.y * 8 + c.y * 4 }
}

} // verus!
