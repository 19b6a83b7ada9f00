use vstd::prelude::*;
use crate::combat::{fresh_attack_id, AttackHitbox, HitType, STAGGER_MS};
use crate::direction::{scaled, short_seek_spec, AnimationId, Direction, EndControl};
use crate::{coord_ok, Entity, Vec2, COORD_LIMIT};

verus! {

/// Idle time, in milliseconds, after a chase or an attack ends.
pub const REST_MS: u64 = 4000;

/// Idle time, in milliseconds, after recovering from a hit.
pub const RECOVER_MS: u64 = 3000;

/// An idling goblin only gives chase once less than this many milliseconds
/// of its rest are left.
pub const ALERT_MS: u64 = 2000;

/// Attack progress, in milliseconds, after which the goblin lunges.
pub const LUNGE_AFTER_MS: u64 = 375;

/// Dead zone of the seek heuristic, in world units.
pub const SEEK_MARGIN: i64 = 4;

/// Behaviour of a goblin. Every state but the chase keeps the waypoint to
/// return to.
#[derive(PartialEq, Eq, Structural, Clone, Copy, Debug)]
pub enum GoblinState {
    /// Resting at a waypoint, with the milliseconds of rest left.
    Idling(Entity, u64),
    /// Walking toward a waypoint.
    Moving(Entity),
    /// Chasing a target: the waypoint to return to, and the target.
    Chasing(Entity, Entity),
    /// Attacking: the waypoint, the swing's id and the milliseconds elapsed.
    Attacking(Entity, usize, u64),
    /// Staggered by a hit, with the milliseconds of stagger left.
    Hit(Entity, u64),
}

impl GoblinState {
    /// The waypoint the goblin returns to.
    pub open spec fn waypoint_spec(self) -> Entity {
        match self {
            GoblinState::Idling(w, _) => w,
            GoblinState::Moving(w) => w,
            GoblinState::Chasing(w, _) => w,
            GoblinState::Attacking(w, _, _) => w,
            GoblinState::Hit(w, _) => w,
        }
    }

    /// The waypoint the goblin returns to.
    pub fn get_waypoint(&self) -> (r: Entity)
        ensures
            r == self.waypoint_spec(),
    {
        match self {
            GoblinState::Idling(w, _) => *w,
            GoblinState::Moving(w) => *w,
            GoblinState::Chasing(w, _) => *w,
            GoblinState::Attacking(w, _, _) => *w,
            GoblinState::Hit(w, _) => *w,
        }
    }
}

/// An enemy that patrols waypoints and attacks the pylon or the player.
#[derive(PartialEq, Eq, Structural, Clone, Copy, Debug)]
pub struct Goblin {
    pub walk_speed: i64,
    pub lunge_speed: i64,
    pub state: GoblinState,
    pub facing: Direction,
    pub chase_distance: i64,
    pub attack_distance: i64,
}

/// A node of a patrol route: the next waypoint, if any, and how close a
/// goblin must come before moving on.
#[derive(PartialEq, Eq, Structural, Clone, Copy, Debug)]
pub struct Waypoint {
    pub next: Option<Entity>,
    pub margin: i64,
}

/// A chaseable entity and its offset to the goblin.
#[derive(PartialEq, Eq, Structural, Clone, Copy, Debug)]
pub struct Sighting {
    pub entity: Entity,
    pub offset: Vec2,
}

/// An entity met by a ray cast from the goblin, and how far away.
#[derive(PartialEq, Eq, Structural, Clone, Copy, Debug)]
pub struct RayHit {
    pub direction: Direction,
    pub entity: Entity,
    pub distance: i64,
}

/// What the host observes of one goblin's surroundings during a tick.
#[derive(Clone, Debug)]
pub struct GoblinSenses {
    /// The goblin has an animation set and controller this tick.
    pub animation_ready: bool,
    /// An attack animation is the active one.
    pub attack_animation_active: bool,
    /// The pylon, when it has a body, with its offset to the goblin.
    pub pylon: Option<Sighting>,
    /// The player, when it has a body, with its offset to the goblin.
    pub player: Option<Sighting>,
    /// The current waypoint's data, when it is a waypoint.
    pub waypoint: Option<Waypoint>,
    /// Offset from the goblin to its current waypoint, when both have bodies.
    pub waypoint_offset: Option<Vec2>,
    /// The chased target still has a body.
    pub target_alive: bool,
    /// Offset from the goblin to the chased target, when both have bodies.
    pub target_offset: Option<Vec2>,
    /// What the rays cast east, north, west and south met, in that order.
    pub rays: Vec<RayHit>,
}

/// An animation to make the active one.
#[derive(PartialEq, Eq, Structural, Clone, Copy, Debug)]
pub struct AnimationRequest {
    pub id: AnimationId,
    pub end: EndControl,
}

/// A new attack hitbox: the sensor's offset from its parent and the hitbox.
#[derive(PartialEq, Eq, Structural, Clone, Copy, Debug)]
pub struct HitboxRequest {
    pub offset: Vec2,
    pub hitbox: AttackHitbox,
}

/// What the host is to do for a goblin after it has decided.
#[derive(PartialEq, Eq, Structural, Clone, Copy, Debug)]
pub struct GoblinCommands {
    /// New velocity of the goblin's body.
    pub velocity: Option<Vec2>,
    /// Animation to make the active one.
    pub animation: Option<AnimationRequest>,
    /// Attack hitbox to attach to the goblin.
    pub spawn_hitbox: Option<HitboxRequest>,
    /// Delete the attack hitboxes attached to the goblin.
    pub clear_hitboxes: bool,
}

/// Commands that change nothing.
pub open spec fn no_commands() -> GoblinCommands {
    GoblinCommands { velocity: None, animation: None, spawn_hitbox: None, clear_hitboxes: false }
}

/// Squared length of an offset.
pub open spec fn norm2(v: Vec2) -> int {
    v.x * v.x + v.y * v.y
}

/// Whether a sighting lies within `range` of the goblin.
pub open spec fn within(s: Option<Sighting>, range: int) -> bool {
    match s {
        Some(s) => norm2(s.offset) <= range * range,
        None => false,
    }
}

/// The target a goblin gives chase to: the pylon when in range, else the
/// player when in range.
pub open spec fn chase_target_spec(g: Goblin, s: GoblinSenses) -> Option<Entity> {
    if within(s.pylon, g.chase_distance as int) {
        Some(s.pylon.unwrap().entity)
    } else if within(s.player, g.chase_distance as int) {
        Some(s.player.unwrap().entity)
    } else {
        None
    }
}

/// Index of the first ray that meets `target` closer than `range`, if any.
pub open spec fn first_sighting(rays: Seq<RayHit>, target: Entity, range: int) -> Option<int>
    decreases rays.len(),
{
    if rays.len() == 0 {
        None
    } else {
        match first_sighting(rays.drop_last(), target, range) {
            Some(i) => Some(i),
            None => if rays.last().entity == target && rays.last().distance < range {
                Some(rays.len() - 1)
            } else {
                None
            },
        }
    }
}

/// Offset of an attack sensor from a goblin facing `d`: ahead and a little
/// clockwise.
pub open spec fn goblin_hitbox_offset(d: Direction) -> Vec2 {
    let a = d.unit();
    let c = d.clockwise_spec().unit();
    Vec2 { x: (a.0 * 6 + c.0 * 3) as i64, y: (a.1 * 6 + c.1 * 3) as i64 }
}

/// `a + b`, held at `u64::MAX`.
pub open spec fn add_ms(a: u64, b: u64) -> u64 {
    if a as int + b as int > u64::MAX as int { u64::MAX } else { (a + b) as u64 }
}

/// The commands of a walk in direction `d`.
pub open spec fn walk_commands(g: Goblin, d: Direction) -> GoblinCommands {
    GoblinCommands {
        velocity: Some(scaled(d.unit(), g.walk_speed as int)),
        animation: Some(AnimationRequest { id: AnimationId::Walk(d), end: EndControl::Loop }),
        spawn_hitbox: None,
        clear_hitboxes: false,
    }
}

/// One tick of a goblin's behaviour: the goblin afterwards and the commands
/// for the host, given what it senses, the tick's length `dt` in
/// milliseconds, and the id a new attack swing would take.
pub open spec fn think_spec(g: Goblin, s: GoblinSenses, dt: u64, fresh_id: usize) -> (
    Goblin,
    GoblinCommands,
) {
    if !s.animation_ready {
        (g, no_commands())
    } else {
        match g.state {
            GoblinState::Moving(w) => match chase_target_spec(g, s) {
                Some(t) => (Goblin { state: GoblinState::Chasing(w, t), ..g }, no_commands()),
                None => {
                    let c = walk_commands(g, g.facing);
                    match s.waypoint_offset {
                        None => (g, c),
                        Some(off) => {
                            let near = match s.waypoint {
                                Some(wp) => norm2(off) < wp.margin * wp.margin,
                                None => false,
                            };
                            if near && s.waypoint.unwrap().next is Some {
                                (
                                    Goblin {
                                        state: GoblinState::Moving(s.waypoint.unwrap().next.unwrap()),
                                        ..g
                                    },
                                    c,
                                )
                            } else {
                                (
                                    Goblin {
                                        facing: short_seek_spec(
                                            off.x as int,
                                            off.y as int,
                                            SEEK_MARGIN as int,
                                        ),
                                        ..g
                                    },
                                    c,
                                )
                            }
                        },
                    }
                },
            },
            GoblinState::Idling(w, left) => {
                let t = chase_target_spec(g, s);
                if t is Some && left < ALERT_MS {
                    (
                        Goblin { state: GoblinState::Chasing(w, t.unwrap()), ..g },
                        GoblinCommands { clear_hitboxes: true, ..no_commands() },
                    )
                } else {
                    let c = GoblinCommands {
                        velocity: Some(Vec2 { x: 0, y: 0 }),
                        animation: Some(
                            AnimationRequest { id: AnimationId::Idle(g.facing), end: EndControl::Loop },
                        ),
                        spawn_hitbox: None,
                        clear_hitboxes: true,
                    };
                    if left < dt {
                        (Goblin { state: GoblinState::Moving(w), ..g }, c)
                    } else {
                        (Goblin { state: GoblinState::Idling(w, (left - dt) as u64), ..g }, c)
                    }
                }
            },
            GoblinState::Chasing(w, target) => {
                if !s.target_alive {
                    (
                        Goblin { state: GoblinState::Idling(w, REST_MS), ..g },
                        GoblinCommands { clear_hitboxes: true, ..no_commands() },
                    )
                } else {
                    match first_sighting(s.rays@, target, g.attack_distance as int) {
                        Some(i) => {
                            let d = s.rays@[i].direction;
                            (
                                Goblin {
                                    state: GoblinState::Attacking(w, fresh_id, 0),
                                    facing: d,
                                    ..g
                                },
                                GoblinCommands {
                                    velocity: None,
                                    animation: Some(
                                        AnimationRequest {
                                            id: AnimationId::Attack(d),
                                            end: EndControl::Stay,
                                        },
                                    ),
                                    spawn_hitbox: Some(
                                        HitboxRequest {
                                            offset: goblin_hitbox_offset(d),
                                            hitbox: AttackHitbox {
                                                id: fresh_id,
                                                hit_type: HitType::EnemyAttack,
                                                damage: 1,
                                            },
                                        },
                                    ),
                                    clear_hitboxes: false,
                                },
                            )
                        },
                        None => match s.target_offset {
                            Some(off) => {
                                let d = short_seek_spec(off.x as int, off.y as int, SEEK_MARGIN as int);
                                (Goblin { facing: d, ..g }, walk_commands(g, d))
                            },
                            None => (g, no_commands()),
                        },
                    }
                }
            },
            GoblinState::Attacking(w, id, progress) => {
                if s.attack_animation_active {
                    let v = if progress > LUNGE_AFTER_MS {
                        scaled(g.facing.unit(), g.lunge_speed as int)
                    } else {
                        Vec2 { x: 0, y: 0 }
                    };
                    (
                        Goblin { state: GoblinState::Attacking(w, id, add_ms(progress, dt)), ..g },
                        GoblinCommands { velocity: Some(v), ..no_commands() },
                    )
                } else {
                    (
                        Goblin { state: GoblinState::Idling(w, REST_MS), ..g },
                        GoblinCommands { clear_hitboxes: true, ..no_commands() },
                    )
                }
            },
            GoblinState::Hit(w, left) => {
                if left < dt {
                    (
                        Goblin { state: GoblinState::Idling(w, RECOVER_MS), ..g },
                        GoblinCommands { clear_hitboxes: true, ..no_commands() },
                    )
                } else {
                    (
                        Goblin { state: GoblinState::Hit(w, (left - dt) as u64), ..g },
                        GoblinCommands {
                            animation: Some(
                                AnimationRequest {
                                    id: AnimationId::Staggered(g.facing),
                                    end: EndControl::Stay,
                                },
                            ),
                            ..no_commands()
                        },
                    )
                }
            },
        }
    }
}

/// Offsets and distances the senses hold lie in the supported range.
pub open spec fn senses_ok(s: GoblinSenses) -> bool {
    &&& match s.pylon {
        Some(p) => p.offset.in_range(),
        None => true,
    }
    &&& match s.player {
        Some(p) => p.offset.in_range(),
        None => true,
    }
    &&& match s.waypoint {
        Some(w) => coord_ok(w.margin as int),
        None => true,
    }
    &&& match s.waypoint_offset {
        Some(o) => o.in_range(),
        None => true,
    }
    &&& match s.target_offset {
        Some(o) => o.in_range(),
        None => true,
    }
}

impl Goblin {
    /// Speeds and distances are non-negative and in range.
    pub open spec fn wf(self) -> bool {
        &&& 0 <= self.walk_speed <= COORD_LIMIT
        &&& 0 <= self.lunge_speed <= COORD_LIMIT
        &&& 0 <= self.chase_distance <= COORD_LIMIT
        &&& 0 <= self.attack_distance <= COORD_LIMIT
    }

    /// Whether `s` lies within the chase distance.
    fn in_chase_range(&self, s: Option<Sighting>) -> (r: bool)
        requires
            self.wf(),
            match s {
                Some(s) => s.offset.in_range(),
                None => true,
            },
        ensures
            r == within(s, self.chase_distance as int),
    {
        match s {
            Some(s) => norm2_exec(s.offset) <= square(self.chase_distance),
            None => false,
        }
    }

    /// The target to give chase to: the pylon when in range, else the
    /// player when in range.
    pub fn should_chase(&self, s: &GoblinSenses) -> (r: Option<Entity>)
        requires
            self.wf(),
            senses_ok(*s),
        ensures
            r == chase_target_spec(*self, *s),
    {
        if self.in_chase_range(s.pylon) {
            Some(s.pylon.unwrap().entity)
        } else if self.in_chase_range(s.player) {
            Some(s.player.unwrap().entity)
        } else {
            None
        }
    }

    /// Commands of a walk in direction `d`; the goblin turns to face it.
    fn walk(&mut self, d: Direction) -> (c: GoblinCommands)
        requires
            old(self).wf(),
        ensures
            *final(self) == (Goblin { facing: d, ..*old(self) }),
            c == walk_commands(*old(self), d),
    {
        self.facing = d;
        GoblinCommands {
            velocity: Some(d.scaled_by(self.walk_speed)),
            animation: Some(AnimationRequest { id: AnimationId::Walk(d), end: EndControl::Loop }),
            spawn_hitbox: None,
            clear_hitboxes: false,
        }
    }

    /// One tick of behaviour; see `think_spec`. `fresh_id` is the id that
    /// a swing started in this tick takes.
    pub fn think(&mut self, s: &GoblinSenses, dt: u64, fresh_id: usize) -> (c: GoblinCommands)
        requires
            old(self).wf(),
            senses_ok(*s),
        ensures
            (*final(self), c) == think_spec(*old(self), *s, dt, fresh_id),
            final(self).wf(),
    {
        let none = GoblinCommands {
            velocity: None,
            animation: None,
            spawn_hitbox: None,
            clear_hitboxes: false,
        };
        if !s.animation_ready {
            return none;
        }
        match self.state {
            GoblinState::Moving(w) => {
                match self.should_chase(s) {
                    Some(t) => {
                        self.state = GoblinState::Chasing(w, t);
                        none
                    },
                    None => {
                        let facing = self.facing;
                        let c = self.walk(facing);
                        if let Some(off) = s.waypoint_offset {
                            let near = match s.waypoint {
                                Some(wp) => norm2_exec(off) < square(wp.margin),
                                None => false,
                            };
                            if near && s.waypoint.unwrap().next.is_some() {
                                self.state = GoblinState::Moving(s.waypoint.unwrap().next.unwrap());
                            } else {
                                self.facing = Direction::short_seek(off.x, off.y, SEEK_MARGIN);
                            }
                        }
                        c
                    },
                }
            },
            GoblinState::Idling(w, left) => {
                let t = self.should_chase(s);
                if t.is_some() && left < ALERT_MS {
                    self.state = GoblinState::Chasing(w, t.unwrap());
                    GoblinCommands { clear_hitboxes: true, ..none }
                } else {
                    if left < dt {
                        self.state = GoblinState::Moving(w);
                    } else {
                        self.state = GoblinState::Idling(w, left - dt);
                    }
                    GoblinCommands {
                        velocity: Some(Vec2 { x: 0, y: 0 }),
                        animation: Some(
                            AnimationRequest { id: AnimationId::Idle(self.facing), end: EndControl::Loop },
                        ),
                        spawn_hitbox: None,
                        clear_hitboxes: true,
                    }
                }
            },
            GoblinState::Chasing(w, target) => {
                if !s.target_alive {
                    self.state = GoblinState::Idling(w, REST_MS);
                    return GoblinCommands { clear_hitboxes: true, ..none };
                }
                match find_sighting(&s.rays, target, self.attack_distance) {
                    Some(i) => {
                        let d = s.rays[i].direction;
                        self.state = GoblinState::Attacking(w, fresh_id, 0);
                        self.facing = d;
                        GoblinCommands {
                            velocity: None,
                            animation: Some(
                                AnimationRequest { id: AnimationId::Attack(d), end: EndControl::Stay },
                            ),
                            spawn_hitbox: Some(
                                HitboxRequest {
                                    offset: hitbox_offset(d),
                                    hitbox: AttackHitbox {
                                        id: fresh_id,
                                        hit_type: HitType::EnemyAttack,
                                        damage: 1,
                                    },
                                },
                            ),
                            clear_hitboxes: false,
                        }
                    },
                    None => match s.target_offset {
                        Some(off) => {
                            let d = Direction::short_seek(off.x, off.y, SEEK_MARGIN);
                            self.walk(d)
                        },
                        None => none,
                    },
                }
            },
            GoblinState::Attacking(w, id, progress) => {
                if s.attack_animation_active {
                    let v = if progress > LUNGE_AFTER_MS {
                        self.facing.scaled_by(self.lunge_speed)
                    } else {
                        Vec2 { x: 0, y: 0 }
                    };
                    let p = if progress > u64::MAX - dt { u64::MAX } else { progress + dt };
                    self.state = GoblinState::Attacking(w, id, p);
                    GoblinCommands { velocity: Some(v), ..none }
                } else {
                    self.state = GoblinState::Idling(w, REST_MS);
                    GoblinCommands { clear_hitboxes: true, ..none }
                }
            },
            GoblinState::Hit(w, left) => {
                if left < dt {
                    self.state = GoblinState::Idling(w, RECOVER_MS);
                    GoblinCommands { clear_hitboxes: true, ..none }
                } else {
                    self.state = GoblinState::Hit(w, left - dt);
                    GoblinCommands {
                        animation: Some(
                            AnimationRequest {
                                id: AnimationId::Staggered(self.facing),
                                end: EndControl::Stay,
                            },
                        ),
                        ..none
                    }
                }
            },
        }
    }

    /// One tick of behaviour in which a swing started now takes a freshly
    /// drawn id: the outcome is `think_spec` for some id.
    pub fn tick(&mut self, s: &GoblinSenses, dt: u64) -> (c: GoblinCommands)
        requires
            old(self).wf(),
            senses_ok(*s),
        ensures
            exists|id: usize| (*final(self), c) == think_spec(*old(self), *s, dt, id),
            final(self).wf(),
    {
        let id = fresh_attack_id();
        self.think(s, dt, id)
    }

    /// A struck goblin staggers, keeping its waypoint.
    pub fn stagger(&mut self)
        ensures
            *final(self) == (Goblin {
                state: GoblinState::Hit(old(self).state.waypoint_spec(), STAGGER_MS),
                ..*old(self)
            }),
    {
        self.state = GoblinState::Hit(self.state.get_waypoint(), STAGGER_MS);
    }
}

/// `v * v` for a value in range.
fn square(v: i64) -> (r: i64)
    requires
        coord_ok(v as int),
    ensures
        r as int == v * v,
{
    assert(0 <= v * v <= COORD_LIMIT * COORD_LIMIT) by (nonlinear_arith)
        requires
            coord_ok(v as int),
    ;
    v * v
}

/// Squared length of an offset in range.
fn norm2_exec(v: Vec2) -> (r: i64)
    requires
        v.in_range(),
    ensures
        r as int == norm2(v),
{
    assert(v.x * v.x <= COORD_LIMIT * COORD_LIMIT) by (nonlinear_arith)
        requires
            coord_ok(v.x as int),
    ;
    assert(v.y * v.y <= COORD_LIMIT * COORD_LIMIT) by (nonlinear_arith)
        requires
            coord_ok(v.y as int),
    ;
    assert(v.x * v.x >= 0 && v.y * v.y >= 0) by (nonlinear_arith);
    v.x * v.x + v.y * v.y
}

/// Index of the first ray that meets `target` closer than `range`.
fn find_sighting(rays: &Vec<RayHit>, target: Entity, range: i64) -> (r: Option<usize>)
    ensures
        match r {
            Some(i) => first_sighting(rays@, target, range as int) == Some(i as int) && i
                < rays@.len(),
            None => first_sighting(rays@, target, range as int) is None,
        },
{
    let mut i: usize = 0;
    while i < rays.len()
        invariant
            0 <= i <= rays@.len(),
            first_sighting(rays@.take(i as int), target, range as int) is None,
        decreases rays@.len() - i,
    {
        assert(rays@.take(i + 1).drop_last() =~= rays@.take(i as int));
        if rays[i].entity == target && rays[i].distance < range {
            proof {
                lemma_first_sighting_prefix(rays@, target, range as int, i + 1);
            }
            return Some(i);
        }
        i = i + 1;
    }
    assert(rays@.take(rays@.len() as int) =~= rays@);
    None
}

/// Once a prefix holds a sighting, the whole sequence has that same first one.
proof fn lemma_first_sighting_prefix(rays: Seq<RayHit>, target: Entity, range: int, n: int)
    requires
        0 <= n <= rays.len(),
        first_sighting(rays.take(n), target, range) is Some,
    ensures
        first_sighting(rays, target, range) == first_sighting(rays.take(n), target, range),
        0 <= first_sighting(rays, target, range).unwrap() < n,
    decreases rays.len() - n,
{
    lemma_first_sighting_bound(rays.take(n), target, range);
    if n < rays.len() {
        assert(rays.take(n + 1).drop_last() =~= rays.take(n));
        lemma_first_sighting_prefix(rays, target, range, n + 1);
    } else {
        assert(rays.take(n) =~= rays);
    }
}

/// A sighting's index lies within the sequence.
proof fn lemma_first_sighting_bound(rays: Seq<RayHit>, target: Entity, range: int)
    ensures
        match first_sighting(rays, target, range) {
            Some(i) => 0 <= i < rays.len(),
            None => true,
        },
    decreases rays.len(),
{
    if rays.len() > 0 {
        lemma_first_sighting_bound(rays.drop_last(), target, range);
    }
}

/// Offset of the attack sensor of a goblin facing `d`.
fn hitbox_offset(d: Direction) -> (r: Vec2)
    ensures
        r == goblin_hitbox_offset(d),
{
    let a = d.tilts();
    let c = d.clockwise().tilts();
    Vec2 { x: a.x * 6 + c.x * 3, y: a.y * 6 + c.y * 3 }
}

} // verus!

verus! {

/// The goblin after the ticks whose senses are `senses`, the `j`-th tick
/// offering the swing id `ids[j]`.
pub open spec fn run_ticks(g: Goblin, senses: Seq<GoblinSenses>, dt: u64, ids: Seq<usize>) -> Goblin
    decreases senses.len(),
{
    if senses.len() == 0 {
        g
    } else {
        think_spec(
            run_ticks(g, senses.drop_last(), dt, ids),
            senses.last(),
            dt,
            ids[senses.len() - 1],
        ).0
    }
}

/// An attack never locks a goblin: while the attack animation runs the
/// goblin keeps attacking toward the same waypoint, and on the first tick
/// the animation host reports it finished, the goblin is idling at that
/// waypoint again and its attack hitboxes are deleted.
pub proof fn lemma_attack_ends_in_idling(
    g: Goblin,
    senses: Seq<GoblinSenses>,
    dt: u64,
    ids: Seq<usize>,
    n: nat,
)
    requires
        g.state is Attacking,
        senses.len() == n + 1,
        ids.len() == senses.len(),
        forall|j: int| 0 <= j <= n ==> (#[trigger] senses[j]).animation_ready,
        forall|j: int| 0 <= j < n ==> (#[trigger] senses[j]).attack_animation_active,
        !senses[n as int].attack_animation_active,
    ensures
        run_ticks(g, senses, dt, ids).state == GoblinState::Idling(g.state.waypoint_spec(), REST_MS),
        think_spec(
            run_ticks(g, senses.take(n as int), dt, ids),
            senses[n as int],
            dt,
            ids[n as int],
        ).1.clear_hitboxes,
{
    lemma_attack_continues(g, senses, dt, ids, n);
    assert(senses.drop_last() =~= senses.take(n as int));
}

/// While the attack animation runs, a goblin that was attacking keeps
/// attacking toward the same waypoint.
proof fn lemma_attack_continues(
    g: Goblin,
    senses: Seq<GoblinSenses>,
    dt: u64,
    ids: Seq<usize>,
    k: nat,
)
    requires
        g.state is Attacking,
        k <= senses.len(),
        forall|j: int| 0 <= j < k ==> (#[trigger] senses[j]).animation_ready,
        forall|j: int| 0 <= j < k ==> (#[trigger] senses[j]).attack_animation_active,
    ensures
        run_ticks(g, senses.take(k as int), dt, ids).state is Attacking,
        run_ticks(g, senses.take(k as int), dt, ids).state.waypoint_spec()
            == g.state.waypoint_spec(),
    decreases k,
{
    if k == 0 {
        assert(senses.take(0) =~= Seq::<GoblinSenses>::empty());
    } else {
        lemma_attack_continues(g, senses, dt, ids, (k - 1) as nat);
        assert(senses.take(k as int).drop_last() =~= senses.take(k - 1));
        assert(senses.take(k as int).last() == senses[k - 1]);
    }
}

} // verus!
