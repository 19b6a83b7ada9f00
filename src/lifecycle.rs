use vstd::prelude::*;
use crate::{Entity, Vec2};

verus! {

/// Identifies a body or a collider in the physics world: an arena slot and
/// the generation that tells reuses of the slot apart.
#[derive(PartialEq, Eq, Structural, Clone, Copy, Debug, Hash)]
pub struct ObjectId {
    pub index: usize,
    pub generation: u64,
}

/// Shape of a collider, in world units.
#[derive(PartialEq, Eq, Structural, Clone, Copy, Debug)]
pub enum Shape {
    /// A circle of the given radius.
    Ball(i64),
    /// A box of the given half extents.
    Cuboid(Vec2),
}

/// Whether a body moves.
#[derive(PartialEq, Eq, Structural, Clone, Copy, Debug)]
pub enum BodyStatus {
    Dynamic,
    Static,
}

/// A rigid body yet to be created.
#[derive(PartialEq, Eq, Structural, Clone, Copy, Debug)]
pub struct BodyDesc {
    pub status: BodyStatus,
    pub mass: i64,
}

/// A collider yet to be created: its shape, whether it only senses
/// overlaps, and its offset from its body.
#[derive(PartialEq, Eq, Structural, Clone, Copy, Debug)]
pub struct ColliderDesc {
    pub shape: Shape,
    pub sensor: bool,
    pub offset: Vec2,
}

/// The body and collider an entity asks to be given.
#[derive(PartialEq, Eq, Structural, Clone, Copy, Debug)]
pub struct PhysicsDesc {
    pub body: BodyDesc,
    pub collider: ColliderDesc,
}

impl PhysicsDesc {
    /// A body with its collider.
    pub fn new(body: BodyDesc, collider: ColliderDesc) -> (r: PhysicsDesc)
        ensures
            r == (PhysicsDesc { body, collider }),
    {
        PhysicsDesc { body, collider }
    }
}

/// The physics objects backing an entity. `fresh` marks a handle whose
/// objects have not been tagged with their entity yet.
#[derive(PartialEq, Eq, Structural, Clone, Copy, Debug)]
pub struct PhysicsHandle {
    pub body: Option<ObjectId>,
    pub collider: Option<ObjectId>,
    pub fresh: bool,
}

impl PhysicsHandle {
    /// The handle of a body and its collider, not tagged yet.
    pub fn new(b: ObjectId, c: ObjectId) -> (r: PhysicsHandle)
        ensures
            r == (PhysicsHandle { body: Some(b), collider: Some(c), fresh: true }),
    {
        PhysicsHandle { body: Some(b), collider: Some(c), fresh: true }
    }
}

/// Where a sensor was attached: its parent's body and its own collider.
#[derive(PartialEq, Eq, Structural, Clone, Copy, Debug)]
pub struct SensorHandle {
    pub body: ObjectId,
    pub collider: ObjectId,
}

/// A sensor collider of an entity, to be attached to its parent's body.
/// Once attached, `handle` holds the parent's body and the collider.
#[derive(PartialEq, Eq, Structural, Clone, Copy, Debug)]
pub struct AttachedSensor {
    pub collider: ColliderDesc,
    pub handle: Option<SensorHandle>,
}

impl AttachedSensor {
    /// A sensor not attached yet.
    pub fn new(collider: ColliderDesc) -> (r: AttachedSensor)
        ensures
            r == (AttachedSensor { collider, handle: None }),
    {
        AttachedSensor { collider, handle: None }
    }

    /// Records where the sensor was attached.
    pub fn set_handle(&mut self, handle: SensorHandle)
        ensures
            *final(self) == (AttachedSensor { handle: Some(handle), ..*old(self) }),
    {
        self.handle = Some(handle);
    }
}

/// An entity and the physics objects that back it.
#[derive(PartialEq, Eq, Structural, Clone, Copy, Debug)]
pub struct BodyLink {
    pub entity: Entity,
    pub handle: PhysicsHandle,
}

/// A sensor entity, its parent entity, and the sensor once attached.
#[derive(PartialEq, Eq, Structural, Clone, Copy, Debug)]
pub struct SensorLink {
    pub entity: Entity,
    pub parent: Entity,
    pub sensor: AttachedSensor,
}

/// The physics objects a reconciliation removes.
pub struct Removal {
    pub bodies: Vec<ObjectId>,
    pub colliders: Vec<ObjectId>,
}

/// The side table between the entity store and the physics world: which
/// entity each body, collider and sensor belongs to.
pub struct Lifecycle {
    pub bodies: Vec<BodyLink>,
    pub sensors: Vec<SensorLink>,
}

/// Whether `e` is one of `alive`.
pub open spec fn is_alive(alive: Seq<Entity>, e: Entity) -> bool {
    alive.contains(e)
}

/// Whether some link backs `e` with a body.
pub open spec fn has_body(bodies: Seq<BodyLink>, e: Entity) -> bool {
    exists|i: int| 0 <= i < bodies.len() && bodies[i].entity == e
}

/// The body of `e`, when `has_body` holds.
pub open spec fn body_of(bodies: Seq<BodyLink>, e: Entity) -> BodyLink {
    bodies[choose|i: int| 0 <= i < bodies.len() && bodies[i].entity == e]
}

/// The links kept by a reconciliation: those of living entities.
pub open spec fn kept_bodies(bodies: Seq<BodyLink>, alive: Seq<Entity>) -> Seq<BodyLink>
    decreases bodies.len(),
{
    if bodies.len() == 0 {
        Seq::empty()
    } else if is_alive(alive, bodies.last().entity) {
        kept_bodies(bodies.drop_last(), alive).push(bodies.last())
    } else {
        kept_bodies(bodies.drop_last(), alive)
    }
}

/// The sensors kept by a reconciliation: those whose entity and parent
/// both live.
pub open spec fn kept_sensors(sensors: Seq<SensorLink>, alive: Seq<Entity>) -> Seq<SensorLink>
    decreases sensors.len(),
{
    if sensors.len() == 0 {
        Seq::empty()
    } else if is_alive(alive, sensors.last().entity) && is_alive(alive, sensors.last().parent) {
        kept_sensors(sensors.drop_last(), alive).push(sensors.last())
    } else {
        kept_sensors(sensors.drop_last(), alive)
    }
}

/// The bodies, in order, of the links of dead entities.
pub open spec fn removed_bodies(bodies: Seq<BodyLink>, alive: Seq<Entity>) -> Seq<ObjectId>
    decreases bodies.len(),
{
    if bodies.len() == 0 {
        Seq::empty()
    } else if is_alive(alive, bodies.last().entity) || bodies.last().handle.body is None {
        removed_bodies(bodies.drop_last(), alive)
    } else {
        removed_bodies(bodies.drop_last(), alive).push(bodies.last().handle.body.unwrap())
    }
}

/// The colliders, in order, of the links of dead entities.
pub open spec fn removed_colliders(bodies: Seq<BodyLink>, alive: Seq<Entity>) -> Seq<ObjectId>
    decreases bodies.len(),
{
    if bodies.len() == 0 {
        Seq::empty()
    } else if is_alive(alive, bodies.last().entity) || bodies.last().handle.collider is None {
        removed_colliders(bodies.drop_last(), alive)
    } else {
        removed_colliders(bodies.drop_last(), alive).push(bodies.last().handle.collider.unwrap())
    }
}

/// The attached colliders, in order, of the sensors a reconciliation drops.
pub open spec fn removed_sensor_objects(sensors: Seq<SensorLink>, alive: Seq<Entity>) -> Seq<
    ObjectId,
>
    decreases sensors.len(),
{
    if sensors.len() == 0 {
        Seq::empty()
    } else if (is_alive(alive, sensors.last().entity) && is_alive(alive, sensors.last().parent))
        || sensors.last().sensor.handle is None {
        removed_sensor_objects(sensors.drop_last(), alive)
    } else {
        removed_sensor_objects(sensors.drop_last(), alive).push(
            sensors.last().sensor.handle.unwrap().collider,
        )
    }
}

/// The attached sensors, in order, whose parent is `parent`.
pub open spec fn attached_to(sensors: Seq<SensorLink>, parent: Entity) -> Seq<SensorLink>
    decreases sensors.len(),
{
    if sensors.len() == 0 {
        Seq::empty()
    } else if sensors.last().parent == parent && sensors.last().sensor.handle is Some {
        attached_to(sensors.drop_last(), parent).push(sensors.last())
    } else {
        attached_to(sensors.drop_last(), parent)
    }
}

/// The entities of `candidates`, in order, that no link backs with a body.
pub open spec fn unbacked(bodies: Seq<BodyLink>, candidates: Seq<Entity>) -> Seq<Entity>
    decreases candidates.len(),
{
    if candidates.len() == 0 {
        Seq::empty()
    } else if has_body(bodies, candidates.last()) {
        unbacked(bodies, candidates.drop_last())
    } else {
        unbacked(bodies, candidates.drop_last()).push(candidates.last())
    }
}

/// A sensor that waits for its parent's body: it is not attached, and
/// its parent has a body.
pub open spec fn ready_to_attach(bodies: Seq<BodyLink>, s: SensorLink) -> bool {
    s.sensor.handle is None && has_body(bodies, s.parent) && body_of(bodies, s.parent).handle.body is Some
}

/// Exec membership test in a list of living entities.
fn contains_entity(alive: &Vec<Entity>, e: Entity) -> (r: bool)
    ensures
        r == is_alive(alive@, e),
{
    let mut i: usize = 0;
    while i < alive.len()
        invariant
            0 <= i <= alive@.len(),
            forall|j: int| 0 <= j < i ==> alive@[j] != e,
        decreases alive@.len() - i,
    {
        if alive[i] == e {
            assert(alive@[i as int] == e);
            return true;
        }
        i = i + 1;
    }
    false
}

impl Lifecycle {
    /// Each entity has at most one body link.
    pub open spec fn wf(&self) -> bool {
        forall|i: int, j: int|
            0 <= i < self.bodies@.len() && 0 <= j < self.bodies@.len() && i != j
                ==> self.bodies@[i].entity != self.bodies@[j].entity
    }

    /// An empty table.
    pub fn new() -> (r: Lifecycle)
        ensures
            r.bodies@ == Seq::<BodyLink>::empty(),
            r.sensors@ == Seq::<SensorLink>::empty(),
            r.wf(),
    {
        Lifecycle { bodies: Vec::new(), sensors: Vec::new() }
    }

    /// The physics handle of `e`, if it has a body.
    pub fn handle_of(&self, e: Entity) -> (r: Option<PhysicsHandle>)
        requires
            self.wf(),
        ensures
            match r {
                Some(h) => has_body(self.bodies@, e) && h == body_of(self.bodies@, e).handle,
                None => !has_body(self.bodies@, e),
            },
    {
        let mut i: usize = 0;
        while i < self.bodies.len()
            invariant
                0 <= i <= self.bodies@.len(),
                self.wf(),
                forall|j: int| 0 <= j < i ==> self.bodies@[j].entity != e,
            decreases self.bodies@.len() - i,
        {
            if self.bodies[i].entity == e {
                assert(has_body(self.bodies@, e));
                let ghost c = choose|k: int| 0 <= k < self.bodies@.len() && self.bodies@[k].entity == e;
                assert(self.bodies@[c].entity == self.bodies@[i as int].entity);
                return Some(self.bodies[i].handle);
            }
            i = i + 1;
        }
        None
    }

    /// The entities among `candidates`, which carry a body description,
    /// that still need their body spawned.
    pub fn needs_body(&self, candidates: &Vec<Entity>) -> (r: Vec<Entity>)
        requires
            self.wf(),
        ensures
            r@ == unbacked(self.bodies@, candidates@),
    {
        let mut r: Vec<Entity> = Vec::new();
        let mut i: usize = 0;
        while i < candidates.len()
            invariant
                0 <= i <= candidates@.len(),
                self.wf(),
                r@ == unbacked(self.bodies@, candidates@.take(i as int)),
            decreases candidates@.len() - i,
        {
            assert(candidates@.take(i + 1).drop_last() =~= candidates@.take(i as int));
            let e = candidates[i];
            if self.handle_of(e).is_none() {
                r.push(e);
            }
            i = i + 1;
        }
        assert(candidates@.take(candidates@.len() as int) =~= candidates@);
        r
    }

    /// Records the body and collider just spawned for `e`, tagged with it.
    pub fn record_body(&mut self, e: Entity, body: ObjectId, collider: ObjectId)
        requires
            old(self).wf(),
            !has_body(old(self).bodies@, e),
        ensures
            final(self).wf(),
            final(self).bodies@ == old(self).bodies@.push(
                BodyLink {
                    entity: e,
                    handle: PhysicsHandle { body: Some(body), collider: Some(collider), fresh: false },
                },
            ),
            final(self).sensors@ == old(self).sensors@,
    {
        let mut h = PhysicsHandle::new(body, collider);
        h.fresh = false;
        self.bodies.push(BodyLink { entity: e, handle: h });
        proof {
            let n = old(self).bodies@.len();
            assert forall|i: int, j: int|
                0 <= i < self.bodies@.len() && 0 <= j < self.bodies@.len() && i != j implies
                self.bodies@[i].entity != self.bodies@[j].entity by {
                if i == n {
                    assert(old(self).bodies@[j].entity != e);
                } else if j == n {
                    assert(old(self).bodies@[i].entity != e);
                }
            }
        }
    }

    /// Registers a sensor entity waiting to be attached to its parent.
    pub fn add_sensor(&mut self, entity: Entity, parent: Entity, sensor: AttachedSensor)
        ensures
            final(self).bodies@ == old(self).bodies@,
            final(self).sensors@ == old(self).sensors@.push(
                SensorLink { entity, parent, sensor },
            ),
    {
        self.sensors.push(SensorLink { entity, parent, sensor });
    }

    /// The first sensor ready to be attached and its parent's body, if any.
    pub fn next_sensor_to_attach(&self) -> (r: Option<(usize, ObjectId)>)
        requires
            self.wf(),
        ensures
            match r {
                Some((i, b)) => 0 <= i < self.sensors@.len() && ready_to_attach(
                    self.bodies@,
                    self.sensors@[i as int],
                ) && body_of(self.bodies@, self.sensors@[i as int].parent).handle.body == Some(b)
                    && forall|j: int| 0 <= j < i ==> !ready_to_attach(self.bodies@, #[trigger] self.sensors@[j]),
                None => forall|j: int|
                    0 <= j < self.sensors@.len() ==> !ready_to_attach(self.bodies@, #[trigger] self.sensors@[j]),
            },
    {
        let mut i: usize = 0;
        while i < self.sensors.len()
            invariant
                0 <= i <= self.sensors@.len(),
                self.wf(),
                forall|j: int| 0 <= j < i ==> !ready_to_attach(self.bodies@, #[trigger] self.sensors@[j]),
            decreases self.sensors@.len() - i,
        {
            let s = self.sensors[i];
            if s.sensor.handle.is_none() {
                if let Some(h) = self.handle_of(s.parent) {
                    if let Some(b) = h.body {
                        return Some((i, b));
                    }
                }
            }
            i = i + 1;
        }
        None
    }

    /// Records that sensor `i` was attached to `body` as `collider`.
    pub fn record_sensor(&mut self, i: usize, body: ObjectId, collider: ObjectId)
        requires
            i < old(self).sensors@.len(),
        ensures
            final(self).bodies@ == old(self).bodies@,
            final(self).sensors@ == old(self).sensors@.update(
                i as int,
                SensorLink {
                    sensor: AttachedSensor {
                        handle: Some(SensorHandle { body, collider }),
                        ..old(self).sensors@[i as int].sensor
                    },
                    ..old(self).sensors@[i as int]
                },
            ),
    {
        let mut s = self.sensors[i];
        s.sensor.set_handle(SensorHandle { body, collider });
        self.sensors.set(i, s);
    }

    /// The attached sensors of `parent`, with their entities.
    pub fn get_sensors(&self, parent: Entity) -> (r: Vec<SensorLink>)
        ensures
            r@ == attached_to(self.sensors@, parent),
    {
        let mut r: Vec<SensorLink> = Vec::new();
        let mut i: usize = 0;
        while i < self.sensors.len()
            invariant
                0 <= i <= self.sensors@.len(),
                r@ == attached_to(self.sensors@.take(i as int), parent),
            decreases self.sensors@.len() - i,
        {
            assert(self.sensors@.take(i + 1).drop_last() =~= self.sensors@.take(i as int));
            let s = self.sensors[i];
            if s.parent == parent && s.sensor.handle.is_some() {
                r.push(s);
            }
            i = i + 1;
        }
        assert(self.sensors@.take(self.sensors@.len() as int) =~= self.sensors@);
        r
    }

    /// Removes from the table every link of an entity not in `alive`, and
    /// every sensor whose entity or parent is not in `alive`; returns the
    /// bodies and the colliders to remove from the physics world.
    pub fn reconcile(&mut self, alive: &Vec<Entity>) -> (r: Removal)
        requires
            old(self).wf(),
        ensures
            final(self).wf(),
            final(self).bodies@ == kept_bodies(old(self).bodies@, alive@),
            final(self).sensors@ == kept_sensors(old(self).sensors@, alive@),
            r.bodies@ == removed_bodies(old(self).bodies@, alive@),
            r.colliders@ == removed_colliders(old(self).bodies@, alive@) + removed_sensor_objects(
                old(self).sensors@,
                alive@,
            ),
    {
        let ghost b0 = self.bodies@;
        let ghost s0 = self.sensors@;
        let mut bodies: Vec<BodyLink> = Vec::new();
        let mut dead_bodies: Vec<ObjectId> = Vec::new();
        let mut removed: Vec<ObjectId> = Vec::new();
        let mut i: usize = 0;
        while i < self.bodies.len()
            invariant
                0 <= i <= b0.len(),
                self.bodies@ == b0,
                bodies@ == kept_bodies(b0.take(i as int), alive@),
                dead_bodies@ == removed_bodies(b0.take(i as int), alive@),
                removed@ == removed_colliders(b0.take(i as int), alive@),
            decreases b0.len() - i,
        {
            assert(b0.take(i + 1).drop_last() =~= b0.take(i as int));
            let l = self.bodies[i];
            if contains_entity(alive, l.entity) {
                bodies.push(l);
            } else {
                if let Some(b) = l.handle.body {
                    dead_bodies.push(b);
                }
                if let Some(c) = l.handle.collider {
                    removed.push(c);
                }
            }
            i = i + 1;
        }
        assert(b0.take(b0.len() as int) =~= b0);
        let mut sensors: Vec<SensorLink> = Vec::new();
        let ghost r_bodies = removed@;
        let mut j: usize = 0;
        while j < self.sensors.len()
            invariant
                0 <= j <= s0.len(),
                self.sensors@ == s0,
                sensors@ == kept_sensors(s0.take(j as int), alive@),
                removed@ == r_bodies + removed_sensor_objects(s0.take(j as int), alive@),
            decreases s0.len() - j,
        {
            assert(s0.take(j + 1).drop_last() =~= s0.take(j as int));
            let s = self.sensors[j];
            if contains_entity(alive, s.entity) && contains_entity(alive, s.parent) {
                sensors.push(s);
            } else if let Some(h) = s.sensor.handle {
                removed.push(h.collider);
                assert(removed@ =~= r_bodies + removed_sensor_objects(s0.take(j + 1), alive@));
            }
            j = j + 1;
        }
        assert(s0.take(s0.len() as int) =~= s0);
        proof {
            lemma_kept_bodies_unique(b0, alive@);
        }
        self.bodies = bodies;
        self.sensors = sensors;
        Removal { bodies: dead_bodies, colliders: removed }
    }
}

/// No dangling back-reference survives a reconciliation: every body link
/// kept belongs to a living entity, and every sensor kept has a living
/// entity and a living parent, so the sensors of a removed entity go in
/// the same pass as its body.
pub proof fn lemma_reconcile_leaves_no_dead_links(
    bodies: Seq<BodyLink>,
    sensors: Seq<SensorLink>,
    alive: Seq<Entity>,
)
    ensures
        forall|i: int|
            0 <= i < kept_bodies(bodies, alive).len() ==> is_alive(
                alive,
                (#[trigger] kept_bodies(bodies, alive)[i]).entity,
            ),
        forall|i: int|
            0 <= i < kept_sensors(sensors, alive).len() ==> is_alive(
                alive,
                (#[trigger] kept_sensors(sensors, alive)[i]).entity,
            ) && is_alive(alive, kept_sensors(sensors, alive)[i].parent),
    decreases bodies.len() + sensors.len(),
{
    if bodies.len() > 0 {
        lemma_reconcile_leaves_no_dead_links(bodies.drop_last(), sensors, alive);
        let p = kept_bodies(bodies.drop_last(), alive);
        assert forall|i: int| 0 <= i < kept_bodies(bodies, alive).len() implies is_alive(
            alive,
            (#[trigger] kept_bodies(bodies, alive)[i]).entity,
        ) by {
            if i < p.len() {
                assert(kept_bodies(bodies, alive)[i] == p[i]);
            }
        }
    }
    if sensors.len() > 0 {
        lemma_reconcile_leaves_no_dead_links(bodies, sensors.drop_last(), alive);
        let p = kept_sensors(sensors.drop_last(), alive);
        assert forall|i: int| 0 <= i < kept_sensors(sensors, alive).len() implies is_alive(
            alive,
            (#[trigger] kept_sensors(sensors, alive)[i]).entity,
        ) && is_alive(alive, kept_sensors(sensors, alive)[i].parent) by {
            if i < p.len() {
                assert(kept_sensors(sensors, alive)[i] == p[i]);
            }
        }
    }
}

/// Every link kept by a reconciliation is one of the links before it.
proof fn lemma_kept_bodies_sub(bodies: Seq<BodyLink>, alive: Seq<Entity>)
    ensures
        forall|i: int|
            0 <= i < kept_bodies(bodies, alive).len() ==> exists|k: int|
                0 <= k < bodies.len() && bodies[k] == #[trigger] kept_bodies(bodies, alive)[i],
        kept_bodies(bodies, alive).len() <= bodies.len(),
    decreases bodies.len(),
{
    if bodies.len() > 0 {
        lemma_kept_bodies_sub(bodies.drop_last(), alive);
        let p = kept_bodies(bodies.drop_last(), alive);
        assert forall|i: int| 0 <= i < kept_bodies(bodies, alive).len() implies exists|k: int|
            0 <= k < bodies.len() && bodies[k] == #[trigger] kept_bodies(bodies, alive)[i] by {
            if i < p.len() {
                let k = choose|k: int| 0 <= k < bodies.drop_last().len() && bodies.drop_last()[k] == p[i];
                assert(bodies[k] == kept_bodies(bodies, alive)[i]);
            } else {
                assert(bodies[bodies.len() - 1] == kept_bodies(bodies, alive)[i]);
            }
        }
    }
}

/// A reconciliation keeps each entity's link unique.
proof fn lemma_kept_bodies_unique(bodies: Seq<BodyLink>, alive: Seq<Entity>)
    requires
        forall|i: int, j: int|
            0 <= i < bodies.len() && 0 <= j < bodies.len() && i != j ==> bodies[i].entity
                != bodies[j].entity,
    ensures
        forall|i: int, j: int|
            0 <= i < kept_bodies(bodies, alive).len() && 0 <= j < kept_bodies(bodies, alive).len()
                && i != j ==> kept_bodies(bodies, alive)[i].entity != kept_bodies(
                bodies,
                alive,
            )[j].entity,
    decreases bodies.len(),
{
    if bodies.len() > 0 {
        let d = bodies.drop_last();
        lemma_kept_bodies_unique(d, alive);
        lemma_kept_bodies_sub(d, alive);
        let p = kept_bodies(d, alive);
        let q = kept_bodies(bodies, alive);
        if is_alive(alive, bodies.last().entity) {
            assert forall|i: int, j: int|
                0 <= i < q.len() && 0 <= j < q.len() && i != j implies q[i].entity != q[j].entity by {
                if i == q.len() - 1 && j < p.len() {
                    let k = choose|k: int| 0 <= k < d.len() && d[k] == #[trigger] p[j];
                    assert(bodies[k] == p[j]);
                    assert(k != bodies.len() - 1);
                } else if j == q.len() - 1 && i < p.len() {
                    let k = choose|k: int| 0 <= k < d.len() && d[k] == #[trigger] p[i];
                    assert(bodies[k] == p[i]);
                    assert(k != bodies.len() - 1);
                } else {
                    assert(q[i] == p[i] && q[j] == p[j]);
                }
            }
        }
    }
}

} // verus!
