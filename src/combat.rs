use vstd::prelude::*;
use crate::direction::{long_seek_spec, Direction};
use crate::goblin::{Goblin, GoblinState};
use crate::player::{Player, PlayerState};
use crate::{coord_ok, Entity, Vec2};

verus! {

/// Which side an attack belongs to.
#[derive(PartialEq, Eq, Structural, Clone, Copy, Debug, Hash)]
pub enum HitType {
    FriendlyAttack,
    EnemyAttack,
}

/// The damage region of one attack swing. `id` is fresh for every swing.
#[derive(PartialEq, Eq, Structural, Clone, Copy, Debug, Hash)]
pub struct AttackHitbox {
    pub id: usize,
    pub hit_type: HitType,
    pub damage: usize,
}

/// Hit points of an entity and the attack swings that already struck it.
#[derive(Clone, Debug)]
pub struct Health {
    pub friendly: bool,
    pub current_health: usize,
    pub hit_by: Vec<usize>,
}

/// What a `Health` holds, as mathematical values.
pub struct HealthView {
    pub friendly: bool,
    pub current: nat,
    pub hit_by: Seq<usize>,
}

impl View for Health {
    type V = HealthView;

    open spec fn view(&self) -> HealthView {
        HealthView {
            friendly: self.friendly,
            current: self.current_health as nat,
            hit_by: self.hit_by@,
        }
    }
}

/// Maximum hit points of the player.
pub const MAX_PLAYER_HEALTH: usize = 16;

/// Maximum hit points of the pylon.
pub const MAX_PYLON_HEALTH: usize = 32;

/// Speed, in world units per second, at which a struck actor is pushed away.
pub const KNOCKBACK_SPEED: i64 = 60;

/// How long, in milliseconds, a struck actor staggers.
pub const STAGGER_MS: u64 = 500;

/// An attack of `hit_type` may harm a target only from the opposing side.
pub open spec fn opposes(hit_type: HitType, friendly: bool) -> bool {
    (friendly && hit_type == HitType::EnemyAttack) || (!friendly && hit_type
        == HitType::FriendlyAttack)
}

/// Whether `attack` damages a target whose health is `h`: its swing has not
/// struck this target before, and it comes from the opposing side.
pub open spec fn can_damage(h: HealthView, attack: AttackHitbox) -> bool {
    !h.hit_by.contains(attack.id) && opposes(attack.hit_type, h.friendly)
}

/// Hit points left after taking `damage`, floored at zero.
pub open spec fn after_damage(current: nat, damage: nat) -> nat {
    if current < damage { 0 } else { (current - damage) as nat }
}

/// The health after one overlap with `attack`: a valid hit records the
/// swing and removes its damage; any other overlap changes nothing.
pub open spec fn take_hit_spec(h: HealthView, attack: AttackHitbox) -> HealthView {
    if can_damage(h, attack) {
        HealthView {
            friendly: h.friendly,
            current: after_damage(h.current, attack.damage as nat),
            hit_by: h.hit_by.push(attack.id),
        }
    } else {
        h
    }
}

/// The health after overlaps with `hits`, in order.
pub open spec fn health_after(h: HealthView, hits: Seq<AttackHitbox>) -> HealthView
    decreases hits.len(),
{
    if hits.len() == 0 {
        h
    } else {
        take_hit_spec(health_after(h, hits.drop_last()), hits.last())
    }
}

/// Velocity that pushes a struck actor away from the hitbox at offset
/// `(dx, dy)` from it, along the dominant axis.
pub open spec fn knockback_spec(dx: int, dy: int) -> (int, int) {
    let u = long_seek_spec(dx, dy).unit();
    (-KNOCKBACK_SPEED * u.0, -KNOCKBACK_SPEED * u.1)
}

impl Health {
    /// Full health that no swing has struck yet.
    pub fn new(friendly: bool, current_health: usize) -> (r: Health)
        ensures
            r@ == (HealthView { friendly, current: current_health as nat, hit_by: Seq::empty() }),
    {
        Health { friendly, current_health, hit_by: Vec::new() }
    }

    /// Whether `attack` would damage this target now.
    pub fn can_be_damaged_by(&self, attack: &AttackHitbox) -> (r: bool)
        ensures
            r == can_damage(self@, *attack),
    {
        if !self.friendly && attack.hit_type == HitType::EnemyAttack {
            return false;
        }
        if self.friendly && attack.hit_type == HitType::FriendlyAttack {
            return false;
        }
        let mut i: usize = 0;
        while i < self.hit_by.len()
            invariant
                0 <= i <= self.hit_by@.len(),
                forall|j: int| 0 <= j < i ==> self.hit_by@[j] != attack.id,
            decreases self.hit_by@.len() - i,
        {
            if self.hit_by[i] == attack.id {
                return false;
            }
            i = i + 1;
        }
        true
    }

    /// Applies one overlap with `attack` and says whether it was a hit.
    pub fn take_hit(&mut self, attack: &AttackHitbox) -> (applied: bool)
        ensures
            applied == can_damage(old(self)@, *attack),
            final(self)@ == take_hit_spec(old(self)@, *attack),
    {
        if self.can_be_damaged_by(attack) {
            self.hit_by.push(attack.id);
            if self.current_health < attack.damage {
                self.current_health = 0;
            } else {
                self.current_health = self.current_health - attack.damage;
            }
            true
        } else {
            false
        }
    }

    /// Whether no hit points are left.
    pub fn is_dead(&self) -> (r: bool)
        ensures
            r == (self@.current == 0),
    {
        self.current_health == 0
    }
}

/// Width, in pixels, of the player's health bar per hit point.
pub const WIDTH_PER_HEALTH: u128 = 8;

/// Width, in pixels, of the pylon's health bar per hit point.
pub const WIDTH_PER_PYLON: u128 = 4;

/// Widths of the two health bars; a bar whose owner is absent keeps its
/// width.
#[derive(PartialEq, Eq, Structural, Clone, Copy, Debug)]
pub struct HealthBars {
    pub full_health: Option<u128>,
    pub full_pylon: Option<u128>,
}

/// Computes the widths of the health bars of the heads-up display.
pub struct HealthDisplaySystem;

impl HealthDisplaySystem {
    /// Bar widths for the player's and the pylon's hit points, when present:
    /// both bars are 128 pixels wide at full health.
    pub fn run(&self, player: Option<usize>, pylon: Option<usize>) -> (r: HealthBars)
        ensures
            r.full_health == (match player {
                Some(h) => Some((WIDTH_PER_HEALTH * h) as u128),
                None => None,
            }),
            r.full_pylon == (match pylon {
                Some(h) => Some((WIDTH_PER_PYLON * h) as u128),
                None => None,
            }),
    {
        HealthBars {
            full_health: match player {
                Some(h) => Some(WIDTH_PER_HEALTH * (h as u128)),
                None => None,
            },
            full_pylon: match pylon {
                Some(h) => Some(WIDTH_PER_PYLON * (h as u128)),
                None => None,
            },
        }
    }
}

/// Relies on rand::random::<usize>: a uniformly drawn integer, used as the
/// id of a new attack swing. Nothing is known of the value.
#[verifier::external_body]
pub(crate) fn fresh_attack_id() -> (r: usize) {
    rand::random::<usize>()
}

/// Velocity that pushes a struck actor away from the hitbox at offset
/// `(dx, dy)` from it.
pub fn knockback(offset: Vec2) -> (r: Vec2)
    requires
        offset.in_range(),
    ensures
        (r.x as int, r.y as int) == knockback_spec(offset.x as int, offset.y as int),
{
    Direction::long_seek(offset.x, offset.y).scaled_by(-KNOCKBACK_SPEED)
}

/// A health-bearing entity that attack hitboxes can strike.
#[derive(Clone, Debug)]
pub struct Combatant {
    pub entity: Entity,
    pub health: Health,
}

/// An attack hitbox overlapping an entity during one tick. `offset` runs
/// from the struck entity to the hitbox; it is absent when either has no
/// physics body.
#[derive(PartialEq, Eq, Structural, Clone, Copy, Debug)]
pub struct Overlap {
    pub hitbox: AttackHitbox,
    pub target: Entity,
    pub offset: Option<Vec2>,
}

/// A hit that was applied: who was struck and, when both bodies exist, the
/// velocity that knocks the target back. A knocked-back actor staggers.
#[derive(PartialEq, Eq, Structural, Clone, Copy, Debug)]
pub struct HitReport {
    pub target: Entity,
    pub knockback: Option<Vec2>,
}

/// No two combatants stand for the same entity.
pub open spec fn unique_entities(cs: Seq<Combatant>) -> bool {
    forall|i: int, j: int|
        0 <= i < cs.len() && 0 <= j < cs.len() && i != j ==> cs[i].entity != cs[j].entity
}

/// Every offset of the overlaps lies in the supported range.
pub open spec fn offsets_ok(os: Seq<Overlap>) -> bool {
    forall|k: int|
        0 <= k < os.len() ==> match #[trigger] os[k].offset {
            Some(d) => d.in_range(),
            None => true,
        }
}

/// The hitboxes, in order, of the overlaps that touch `e`.
pub open spec fn hits_on(os: Seq<Overlap>, e: Entity) -> Seq<AttackHitbox>
    decreases os.len(),
{
    if os.len() == 0 {
        Seq::empty()
    } else if os.last().target == e {
        hits_on(os.drop_last(), e).push(os.last().hitbox)
    } else {
        hits_on(os.drop_last(), e)
    }
}

/// Whether some combatant stands for `e`.
pub open spec fn has_entity(cs: Seq<Combatant>, e: Entity) -> bool {
    exists|i: int| 0 <= i < cs.len() && cs[i].entity == e
}

/// The index of the combatant standing for `e`, when `has_entity` holds.
pub open spec fn index_of(cs: Seq<Combatant>, e: Entity) -> int {
    choose|i: int| 0 <= i < cs.len() && cs[i].entity == e
}

/// The report for an overlap with a target whose health is `h` when it is
/// considered.
pub open spec fn report_spec(h: HealthView, o: Overlap) -> Option<HitReport> {
    if can_damage(h, o.hitbox) {
        Some(
            HitReport {
                target: o.target,
                knockback: match o.offset {
                    Some(d) => {
                        let v = knockback_spec(d.x as int, d.y as int);
                        Some(Vec2 { x: v.0 as i64, y: v.1 as i64 })
                    },
                    None => None,
                },
            },
        )
    } else {
        None
    }
}

/// The report for the `k`-th overlap when the overlaps before it have been
/// applied to the combatants `cs`; overlaps with entities that carry no
/// health are skipped.
pub open spec fn resolved_report(cs: Seq<Combatant>, os: Seq<Overlap>, k: int) -> Option<
    HitReport,
> {
    let e = os[k].target;
    if has_entity(cs, e) {
        report_spec(health_after(cs[index_of(cs, e)].health@, hits_on(os.take(k), e)), os[k])
    } else {
        None
    }
}

/// Index of the combatant standing for `e`, if any.
fn find_combatant(cs: &Vec<Combatant>, e: Entity) -> (r: Option<usize>)
    requires
        unique_entities(cs@),
    ensures
        match r {
            Some(i) => has_entity(cs@, e) && i as int == index_of(cs@, e),
            None => !has_entity(cs@, e),
        },
{
    let mut i: usize = 0;
    while i < cs.len()
        invariant
            0 <= i <= cs@.len(),
            unique_entities(cs@),
            forall|j: int| 0 <= j < i ==> cs@[j].entity != e,
        decreases cs@.len() - i,
    {
        if cs[i].entity == e {
            assert(cs@[i as int].entity == e);
            assert(has_entity(cs@, e));
            let ghost c = index_of(cs@, e);
            assert(0 <= c < cs@.len() && cs@[c].entity == e);
            assert(cs@[c].entity == cs@[i as int].entity);
            assert(c == i as int);
            return Some(i);
        }
        i = i + 1;
    }
    None
}

/// Applies every overlap of this tick, in order, to the combatants: each
/// valid hit records its swing and removes its damage, at most once per
/// swing and target however many overlaps repeat it. The result holds, for
/// each overlap, the hit it caused, if any.
pub fn resolve_attacks(cs: &mut Vec<Combatant>, os: &Vec<Overlap>) -> (r: Vec<Option<HitReport>>)
    requires
        unique_entities(old(cs)@),
        offsets_ok(os@),
    ensures
        final(cs)@.len() == old(cs)@.len(),
        forall|i: int|
            0 <= i < old(cs)@.len() ==> (#[trigger] final(cs)@[i]).entity == old(cs)@[i].entity
                && final(cs)@[i].health@ == health_after(
                old(cs)@[i].health@,
                hits_on(os@, old(cs)@[i].entity),
            ),
        forall|i: int|
            0 <= i < old(cs)@.len() ==> (#[trigger] final(cs)@[i]).health.current_health
                <= old(cs)@[i].health.current_health,
        r@.len() == os@.len(),
        forall|k: int| 0 <= k < os@.len() ==> #[trigger] r@[k] == resolved_report(old(cs)@, os@, k),
{
    let ghost cs0 = cs@;
    let mut r: Vec<Option<HitReport>> = Vec::new();
    let mut k: usize = 0;
    while k < os.len()
        invariant
            0 <= k <= os@.len(),
            unique_entities(cs0),
            offsets_ok(os@),
            cs@.len() == cs0.len(),
            forall|i: int|
                0 <= i < cs0.len() ==> (#[trigger] cs@[i]).entity == cs0[i].entity && cs@[i].health@
                    == health_after(cs0[i].health@, hits_on(os@.take(k as int), cs0[i].entity)),
            r@.len() == k,
            forall|j: int| 0 <= j < k ==> #[trigger] r@[j] == resolved_report(cs0, os@, j),
        decreases os@.len() - k,
    {
        let o = os[k];
        assert(unique_entities(cs@));
        let found = find_combatant(cs, o.target);
        assert(os@.take(k + 1).drop_last() =~= os@.take(k as int));
        assert(forall|i: int| 0 <= i < cs0.len() ==> cs@[i].entity == cs0[i].entity);
        assert(has_entity(cs@, o.target) == has_entity(cs0, o.target));
        match found {
            Some(i) => {
                assert(cs0[i as int].entity == o.target);
                assert(index_of(cs0, o.target) == i as int);
                let ghost before = cs@;
                let ghost hs = hits_on(os@.take(k as int), o.target);
                assert(os@.take(k + 1).last() == o);
                assert(hits_on(os@.take(k + 1), o.target) == hs.push(o.hitbox));
                assert(hs.push(o.hitbox).drop_last() =~= hs);
                let applied = cs[i].health.take_hit(&o.hitbox);
                assert(cs@[i as int].health@ == health_after(cs0[i as int].health@, hs.push(o.hitbox)));
                if applied {
                    let kb = match o.offset {
                        Some(d) => {
                            assert(os@[k as int].offset == Some(d));
                            Some(knockback(d))
                        },
                        None => None,
                    };
                    r.push(Some(HitReport { target: o.target, knockback: kb }));
                } else {
                    r.push(None);
                }
                assert forall|j: int| 0 <= j < cs0.len() implies (#[trigger] cs@[j]).entity
                    == cs0[j].entity && cs@[j].health@ == health_after(
                    cs0[j].health@,
                    hits_on(os@.take(k + 1), cs0[j].entity),
                ) by {
                    if j != i as int {
                        assert(cs0[j].entity != o.target);
                    }
                }
            },
            None => {
                r.push(None);
                assert forall|j: int| 0 <= j < cs0.len() implies (#[trigger] cs@[j]).entity
                    == cs0[j].entity && cs@[j].health@ == health_after(
                    cs0[j].health@,
                    hits_on(os@.take(k + 1), cs0[j].entity),
                ) by {
                    assert(cs0[j].entity != o.target);
                }
            },
        }
        k = k + 1;
    }
    assert(os@.take(os@.len() as int) =~= os@);
    proof {
        assert forall|i: int| 0 <= i < cs0.len() implies (#[trigger] cs@[i]).health.current_health
            <= cs0[i].health.current_health by {
            lemma_health_never_rises(cs0[i].health@, hits_on(os@, cs0[i].entity));
        }
    }
    r
}

/// The entities, in order, of the combatants without hit points left.
pub open spec fn dead_spec(cs: Seq<Combatant>) -> Seq<Entity>
    decreases cs.len(),
{
    if cs.len() == 0 {
        Seq::empty()
    } else if cs.last().health@.current == 0 {
        dead_spec(cs.drop_last()).push(cs.last().entity)
    } else {
        dead_spec(cs.drop_last())
    }
}

/// The death sweep: the entities whose health has reached zero, to be
/// deleted at the end of the tick.
pub fn dead_entities(cs: &Vec<Combatant>) -> (r: Vec<Entity>)
    ensures
        r@ == dead_spec(cs@),
{
    let mut r: Vec<Entity> = Vec::new();
    let mut i: usize = 0;
    while i < cs.len()
        invariant
            0 <= i <= cs@.len(),
            r@ == dead_spec(cs@.take(i as int)),
        decreases cs@.len() - i,
    {
        assert(cs@.take(i + 1).drop_last() =~= cs@.take(i as int));
        if cs[i].health.is_dead() {
            r.push(cs[i].entity);
        }
        i = i + 1;
    }
    assert(cs@.take(cs@.len() as int) =~= cs@);
    r
}

/// Health never rises: whatever overlaps a target takes, its hit points
/// end no higher than they started (and, being a natural number, never
/// below zero), and every swing it had recorded stays recorded.
pub proof fn lemma_health_never_rises(h: HealthView, hits: Seq<AttackHitbox>)
    ensures
        health_after(h, hits).current <= h.current,
        health_after(h, hits).friendly == h.friendly,
        forall|id: usize| h.hit_by.contains(id) ==> health_after(h, hits).hit_by.contains(id),
    decreases hits.len(),
{
    if hits.len() > 0 {
        lemma_health_never_rises(h, hits.drop_last());
        let p = health_after(h, hits.drop_last());
        assert forall|id: usize| p.hit_by.contains(id) implies take_hit_spec(
            p,
            hits.last(),
        ).hit_by.contains(id) by {
            if can_damage(p, hits.last()) {
                let j = choose|j: int| 0 <= j < p.hit_by.len() && p.hit_by[j] == id;
                assert(p.hit_by.push(hits.last().id)[j] == id);
            }
        }
    }
}

/// A swing that a target has recorded never damages it again.
pub proof fn lemma_recorded_swing_is_ignored(h: HealthView, attack: AttackHitbox)
    requires
        h.hit_by.contains(attack.id),
    ensures
        take_hit_spec(h, attack) == h,
{
}

/// `n` overlaps with the same hitbox.
pub open spec fn repeated(attack: AttackHitbox, n: nat) -> Seq<AttackHitbox> {
    Seq::new(n, |k: int| attack)
}

/// However many ticks one hitbox keeps overlapping a target, the target
/// is struck at most once: `n >= 1` overlaps act as a single one.
pub proof fn lemma_repeated_overlap_hits_once(h: HealthView, attack: AttackHitbox, n: nat)
    requires
        n >= 1,
    ensures
        health_after(h, repeated(attack, n)) == take_hit_spec(h, attack),
    decreases n,
{
    let hits = repeated(attack, n);
    assert(hits.drop_last() =~= repeated(attack, (n - 1) as nat));
    assert(hits.last() == attack);
    if n == 1 {
        assert(hits.drop_last() =~= Seq::<AttackHitbox>::empty());
        assert(health_after(h, hits.drop_last()) == h);
    } else {
        lemma_repeated_overlap_hits_once(h, attack, (n - 1) as nat);
        let once = take_hit_spec(h, attack);
        if can_damage(h, attack) {
            assert(once.hit_by[once.hit_by.len() - 1] == attack.id);
            assert(once.hit_by.contains(attack.id));
        }
        assert(take_hit_spec(once, attack) == once);
        assert(health_after(h, hits.drop_last()) == once);
    }
    assert(health_after(h, hits) == take_hit_spec(health_after(h, hits.drop_last()), attack));
}

/// An attack never harms its own side: overlaps whose hit types all fail
/// to oppose the target leave its health exactly as it was.
pub proof fn lemma_same_side_never_harms(h: HealthView, hits: Seq<AttackHitbox>)
    requires
        forall|k: int| 0 <= k < hits.len() ==> !opposes(#[trigger] hits[k].hit_type, h.friendly),
    ensures
        health_after(h, hits) == h,
    decreases hits.len(),
{
    if hits.len() > 0 {
        lemma_same_side_never_harms(h, hits.drop_last());
        assert(!opposes(hits[hits.len() - 1].hit_type, h.friendly));
    }
}

/// Whether `attack` can no longer damage a target whose health is `h`:
/// its swing is recorded, or it comes from the target's own side.
pub open spec fn blocked(h: HealthView, attack: AttackHitbox) -> bool {
    h.hit_by.contains(attack.id) || !opposes(attack.hit_type, h.friendly)
}

/// After a target has taken `hits`, every one of them is blocked.
proof fn lemma_hits_end_blocked(h: HealthView, hits: Seq<AttackHitbox>)
    ensures
        forall|k: int| 0 <= k < hits.len() ==> blocked(health_after(h, hits), #[trigger] hits[k]),
    decreases hits.len(),
{
    if hits.len() > 0 {
        let d = hits.drop_last();
        let a = hits.last();
        let p = health_after(h, d);
        let q = health_after(h, hits);
        lemma_hits_end_blocked(h, d);
        lemma_health_never_rises(h, d);
        lemma_health_never_rises(p, seq![a]);
        assert(seq![a].drop_last() =~= Seq::<AttackHitbox>::empty());
        assert(health_after(p, seq![a].drop_last()) == p);
        assert(seq![a].last() == a);
        assert(q == take_hit_spec(p, a));
        assert(health_after(p, seq![a]) == q);
        if can_damage(p, a) {
            assert(q.hit_by[q.hit_by.len() - 1] == a.id);
        }
        assert(blocked(q, a));
        assert forall|k: int| 0 <= k < hits.len() implies blocked(q, #[trigger] hits[k]) by {
            if k < d.len() {
                assert(d[k] == hits[k]);
                assert(blocked(p, d[k]));
            }
        }
    }
}

/// Hits that are all blocked change nothing.
proof fn lemma_blocked_hits_change_nothing(h: HealthView, hits: Seq<AttackHitbox>)
    requires
        forall|k: int| 0 <= k < hits.len() ==> blocked(h, #[trigger] hits[k]),
    ensures
        health_after(h, hits) == h,
    decreases hits.len(),
{
    if hits.len() > 0 {
        let d = hits.drop_last();
        assert forall|k: int| 0 <= k < d.len() implies blocked(h, #[trigger] d[k]) by {
            assert(d[k] == hits[k]);
        }
        lemma_blocked_hits_change_nothing(h, d);
        assert(blocked(h, hits[hits.len() - 1]));
    }
}

/// Damage is applied at most once per swing and target across ticks: when
/// the same overlaps come again on a later tick, the health they left is
/// left exactly as it is, however many times they repeat.
pub proof fn lemma_resolving_again_changes_nothing(h: HealthView, hits: Seq<AttackHitbox>)
    ensures
        health_after(health_after(h, hits), hits) == health_after(h, hits),
{
    lemma_hits_end_blocked(h, hits);
    lemma_blocked_hits_change_nothing(health_after(h, hits), hits);
}

/// Whether report `o` knocks `e` back.
pub open spec fn knocks_back(o: Option<HitReport>, e: Entity) -> bool {
    o is Some && o.unwrap().target == e && o.unwrap().knockback is Some
}

/// Whether some report of the tick knocks `e` back; a knocked-back actor
/// staggers.
pub open spec fn knocked_back(reports: Seq<Option<HitReport>>, e: Entity) -> bool {
    exists|k: int| 0 <= k < reports.len() && knocks_back(#[trigger] reports[k], e)
}

/// Whether some report of the tick knocks `e` back.
fn is_knocked_back(reports: &Vec<Option<HitReport>>, e: Entity) -> (r: bool)
    ensures
        r == knocked_back(reports@, e),
{
    let mut k: usize = 0;
    while k < reports.len()
        invariant
            0 <= k <= reports@.len(),
            forall|j: int| 0 <= j < k ==> !knocks_back(#[trigger] reports@[j], e),
        decreases reports@.len() - k,
    {
        if let Some(r) = reports[k] {
            if r.target == e && r.knockback.is_some() {
                assert(knocks_back(reports@[k as int], e));
                return true;
            }
        }
        k = k + 1;
    }
    false
}

/// The goblin `e` after the hits of a tick: a knocked-back goblin staggers,
/// keeping its waypoint.
pub open spec fn goblin_after_hits(g: Goblin, e: Entity, reports: Seq<Option<HitReport>>) -> Goblin {
    if knocked_back(reports, e) {
        Goblin { state: GoblinState::Hit(g.state.waypoint_spec(), STAGGER_MS), ..g }
    } else {
        g
    }
}

/// The player `e` after the hits of a tick: a knocked-back player staggers.
pub open spec fn player_after_hits(p: Player, e: Entity, reports: Seq<Option<HitReport>>) -> Player {
    if knocked_back(reports, e) {
        Player { state: PlayerState::Hit(STAGGER_MS), ..p }
    } else {
        p
    }
}

/// Staggers every goblin that a report of the tick knocks back.
pub fn stagger_goblins(goblins: &mut Vec<(Entity, Goblin)>, reports: &Vec<Option<HitReport>>)
    ensures
        final(goblins)@.len() == old(goblins)@.len(),
        forall|i: int|
            0 <= i < old(goblins)@.len() ==> #[trigger] final(goblins)@[i] == (
                old(goblins)@[i].0,
                goblin_after_hits(old(goblins)@[i].1, old(goblins)@[i].0, reports@),
            ),
{
    let ghost g0 = goblins@;
    let mut i: usize = 0;
    while i < goblins.len()
        invariant
            0 <= i <= g0.len(),
            goblins@.len() == g0.len(),
            forall|j: int| 0 <= j < i ==> #[trigger] goblins@[j] == (
                g0[j].0,
                goblin_after_hits(g0[j].1, g0[j].0, reports@),
            ),
            forall|j: int| i <= j < g0.len() ==> #[trigger] goblins@[j] == g0[j],
        decreases g0.len() - i,
    {
        let (e, mut g) = goblins[i];
        if is_knocked_back(reports, e) {
            g.stagger();
        }
        goblins.set(i, (e, g));
        i = i + 1;
    }
}

/// Staggers every player that a report of the tick knocks back.
pub fn stagger_players(players: &mut Vec<(Entity, Player)>, reports: &Vec<Option<HitReport>>)
    ensures
        final(players)@.len() == old(players)@.len(),
        forall|i: int|
            0 <= i < old(players)@.len() ==> #[trigger] final(players)@[i] == (
                old(players)@[i].0,
                player_after_hits(old(players)@[i].1, old(players)@[i].0, reports@),
            ),
{
    let ghost p0 = players@;
    let mut i: usize = 0;
    while i < players.len()
        invariant
            0 <= i <= p0.len(),
            players@.len() == p0.len(),
            forall|j: int| 0 <= j < i ==> #[trigger] players@[j] == (
                p0[j].0,
                player_after_hits(p0[j].1, p0[j].0, reports@),
            ),
            forall|j: int| i <= j < p0.len() ==> #[trigger] players@[j] == p0[j],
        decreases p0.len() - i,
    {
        let (e, mut p) = players[i];
        if is_knocked_back(reports, e) {
            p.stagger();
        }
        players.set(i, (e, p));
        i = i + 1;
    }
}

} // verus!
