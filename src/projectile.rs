//! Projectiles: moving hazards that damage the first actor they touch, once.

use vstd::prelude::*;
use crate::geometry::{Vec2, Rect, UNIT, COORD_LIMIT, point_in_range, clamp, clamp_spec, scaled_direction};
use crate::animation::Animation;
use crate::actor::Actor;
use crate::bounds::CdBounds;
use crate::damage::{HpModification, count_source, lemma_count_source_zero, lemma_count_source_pos};
use crate::movable::{Movable, component_within, FRICTION_SCALE};
use crate::timer::{Timer, MAX_DURATION};

verus! {

/// Speed of a projectile, in milli-units per second.
pub const PROJECTILE_SPEED: i64 = 150 * UNIT;

/// Side of a projectile's square collision bounds.
pub const PROJECTILE_SIZE: i64 = 16 * UNIT;

/// Distance from the shooter at which a projectile appears.
pub const SPAWN_OFFSET: i64 = 32 * UNIT;

/// Microseconds between two trail particles.
pub const TRAIL_INTERVAL: u64 = 50_000;

/// The frame shown while flying.
pub fn get_flying_animation() -> (r: Animation)
    ensures
        r.wf(),
{
    Animation::new(vec![Rect::new(0, 0, 16, 16)], false)
}

/// The ledger after one hit attempt of projectile `id`: one point of damage
/// credited to `origin`, unless that projectile already left an entry.
pub open spec fn hit_once(h: Seq<HpModification>, id: u64, origin: u64) -> Seq<HpModification> {
    if exists|i: int| 0 <= i < h.len() && #[trigger] h[i].source == id {
        h
    } else {
        h.push(HpModification { source: id, source_origin: origin, amount: -1i64 })
    }
}

/// The ledger after `n` hit attempts of the same projectile.
pub open spec fn hit_repeatedly(h: Seq<HpModification>, id: u64, origin: u64, n: nat) -> Seq<HpModification>
    decreases n,
{
    if n == 0 {
        h
    } else {
        hit_once(hit_repeatedly(h, id, origin, (n - 1) as nat), id, origin)
    }
}

#[derive(Debug)]
pub struct Projectile {
    pub id: u64,
    /// The actor credited with the damage this projectile deals.
    pub origin: u64,
    pub movable: Movable,
    pub animation: Animation,
    pub cd_bounds: CdBounds,
    pub is_alive: bool,
    pub particles_timer: Timer,
}

impl Projectile {
    pub open spec fn wf(&self) -> bool {
        &&& self.movable.wf()
        &&& self.animation.wf()
        &&& self.cd_bounds.wf()
        &&& self.particles_timer.wf()
        &&& self.particles_timer.repeat
    }

    /// A live projectile at `position` travelling at `velocity`.
    pub fn new(id: u64, origin: u64, position: Vec2, velocity: Vec2) -> (r: Projectile)
        requires
            point_in_range(position),
            component_within(velocity, PROJECTILE_SPEED as int),
        ensures
            r.wf(),
            r.id == id,
            r.origin == origin,
            r.is_alive,
            r.movable.position == position,
            r.movable.velocity == velocity,
            r.movable.impuls.is_zero(),
            r.cd_bounds.position == position,
    {
        Projectile {
            id,
            origin,
            movable: Movable::new(position, PROJECTILE_SPEED, FRICTION_SCALE).with_velocity(velocity),
            animation: get_flying_animation(),
            cd_bounds: CdBounds::new(position, PROJECTILE_SIZE, PROJECTILE_SIZE),
            is_alive: true,
            particles_timer: Timer::new(TRAIL_INTERVAL),
        }
    }

    pub fn get_id(&self) -> (r: u64)
        ensures
            r == self.id,
    {
        self.id
    }

    /// One point of damage to `actor`, credited to this projectile's origin,
    /// unless this projectile has already damaged it; either way the
    /// projectile is spent.
    pub fn apply(&mut self, actor: &mut Actor)
        requires
            old(actor).wf(),
            old(actor).hp.act_hp > i64::MIN,
        ensures
            *final(self) == (Projectile { is_alive: false, ..*old(self) }),
            final(actor).wf(),
            final(actor).id == old(actor).id,
            final(actor).movable == old(actor).movable,
            final(actor).cd_bounds == old(actor).cd_bounds,
            final(actor).animation == old(actor).animation,
            final(actor).hp.modifications@ == hit_once(old(actor).hp.modifications@, old(self).id, old(self).origin),
            old(actor).hp.modified_by(old(self).id) ==> final(actor).hp == old(actor).hp,
            !old(actor).hp.modified_by(old(self).id) ==> final(actor).hp.act_hp == old(actor).hp.act_hp - 1,
    {
        if !actor.hp.has_been_modified_by_source(self.id) {
            actor.hp.modify(self.id, self.origin, -1);
        }
        self.is_alive = false;
    }

    pub fn get_source(&self) -> (r: Rect)
        requires
            self.wf(),
        ensures
            r == self.animation.frames.current(),
    {
        self.animation.get_act_frame()
    }

    /// One tick: animation, motion and trail timer advance and the bounds
    /// follow the new position.
    pub fn update(&mut self, dt: u64)
        requires
            old(self).wf(),
            dt <= MAX_DURATION,
        ensures
            final(self).wf(),
            final(self).id == old(self).id,
            final(self).origin == old(self).origin,
            final(self).is_alive == old(self).is_alive,
            final(self).movable == old(self).movable.stepped(dt),
            final(self).particles_timer == old(self).particles_timer.step(dt),
            final(self).cd_bounds == (CdBounds { position: final(self).movable.position, ..old(self).cd_bounds }),
    {
        self.animation.update(dt);
        self.movable.update(dt);
        self.particles_timer.update(dt);
        let p = self.movable.position;
        self.cd_bounds.update_position(&p);
    }
}

/// A projectile fired by actor `origin` from `from` toward `to`: it appears
/// at the spawn offset along that line and flies along it at full speed.
pub fn spawn_projectile_from_actor(id: u64, origin: u64, from: &Vec2, to: &Vec2) -> (r: Projectile)
    requires
        point_in_range(*from),
        point_in_range(*to),
    ensures
        r.wf(),
        r.id == id,
        r.origin == origin,
        r.is_alive,
        r.movable.velocity == Movable::new_spec(*from, PROJECTILE_SPEED).velocity_toward(*to),
        ({
            let offset = Movable::new_spec(*from, SPAWN_OFFSET).velocity_toward(*to);
            &&& r.movable.position.x == clamp_spec(from.x + offset.x, COORD_LIMIT as int)
            &&& r.movable.position.y == clamp_spec(from.y + offset.y, COORD_LIMIT as int)
        }),
{
    let velocity = scaled_direction(from, to, PROJECTILE_SPEED);
    let offset = scaled_direction(from, to, SPAWN_OFFSET);
    let position = Vec2::new(clamp(from.x + offset.x, COORD_LIMIT), clamp(from.y + offset.y, COORD_LIMIT));
    Projectile::new(id, origin, position, velocity)
}

/// However many times one projectile is applied to an actor, the actor's
/// ledger holds at most one entry from it: exactly one when it had none.
pub proof fn lemma_projectile_hits_at_most_once(h: Seq<HpModification>, id: u64, origin: u64, n: nat)
    requires
        count_source(h, id) <= 1,
    ensures
        count_source(hit_repeatedly(h, id, origin, n), id) <= 1,
        n > 0 ==> count_source(hit_repeatedly(h, id, origin, n), id) == 1,
    decreases n,
{
    if n > 0 {
        lemma_projectile_hits_at_most_once(h, id, origin, (n - 1) as nat);
        let prev = hit_repeatedly(h, id, origin, (n - 1) as nat);
        if exists|i: int| 0 <= i < prev.len() && #[trigger] prev[i].source == id {
            let i = choose|i: int| 0 <= i < prev.len() && #[trigger] prev[i].source == id;
            lemma_count_source_pos(prev, id, i);
        } else {
            lemma_count_source_zero(prev, id);
            let next = prev.push(HpModification { source: id, source_origin: origin, amount: -1i64 });
            assert(next.drop_last() =~= prev);
        }
    }
}

/// One hit attempt leaves at most one entry from any source that had at most
/// one.
pub proof fn lemma_hit_once_keeps_at_most_one(h: Seq<HpModification>, id: u64, origin: u64, q: u64)
    requires
        count_source(h, q) <= 1,
    ensures
        count_source(hit_once(h, id, origin), q) <= 1,
{
    if !(exists|i: int| 0 <= i < h.len() && #[trigger] h[i].source == id) {
        let next = h.push(HpModification { source: id, source_origin: origin, amount: -1i64 });
        assert(next.drop_last() =~= h);
        if id == q {
            lemma_count_source_zero(h, q);
        }
    }
}

} // verus!
