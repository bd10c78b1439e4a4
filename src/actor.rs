//! Actors: positioned, animated, collidable entities with hit points.

use vstd::prelude::*;
use crate::geometry::{Vec2, Rect, UNIT, point_in_range};
use crate::animation::{Animation, ANIMATION_THRESHOLD};
use crate::bounds::CdBounds;
use crate::damage::{Hp, HpModification, SYSTEM_SOURCE};
use crate::movable::{Movable, MAX_SPEED};
use crate::timer::{Timer, MAX_DURATION};

verus! {

/// Friction fraction of actors, in thousandths.
pub const ACTOR_FRICTION: i64 = 800;

/// Width of an actor's collision bounds.
pub const ACTOR_WIDTH: i64 = 24 * UNIT;

/// Height of an actor's collision bounds.
pub const ACTOR_HEIGHT: i64 = 32 * UNIT;

/// The one frame shown while standing.
pub fn get_idle_animation() -> (r: Animation)
    ensures
        r.wf(),
        r.frames.list@ == seq![Rect { x: 0, y: 0, w: 16, h: 16 }],
        r.frames.act == 0,
        !r.frames.should_loop,
        r.time == Timer::new_spec(ANIMATION_THRESHOLD),
{
    Animation::new(vec![Rect::new(0, 0, 16, 16)], false)
}

/// The looping cycle shown while walking.
pub fn get_walking_animation() -> (r: Animation)
    ensures
        r.wf(),
        r.frames.list@.len() == 4,
        r.frames.act == 0,
        r.frames.should_loop,
{
    Animation::new(
        vec![
            Rect::new(0, 0, 16, 16),
            Rect::new(16, 0, 16, 16),
            Rect::new(0, 0, 16, 16),
            Rect::new(32, 0, 16, 16),
        ],
        true,
    )
}

/// The motion of an actor over one tick of `dt`: it moves, and when it was
/// moving and has come within reach of its target, it is put on the target
/// and stops.
pub open spec fn arrived(m: Movable, dt: u64) -> Movable {
    let s = m.stepped(dt);
    if s.moving() && s.reached() {
        Movable { position: s.target_position.unwrap(), velocity: Vec2 { x: 0, y: 0 }, target_position: None, ..s }
    } else {
        s
    }
}

/// The animation of an actor after one tick: the standing frame when the
/// tick ended its walk, otherwise its own animation advanced by `dt`.
pub open spec fn animated(old: Animation, new: Animation, m: Movable, dt: u64) -> bool {
    let s = m.stepped(dt);
    if s.moving() && s.reached() {
        &&& new.frames.list@ == seq![Rect { x: 0, y: 0, w: 16, h: 16 }]
        &&& new.frames.act == 0
        &&& !new.frames.should_loop
        &&& new.time == Timer::new_spec(ANIMATION_THRESHOLD)
    } else {
        &&& new.frames.list@ == old.frames.list@
        &&& new.frames.should_loop == old.frames.should_loop
        &&& new.time == old.time.step(dt)
        &&& new.frames.act == if new.time.just_over {
            old.frames.next_index()
        } else {
            old.frames.act as int
        }
    }
}

#[derive(Debug)]
pub struct Actor {
    pub id: u64,
    pub animation: Animation,
    pub movable: Movable,
    pub cd_bounds: CdBounds,
    pub hp: Hp,
}

impl Actor {
    pub open spec fn wf(&self) -> bool {
        self.animation.wf() && self.movable.wf() && self.cd_bounds.wf() && self.hp.wf()
    }

    pub open spec fn alive(&self) -> bool {
        self.hp.alive()
    }

    /// An actor standing at `position` with full hit points.
    pub fn new(id: u64, position: Vec2, speed: i64, health: i64) -> (r: Actor)
        requires
            point_in_range(position),
            0 <= speed <= MAX_SPEED,
        ensures
            r.wf(),
            r.id == id,
            r.movable.position == position,
            r.movable.speed == speed,
            !r.movable.moving(),
            r.movable.impuls.is_zero(),
            r.movable.target_position.is_none(),
            r.cd_bounds.position == position,
            r.hp.act_hp == health,
            r.hp.modifications@ == seq![
                HpModification { source: SYSTEM_SOURCE, source_origin: SYSTEM_SOURCE, amount: health },
            ],
            r.animation.frames.list@ == seq![Rect { x: 0, y: 0, w: 16, h: 16 }],
            r.animation.frames.act == 0,
    {
        Actor {
            id,
            animation: get_idle_animation(),
            movable: Movable::new(position, speed, ACTOR_FRICTION),
            cd_bounds: CdBounds::new(position, ACTOR_WIDTH, ACTOR_HEIGHT),
            hp: Hp::new(health),
        }
    }

    pub fn get_id(&self) -> (r: u64)
        ensures
            r == self.id,
    {
        self.id
    }

    /// The source rectangle of the frame shown.
    pub fn get_source(&self) -> (r: Rect)
        requires
            self.wf(),
        ensures
            r == self.animation.frames.current(),
    {
        self.animation.get_act_frame()
    }

    pub fn is_alive(&self) -> (r: bool)
        ensures
            r == self.alive(),
    {
        self.hp.is_alive()
    }

    /// Heads for `target`; an actor that was standing starts its walking
    /// cycle.
    pub fn move_to(&mut self, target: Vec2)
        requires
            old(self).wf(),
            point_in_range(target),
        ensures
            final(self).wf(),
            final(self).id == old(self).id,
            final(self).hp == old(self).hp,
            final(self).cd_bounds == old(self).cd_bounds,
            final(self).movable == (Movable {
                velocity: old(self).movable.velocity_toward(target),
                facing: old(self).movable.velocity_toward(target),
                target_position: Some(target),
                ..old(self).movable
            }),
            old(self).movable.moving() ==> final(self).animation == old(self).animation,
    {
        if !self.movable.is_moving() {
            self.animation = get_walking_animation();
        }
        self.movable.set_moving_to(target);
    }

    /// Stands still and shows the standing frame.
    pub fn stop(&mut self)
        requires
            old(self).wf(),
        ensures
            final(self).wf(),
            final(self).id == old(self).id,
            final(self).hp == old(self).hp,
            final(self).cd_bounds == old(self).cd_bounds,
            final(self).movable == (Movable {
                velocity: Vec2 { x: 0, y: 0 },
                target_position: None,
                ..old(self).movable
            }),
            final(self).animation.frames.list@ == seq![Rect { x: 0, y: 0, w: 16, h: 16 }],
            final(self).animation.frames.act == 0,
            !final(self).animation.frames.should_loop,
            final(self).animation.time == Timer::new_spec(ANIMATION_THRESHOLD),
    {
        self.movable.stop();
        self.animation = get_idle_animation();
    }

    /// What one tick does to an actor: animation and motion advance and the
    /// bounds follow the new position; a moving actor that has come within
    /// reach of its target is put exactly on it, stops and stands.
    pub open spec fn update_post(old_a: Actor, new_a: Actor, dt: u64) -> bool {
        &&& new_a.wf()
        &&& new_a.id == old_a.id
        &&& new_a.hp == old_a.hp
        &&& new_a.cd_bounds == (CdBounds { position: old_a.movable.stepped(dt).position, ..old_a.cd_bounds })
        &&& new_a.movable == arrived(old_a.movable, dt)
        &&& animated(old_a.animation, new_a.animation, old_a.movable, dt)
    }

    /// One tick of the actor: see `update_post`.
    pub fn update(&mut self, dt: u64)
        requires
            old(self).wf(),
            dt <= MAX_DURATION,
        ensures
            Actor::update_post(*old(self), *final(self), dt),
    {
        self.animation.update(dt);
        self.movable.update(dt);
        let p = self.movable.position;
        self.cd_bounds.update_position(&p);
        if self.movable.is_moving() {
            if self.movable.has_reached_target_position() {
                self.movable.set_to_target_position();
                self.stop();
            }
        }
    }
}

} // verus!
