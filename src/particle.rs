//! Short-lived visual particles, kept apart from the simulation state.

use vstd::prelude::*;
use crate::geometry::{Vec2, Rect, UNIT, point_in_range};
use crate::animation::Animation;
use crate::movable::{Movable, component_within};
use crate::timer::{Timer, MAX_DURATION};

verus! {

/// Speed bound of a particle, in milli-units per second.
pub const PARTICLE_SPEED: i64 = 50 * UNIT;

pub struct Particle {
    pub movable: Movable,
    pub animation: Animation,
    pub timeout: Timer,
}

/// What a particle is made of: its motion, its expiry, its frames, the
/// frame shown and the animation's timer.
pub open spec fn particle_state(p: Particle) -> (Movable, Timer, Seq<Rect>, int, Timer) {
    (p.movable, p.timeout, p.animation.frames.list@, p.animation.frames.act as int, p.animation.time)
}

/// A particle's state after one tick of `dt`.
pub open spec fn stepped_state(p: Particle, dt: u64) -> (Movable, Timer, Seq<Rect>, int, Timer) {
    let at = p.animation.time.step(dt);
    (
        p.movable.stepped(dt),
        p.timeout.step(dt),
        p.animation.frames.list@,
        if at.just_over {
            p.animation.frames.next_index()
        } else {
            p.animation.frames.act as int
        },
        at,
    )
}

/// The particles of `s` after one tick of `dt`, in order, without those
/// whose expiry has elapsed.
pub open spec fn kept(s: Seq<Particle>, dt: u64) -> Seq<(Movable, Timer, Seq<Rect>, int, Timer)>
    decreases s.len(),
{
    if s.len() == 0 {
        Seq::empty()
    } else {
        let rest = kept(s.drop_last(), dt);
        if s.last().timeout.step(dt).over() {
            rest
        } else {
            rest.push(stepped_state(s.last(), dt))
        }
    }
}

impl Particle {
    pub open spec fn wf(&self) -> bool {
        self.movable.wf() && self.animation.wf() && self.timeout.wf() && !self.timeout.repeat
    }

    /// A particle at `position` drifting at `velocity`, shown for `ttl`
    /// microseconds.
    pub fn new(position: Vec2, velocity: Vec2, frames: Vec<Rect>, ttl: u64) -> (r: Particle)
        requires
            point_in_range(position),
            component_within(velocity, PARTICLE_SPEED as int),
            frames@.len() > 0,
            ttl <= MAX_DURATION,
        ensures
            r.wf(),
            r.movable.position == position,
            r.movable.velocity == velocity,
            r.animation.frames.list@ == frames@,
            r.timeout == Timer::new_timeout_spec(ttl),
    {
        Particle {
            movable: Movable::new(position, PARTICLE_SPEED, 0).with_velocity(velocity),
            animation: Animation::new(frames, false),
            timeout: Timer::new_timeout(ttl),
        }
    }

    pub fn update(&mut self, dt: u64)
        requires
            old(self).wf(),
            dt <= MAX_DURATION,
        ensures
            final(self).wf(),
            final(self).movable == old(self).movable.stepped(dt),
            final(self).timeout == old(self).timeout.step(dt),
            particle_state(*final(self)) == stepped_state(*old(self), dt),
    {
        self.movable.update(dt);
        self.animation.update(dt);
        self.timeout.update(dt);
    }

    pub fn is_alive(&self) -> (r: bool)
        ensures
            r == !self.timeout.over(),
    {
        !self.timeout.is_over()
    }
}

/// Owner of every particle.
pub struct ParticleSystem {
    pub particles: Vec<Particle>,
}

impl ParticleSystem {
    pub open spec fn wf(&self) -> bool {
        forall|i: int| 0 <= i < self.particles@.len() ==> #[trigger] self.particles@[i].wf()
    }

    pub fn new() -> (r: ParticleSystem)
        ensures
            r.wf(),
            r.particles@.len() == 0,
    {
        ParticleSystem { particles: Vec::new() }
    }

    pub fn add_particle(&mut self, particle: Particle)
        requires
            old(self).wf(),
            particle.wf(),
        ensures
            final(self).wf(),
            final(self).particles@ == old(self).particles@.push(particle),
    {
        self.particles.push(particle);
    }

    /// Advances every particle and keeps, in order, those whose expiry has
    /// not elapsed.
    pub fn update(&mut self, dt: u64)
        requires
            old(self).wf(),
            dt <= MAX_DURATION,
        ensures
            final(self).wf(),
            final(self).particles@.map_values(|p: Particle| particle_state(p)) == kept(old(self).particles@, dt),
    {
        let ghost orig = self.particles@;
        let n = self.particles.len();
        let mut old_particles: Vec<Particle> = Vec::new();
        std::mem::swap(&mut old_particles, &mut self.particles);
        let mut k: usize = 0;
        while old_particles.len() > 0
            invariant
                orig.len() == k + old_particles@.len(),
                orig.len() == n,
                dt <= MAX_DURATION,
                old_particles@ == orig.skip(k as int),
                forall|i: int| 0 <= i < orig.len() ==> #[trigger] orig[i].wf(),
                self.wf(),
                self.particles@.map_values(|p: Particle| particle_state(p)) == kept(orig.take(k as int), dt),
            decreases old_particles@.len(),
        {
            let mut p = old_particles.remove(0);
            assert(p == orig[k as int]);
            p.update(dt);
            proof {
                assert(orig.take(k as int + 1).drop_last() =~= orig.take(k as int));
                assert(orig.take(k as int + 1).last() == orig[k as int]);
            }
            if p.is_alive() {
                self.particles.push(p);
                proof {
                    assert(self.particles@.map_values(|p: Particle| particle_state(p)) =~= kept(
                        orig.take(k as int + 1),
                        dt,
                    ));
                }
            }
            k = k + 1;
            assert(old_particles@ =~= orig.skip(k as int));
        }
        assert(orig.take(k as int) =~= orig);
    }
}

} // verus!
