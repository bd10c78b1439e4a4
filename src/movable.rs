//! Motion of a point: steady velocity toward a target plus a decaying
//! impulse.

use vstd::prelude::*;
use crate::geometry::{
    Vec2, COORD_LIMIT, UNIT, point_in_range, dist2, tdiv, clamp_spec, clamp, div_toward_zero,
    scaled_direction, scaled_direction_spec, isqrt_of,
};
use crate::timer::MAX_DURATION;

verus! {

/// Friction fractions are given in thousandths.
pub const FRICTION_SCALE: i64 = 1000;

/// Microseconds per second.
pub const MICROS: i64 = 1_000_000;

/// An impulse whose squared magnitude is at most this is dropped.
pub const IMPULSE_EPSILON: i64 = 4 * UNIT;

/// Largest magnitude of an impulse component, in milli-units per second.
pub const IMPULSE_LIMIT: i64 = 0x100_0000;

/// Largest speed, in milli-units per second.
pub const MAX_SPEED: i64 = 0x10_0000;

/// Squared distance under which a target counts as reached.
pub const REACH_DISTANCE2: i64 = 10 * UNIT * UNIT;

/// Squared magnitude of a vector.
pub open spec fn norm2(v: Vec2) -> int {
    v.x * v.x + v.y * v.y
}

/// An impulse component scaled down by the friction fraction.
pub open spec fn decay_component(c: int, fraction: int) -> int {
    tdiv(c * fraction, FRICTION_SCALE as int)
}

/// The impulse after one tick of friction: scaled down, then dropped when
/// what is left is no larger than the threshold.
pub open spec fn decayed_impulse(imp: Vec2, fraction: int) -> Vec2 {
    let n = Vec2 {
        x: decay_component(imp.x as int, fraction) as i64,
        y: decay_component(imp.y as int, fraction) as i64,
    };
    if norm2(n) > IMPULSE_EPSILON {
        n
    } else {
        Vec2 { x: 0, y: 0 }
    }
}

/// A coordinate moved at `v` milli-units per second for `dt` microseconds.
pub open spec fn advanced(p: int, v: int, dt: int) -> int {
    clamp_spec(p + tdiv(v * dt, MICROS as int), COORD_LIMIT as int)
}

#[derive(Clone, Copy, Debug)]
pub struct Movable {
    pub position: Vec2,
    pub target_position: Option<Vec2>,
    pub velocity: Vec2,
    pub impuls: Vec2,
    /// Share of the impulse kept each tick, in thousandths.
    pub fraction: i64,
    /// Direction the entity faces: the last velocity it was given.
    pub facing: Vec2,
    pub speed: i64,
}

pub open spec fn component_within(v: Vec2, bound: int) -> bool {
    -bound <= v.x <= bound && -bound <= v.y <= bound
}

impl Movable {
    pub open spec fn wf(&self) -> bool {
        &&& point_in_range(self.position)
        &&& (self.target_position matches Some(t) ==> point_in_range(t))
        &&& 0 <= self.speed <= MAX_SPEED
        &&& component_within(self.velocity, self.speed as int)
        &&& component_within(self.impuls, IMPULSE_LIMIT as int)
        &&& 0 <= self.fraction <= FRICTION_SCALE
    }

    pub open spec fn moving(&self) -> bool {
        !self.velocity.is_zero()
    }

    pub open spec fn reached(&self) -> bool {
        match self.target_position {
            Some(t) => dist2(self.position, t) < REACH_DISTANCE2,
            None => false,
        }
    }

    /// The velocity that `set_moving_to(target)` gives.
    pub open spec fn velocity_toward(&self, target: Vec2) -> Vec2 {
        let d = scaled_direction_spec(self.position, target, self.speed as int, isqrt_of(dist2(self.position, target)));
        Vec2 { x: d.0 as i64, y: d.1 as i64 }
    }

    /// The movable after one tick of `dt` microseconds.
    pub open spec fn stepped(self, dt: u64) -> Movable {
        let imp = decayed_impulse(self.impuls, self.fraction as int);
        Movable {
            position: Vec2 {
                x: advanced(self.position.x as int, self.velocity.x + imp.x, dt as int) as i64,
                y: advanced(self.position.y as int, self.velocity.y + imp.y, dt as int) as i64,
            },
            impuls: imp,
            ..self
        }
    }

    /// A movable at rest at `position`.
    pub open spec fn new_spec(position: Vec2, speed: i64) -> Movable {
        Movable {
            position,
            target_position: None,
            velocity: Vec2 { x: 0, y: 0 },
            impuls: Vec2 { x: 0, y: 0 },
            fraction: 0,
            facing: Vec2 { x: 0, y: 0 },
            speed,
        }
    }

    pub fn new(position: Vec2, speed: i64, fraction: i64) -> (r: Movable)
        requires
            point_in_range(position),
            0 <= speed <= MAX_SPEED,
            0 <= fraction <= FRICTION_SCALE,
        ensures
            r.wf(),
            r.position == position,
            r.target_position.is_none(),
            r.velocity.is_zero(),
            r.impuls.is_zero(),
            r.facing.is_zero(),
            r.fraction == fraction,
            r.speed == speed,
    {
        Movable {
            position,
            target_position: None,
            velocity: Vec2::zero(),
            impuls: Vec2::zero(),
            fraction,
            facing: Vec2::zero(),
            speed,
        }
    }

    /// The same movable, already travelling at `velocity`.
    pub fn with_velocity(self, velocity: Vec2) -> (r: Movable)
        requires
            self.wf(),
            component_within(velocity, self.speed as int),
        ensures
            r.wf(),
            r == (Movable { velocity, facing: velocity, ..self }),
    {
        Movable { velocity, facing: velocity, ..self }
    }

    /// Adds to the impulse; each component is limited to `IMPULSE_LIMIT`.
    pub fn add_impuls(&mut self, impuls: Vec2)
        requires
            old(self).wf(),
            component_within(impuls, IMPULSE_LIMIT as int),
        ensures
            final(self).wf(),
            final(self).impuls.x == clamp_spec(old(self).impuls.x + impuls.x, IMPULSE_LIMIT as int),
            final(self).impuls.y == clamp_spec(old(self).impuls.y + impuls.y, IMPULSE_LIMIT as int),
            *final(self) == (Movable { impuls: final(self).impuls, ..*old(self) }),
    {
        let x = clamp(self.impuls.x + impuls.x, IMPULSE_LIMIT);
        let y = clamp(self.impuls.y + impuls.y, IMPULSE_LIMIT);
        self.impuls = Vec2::new(x, y);
    }

    /// Heads for `target` at full speed; a target at the current position
    /// gives zero velocity.
    pub fn set_moving_to(&mut self, target: Vec2)
        requires
            old(self).wf(),
            point_in_range(target),
        ensures
            final(self).wf(),
            final(self).velocity == old(self).velocity_toward(target),
            target != old(self).position && old(self).speed > 0 ==> final(self).moving(),
            *final(self) == (Movable {
                velocity: final(self).velocity,
                facing: final(self).velocity,
                target_position: Some(target),
                ..*old(self)
            }),
    {
        let v = scaled_direction(&self.position, &target, self.speed);
        self.velocity = v;
        self.facing = v;
        self.target_position = Some(target);
    }

    pub fn set_to_target_position(&mut self)
        requires
            old(self).wf(),
        ensures
            final(self).wf(),
            *final(self) == (Movable {
                position: match old(self).target_position {
                    Some(t) => t,
                    None => old(self).position,
                },
                ..*old(self)
            }),
    {
        if let Some(tp) = self.target_position {
            self.position = tp;
        }
    }

    pub fn stop(&mut self)
        requires
            old(self).wf(),
        ensures
            final(self).wf(),
            *final(self) == (Movable { velocity: Vec2 { x: 0, y: 0 }, target_position: None, ..*old(self) }),
    {
        self.velocity = Vec2::zero();
        self.target_position = None;
    }

    pub fn is_moving(&self) -> (r: bool)
        ensures
            r == self.moving(),
    {
        !(self.velocity.x == 0 && self.velocity.y == 0)
    }

    pub fn has_reached_target_position(&self) -> (r: bool)
        requires
            self.wf(),
        ensures
            r == self.reached(),
    {
        match self.target_position {
            Some(tp) => self.position.distance_squared(&tp) < REACH_DISTANCE2,
            None => false,
        }
    }

    /// One tick: the impulse decays, then the position moves by velocity
    /// plus impulse over `dt` microseconds; each coordinate is kept within
    /// `[-COORD_LIMIT, COORD_LIMIT]`.
    pub fn update(&mut self, dt: u64)
        requires
            old(self).wf(),
            dt <= MAX_DURATION,
        ensures
            final(self).wf(),
            *final(self) == old(self).stepped(dt),
            final(self).impuls == decayed_impulse(old(self).impuls, old(self).fraction as int),
            final(self).position.x == advanced(
                old(self).position.x as int,
                old(self).velocity.x + final(self).impuls.x,
                dt as int,
            ),
            final(self).position.y == advanced(
                old(self).position.y as int,
                old(self).velocity.y + final(self).impuls.y,
                dt as int,
            ),
            *final(self) == (Movable {
                position: final(self).position,
                impuls: final(self).impuls,
                ..*old(self)
            }),
    {
        proof {
            lemma_decay_bound(self.impuls.x as int, self.fraction as int);
            lemma_decay_bound(self.impuls.y as int, self.fraction as int);
        }
        let nx = div_toward_zero(self.impuls.x * self.fraction, FRICTION_SCALE);
        let ny = div_toward_zero(self.impuls.y * self.fraction, FRICTION_SCALE);
        proof {
            assert(nx * nx <= 0x1_0000_0000_0000) by (nonlinear_arith)
                requires
                    -0x100_0000 <= nx <= 0x100_0000,
            ;
            assert(ny * ny <= 0x1_0000_0000_0000) by (nonlinear_arith)
                requires
                    -0x100_0000 <= ny <= 0x100_0000,
            ;
            assert(nx * nx >= 0 && ny * ny >= 0) by (nonlinear_arith);
        }
        self.impuls = if nx * nx + ny * ny > IMPULSE_EPSILON {
            Vec2::new(nx, ny)
        } else {
            Vec2::zero()
        };
        let vx = self.velocity.x + self.impuls.x;
        let vy = self.velocity.y + self.impuls.y;
        let d = dt as i64;
        proof {
            lemma_step_bound(vx as int, d as int);
            lemma_step_bound(vy as int, d as int);
        }
        let x = clamp(self.position.x + div_toward_zero(vx * d, MICROS), COORD_LIMIT);
        let y = clamp(self.position.y + div_toward_zero(vy * d, MICROS), COORD_LIMIT);
        self.position = Vec2::new(x, y);
    }
}

proof fn lemma_decay_bound(c: int, f: int)
    requires
        -IMPULSE_LIMIT <= c <= IMPULSE_LIMIT,
        0 <= f <= FRICTION_SCALE,
    ensures
        -IMPULSE_LIMIT * FRICTION_SCALE <= c * f <= IMPULSE_LIMIT * FRICTION_SCALE,
        -IMPULSE_LIMIT <= decay_component(c, f) <= IMPULSE_LIMIT,
{
    assert(-0x100_0000 * 1000 <= c * f <= 0x100_0000 * 1000) by (nonlinear_arith)
        requires
            -0x100_0000 <= c <= 0x100_0000,
            0 <= f <= 1000,
    ;
}

proof fn lemma_step_bound(v: int, dt: int)
    requires
        -(MAX_SPEED + IMPULSE_LIMIT) <= v <= MAX_SPEED + IMPULSE_LIMIT,
        0 <= dt <= MAX_DURATION,
    ensures
        -0x200_0000 * 0x1_0000_0000 <= v * dt <= 0x200_0000 * 0x1_0000_0000,
        -0x200_0000 * 0x1_0000_0000 <= tdiv(v * dt, MICROS as int) <= 0x200_0000 * 0x1_0000_0000,
{
    assert(-0x200_0000 * 0x1_0000_0000 <= v * dt <= 0x200_0000 * 0x1_0000_0000) by (nonlinear_arith)
        requires
            -0x200_0000 <= v <= 0x200_0000,
            0 <= dt <= 0x1_0000_0000,
    ;
}

/// Friction shrinks the impulse: each component keeps at most the friction
/// fraction of its magnitude, so with a fraction below one a non-zero
/// impulse strictly loses magnitude every tick; and what is left is either
/// exactly zero or larger than the threshold.
pub proof fn lemma_impulse_decays(imp: Vec2, fraction: int)
    requires
        component_within(imp, IMPULSE_LIMIT as int),
        0 <= fraction <= FRICTION_SCALE,
    ensures
        ({
            let n = decayed_impulse(imp, fraction);
            &&& FRICTION_SCALE * abs(n.x as int) <= fraction * abs(imp.x as int)
            &&& FRICTION_SCALE * abs(n.y as int) <= fraction * abs(imp.y as int)
            &&& (fraction < FRICTION_SCALE && !imp.is_zero() ==> norm2(n) < norm2(imp))
            &&& (n.is_zero() || norm2(n) > IMPULSE_EPSILON)
        }),
{
    lemma_decay_bound(imp.x as int, fraction);
    lemma_decay_bound(imp.y as int, fraction);
    lemma_decay_component(imp.x as int, fraction);
    lemma_decay_component(imp.y as int, fraction);
    let n = decayed_impulse(imp, fraction);
    if fraction < FRICTION_SCALE && !imp.is_zero() {
        let ax = abs(imp.x as int);
        let ay = abs(imp.y as int);
        let bx = abs(n.x as int);
        let by = abs(n.y as int);
        assert(bx * bx <= ax * ax && by * by <= ay * ay) by (nonlinear_arith)
            requires
                0 <= bx <= ax,
                0 <= by <= ay,
        ;
        assert(ax > 0 || ay > 0);
        if ax > 0 {
            assert(bx < ax) by (nonlinear_arith)
                requires
                    1000 * bx <= fraction * ax,
                    fraction < 1000,
                    ax > 0,
            ;
            assert(bx * bx < ax * ax) by (nonlinear_arith)
                requires
                    0 <= bx < ax,
            ;
        } else {
            assert(by < ay) by (nonlinear_arith)
                requires
                    1000 * by <= fraction * ay,
                    fraction < 1000,
                    ay > 0,
            ;
            assert(by * by < ay * ay) by (nonlinear_arith)
                requires
                    0 <= by < ay,
            ;
        }
        assert(norm2(n) == bx * bx + by * by) by (nonlinear_arith)
            requires
                bx == abs(n.x as int),
                by == abs(n.y as int),
        ;
        assert(norm2(imp) == ax * ax + ay * ay) by (nonlinear_arith)
            requires
                ax == abs(imp.x as int),
                ay == abs(imp.y as int),
        ;
    }
}

pub open spec fn abs(v: int) -> int {
    if v < 0 {
        -v
    } else {
        v
    }
}

proof fn lemma_decay_component(c: int, f: int)
    requires
        0 <= f <= FRICTION_SCALE,
    ensures
        FRICTION_SCALE * abs(decay_component(c, f)) <= f * abs(c),
        abs(decay_component(c, f)) <= abs(c),
{
    let a = abs(c);
    assert(a * f >= 0) by (nonlinear_arith)
        requires
            a >= 0,
            f >= 0,
    ;
    let q = (a * f) / 1000;
    assert(1000 * q <= a * f) by (nonlinear_arith)
        requires
            q == (a * f) / 1000,
            a * f >= 0,
    ;
    assert(a * f <= a * 1000) by (nonlinear_arith)
        requires
            a >= 0,
            f <= 1000,
    ;
    if c >= 0 {
        assert(c * f == a * f);
    } else {
        assert(c * f == -(a * f)) by (nonlinear_arith)
            requires
                a == -c,
        ;
    }
}

} // verus!
