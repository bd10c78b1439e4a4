//! The player: an actor that fires at the nearest living enemy on a
//! cooldown and is briefly invulnerable after each hit.

use vstd::prelude::*;
use crate::geometry::{Vec2, dist2};
use crate::actor::Actor;
use crate::damage::{HpModification, SYSTEM_SOURCE};
use crate::movable::Movable;
use crate::projectile::{Projectile, spawn_projectile_from_actor, PROJECTILE_SPEED};
use crate::timer::{Timer, MAX_DURATION};

verus! {

/// Microseconds of invulnerability after a hit.
pub const INVULNERABILITY_WINDOW: u64 = 500_000;

/// Index of the living enemy nearest to `p`: the first of them when several
/// are equally near; none when no enemy is alive.
pub open spec fn nearest_enemy(s: Seq<Actor>, p: Vec2) -> Option<int>
    decreases s.len(),
{
    if s.len() == 0 {
        None
    } else {
        let b = nearest_enemy(s.drop_last(), p);
        let l = s.len() - 1;
        if s[l].alive() && (b.is_none() || dist2(p, s[l].movable.position) < dist2(
            p,
            s[b.unwrap()].movable.position,
        )) {
            Some(l)
        } else {
            b
        }
    }
}

proof fn lemma_nearest_in_range(s: Seq<Actor>, p: Vec2)
    ensures
        nearest_enemy(s, p) matches Some(i) ==> 0 <= i < s.len() && s[i].alive(),
    decreases s.len(),
{
    if s.len() > 0 {
        lemma_nearest_in_range(s.drop_last(), p);
    }
}

/// Index of the living enemy nearest to `p`, if any.
pub fn find_nearest_enemy(enemies: &Vec<Actor>, p: &Vec2) -> (r: Option<usize>)
    requires
        crate::geometry::point_in_range(*p),
        forall|i: int| 0 <= i < enemies@.len() ==> #[trigger] enemies@[i].wf(),
    ensures
        match r {
            Some(i) => nearest_enemy(enemies@, *p) == Some(i as int),
            None => nearest_enemy(enemies@, *p).is_none(),
        },
{
    let ghost s = enemies@;
    let mut best: Option<usize> = None;
    let mut best_d: i64 = 0;
    let mut i: usize = 0;
    while i < enemies.len()
        invariant
            s == enemies@,
            crate::geometry::point_in_range(*p),
            forall|k: int| 0 <= k < s.len() ==> #[trigger] s[k].wf(),
            0 <= i <= s.len(),
            match best {
                Some(b) => nearest_enemy(s.take(i as int), *p) == Some(b as int) && b < i
                    && best_d == dist2(*p, s[b as int].movable.position),
                None => nearest_enemy(s.take(i as int), *p).is_none(),
            },
        decreases s.len() - i,
    {
        proof {
            assert(s.take(i as int + 1).drop_last() =~= s.take(i as int));
            assert(s.take(i as int + 1)[i as int] == s[i as int]);
            if let Some(b) = best {
                assert(s.take(i as int + 1)[b as int] == s[b as int]);
            }
        }
        let e = &enemies[i];
        assert(s[i as int].wf());
        if e.is_alive() {
            let d = p.distance_squared(&e.movable.position);
            match best {
                None => {
                    best = Some(i);
                    best_d = d;
                },
                Some(_) => {
                    if d < best_d {
                        best = Some(i);
                        best_d = d;
                    }
                },
            }
        }
        i = i + 1;
    }
    assert(s.take(i as int) =~= s);
    best
}

pub struct Player {
    pub actor: Actor,
    pub projectile_timer: Timer,
    pub invulnerability_timer: Timer,
    pub invulnerable: bool,
}

impl Player {
    pub open spec fn wf(&self) -> bool {
        &&& self.actor.wf()
        &&& self.projectile_timer.wf()
        &&& !self.projectile_timer.repeat
        &&& self.invulnerability_timer.wf()
        &&& !self.invulnerability_timer.repeat
    }

    /// A player that may fire once every `projectile_timeout` microseconds.
    pub fn new(actor: Actor, projectile_timeout: u64) -> (r: Player)
        requires
            actor.wf(),
            projectile_timeout <= MAX_DURATION,
        ensures
            r.wf(),
            r.actor == actor,
            r.projectile_timer == Timer::new_timeout_spec(projectile_timeout),
            r.invulnerability_timer == Timer::new_timeout_spec(INVULNERABILITY_WINDOW),
            !r.invulnerable,
    {
        Player {
            actor,
            projectile_timer: Timer::new_timeout(projectile_timeout),
            invulnerability_timer: Timer::new_timeout(INVULNERABILITY_WINDOW),
            invulnerable: false,
        }
    }

    /// Damage from `source`: ignored while invulnerable; otherwise recorded
    /// and followed by a fresh invulnerability window.
    pub fn modify_hp(&mut self, source: u64, amount: i64)
        requires
            old(self).wf(),
            !old(self).invulnerable ==> i64::MIN <= old(self).actor.hp.act_hp + amount,
            !old(self).invulnerable ==> old(self).actor.hp.act_hp + amount <= i64::MAX,
        ensures
            final(self).wf(),
            old(self).invulnerable ==> *final(self) == *old(self),
            !old(self).invulnerable ==> {
                &&& final(self).invulnerable
                &&& final(self).invulnerability_timer == (Timer {
                    elapsed: 0,
                    just_over: false,
                    ..old(self).invulnerability_timer
                })
                &&& final(self).actor.hp.modifications@ == old(self).actor.hp.modifications@.push(
                    HpModification { source, source_origin: SYSTEM_SOURCE, amount },
                )
                &&& final(self).actor.hp.act_hp == old(self).actor.hp.act_hp + amount
                &&& final(self).actor.id == old(self).actor.id
                &&& final(self).actor.movable == old(self).actor.movable
                &&& final(self).actor.cd_bounds == old(self).actor.cd_bounds
                &&& final(self).projectile_timer == old(self).projectile_timer
            },
    {
        if !self.invulnerable {
            self.actor.hp.modify(source, SYSTEM_SOURCE, amount);
            self.invulnerable = true;
            self.invulnerability_timer.reset();
        }
    }

    /// What one tick does to the player, its projectiles and the id counter:
    /// the invulnerability window advances and ends on the tick in which it
    /// elapses; the cooldown advances, and once it is over with a living
    /// enemy present, a projectile with id `id0` is fired at the nearest one
    /// and the cooldown restarts.
    pub open spec fn update_post(
        old_p: Player,
        new_p: Player,
        old_shots: Seq<Projectile>,
        new_shots: Seq<Projectile>,
        enemies: Seq<Actor>,
        id0: u64,
        id1: u64,
        dt: u64,
    ) -> bool {
        let t = old_p.projectile_timer.step(dt);
        let pos = old_p.actor.movable.position;
        &&& new_p.wf()
        &&& new_p.actor == old_p.actor
        &&& new_p.invulnerability_timer == if old_p.invulnerable {
            old_p.invulnerability_timer.step(dt)
        } else {
            old_p.invulnerability_timer
        }
        &&& new_p.invulnerable == (old_p.invulnerable && !old_p.invulnerability_timer.step(dt).over())
        &&& match nearest_enemy(enemies, pos) {
            Some(j) if t.over() => {
                &&& new_p.projectile_timer == (Timer { elapsed: 0, just_over: false, ..t })
                &&& id1 == id0 + 1
                &&& new_shots.len() == old_shots.len() + 1
                &&& new_shots.take(old_shots.len() as int) == old_shots
                &&& new_shots.last().wf()
                &&& new_shots.last().id == id0
                &&& new_shots.last().origin == old_p.actor.id
                &&& new_shots.last().is_alive
                &&& new_shots.last().movable.velocity == Movable::new_spec(pos, PROJECTILE_SPEED).velocity_toward(
                    enemies[j].movable.position,
                )
            },
            _ => {
                &&& new_p.projectile_timer == t
                &&& id1 == id0
                &&& new_shots == old_shots
            },
        }
    }

    /// One tick of the player: see `update_post`.
    pub fn update(&mut self, dt: u64, projectiles: &mut Vec<Projectile>, enemies: &Vec<Actor>, next_id: &mut u64)
        requires
            old(self).wf(),
            dt <= MAX_DURATION,
            forall|i: int| 0 <= i < enemies@.len() ==> #[trigger] enemies@[i].wf(),
            *old(next_id) < u64::MAX,
        ensures
            Player::update_post(
                *old(self),
                *final(self),
                old(projectiles)@,
                final(projectiles)@,
                enemies@,
                *old(next_id),
                *final(next_id),
                dt,
            ),
    {
        self.projectile_timer.update(dt);
        if self.invulnerable {
            self.invulnerability_timer.update(dt);
            if self.invulnerability_timer.is_over() {
                self.invulnerable = false;
            }
        }
        if self.projectile_timer.is_over() {
            let pos = self.actor.movable.position;
            proof {
                lemma_nearest_in_range(enemies@, pos);
            }
            if let Some(j) = find_nearest_enemy(enemies, &pos) {
                let target = enemies[j].movable.position;
                assert(enemies@[j as int].wf());
                let p = spawn_projectile_from_actor(*next_id, self.actor.id, &pos, &target);
                projectiles.push(p);
                *next_id = *next_id + 1;
                self.projectile_timer.reset();
                assert(projectiles@.take(old(projectiles)@.len() as int) =~= old(projectiles)@);
            }
        }
    }
}

} // verus!
