//! The world: owner of every entity, and the fixed order in which one tick
//! advances them.

use vstd::prelude::*;
use crate::geometry::{Vec2, Rect, UNIT, point_in_range, scaled_direction, clamp_spec};
use crate::actor::{Actor, arrived};
use crate::ai::{Ai, AiState, WeightedStates, arena_ok, wander_target_ok, decision_timer_ok, WANDER_MARGIN};
use crate::bounds::CdBounds;
use crate::damage::{HpModification, SYSTEM_SOURCE, count_source};
use crate::movable::{Movable, IMPULSE_LIMIT, component_within};
use crate::particle::{Particle, ParticleSystem, particle_state, kept};
use crate::player::Player;
use crate::projectile::{Projectile, hit_once, lemma_hit_once_keeps_at_most_one};
use crate::random::{random_below, RANDOM_LIMIT};
use crate::timer::{Timer, MAX_DURATION};

verus! {

pub const WORLD_WIDTH: i64 = 2000 * UNIT;

pub const WORLD_HEIGHT: i64 = 2000 * UNIT;

pub const WORLD_LEFT: i64 = -1000 * UNIT;

pub const WORLD_TOP: i64 = -1000 * UNIT;

/// Source and origin of the damage dealt to actors outside the world; it
/// never credits anyone.
pub const OUT_OF_BOUNDS_SRC: u64 = SYSTEM_SOURCE;

/// Damage per tick to an actor outside the world.
pub const OUT_OF_BOUNDS_DAMAGE: i64 = 50;

/// Magnitude of the impulse that pushes overlapping actors apart.
pub const PUSH_BACK: i64 = 120 * UNIT;

/// Microseconds a trail particle is shown.
pub const TRAIL_TTL: u64 = 300_000;

/// Lowest hit points an enemy may hold between ticks.
pub const HP_FLOOR: i64 = -0x1000_0000_0000_0000;

/// Most projectiles a tick handles.
pub const MAX_PROJECTILES: usize = 0xFFFF_FFFF;

/// The rectangle of the world, centred on the origin.
pub open spec fn world_rect() -> Rect {
    Rect { x: WORLD_LEFT, y: WORLD_TOP, w: WORLD_WIDTH, h: WORLD_HEIGHT }
}

/// Index of the first actor whose bounds overlap `b`.
pub open spec fn first_collision(actors: Seq<Actor>, b: CdBounds) -> Option<int>
    decreases actors.len(),
{
    if actors.len() == 0 {
        None
    } else {
        match first_collision(actors.drop_last(), b) {
            Some(i) => Some(i),
            None => if actors.last().cd_bounds.rect().overlaps_spec(b.rect()) {
                Some(actors.len() - 1)
            } else {
                None
            },
        }
    }
}

proof fn lemma_first_collision_in_range(actors: Seq<Actor>, b: CdBounds)
    ensures
        first_collision(actors, b) matches Some(i) ==> 0 <= i < actors.len()
            && actors[i].cd_bounds.rect().overlaps_spec(b.rect()),
    decreases actors.len(),
{
    if actors.len() > 0 {
        lemma_first_collision_in_range(actors.drop_last(), b);
    }
}

/// Index of the last entry of `snapshot`, other than actor `id` itself,
/// whose bounds overlap `b`.
pub open spec fn last_overlap(snapshot: Seq<(u64, CdBounds)>, id: u64, b: CdBounds) -> Option<int>
    decreases snapshot.len(),
{
    if snapshot.len() == 0 {
        None
    } else if snapshot.last().0 != id && b.rect().overlaps_spec(snapshot.last().1.rect()) {
        Some(snapshot.len() - 1)
    } else {
        last_overlap(snapshot.drop_last(), id, b)
    }
}

proof fn lemma_last_overlap_in_range(snapshot: Seq<(u64, CdBounds)>, id: u64, b: CdBounds)
    ensures
        last_overlap(snapshot, id, b) matches Some(i) ==> 0 <= i < snapshot.len(),
    decreases snapshot.len(),
{
    if snapshot.len() > 0 {
        lemma_last_overlap_in_range(snapshot.drop_last(), id, b);
    }
}

/// Two actor lists with the same bounds at every index have the same first
/// collision.
proof fn lemma_first_collision_same(a: Seq<Actor>, c: Seq<Actor>, b: CdBounds)
    requires
        a.len() == c.len(),
        forall|k: int| 0 <= k < a.len() ==> (#[trigger] a[k]).cd_bounds == c[k].cd_bounds,
    ensures
        first_collision(a, b) == first_collision(c, b),
    decreases a.len(),
{
    if a.len() > 0 {
        let da = a.drop_last();
        let dc = c.drop_last();
        assert forall|k: int| 0 <= k < da.len() implies (#[trigger] da[k]).cd_bounds == dc[k].cd_bounds by {
            assert(da[k] == a[k] && dc[k] == c[k]);
        }
        lemma_first_collision_same(da, dc, b);
        assert(a.last() == a[a.len() - 1]);
        assert(c.last() == c[c.len() - 1]);
    }
}

/// The ledger of actor `k` of `actors` after the projectiles of `shots`,
/// in order, each moved by `dt`: each one that stays in the world hits the
/// first actor it overlaps, once.
pub open spec fn hits_on(actors: Seq<Actor>, k: int, shots: Seq<Projectile>, dt: u64, bounds: Rect) -> Seq<HpModification>
    decreases shots.len(),
{
    if shots.len() == 0 {
        actors[k].hp.modifications@
    } else {
        let h = hits_on(actors, k, shots.drop_last(), dt, bounds);
        let p = shots.last();
        let q = p.movable.stepped(dt).position;
        if bounds.contains_spec(q) && first_collision(actors, CdBounds { position: q, ..p.cd_bounds }) == Some(k) {
            hit_once(h, p.id, p.origin)
        } else {
            h
        }
    }
}

/// However many projectiles a tick handles, a source that has at most one
/// entry in an actor's ledger still has at most one after them: a projectile
/// damages an actor once, whatever happens in the ticks it lives through.
pub proof fn lemma_hits_keep_at_most_one(
    actors: Seq<Actor>,
    k: int,
    shots: Seq<Projectile>,
    dt: u64,
    bounds: Rect,
    q: u64,
)
    requires
        0 <= k < actors.len(),
        count_source(actors[k].hp.modifications@, q) <= 1,
    ensures
        count_source(hits_on(actors, k, shots, dt, bounds), q) <= 1,
    decreases shots.len(),
{
    if shots.len() > 0 {
        lemma_hits_keep_at_most_one(actors, k, shots.drop_last(), dt, bounds, q);
        let h = hits_on(actors, k, shots.drop_last(), dt, bounds);
        lemma_hit_once_keeps_at_most_one(h, shots.last().id, shots.last().origin, q);
    }
}

/// The enemy phase adds no entry from any source but the out-of-bounds one.
pub proof fn lemma_enemy_step_adds_no_hit(
    old_actor: Actor,
    new_actor: Actor,
    old_ai: Ai,
    new_ai: Ai,
    old_player: Player,
    new_player: Player,
    snapshot: Seq<(u64, CdBounds)>,
    bounds: Rect,
    dt: u64,
    q: u64,
)
    requires
        enemy_step(old_actor, new_actor, old_ai, new_ai, old_player, new_player, snapshot, bounds, dt),
        q != OUT_OF_BOUNDS_SRC,
    ensures
        count_source(new_actor.hp.modifications@, q) == count_source(old_actor.hp.modifications@, q),
{
    if !bounds.contains_spec(old_actor.movable.position) {
        assert(new_actor.hp.modifications@.drop_last() =~= old_actor.hp.modifications@);
    }
}

/// A projectile is still live after its step: it stayed in the world, hit
/// no actor, and was live before.
pub open spec fn shot_survives(actors: Seq<Actor>, p: Projectile, dt: u64, bounds: Rect) -> bool {
    let q = p.movable.stepped(dt).position;
    &&& bounds.contains_spec(q)
    &&& first_collision(actors, CdBounds { position: q, ..p.cd_bounds }).is_none()
    &&& p.is_alive
}

/// The identifier and bounds of every actor, in order.
pub open spec fn snapshot_of(actors: Seq<Actor>) -> Seq<(u64, CdBounds)> {
    actors.map_values(|a: Actor| (a.id, a.cd_bounds))
}

/// Every entry of an actor list is well formed and above the floor.
pub open spec fn actors_ok(s: Seq<Actor>, floor: int) -> bool {
    forall|i: int| 0 <= i < s.len() ==> #[trigger] s[i].wf() && s[i].hp.act_hp > floor
}

/// Index of the first actor whose bounds overlap `b`, if any.
pub fn find_first_collision(actors: &Vec<Actor>, b: &CdBounds) -> (r: Option<usize>)
    requires
        b.wf(),
        forall|i: int| 0 <= i < actors@.len() ==> #[trigger] actors@[i].wf(),
    ensures
        match r {
            Some(i) => first_collision(actors@, *b) == Some(i as int),
            None => first_collision(actors@, *b).is_none(),
        },
{
    let ghost s = actors@;
    let mut i: usize = 0;
    while i < actors.len()
        invariant
            s == actors@,
            b.wf(),
            forall|k: int| 0 <= k < s.len() ==> #[trigger] s[k].wf(),
            0 <= i <= s.len(),
            first_collision(s.take(i as int), *b).is_none(),
        decreases s.len() - i,
    {
        proof {
            assert(s.take(i as int + 1).drop_last() =~= s.take(i as int));
            assert(s.take(i as int + 1).last() == s[i as int]);
            assert(s[i as int].wf());
        }
        if actors[i].cd_bounds.collide_with(b) {
            proof {
                lemma_first_collision_prefix(s, *b, i as int + 1);
            }
            return Some(i);
        }
        i = i + 1;
    }
    assert(s.take(i as int) =~= s);
    None
}

/// A collision found in a prefix is the first collision of the whole list.
proof fn lemma_first_collision_prefix(s: Seq<Actor>, b: CdBounds, n: int)
    requires
        0 <= n <= s.len(),
        first_collision(s.take(n), b).is_some(),
    ensures
        first_collision(s, b) == first_collision(s.take(n), b),
    decreases s.len() - n,
{
    if n < s.len() {
        assert(s.take(n + 1).drop_last() =~= s.take(n));
        lemma_first_collision_prefix(s, b, n + 1);
    } else {
        assert(s.take(n) =~= s);
    }
}

/// The frames of a trail particle.
fn trail_frames() -> (r: Vec<Rect>)
    ensures
        r@.len() == 3,
{
    vec![Rect::new(16, 0, 16, 16), Rect::new(32, 0, 16, 16), Rect::new(48, 0, 16, 16)]
}

/// One tick of one projectile: it moves; outside the world it is spent;
/// otherwise it may leave a trail particle, and it hits the first actor
/// whose bounds overlap its own.
pub fn update_projectile(
    p: &mut Projectile,
    actors: &mut Vec<Actor>,
    particles: &mut ParticleSystem,
    bounds: &Rect,
    dt: u64,
)
    requires
        old(p).wf(),
        bounds.wf(),
        dt <= MAX_DURATION,
        old(particles).wf(),
        actors_ok(old(actors)@, i64::MIN as int),
    ensures
        final(p).wf(),
        final(p).id == old(p).id,
        final(p).origin == old(p).origin,
        final(p).movable == old(p).movable.stepped(dt),
        final(particles).wf(),
        final(actors)@.len() == old(actors)@.len(),
        forall|k: int| 0 <= k < final(actors)@.len() ==> {
            &&& (#[trigger] final(actors)@[k]).wf()
            &&& final(actors)@[k].hp.act_hp >= old(actors)@[k].hp.act_hp - 1
            &&& final(actors)@[k].id == old(actors)@[k].id
            &&& final(actors)@[k].movable == old(actors)@[k].movable
            &&& final(actors)@[k].cd_bounds == old(actors)@[k].cd_bounds
        },
        ({
            let q = old(p).movable.stepped(dt).position;
            let b = CdBounds { position: q, ..old(p).cd_bounds };
            if !bounds.contains_spec(q) {
                &&& !final(p).is_alive
                &&& final(actors)@ == old(actors)@
                &&& final(particles).particles@ == old(particles).particles@
            } else {
                &&& (old(p).particles_timer.step(dt).just_over ==> {
                    &&& final(particles).particles@.drop_last() == old(particles).particles@
                    &&& final(particles).particles@.last().movable.position == q
                    &&& final(particles).particles@.last().timeout == Timer::new_timeout_spec(TRAIL_TTL)
                })
                &&& (!old(p).particles_timer.step(dt).just_over ==> final(particles).particles@
                    == old(particles).particles@)
                &&& match first_collision(old(actors)@, b) {
                    None => {
                        &&& final(p).is_alive == old(p).is_alive
                        &&& final(actors)@ == old(actors)@
                    },
                    Some(j) => {
                        &&& !final(p).is_alive
                        &&& forall|k: int| 0 <= k < old(actors)@.len() && k != j ==> final(actors)@[k] == old(actors)@[k]
                        &&& final(actors)@[j].wf()
                        &&& final(actors)@[j].id == old(actors)@[j].id
                        &&& final(actors)@[j].movable == old(actors)@[j].movable
                        &&& final(actors)@[j].cd_bounds == old(actors)@[j].cd_bounds
                        &&& final(actors)@[j].hp.modifications@ == hit_once(
                            old(actors)@[j].hp.modifications@,
                            old(p).id,
                            old(p).origin,
                        )
                        &&& final(actors)@[j].hp.act_hp >= old(actors)@[j].hp.act_hp - 1
                        &&& final(actors)@[j].hp.act_hp <= old(actors)@[j].hp.act_hp
                    },
                }
            }
        }),
{
    p.update(dt);
    if !bounds.contains(&p.movable.position) {
        p.is_alive = false;
        return;
    }
    if p.particles_timer.is_just_over() {
        let particle = Particle::new(p.movable.position, Vec2::zero(), trail_frames(), TRAIL_TTL);
        particles.add_particle(particle);
        assert(particles.particles@.drop_last() =~= old(particles).particles@);
    }
    proof {
        assert forall|i: int| 0 <= i < actors@.len() implies #[trigger] actors@[i].wf() by {
            assert(actors@[i].wf() && actors@[i].hp.act_hp > i64::MIN);
        }
    }
    let hit = find_first_collision(actors, &p.cd_bounds);
    proof {
        lemma_first_collision_in_range(actors@, p.cd_bounds);
    }
    let ghost before = actors@;
    if let Some(j) = hit {
        assert(0 <= j < actors@.len());
        assert(actors_ok(actors@, i64::MIN as int));
        assert(actors@[j as int].wf());
        p.apply(&mut actors[j]);
        assert forall|k: int| 0 <= k < actors@.len() implies {
            &&& (#[trigger] actors@[k]).wf()
            &&& actors@[k].hp.act_hp >= before[k].hp.act_hp - 1
            &&& actors@[k].id == before[k].id
            &&& actors@[k].movable == before[k].movable
            &&& actors@[k].cd_bounds == before[k].cd_bounds
        } by {
            if k != j {
                assert(actors@[k] == before[k]);
                assert(before[k].wf() && before[k].hp.act_hp > i64::MIN);
            }
        }
    }
}

/// The impulse that pushes an actor at `to` away from one at `from`.
pub open spec fn push_vector(from: Vec2, to: Vec2) -> Vec2 {
    Movable::new_spec(from, PUSH_BACK).velocity_toward(to)
}

/// The push for an actor `id` with bounds `b` at `position`: away from the
/// last other actor of `snapshot` whose bounds overlap `b`, if any.
pub open spec fn push_for(snapshot: Seq<(u64, CdBounds)>, id: u64, b: CdBounds, position: Vec2) -> Option<Vec2> {
    match last_overlap(snapshot, id, b) {
        Some(j) => Some(push_vector(snapshot[j].1.position, position)),
        None => None,
    }
}

/// A movable after receiving the push, if any.
pub open spec fn pushed(m: Movable, push: Option<Vec2>) -> Movable {
    match push {
        Some(v) => Movable {
            impuls: Vec2 {
                x: clamp_spec(m.impuls.x + v.x, IMPULSE_LIMIT as int) as i64,
                y: clamp_spec(m.impuls.y + v.y, IMPULSE_LIMIT as int) as i64,
            },
            ..m
        },
        None => m,
    }
}

/// The push away from the last other actor of `snapshot` whose bounds
/// overlap this actor's; none when no other actor overlaps it.
pub fn push_back_impulse(actor: &Actor, snapshot: &Vec<(u64, CdBounds)>) -> (r: Option<Vec2>)
    requires
        actor.wf(),
        forall|i: int| 0 <= i < snapshot@.len() ==> (#[trigger] snapshot@[i]).1.wf(),
    ensures
        r == push_for(snapshot@, actor.id, actor.cd_bounds, actor.movable.position),
        r matches Some(v) ==> component_within(v, PUSH_BACK as int),
{
    let ghost s = snapshot@;
    let mut found: Option<usize> = None;
    let mut i: usize = 0;
    while i < snapshot.len()
        invariant
            s == snapshot@,
            actor.wf(),
            forall|k: int| 0 <= k < s.len() ==> (#[trigger] s[k]).1.wf(),
            0 <= i <= s.len(),
            match found {
                Some(j) => last_overlap(s.take(i as int), actor.id, actor.cd_bounds) == Some(j as int) && j < i,
                None => last_overlap(s.take(i as int), actor.id, actor.cd_bounds).is_none(),
            },
        decreases s.len() - i,
    {
        proof {
            assert(s.take(i as int + 1).drop_last() =~= s.take(i as int));
            assert(s.take(i as int + 1).last() == s[i as int]);
            assert(s[i as int].1.wf());
        }
        let (other_id, other_bounds) = snapshot[i];
        if actor.id != other_id && actor.cd_bounds.collide_with(&other_bounds) {
            found = Some(i);
        }
        i = i + 1;
    }
    assert(s.take(i as int) =~= s);
    match found {
        Some(j) => {
            let (_, other_bounds) = snapshot[j];
            assert(s[j as int].1.wf());
            Some(scaled_direction(&other_bounds.position, &actor.movable.position, PUSH_BACK))
        },
        None => None,
    }
}

/// What one tick does to one enemy, its controller and the player. Outside
/// the world the enemy only takes the out-of-bounds damage, frozen. Inside,
/// its controller takes its step; touching the player sends it wandering and
/// deals the player one point of damage, unless the player is invulnerable;
/// then the enemy takes its own step and is pushed away from the last other
/// actor of `snapshot` that it overlaps.
pub open spec fn enemy_step(
    old_actor: Actor,
    new_actor: Actor,
    old_ai: Ai,
    new_ai: Ai,
    old_player: Player,
    new_player: Player,
    snapshot: Seq<(u64, CdBounds)>,
    bounds: Rect,
    dt: u64,
) -> bool {
    &&& new_actor.wf()
    &&& new_actor.id == old_actor.id
    &&& new_ai.wf()
    &&& new_ai.weighted_states.states@ == old_ai.weighted_states.states@
    &&& new_ai.weighted_states.total == old_ai.weighted_states.total
    &&& new_player.wf()
    &&& if !bounds.contains_spec(old_actor.movable.position) {
        &&& new_actor.movable == old_actor.movable
        &&& new_actor.cd_bounds == old_actor.cd_bounds
        &&& new_actor.hp.modifications@ == old_actor.hp.modifications@.push(
            HpModification { source: OUT_OF_BOUNDS_SRC, source_origin: OUT_OF_BOUNDS_SRC, amount: (-OUT_OF_BOUNDS_DAMAGE) as i64 },
        )
        &&& new_actor.hp.act_hp == old_actor.hp.act_hp - OUT_OF_BOUNDS_DAMAGE
        &&& new_ai.state == old_ai.state
        &&& new_ai.timer == old_ai.timer
        &&& new_player == old_player
    } else {
        let collide = old_actor.cd_bounds.touches(old_player.actor.cd_bounds);
        let ppos = old_player.actor.movable.position;
        &&& new_actor.hp == old_actor.hp
        &&& exists|ai_mid: Ai, a_mid: Actor, a_cmd: Actor, a_upd: Actor| {
            &&& Ai::update_post(old_ai, ai_mid, old_actor, a_mid, ppos, bounds, dt)
            &&& if collide {
                &&& new_ai.state == AiState::Wandering
                &&& decision_timer_ok(new_ai.timer)
                &&& a_cmd.wf()
                &&& a_cmd.id == a_mid.id
                &&& a_cmd.hp == a_mid.hp
                &&& a_cmd.cd_bounds == a_mid.cd_bounds
                &&& exists|w: Vec2| wander_target_ok(bounds, w) && a_cmd.movable == Ai::commanded(
                    a_mid,
                    AiState::Wandering,
                    ppos,
                    w,
                )
            } else {
                &&& new_ai == ai_mid
                &&& a_cmd == a_mid
            }
            &&& Actor::update_post(a_cmd, a_upd, dt)
            &&& new_actor == (Actor {
                movable: pushed(a_upd.movable, push_for(snapshot, a_upd.id, a_upd.cd_bounds, a_upd.movable.position)),
                ..a_upd
            })
        }
        &&& (collide && !old_player.invulnerable) ==> {
            &&& new_player.invulnerable
            &&& new_player.invulnerability_timer == (Timer {
                elapsed: 0,
                just_over: false,
                ..old_player.invulnerability_timer
            })
            &&& new_player.actor.hp.modifications@ == old_player.actor.hp.modifications@.push(
                HpModification { source: old_actor.id, source_origin: SYSTEM_SOURCE, amount: -1i64 },
            )
            &&& new_player.actor.hp.act_hp == old_player.actor.hp.act_hp - 1
            &&& new_player.actor.id == old_player.actor.id
            &&& new_player.actor.movable == old_player.actor.movable
            &&& new_player.actor.cd_bounds == old_player.actor.cd_bounds
            &&& new_player.projectile_timer == old_player.projectile_timer
        }
        &&& (!collide || old_player.invulnerable) ==> new_player == old_player
    }
}

/// One tick of one enemy: see `enemy_step`.
pub fn update_ai_actor(
    actor: &mut Actor,
    ai: &mut Ai,
    player: &mut Player,
    snapshot: &Vec<(u64, CdBounds)>,
    bounds: &Rect,
    dt: u64,
)
    requires
        old(actor).wf(),
        old(actor).hp.act_hp >= i64::MIN + OUT_OF_BOUNDS_DAMAGE,
        old(ai).wf(),
        old(player).wf(),
        !old(player).invulnerable ==> old(player).actor.hp.act_hp > i64::MIN,
        bounds.wf(),
        arena_ok(*bounds),
        forall|i: int| 0 <= i < snapshot@.len() ==> (#[trigger] snapshot@[i]).1.wf(),
        dt <= MAX_DURATION,
    ensures
        enemy_step(*old(actor), *final(actor), *old(ai), *final(ai), *old(player), *final(player), snapshot@, *bounds, dt),
{
    if !bounds.contains(&actor.movable.position) {
        actor.hp.modify(OUT_OF_BOUNDS_SRC, OUT_OF_BOUNDS_SRC, -OUT_OF_BOUNDS_DAMAGE);
        return;
    }
    ai.update(dt, actor, &player.actor, bounds);
    let ghost ai_mid = *ai;
    let ghost a_mid = *actor;
    if actor.cd_bounds.collide_with(&player.actor.cd_bounds) {
        ai.set_state(AiState::Wandering, actor, &player.actor, bounds);
        player.modify_hp(actor.id, -1);
    }
    let ghost a_cmd = *actor;
    actor.update(dt);
    let ghost a_upd = *actor;
    let push = push_back_impulse(actor, snapshot);
    if let Some(imp) = push {
        actor.movable.add_impuls(imp);
    }
    assert(*actor == (Actor {
        movable: pushed(a_upd.movable, push_for(snapshot@, a_upd.id, a_upd.cd_bounds, a_upd.movable.position)),
        ..a_upd
    }));
    assert(Ai::update_post(*old(ai), ai_mid, *old(actor), a_mid, old(player).actor.movable.position, *bounds, dt));
    assert(Actor::update_post(a_cmd, a_upd, dt));
}

/// Microseconds between two spawns before difficulty rises.
pub const SPAWN_BASE_THRESHOLD: u64 = 2_000_000;

/// Microseconds between two rises of difficulty.
pub const DIFFICULTY_INTERVAL: u64 = 5_000_000;

/// Difficulty stops rising here, which keeps the speed of spawned enemies
/// within `MAX_SPEED`; the shortest spawn interval is reached long before.
pub const MAX_DIFFICULTY: u64 = 900;

/// Speed of an enemy spawned at difficulty zero.
pub const ENEMY_BASE_SPEED: i64 = 70 * UNIT;

/// Hit points of a spawned enemy.
pub const ENEMY_HEALTH: i64 = 2;

/// Microseconds between two spawns at the given difficulty.
pub open spec fn spawn_threshold_spec(difficulty: u64) -> u64 {
    if difficulty == 1 {
        4_000_000
    } else if difficulty == 2 {
        3_000_000
    } else if 3 <= difficulty <= 4 {
        2_000_000
    } else if 5 <= difficulty <= 7 {
        1_000_000
    } else if 8 <= difficulty <= 11 {
        900_000
    } else if 12 <= difficulty <= 16 {
        700_000
    } else {
        500_000
    }
}

pub fn spawn_threshold(difficulty: u64) -> (r: u64)
    ensures
        r == spawn_threshold_spec(difficulty),
        r <= MAX_DURATION,
{
    match difficulty {
        1 => 4_000_000,
        2 => 3_000_000,
        3..=4 => 2_000_000,
        5..=7 => 1_000_000,
        8..=11 => 900_000,
        12..=16 => 700_000,
        _ => 500_000,
    }
}

/// The point lies on the edge of `bounds`.
pub open spec fn on_edge(bounds: Rect, p: Vec2) -> bool {
    &&& bounds.contains_spec(p)
    &&& (p.x == bounds.left() || p.x == bounds.right() || p.y == bounds.top() || p.y == bounds.bottom())
}

/// The point `offset` along side `side` of `bounds`: left, right, top and
/// bottom in that order.
pub open spec fn spawn_position_spec(bounds: Rect, side: u32, offset: u32) -> Vec2 {
    if side == 0 {
        Vec2 { x: bounds.x, y: (bounds.y + offset) as i64 }
    } else if side == 1 {
        Vec2 { x: (bounds.x + bounds.w) as i64, y: (bounds.y + offset) as i64 }
    } else if side == 2 {
        Vec2 { x: (bounds.x + offset) as i64, y: bounds.y }
    } else {
        Vec2 { x: (bounds.x + offset) as i64, y: (bounds.y + bounds.h) as i64 }
    }
}

/// The point `offset` along side `side` of `bounds`.
pub fn spawn_position(bounds: &Rect, side: u32, offset: u32) -> (r: Vec2)
    requires
        arena_ok(*bounds),
        side < 4,
        side < 2 ==> offset < bounds.h,
        side >= 2 ==> offset < bounds.w,
    ensures
        r == spawn_position_spec(*bounds, side, offset),
        on_edge(*bounds, r),
        point_in_range(r),
{
    if side == 0 {
        Vec2::new(bounds.x, bounds.y + offset as i64)
    } else if side == 1 {
        Vec2::new(bounds.x + bounds.w, bounds.y + offset as i64)
    } else if side == 2 {
        Vec2::new(bounds.x + offset as i64, bounds.y)
    } else {
        Vec2::new(bounds.x + offset as i64, bounds.y + bounds.h)
    }
}

/// A point drawn on the edge of `bounds`: a side, then a place along it.
fn random_spawn_position(bounds: &Rect) -> (r: Vec2)
    requires
        arena_ok(*bounds),
        bounds.w <= RANDOM_LIMIT,
        bounds.h <= RANDOM_LIMIT,
    ensures
        on_edge(*bounds, r),
        point_in_range(r),
{
    let side = random_below(4);
    let length = if side < 2 {
        bounds.h
    } else {
        bounds.w
    };
    let offset = random_below(length as u32);
    spawn_position(bounds, side, offset)
}

/// The actors of `s` that are alive, in order.
pub open spec fn alive_actors(s: Seq<Actor>) -> Seq<Actor>
    decreases s.len(),
{
    if s.len() == 0 {
        Seq::empty()
    } else if s.last().alive() {
        alive_actors(s.drop_last()).push(s.last())
    } else {
        alive_actors(s.drop_last())
    }
}

/// The controllers of `c` whose actor in `a` is alive, in order.
pub open spec fn kept_controllers(a: Seq<Actor>, c: Seq<Ai>) -> Seq<Ai>
    decreases a.len(),
{
    if a.len() == 0 || c.len() == 0 {
        Seq::empty()
    } else if a.last().alive() {
        kept_controllers(a.drop_last(), c.drop_last()).push(c.last())
    } else {
        kept_controllers(a.drop_last(), c.drop_last())
    }
}

/// Number of dead actors of `s` whose last damage was credited to `player`.
pub open spec fn credited(s: Seq<Actor>, player: u64) -> nat
    decreases s.len(),
{
    if s.len() == 0 {
        0
    } else {
        credited(s.drop_last(), player) + if !s.last().alive()
            && s.last().hp.modifications@.last().source_origin == player {
            1nat
        } else {
            0nat
        }
    }
}

/// The projectiles of `s` that are alive, in order.
pub open spec fn live_projectiles(s: Seq<Projectile>) -> Seq<Projectile>
    decreases s.len(),
{
    if s.len() == 0 {
        Seq::empty()
    } else if s.last().is_alive {
        live_projectiles(s.drop_last()).push(s.last())
    } else {
        live_projectiles(s.drop_last())
    }
}

proof fn lemma_credited_bound(s: Seq<Actor>, player: u64)
    ensures
        credited(s, player) <= s.len(),
    decreases s.len(),
{
    if s.len() > 0 {
        lemma_credited_bound(s.drop_last(), player);
    }
}

proof fn lemma_alive_actors_alive(s: Seq<Actor>, floor: int)
    requires
        actors_ok(s, floor),
    ensures
        actors_ok(alive_actors(s), 0),
    decreases s.len(),
{
    if s.len() > 0 {
        let d = s.drop_last();
        assert forall|i: int| 0 <= i < d.len() implies #[trigger] d[i].wf() && d[i].hp.act_hp > floor by {
            assert(d[i] == s[i]);
        }
        lemma_alive_actors_alive(d, floor);
        let r = alive_actors(s.drop_last());
        assert(s.last() == s[s.len() - 1]);
        if s.last().alive() {
            let t = r.push(s.last());
            assert forall|i: int| 0 <= i < t.len() implies #[trigger] t[i].wf() && t[i].hp.act_hp > 0 by {
                if i < r.len() {
                    assert(t[i] == r[i]);
                }
            }
        }
    }
}

proof fn lemma_kept_controllers(a: Seq<Actor>, c: Seq<Ai>)
    requires
        a.len() == c.len(),
        forall|i: int| 0 <= i < c.len() ==> #[trigger] c[i].wf(),
    ensures
        kept_controllers(a, c).len() == alive_actors(a).len(),
        forall|i: int| 0 <= i < kept_controllers(a, c).len() ==> #[trigger] kept_controllers(a, c)[i].wf(),
    decreases a.len(),
{
    if a.len() > 0 {
        let dc = c.drop_last();
        assert forall|i: int| 0 <= i < dc.len() implies #[trigger] dc[i].wf() by {
            assert(dc[i] == c[i]);
        }
        lemma_kept_controllers(a.drop_last(), dc);
        let r = kept_controllers(a.drop_last(), dc);
        if a.last().alive() {
            let t = r.push(c.last());
            assert(c.last() == c[c.len() - 1]);
            assert forall|i: int| 0 <= i < t.len() implies #[trigger] t[i].wf() by {
                if i < r.len() {
                    assert(t[i] == r[i]);
                }
            }
        }
    }
}

proof fn lemma_live_projectiles(s: Seq<Projectile>)
    requires
        forall|i: int| 0 <= i < s.len() ==> #[trigger] s[i].wf(),
    ensures
        forall|i: int| 0 <= i < live_projectiles(s).len() ==> (#[trigger] live_projectiles(s)[i]).wf()
            && live_projectiles(s)[i].is_alive,
    decreases s.len(),
{
    if s.len() > 0 {
        let d = s.drop_last();
        assert forall|i: int| 0 <= i < d.len() implies #[trigger] d[i].wf() by {
            assert(d[i] == s[i]);
        }
        lemma_live_projectiles(d);
        let r = live_projectiles(d);
        if s.last().is_alive {
            let t = r.push(s.last());
            assert(s.last() == s[s.len() - 1]);
            assert forall|i: int| 0 <= i < t.len() implies (#[trigger] t[i]).wf() && t[i].is_alive by {
                if i < r.len() {
                    assert(t[i] == r[i]);
                }
            }
        }
    }
}

/// The whole simulation.
pub struct World {
    pub player: Player,
    pub ai_actors: Vec<Actor>,
    /// The controller of each enemy, at the index of its actor.
    pub ai_controllers: Vec<Ai>,
    pub projectiles: Vec<Projectile>,
    pub particle_system: ParticleSystem,
    pub bounds: Rect,
    pub score: u64,
    /// The identifier the next entity receives.
    pub next_id: u64,
    pub spawn_timer: Timer,
    pub difficulty_timer: Timer,
    pub difficulty: u64,
}

impl World {
    /// Every invariant of the world but the floor on the enemies' hit
    /// points.
    pub open spec fn shape_ok(&self) -> bool {
        &&& self.player.wf()
        &&& actors_ok(self.ai_actors@, i64::MIN as int)
        &&& self.ai_controllers@.len() == self.ai_actors@.len()
        &&& forall|i: int| 0 <= i < self.ai_controllers@.len() ==> #[trigger] self.ai_controllers@[i].wf()
        &&& forall|i: int| 0 <= i < self.projectiles@.len() ==> #[trigger] self.projectiles@[i].wf()
        &&& self.particle_system.wf()
        &&& self.bounds == world_rect()
        &&& self.spawn_timer.wf()
        &&& self.spawn_timer.repeat
        &&& self.difficulty_timer.wf()
        &&& self.difficulty_timer.repeat
        &&& self.difficulty <= MAX_DIFFICULTY
    }

    pub open spec fn wf(&self) -> bool {
        self.shape_ok() && actors_ok(self.ai_actors@, HP_FLOOR as int)
    }

    /// A world holding only the player; identifiers are issued from the one
    /// after the player's.
    pub fn new(player: Player) -> (r: World)
        requires
            player.wf(),
            player.actor.id < u64::MAX,
        ensures
            r.wf(),
            r.player == player,
            r.ai_actors@.len() == 0,
            r.projectiles@.len() == 0,
            r.score == 0,
            r.next_id == player.actor.id + 1,
            r.difficulty == 0,
    {
        let next_id = player.actor.id + 1;
        World {
            player,
            ai_actors: Vec::new(),
            ai_controllers: Vec::new(),
            projectiles: Vec::new(),
            particle_system: ParticleSystem::new(),
            bounds: Rect::new(WORLD_LEFT, WORLD_TOP, WORLD_WIDTH, WORLD_HEIGHT),
            score: 0,
            next_id,
            spawn_timer: Timer::new(SPAWN_BASE_THRESHOLD),
            difficulty_timer: Timer::new(DIFFICULTY_INTERVAL),
            difficulty: 0,
        }
    }

    /// Hands out a fresh identifier.
    pub fn issue_id(&mut self) -> (r: u64)
        requires
            old(self).next_id < u64::MAX,
        ensures
            r == old(self).next_id,
            final(self).next_id == old(self).next_id + 1,
            *final(self) == (World { next_id: final(self).next_id, ..*old(self) }),
    {
        let id = self.next_id;
        self.next_id = self.next_id + 1;
        id
    }

    /// Adds an enemy together with its controller.
    pub fn add_ai_actor(&mut self, actor: Actor, ai: Ai)
        requires
            old(self).shape_ok(),
            actor.wf(),
            actor.hp.act_hp > i64::MIN,
            ai.wf(),
        ensures
            final(self).shape_ok(),
            old(self).wf() && actor.hp.act_hp > HP_FLOOR ==> final(self).wf(),
            final(self).ai_actors@ == old(self).ai_actors@.push(actor),
            final(self).ai_controllers@ == old(self).ai_controllers@.push(ai),
            final(self).player == old(self).player,
            final(self).projectiles@ == old(self).projectiles@,
            final(self).score == old(self).score,
            final(self).next_id == old(self).next_id,
            final(self).difficulty == old(self).difficulty,
            final(self).spawn_timer == old(self).spawn_timer,
            final(self).difficulty_timer == old(self).difficulty_timer,
            final(self).bounds == old(self).bounds,
    {
        let ghost floor: int = if old(self).wf() && actor.hp.act_hp > HP_FLOOR {
            HP_FLOOR as int
        } else {
            i64::MIN as int
        };
        self.ai_controllers.push(ai);
        self.ai_actors.push(actor);
        assert forall|i: int| 0 <= i < self.ai_actors@.len() implies #[trigger] self.ai_actors@[i].wf()
            && self.ai_actors@[i].hp.act_hp > floor by {
            if i < old(self).ai_actors@.len() {
                assert(self.ai_actors@[i] == old(self).ai_actors@[i]);
                assert(old(self).ai_actors@[i].wf());
            }
        }
        assert forall|i: int| 0 <= i < self.ai_actors@.len() implies #[trigger] self.ai_actors@[i].wf()
            && self.ai_actors@[i].hp.act_hp > i64::MIN by {
            if i < old(self).ai_actors@.len() {
                assert(self.ai_actors@[i] == old(self).ai_actors@[i]);
                assert(old(self).ai_actors@[i].wf());
            }
        }
        assert forall|i: int| 0 <= i < self.ai_controllers@.len() implies #[trigger] self.ai_controllers@[i].wf() by {
            if i < old(self).ai_controllers@.len() {
                assert(self.ai_controllers@[i] == old(self).ai_controllers@[i]);
            }
        }
    }

    /// The same world with the given enemies and their controllers added.
    pub fn with_ai_actors(self, ai_actors: Vec<(Actor, Ai)>) -> (r: World)
        requires
            self.wf(),
            forall|i: int| 0 <= i < ai_actors@.len() ==> {
                &&& (#[trigger] ai_actors@[i]).0.wf()
                &&& ai_actors@[i].0.hp.act_hp > HP_FLOOR
                &&& ai_actors@[i].1.wf()
            },
        ensures
            r.wf(),
            r.ai_actors@.len() == self.ai_actors@.len() + ai_actors@.len(),
            r.player == self.player,
            r.score == self.score,
            r.next_id == self.next_id,
    {
        let mut w = self;
        let mut pairs = ai_actors;
        let ghost orig = pairs@;
        let ghost start = w.ai_actors@.len();
        while pairs.len() > 0
            invariant
                w.wf(),
                pairs@ == orig.skip(orig.len() - pairs@.len()),
                pairs@.len() <= orig.len(),
                w.ai_actors@.len() == start + (orig.len() - pairs@.len()),
                w.player == self.player,
                w.score == self.score,
                w.next_id == self.next_id,
                forall|i: int| 0 <= i < orig.len() ==> {
                    &&& (#[trigger] orig[i]).0.wf()
                    &&& orig[i].0.hp.act_hp > HP_FLOOR
                    &&& orig[i].1.wf()
                },
            decreases pairs@.len(),
        {
            let ghost k = orig.len() - pairs@.len();
            let (actor, ai) = pairs.remove(0);
            assert(orig[k] == (actor, ai));
            w.add_ai_actor(actor, ai);
            assert(pairs@ =~= orig.skip(orig.len() - pairs@.len()));
        }
        w
    }

    /// The player heads for the clicked point.
    pub fn on_mouse_button_down(&mut self, position: Vec2)
        requires
            old(self).wf(),
            point_in_range(position),
        ensures
            final(self).wf(),
            final(self).player.actor.movable == (Movable {
                velocity: old(self).player.actor.movable.velocity_toward(position),
                facing: old(self).player.actor.movable.velocity_toward(position),
                target_position: Some(position),
                ..old(self).player.actor.movable
            }),
    {
        self.player.actor.move_to(position);
    }

    pub fn get_player(&self) -> (r: &Player)
        ensures
            *r == self.player,
    {
        &self.player
    }

    pub fn get_ai_actors(&self) -> (r: &Vec<Actor>)
        ensures
            r@ == self.ai_actors@,
    {
        &self.ai_actors
    }

    pub fn get_projectiles(&self) -> (r: &Vec<Projectile>)
        ensures
            r@ == self.projectiles@,
    {
        &self.projectiles
    }

    pub fn get_particles(&self) -> (r: &Vec<Particle>)
        ensures
            r@ == self.particle_system.particles@,
    {
        &self.particle_system.particles
    }

    /// Speed of an enemy spawned at the given difficulty.
    pub open spec fn enemy_speed(difficulty: u64) -> i64 {
        (ENEMY_BASE_SPEED + difficulty * UNIT) as i64
    }

    /// Adds an enemy at `position`, its speed and its appetite for
    /// following the player growing with difficulty.
    pub fn spawn_enemy(&mut self, position: Vec2)
        requires
            old(self).shape_ok(),
            point_in_range(position),
            old(self).next_id < u64::MAX,
        ensures
            final(self).shape_ok(),
            old(self).wf() ==> final(self).wf(),
            final(self).ai_actors@.len() == old(self).ai_actors@.len() + 1,
            final(self).ai_actors@.drop_last() == old(self).ai_actors@,
            final(self).ai_controllers@.drop_last() == old(self).ai_controllers@,
            final(self).ai_actors@.last().id == old(self).next_id,
            final(self).ai_actors@.last().movable.position == position,
            final(self).ai_actors@.last().movable.speed == World::enemy_speed(old(self).difficulty),
            final(self).ai_actors@.last().hp.act_hp == ENEMY_HEALTH,
            final(self).ai_actors@.last().hp.modifications@.len() == 1,
            final(self).ai_controllers@.last().weighted_states.states@ == seq![
                (1i32, AiState::Idle),
                (5i32, AiState::Wandering),
                ((7 + old(self).difficulty) as i32, AiState::Following),
            ],
            final(self).next_id == old(self).next_id + 1,
            final(self).player == old(self).player,
            final(self).projectiles@ == old(self).projectiles@,
            final(self).score == old(self).score,
            final(self).difficulty == old(self).difficulty,
            final(self).spawn_timer == old(self).spawn_timer,
            final(self).difficulty_timer == old(self).difficulty_timer,
    {
        let d = self.difficulty;
        let speed = ENEMY_BASE_SPEED + (d as i64) * UNIT;
        let id = self.issue_id();
        let actor = Actor::new(id, position, speed, ENEMY_HEALTH);
        let weights: [i32; 3] = [1, 5, 7 + d as i32];
        let ai = Ai::new(WeightedStates::new_idle_wandering(&weights));
        self.add_ai_actor(actor, ai);
        assert(self.ai_actors@.drop_last() =~= old(self).ai_actors@);
        assert(self.ai_controllers@.drop_last() =~= old(self).ai_controllers@);
    }

    /// The spawn phase: what `update_spawn_policy` does.
    pub open spec fn spawn_phase(a: World, b: World, dt: u64) -> bool {
        &&& b.player == a.player
        &&& b.projectiles@ == a.projectiles@
        &&& b.score == a.score
        &&& b.difficulty_timer == a.difficulty_timer.step(dt)
        &&& ({
            let st = a.spawn_timer.step(dt);
            &&& (st.just_over ==> {
                &&& b.ai_actors@.len() == a.ai_actors@.len() + 1
                &&& b.ai_actors@.drop_last() == a.ai_actors@
                &&& b.ai_controllers@.drop_last() == a.ai_controllers@
                &&& b.ai_actors@.last().id == a.next_id
                &&& on_edge(b.bounds, b.ai_actors@.last().movable.position)
                &&& b.ai_actors@.last().movable.speed == World::enemy_speed(a.difficulty)
                &&& b.ai_actors@.last().hp.act_hp == ENEMY_HEALTH
                &&& b.ai_actors@.last().hp.modifications@.len() == 1
                &&& b.ai_controllers@.last().weighted_states.states@ == seq![
                    (1i32, AiState::Idle),
                    (5i32, AiState::Wandering),
                    ((7 + a.difficulty) as i32, AiState::Following),
                ]
                &&& b.next_id == a.next_id + 1
            })
            &&& (!st.just_over ==> {
                &&& b.ai_actors@ == a.ai_actors@
                &&& b.ai_controllers@ == a.ai_controllers@
                &&& b.next_id == a.next_id
            })
            &&& if a.difficulty_timer.step(dt).just_over {
                &&& b.difficulty == if a.difficulty < MAX_DIFFICULTY {
                    (a.difficulty + 1) as u64
                } else {
                    a.difficulty
                }
                &&& b.spawn_timer == (Timer {
                    elapsed: 0,
                    just_over: false,
                    threshold: spawn_threshold_spec(b.difficulty),
                    ..st
                })
            } else {
                &&& b.difficulty == a.difficulty
                &&& b.spawn_timer == st
            }
        })
    }

    /// The spawn policy for one tick: the spawn timer brings a new enemy on
    /// the world's edge; the difficulty timer raises difficulty and shortens
    /// the spawn interval.
    pub fn update_spawn_policy(&mut self, dt: u64)
        requires
            old(self).shape_ok(),
            dt <= MAX_DURATION,
            old(self).next_id < u64::MAX,
        ensures
            final(self).shape_ok(),
            old(self).wf() ==> final(self).wf(),
            World::spawn_phase(*old(self), *final(self), dt),
    {
        self.spawn_timer.update(dt);
        self.difficulty_timer.update(dt);
        if self.spawn_timer.is_just_over() {
            let position = random_spawn_position(&self.bounds);
            self.spawn_enemy(position);
        }
        if self.difficulty_timer.is_just_over() {
            if self.difficulty < MAX_DIFFICULTY {
                self.difficulty = self.difficulty + 1;
            }
            self.spawn_timer.set_threshold(spawn_threshold(self.difficulty));
            self.spawn_timer.reset();
        }
    }

    /// The cleanup: what `cleanup` does.
    pub open spec fn cleanup_phase(a: World, b: World) -> bool {
        &&& b.ai_actors@ == alive_actors(a.ai_actors@)
        &&& b.ai_controllers@ == kept_controllers(a.ai_actors@, a.ai_controllers@)
        &&& b.projectiles@ == live_projectiles(a.projectiles@)
        &&& b.score == a.score + credited(a.ai_actors@, a.player.actor.id)
        &&& b.player == a.player
        &&& b.particle_system == a.particle_system
        &&& b.bounds == a.bounds
        &&& b.next_id == a.next_id
        &&& b.spawn_timer == a.spawn_timer
        &&& b.difficulty_timer == a.difficulty_timer
        &&& b.difficulty == a.difficulty
    }

    /// Drops spent projectiles and dead enemies with their controllers, and
    /// scores one point for each dead enemy whose last damage was credited
    /// to the player.
    pub fn cleanup(&mut self)
        requires
            actors_ok(old(self).ai_actors@, i64::MIN as int),
            old(self).ai_controllers@.len() == old(self).ai_actors@.len(),
            old(self).score + old(self).ai_actors@.len() <= u64::MAX,
        ensures
            World::cleanup_phase(*old(self), *final(self)),
    {
        let ghost op = self.projectiles@;
        let np = self.projectiles.len();
        let mut projectiles: Vec<Projectile> = Vec::new();
        std::mem::swap(&mut projectiles, &mut self.projectiles);
        let mut k: usize = 0;
        while projectiles.len() > 0
            invariant
                op.len() == np,
                k + projectiles@.len() == np,
                projectiles@ == op.skip(k as int),
                self.projectiles@ == live_projectiles(op.take(k as int)),
                self.ai_actors@ == old(self).ai_actors@,
                self.ai_controllers@ == old(self).ai_controllers@,
                self.score == old(self).score,
                self.player == old(self).player,
                self.particle_system == old(self).particle_system,
                self.bounds == old(self).bounds,
                self.next_id == old(self).next_id,
                self.spawn_timer == old(self).spawn_timer,
                self.difficulty_timer == old(self).difficulty_timer,
                self.difficulty == old(self).difficulty,
            decreases projectiles@.len(),
        {
            let p = projectiles.remove(0);
            assert(p == op[k as int]);
            proof {
                assert(op.take(k as int + 1).drop_last() =~= op.take(k as int));
                assert(op.take(k as int + 1).last() == op[k as int]);
            }
            if p.is_alive {
                self.projectiles.push(p);
            }
            k = k + 1;
            assert(projectiles@ =~= op.skip(k as int));
        }
        assert(op.take(k as int) =~= op);

        let pid = self.player.actor.id;
        let ghost oa = self.ai_actors@;
        let ghost oc = self.ai_controllers@;
        let ghost score0 = self.score;
        let na = self.ai_actors.len();
        let mut actors: Vec<Actor> = Vec::new();
        let mut controllers: Vec<Ai> = Vec::new();
        std::mem::swap(&mut actors, &mut self.ai_actors);
        std::mem::swap(&mut controllers, &mut self.ai_controllers);
        let mut i: usize = 0;
        while actors.len() > 0
            invariant
                oa.len() == na,
                oc.len() == na,
                i + actors@.len() == na,
                controllers@.len() == actors@.len(),
                actors@ == oa.skip(i as int),
                controllers@ == oc.skip(i as int),
                actors_ok(oa, i64::MIN as int),
                score0 + na <= u64::MAX,
                pid == self.player.actor.id,
                self.ai_actors@ == alive_actors(oa.take(i as int)),
                self.ai_controllers@ == kept_controllers(oa.take(i as int), oc.take(i as int)),
                self.score == score0 + credited(oa.take(i as int), pid),
                self.projectiles@ == live_projectiles(op),
                self.player == old(self).player,
                self.particle_system == old(self).particle_system,
                self.bounds == old(self).bounds,
                self.next_id == old(self).next_id,
                self.spawn_timer == old(self).spawn_timer,
                self.difficulty_timer == old(self).difficulty_timer,
                self.difficulty == old(self).difficulty,
            decreases actors@.len(),
        {
            let a = actors.remove(0);
            let c = controllers.remove(0);
            assert(a == oa[i as int]);
            assert(c == oc[i as int]);
            proof {
                assert(oa.take(i as int + 1).drop_last() =~= oa.take(i as int));
                assert(oa.take(i as int + 1).last() == oa[i as int]);
                assert(oc.take(i as int + 1).drop_last() =~= oc.take(i as int));
                assert(oc.take(i as int + 1).last() == oc[i as int]);
                lemma_credited_bound(oa.take(i as int), pid);
                assert(oa[i as int].wf());
            }
            if a.is_alive() {
                self.ai_actors.push(a);
                self.ai_controllers.push(c);
            } else {
                let last = a.hp.get_last_modification();
                if let Some(m) = last {
                    if m.source_origin == pid {
                        self.score = self.score + 1;
                    }
                }
            }
            i = i + 1;
            assert(actors@ =~= oa.skip(i as int));
            assert(controllers@ =~= oc.skip(i as int));
        }
        assert(oa.take(i as int) =~= oa);
        assert(oc.take(i as int) =~= oc);
    }

    /// The enemies of `a` each took their step, in order, against the
    /// snapshot of all their bounds taken before any of them moved; `ps` is
    /// the player before each step and after the last.
    pub open spec fn enemy_chain(a: World, b: World, ps: Seq<Player>, dt: u64) -> bool {
        let m = a.ai_actors@.len();
        &&& b.ai_actors@.len() == m
        &&& b.ai_controllers@.len() == m
        &&& ps.len() == m + 1
        &&& ps[0] == a.player
        &&& ps[m as int] == b.player
        &&& forall|k: int| 0 <= k < m ==> enemy_step(
            a.ai_actors@[k],
            #[trigger] b.ai_actors@[k],
            a.ai_controllers@[k],
            b.ai_controllers@[k],
            ps[k],
            ps[k + 1],
            snapshot_of(a.ai_actors@),
            a.bounds,
            dt,
        )
    }

    /// The projectile phase: what `update_projectiles` does.
    pub open spec fn projectiles_phase(a: World, b: World, dt: u64) -> bool {
        &&& b.projectiles@.len() == a.projectiles@.len()
        &&& forall|i: int| 0 <= i < b.projectiles@.len() ==> {
            &&& (#[trigger] b.projectiles@[i]).id == a.projectiles@[i].id
            &&& b.projectiles@[i].origin == a.projectiles@[i].origin
            &&& b.projectiles@[i].movable == a.projectiles@[i].movable.stepped(dt)
            &&& (!a.bounds.contains_spec(b.projectiles@[i].movable.position)
                ==> !b.projectiles@[i].is_alive)
        }
        &&& b.ai_actors@.len() == a.ai_actors@.len()
        &&& forall|k: int| 0 <= k < b.ai_actors@.len() ==> {
            &&& (#[trigger] b.ai_actors@[k]).id == a.ai_actors@[k].id
            &&& b.ai_actors@[k].movable == a.ai_actors@[k].movable
            &&& b.ai_actors@[k].cd_bounds == a.ai_actors@[k].cd_bounds
        }
        &&& forall|k: int| 0 <= k < b.ai_actors@.len() ==> (#[trigger] b.ai_actors@[k]).hp.modifications@
            == hits_on(a.ai_actors@, k, a.projectiles@, dt, a.bounds)
        &&& forall|i: int| 0 <= i < b.projectiles@.len() ==> (#[trigger] b.projectiles@[i]).is_alive
            == shot_survives(a.ai_actors@, a.projectiles@[i], dt, a.bounds)
        &&& b.ai_controllers@ == a.ai_controllers@
        &&& b.player == a.player
        &&& b.bounds == a.bounds
        &&& b.spawn_timer == a.spawn_timer
        &&& b.difficulty_timer == a.difficulty_timer
        &&& b.difficulty == a.difficulty
        &&& b.score == a.score
        &&& b.next_id == a.next_id
    }

    /// The projectile phase of a tick: each projectile in turn moves, is
    /// spent when it leaves the world, may leave a trail particle, and hits
    /// the first enemy it overlaps. Enemies only lose hit points here.
    pub fn update_projectiles(&mut self, dt: u64)
        requires
            old(self).shape_ok(),
            actors_ok(old(self).ai_actors@, HP_FLOOR as int),
            old(self).projectiles@.len() <= MAX_PROJECTILES,
            dt <= MAX_DURATION,
        ensures
            final(self).shape_ok(),
            actors_ok(final(self).ai_actors@, HP_FLOOR - MAX_PROJECTILES),
            World::projectiles_phase(*old(self), *final(self), dt),
    {
        let ghost shots = self.projectiles@;
        let ghost actors0 = self.ai_actors@;
        let n = self.projectiles.len();
        let mut i: usize = 0;
        assert forall|k: int| 0 <= k < actors0.len() implies (#[trigger] self.ai_actors@[k]).hp.modifications@
            == hits_on(actors0, k, shots.take(0), dt, self.bounds) by {
            assert(shots.take(0).len() == 0);
        }
        while i < n
            invariant
                shots.len() == n,
                self.projectiles@.len() == n,
                n <= MAX_PROJECTILES,
                0 <= i <= n,
                dt <= MAX_DURATION,
                forall|k: int| 0 <= k < n ==> #[trigger] self.projectiles@[k].wf(),
                forall|k: int| i <= k < n ==> #[trigger] self.projectiles@[k] == shots[k],
                forall|k: int| 0 <= k < i ==> {
                    &&& (#[trigger] self.projectiles@[k]).id == shots[k].id
                    &&& self.projectiles@[k].origin == shots[k].origin
                    &&& self.projectiles@[k].movable == shots[k].movable.stepped(dt)
                    &&& (!self.bounds.contains_spec(self.projectiles@[k].movable.position)
                        ==> !self.projectiles@[k].is_alive)
                },
                actors_ok(self.ai_actors@, HP_FLOOR - i),
                self.ai_actors@.len() == actors0.len(),
                forall|k: int| 0 <= k < actors0.len() ==> {
                    &&& (#[trigger] self.ai_actors@[k]).id == actors0[k].id
                    &&& self.ai_actors@[k].movable == actors0[k].movable
                    &&& self.ai_actors@[k].cd_bounds == actors0[k].cd_bounds
                },
                forall|k: int| 0 <= k < actors0.len() ==> (#[trigger] self.ai_actors@[k]).hp.modifications@
                    == hits_on(actors0, k, shots.take(i as int), dt, self.bounds),
                forall|x: int| 0 <= x < i ==> (#[trigger] self.projectiles@[x]).is_alive
                    == shot_survives(actors0, shots[x], dt, self.bounds),
                self.ai_controllers@ == old(self).ai_controllers@,
                self.particle_system.wf(),
                self.player == old(self).player,
                old(self).shape_ok(),
                self.bounds == old(self).bounds,
                self.spawn_timer == old(self).spawn_timer,
                self.difficulty_timer == old(self).difficulty_timer,
                self.difficulty == old(self).difficulty,
                self.score == old(self).score,
                self.next_id == old(self).next_id,
            decreases n - i,
        {
            let ghost before = self.ai_actors@;
            let ghost shots_now = self.projectiles@;
            let ghost fl: int = HP_FLOOR - i;
            assert(actors_ok(before, fl));
            assert(self.projectiles@[i as int].wf());
            assert forall|k: int| 0 <= k < before.len() implies #[trigger] before[k].wf() && before[k].hp.act_hp
                > i64::MIN by {
                assert(before[k].wf());
            }
            assert(actors_ok(before, i64::MIN as int));
            assert(self.projectiles@[i as int] == shots[i as int]);
            let ghost p = shots[i as int];
            let ghost pb = CdBounds { position: p.movable.stepped(dt).position, ..p.cd_bounds };
            proof {
                lemma_first_collision_same(before, actors0, pb);
                lemma_first_collision_in_range(actors0, pb);
                assert(shots.take(i as int + 1).drop_last() =~= shots.take(i as int));
                assert(shots.take(i as int + 1).last() == p);
            }
            update_projectile(&mut self.projectiles[i], &mut self.ai_actors, &mut self.particle_system, &self.bounds, dt);
            assert forall|k: int| 0 <= k < actors0.len() implies (#[trigger] self.ai_actors@[k]).hp.modifications@
                == hits_on(actors0, k, shots.take(i as int + 1), dt, self.bounds) by {
                assert(before[k].hp.modifications@ == hits_on(actors0, k, shots.take(i as int), dt, self.bounds));
            }
            assert forall|x: int| 0 <= x < i + 1 implies (#[trigger] self.projectiles@[x]).is_alive
                == shot_survives(actors0, shots[x], dt, self.bounds) by {
                if x < i {
                    assert(self.projectiles@[x] == shots_now[x]);
                }
            }
            assert forall|k: int| 0 <= k < self.ai_actors@.len() implies #[trigger] self.ai_actors@[k].wf()
                && self.ai_actors@[k].hp.act_hp > fl - 1 by {
                assert(before[k].wf());
            }
            assert forall|k: int| 0 <= k < actors0.len() implies {
                &&& (#[trigger] self.ai_actors@[k]).id == actors0[k].id
                &&& self.ai_actors@[k].movable == actors0[k].movable
                &&& self.ai_actors@[k].cd_bounds == actors0[k].cd_bounds
            } by {
                assert(before[k].id == actors0[k].id);
            }
            assert forall|k: int| 0 <= k < n implies #[trigger] self.projectiles@[k].wf() by {
                if k != i {
                    assert(self.projectiles@[k] == shots_now[k]);
                }
            }
            i = i + 1;
        }
        assert(shots.take(n as int) =~= shots);
        assert forall|x: int| 0 <= x < self.ai_actors@.len() implies #[trigger] self.ai_actors@[x].wf()
            && self.ai_actors@[x].hp.act_hp > HP_FLOOR - MAX_PROJECTILES by {
            assert(self.ai_actors@[x].wf());
        }
        assert(actors_ok(self.ai_actors@, HP_FLOOR - MAX_PROJECTILES));
        assert forall|x: int| 0 <= x < self.ai_actors@.len() implies #[trigger] self.ai_actors@[x].wf()
            && self.ai_actors@[x].hp.act_hp > i64::MIN by {
            assert(self.ai_actors@[x].wf());
        }
    }

    /// The enemy phase: what `update_enemies` does.
    pub open spec fn enemies_phase(a: World, b: World, dt: u64) -> bool {
        &&& b.ai_actors@.len() == a.ai_actors@.len()
        &&& forall|k: int| 0 <= k < b.ai_actors@.len() ==> {
            &&& (#[trigger] b.ai_actors@[k]).id == a.ai_actors@[k].id
            &&& if !a.bounds.contains_spec(a.ai_actors@[k].movable.position) {
                &&& b.ai_actors@[k].movable == a.ai_actors@[k].movable
                &&& b.ai_actors@[k].cd_bounds == a.ai_actors@[k].cd_bounds
                &&& b.ai_actors@[k].hp.modifications@ == a.ai_actors@[k].hp.modifications@.push(
                    HpModification {
                        source: OUT_OF_BOUNDS_SRC,
                        source_origin: OUT_OF_BOUNDS_SRC,
                        amount: (-OUT_OF_BOUNDS_DAMAGE) as i64,
                    },
                )
                &&& b.ai_actors@[k].hp.act_hp == a.ai_actors@[k].hp.act_hp - OUT_OF_BOUNDS_DAMAGE
                &&& b.ai_controllers@[k].state == a.ai_controllers@[k].state
                &&& b.ai_controllers@[k].timer == a.ai_controllers@[k].timer
            } else {
                b.ai_actors@[k].hp == a.ai_actors@[k].hp
            }
        }
        &&& b.player.actor.id == a.player.actor.id
        &&& b.player.actor.movable == a.player.actor.movable
        &&& b.player.projectile_timer == a.player.projectile_timer
        &&& b.player.actor.hp.act_hp == a.player.actor.hp.act_hp
            || (b.player.actor.hp.act_hp == a.player.actor.hp.act_hp - 1
            && b.player.invulnerable)
        &&& b.projectiles@ == a.projectiles@
        &&& b.particle_system == a.particle_system
        &&& b.ai_controllers@.len() == a.ai_actors@.len()
        &&& exists|ps: Seq<Player>| World::enemy_chain(a, b, ps, dt)
        &&& b.bounds == a.bounds
        &&& b.spawn_timer == a.spawn_timer
        &&& b.difficulty_timer == a.difficulty_timer
        &&& b.difficulty == a.difficulty
        &&& b.score == a.score
        &&& b.next_id == a.next_id
    }

    /// The enemy phase of a tick: a snapshot of every enemy's bounds is taken
    /// first, then each enemy in turn takes its step against it. An enemy
    /// outside the world only takes the out-of-bounds damage; one inside keeps
    /// its hit points.
    pub fn update_enemies(&mut self, dt: u64)
        requires
            old(self).shape_ok(),
            actors_ok(old(self).ai_actors@, HP_FLOOR - MAX_PROJECTILES),
            old(self).player.actor.hp.act_hp > i64::MIN,
            dt <= MAX_DURATION,
        ensures
            final(self).shape_ok(),
            actors_ok(final(self).ai_actors@, HP_FLOOR - MAX_PROJECTILES - OUT_OF_BOUNDS_DAMAGE),
            World::enemies_phase(*old(self), *final(self), dt),
    {
        let ghost fp: int = HP_FLOOR - MAX_PROJECTILES;
        let ghost h0 = self.player.actor.hp.act_hp;
        let ghost actors0 = self.ai_actors@;
        let ghost ctrls0 = self.ai_controllers@;
        let mut snapshot: Vec<(u64, CdBounds)> = Vec::new();
        let mut j: usize = 0;
        while j < self.ai_actors.len()
            invariant
                0 <= j <= self.ai_actors@.len(),
                actors_ok(self.ai_actors@, fp),
                fp == HP_FLOOR - MAX_PROJECTILES,
                snapshot@.len() == j,
                forall|k: int| 0 <= k < j ==> (#[trigger] snapshot@[k]).1.wf(),
                forall|k: int| 0 <= k < j ==> #[trigger] snapshot@[k] == (self.ai_actors@[k].id, self.ai_actors@[k].cd_bounds),
            decreases self.ai_actors@.len() - j,
        {
            assert(self.ai_actors@[j as int].wf());
            snapshot.push((self.ai_actors[j].id, self.ai_actors[j].cd_bounds));
            j = j + 1;
        }

        assert(snapshot@ =~= snapshot_of(actors0));
        let m = self.ai_actors.len();
        let mut k: usize = 0;
        let ghost mut ps: Seq<Player> = seq![self.player];
        assert forall|x: int| 0 <= x < m implies (#[trigger] self.ai_actors@[x]).wf()
            && self.ai_actors@[x].hp.act_hp > fp by {
            assert(self.ai_actors@[x].wf());
        }
        while k < m
            invariant
                actors0.len() == m,
                ctrls0.len() == m,
                self.ai_actors@.len() == m,
                self.ai_controllers@.len() == m,
                fp == HP_FLOOR - MAX_PROJECTILES,
                0 <= k <= m,
                dt <= MAX_DURATION,
                forall|x: int| 0 <= x < m ==> (#[trigger] self.ai_actors@[x]).wf()
                    && self.ai_actors@[x].hp.act_hp > fp - OUT_OF_BOUNDS_DAMAGE,
                forall|x: int| k <= x < m ==> (#[trigger] self.ai_actors@[x]).hp.act_hp > fp,
                forall|x: int| k <= x < m ==> #[trigger] self.ai_actors@[x] == actors0[x],
                forall|x: int| k <= x < m ==> #[trigger] self.ai_controllers@[x] == ctrls0[x],
                forall|x: int| 0 <= x < k ==> {
                    &&& (#[trigger] self.ai_actors@[x]).id == actors0[x].id
                    &&& if !self.bounds.contains_spec(actors0[x].movable.position) {
                        &&& self.ai_actors@[x].movable == actors0[x].movable
                        &&& self.ai_actors@[x].cd_bounds == actors0[x].cd_bounds
                        &&& self.ai_actors@[x].hp.modifications@ == actors0[x].hp.modifications@.push(
                            HpModification {
                                source: OUT_OF_BOUNDS_SRC,
                                source_origin: OUT_OF_BOUNDS_SRC,
                                amount: (-OUT_OF_BOUNDS_DAMAGE) as i64,
                            },
                        )
                        &&& self.ai_actors@[x].hp.act_hp == actors0[x].hp.act_hp - OUT_OF_BOUNDS_DAMAGE
                        &&& self.ai_controllers@[x].state == ctrls0[x].state
                        &&& self.ai_controllers@[x].timer == ctrls0[x].timer
                    } else {
                        self.ai_actors@[x].hp == actors0[x].hp
                    }
                },
                forall|x: int| 0 <= x < m ==> #[trigger] self.ai_controllers@[x].wf(),
                forall|x: int| 0 <= x < snapshot@.len() ==> (#[trigger] snapshot@[x]).1.wf(),
                snapshot@ == snapshot_of(actors0),
                ps.len() == k + 1,
                ps[0] == old(self).player,
                ps[k as int] == self.player,
                forall|x: int| 0 <= x < k ==> enemy_step(
                    actors0[x],
                    #[trigger] self.ai_actors@[x],
                    ctrls0[x],
                    self.ai_controllers@[x],
                    ps[x],
                    ps[x + 1],
                    snapshot@,
                    self.bounds,
                    dt,
                ),
                self.player.wf(),
                self.player.actor.id == old(self).player.actor.id,
                self.player.actor.movable == old(self).player.actor.movable,
                self.player.projectile_timer == old(self).player.projectile_timer,
                self.player.actor.hp.act_hp == h0 || (self.player.actor.hp.act_hp == h0 - 1
                    && self.player.invulnerable),
                h0 > i64::MIN,
                self.projectiles@ == old(self).projectiles@,
                self.particle_system == old(self).particle_system,
                old(self).shape_ok(),
                self.bounds == old(self).bounds,
                self.spawn_timer == old(self).spawn_timer,
                self.difficulty_timer == old(self).difficulty_timer,
                self.difficulty == old(self).difficulty,
                self.score == old(self).score,
                self.next_id == old(self).next_id,
            decreases m - k,
        {
            let ghost before = self.ai_actors@;
            let ghost ctrls_before = self.ai_controllers@;
            let ghost ps_before = ps;
            assert(self.ai_actors@[k as int].wf());
            assert(self.ai_actors@[k as int].hp.act_hp > fp);
            assert(self.ai_actors@[k as int] == actors0[k as int]);
            assert(self.ai_controllers@[k as int] == ctrls0[k as int]);
            assert(self.ai_controllers@[k as int].wf());
            assert(arena_ok(self.bounds));
            update_ai_actor(
                &mut self.ai_actors[k],
                &mut self.ai_controllers[k],
                &mut self.player,
                &snapshot,
                &self.bounds,
                dt,
            );
            assert(self.ai_actors@[k as int].hp.act_hp >= before[k as int].hp.act_hp - OUT_OF_BOUNDS_DAMAGE);
            assert forall|x: int| 0 <= x < m implies (#[trigger] self.ai_actors@[x]).wf()
                && self.ai_actors@[x].hp.act_hp > fp - OUT_OF_BOUNDS_DAMAGE by {
                assert(before[x].wf());
                if x != k {
                    assert(self.ai_actors@[x] == before[x]);
                }
            }
            assert forall|x: int| k + 1 <= x < m implies (#[trigger] self.ai_actors@[x]).hp.act_hp > fp by {
                assert(self.ai_actors@[x] == before[x]);
            }
            assert forall|x: int| k + 1 <= x < m implies #[trigger] self.ai_actors@[x] == actors0[x] by {
                assert(self.ai_actors@[x] == before[x]);
            }
            assert forall|x: int| k + 1 <= x < m implies #[trigger] self.ai_controllers@[x] == ctrls0[x] by {
                assert(self.ai_controllers@[x] == ctrls_before[x]);
            }
            assert forall|x: int| 0 <= x < m implies #[trigger] self.ai_controllers@[x].wf() by {
                if x != k {
                    assert(self.ai_controllers@[x] == ctrls_before[x]);
                }
            }
            assert forall|x: int| 0 <= x < k + 1 implies {
                &&& (#[trigger] self.ai_actors@[x]).id == actors0[x].id
                &&& if !self.bounds.contains_spec(actors0[x].movable.position) {
                    &&& self.ai_actors@[x].movable == actors0[x].movable
                    &&& self.ai_actors@[x].cd_bounds == actors0[x].cd_bounds
                    &&& self.ai_actors@[x].hp.modifications@ == actors0[x].hp.modifications@.push(
                        HpModification {
                            source: OUT_OF_BOUNDS_SRC,
                            source_origin: OUT_OF_BOUNDS_SRC,
                            amount: (-OUT_OF_BOUNDS_DAMAGE) as i64,
                        },
                    )
                    &&& self.ai_actors@[x].hp.act_hp == actors0[x].hp.act_hp - OUT_OF_BOUNDS_DAMAGE
                    &&& self.ai_controllers@[x].state == ctrls0[x].state
                    &&& self.ai_controllers@[x].timer == ctrls0[x].timer
                } else {
                    self.ai_actors@[x].hp == actors0[x].hp
                }
            } by {
                if x != k {
                    assert(self.ai_actors@[x] == before[x]);
                    assert(self.ai_controllers@[x] == ctrls_before[x]);
                }
            }
            proof {
                ps = ps.push(self.player);
                assert forall|x: int| 0 <= x < k + 1 implies enemy_step(
                    actors0[x],
                    #[trigger] self.ai_actors@[x],
                    ctrls0[x],
                    self.ai_controllers@[x],
                    ps[x],
                    ps[x + 1],
                    snapshot@,
                    self.bounds,
                    dt,
                ) by {
                    assert(ps[x] == ps_before[x]);
                    if x < k {
                        assert(ps[x + 1] == ps_before[x + 1]);
                        assert(self.ai_actors@[x] == before[x]);
                        assert(self.ai_controllers@[x] == ctrls_before[x]);
                    }
                }
            }
            k = k + 1;
        }
        assert(World::enemy_chain(*old(self), *self, ps, dt));
        assert forall|x: int| 0 <= x < self.ai_actors@.len() implies #[trigger] self.ai_actors@[x].wf()
            && self.ai_actors@[x].hp.act_hp > HP_FLOOR - MAX_PROJECTILES - OUT_OF_BOUNDS_DAMAGE by {
            assert(self.ai_actors@[x].wf());
        }
        assert forall|x: int| 0 <= x < self.ai_actors@.len() implies #[trigger] self.ai_actors@[x].wf()
            && self.ai_actors@[x].hp.act_hp > i64::MIN by {
            assert(self.ai_actors@[x].wf());
        }
    }

    /// The player phase: the player takes its step (and may fire), then its
    /// actor moves, then the particles advance.
    pub open spec fn player_phase(a: World, b: World, dt: u64) -> bool {
        &&& Player::update_post(
            a.player,
            Player { actor: a.player.actor, ..b.player },
            a.projectiles@,
            b.projectiles@,
            a.ai_actors@,
            a.next_id,
            b.next_id,
            dt,
        )
        &&& Actor::update_post(a.player.actor, b.player.actor, dt)
        &&& b.particle_system.particles@.map_values(|p: Particle| particle_state(p)) == kept(
            a.particle_system.particles@,
            dt,
        )
        &&& b.ai_actors@ == a.ai_actors@
        &&& b.ai_controllers@ == a.ai_controllers@
        &&& b.bounds == a.bounds
        &&& b.spawn_timer == a.spawn_timer
        &&& b.difficulty_timer == a.difficulty_timer
        &&& b.difficulty == a.difficulty
        &&& b.score == a.score
    }

    /// The player phase of a tick: see `player_phase`.
    pub fn update_player(&mut self, dt: u64)
        requires
            old(self).wf(),
            dt <= MAX_DURATION,
            old(self).next_id < u64::MAX,
        ensures
            final(self).wf(),
            World::player_phase(*old(self), *final(self), dt),
    {
        let ghost shots_before = self.projectiles@;
        self.player.update(dt, &mut self.projectiles, &self.ai_actors, &mut self.next_id);
        let ghost fired = self.player;
        assert forall|k: int| 0 <= k < self.projectiles@.len() implies #[trigger] self.projectiles@[k].wf() by {
            if k < shots_before.len() {
                assert(self.projectiles@[k] == self.projectiles@.take(shots_before.len() as int)[k]);
                assert(shots_before[k].wf());
            }
        }
        self.player.actor.update(dt);
        self.particle_system.update(dt);
        assert(fired == (Player { actor: old(self).player.actor, ..self.player }));
    }

    /// One tick of the whole simulation, in a fixed order: the player, the
    /// particles, the projectiles, then each enemy against a snapshot of all
    /// enemies' bounds taken before any of them moves, the spawn policy, and
    /// the cleanup that removes what is dead and scores the player's kills.
    pub fn update(&mut self, dt: u64)
        requires
            old(self).wf(),
            dt <= MAX_DURATION,
            old(self).next_id < u64::MAX - 1,
            old(self).player.actor.hp.act_hp > i64::MIN,
            old(self).projectiles@.len() < MAX_PROJECTILES,
            old(self).score + old(self).ai_actors@.len() < u64::MAX,
        ensures
            final(self).wf(),
            forall|i: int| 0 <= i < final(self).ai_actors@.len() ==> (#[trigger] final(self).ai_actors@[i]).alive(),
            forall|i: int| 0 <= i < final(self).projectiles@.len() ==> (#[trigger] final(self).projectiles@[i]).is_alive,
            final(self).player.actor.id == old(self).player.actor.id,
            final(self).player.actor.hp.act_hp == old(self).player.actor.hp.act_hp
                || (final(self).player.actor.hp.act_hp == old(self).player.actor.hp.act_hp - 1
                && final(self).player.invulnerable),
            old(self).score <= final(self).score <= old(self).score + old(self).ai_actors@.len() + 1,
            old(self).next_id <= final(self).next_id <= old(self).next_id + 2,
            old(self).difficulty <= final(self).difficulty,
            exists|w1: World, w2: World, w3: World, w4: World|
                World::player_phase(*old(self), w1, dt) && World::projectiles_phase(w1, w2, dt)
                    && World::enemies_phase(w2, w3, dt) && World::spawn_phase(w3, w4, dt)
                    && World::cleanup_phase(w4, *final(self)),
    {
        let ghost w0 = *self;
        self.update_player(dt);
        let ghost w1 = *self;
        self.update_projectiles(dt);
        let ghost w2 = *self;
        self.update_enemies(dt);
        let ghost w3 = *self;
        self.update_spawn_policy(dt);
        let ghost w4 = *self;
        let ghost pre_a = self.ai_actors@;
        let ghost pre_c = self.ai_controllers@;
        let ghost pre_p = self.projectiles@;
        proof {
            lemma_credited_bound(pre_a, self.player.actor.id);
        }
        self.cleanup();
        proof {
            lemma_alive_actors_alive(pre_a, i64::MIN as int);
            lemma_kept_controllers(pre_a, pre_c);
            lemma_live_projectiles(pre_p);
            let a = self.ai_actors@;
            assert forall|x: int| 0 <= x < a.len() implies #[trigger] a[x].wf() && a[x].hp.act_hp > HP_FLOOR by {
                assert(a[x].wf());
            }
            assert forall|x: int| 0 <= x < a.len() implies (#[trigger] a[x]).alive() by {
                assert(a[x].wf());
            }
            assert(World::player_phase(w0, w1, dt));
            assert(World::projectiles_phase(w1, w2, dt));
            assert(World::enemies_phase(w2, w3, dt));
            assert(World::spawn_phase(w3, w4, dt));
            assert(World::cleanup_phase(w4, *self));
        }
    }
}

/// No actor of the list has two entries from source `q`.
pub open spec fn one_entry_from(s: Seq<Actor>, q: u64) -> bool {
    forall|i: int| 0 <= i < s.len() ==> count_source(#[trigger] s[i].hp.modifications@, q) <= 1
}

proof fn lemma_count_source_le_len(h: Seq<HpModification>, q: u64)
    ensures
        count_source(h, q) <= h.len(),
    decreases h.len(),
{
    if h.len() > 0 {
        lemma_count_source_le_len(h.drop_last(), q);
    }
}

proof fn lemma_alive_actors_from(s: Seq<Actor>, q: u64)
    requires
        one_entry_from(s, q),
    ensures
        one_entry_from(alive_actors(s), q),
    decreases s.len(),
{
    if s.len() > 0 {
        let d = s.drop_last();
        assert forall|i: int| 0 <= i < d.len() implies count_source(#[trigger] d[i].hp.modifications@, q) <= 1 by {
            assert(d[i] == s[i]);
        }
        lemma_alive_actors_from(d, q);
        let r = alive_actors(d);
        if s.last().alive() {
            let t = r.push(s.last());
            assert(s.last() == s[s.len() - 1]);
            assert forall|i: int| 0 <= i < t.len() implies count_source(#[trigger] t[i].hp.modifications@, q) <= 1 by {
                if i < r.len() {
                    assert(t[i] == r[i]);
                }
            }
        }
    }
}

/// A projectile damages an actor at most once, however many ticks it lives
/// through: over a whole tick, chained through its phases, no enemy gains
/// a second ledger entry from any source other than the out-of-bounds one.
pub proof fn lemma_tick_keeps_one_entry_per_projectile(
    a: World,
    w1: World,
    w2: World,
    w3: World,
    w4: World,
    b: World,
    dt: u64,
    q: u64,
)
    requires
        World::player_phase(a, w1, dt),
        World::projectiles_phase(w1, w2, dt),
        World::enemies_phase(w2, w3, dt),
        World::spawn_phase(w3, w4, dt),
        World::cleanup_phase(w4, b),
        q != OUT_OF_BOUNDS_SRC,
        one_entry_from(a.ai_actors@, q),
    ensures
        one_entry_from(b.ai_actors@, q),
{
    assert forall|k: int| 0 <= k < w2.ai_actors@.len() implies count_source(
        #[trigger] w2.ai_actors@[k].hp.modifications@,
        q,
    ) <= 1 by {
        assert(w2.ai_actors@[k].hp.modifications@ == hits_on(w1.ai_actors@, k, w1.projectiles@, dt, w1.bounds));
        assert(count_source(w1.ai_actors@[k].hp.modifications@, q) <= 1);
        lemma_hits_keep_at_most_one(w1.ai_actors@, k, w1.projectiles@, dt, w1.bounds, q);
    }
    let ps = choose|ps: Seq<Player>| World::enemy_chain(w2, w3, ps, dt);
    assert forall|k: int| 0 <= k < w3.ai_actors@.len() implies count_source(
        #[trigger] w3.ai_actors@[k].hp.modifications@,
        q,
    ) <= 1 by {
        assert(enemy_step(
            w2.ai_actors@[k],
            w3.ai_actors@[k],
            w2.ai_controllers@[k],
            w3.ai_controllers@[k],
            ps[k],
            ps[k + 1],
            snapshot_of(w2.ai_actors@),
            w2.bounds,
            dt,
        ));
        lemma_enemy_step_adds_no_hit(
            w2.ai_actors@[k],
            w3.ai_actors@[k],
            w2.ai_controllers@[k],
            w3.ai_controllers@[k],
            ps[k],
            ps[k + 1],
            snapshot_of(w2.ai_actors@),
            w2.bounds,
            dt,
            q,
        );
        assert(count_source(w2.ai_actors@[k].hp.modifications@, q) <= 1);
    }
    assert forall|k: int| 0 <= k < w4.ai_actors@.len() implies count_source(
        #[trigger] w4.ai_actors@[k].hp.modifications@,
        q,
    ) <= 1 by {
        if k < w3.ai_actors@.len() {
            assert(w4.ai_actors@[k] == w3.ai_actors@[k]);
            assert(count_source(w3.ai_actors@[k].hp.modifications@, q) <= 1);
        } else {
            assert(w4.ai_actors@[k] == w4.ai_actors@.last());
            lemma_count_source_le_len(w4.ai_actors@[k].hp.modifications@, q);
        }
    }
    lemma_alive_actors_from(w4.ai_actors@, q);
}

} // verus!
