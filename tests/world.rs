use kg_g::actor::Actor;
use kg_g::ai::{Ai, WeightedStates};
use kg_g::bounds::CdBounds;
use kg_g::geometry::{Rect, Vec2, UNIT};
use kg_g::particle::{Particle, ParticleSystem};
use kg_g::player::Player;
use kg_g::projectile::Projectile;
use kg_g::stage::{Stage, StageAction, StageStack};
use kg_g::world::{
    push_back_impulse, spawn_position, spawn_threshold, update_ai_actor, World, OUT_OF_BOUNDS_SRC,
};

fn new_world() -> World {
    let player = Player::new(Actor::new(1, Vec2::zero(), 100 * UNIT, 5), 1_000_000);
    World::new(player)
}

#[test]
fn out_of_bounds_actor_takes_fifty_per_tick_and_stays() {
    let mut world = new_world();
    let id = world.issue_id();
    let position = Vec2::new(1500 * UNIT, 0);
    let actor = Actor::new(id, position, 80 * UNIT, 120);
    let ai = Ai::new(WeightedStates::new_idle_wandering(&[0, 0, 1]));
    world.add_ai_actor(actor, ai);

    world.update(16_000);
    assert_eq!(world.get_ai_actors()[0].hp.current(), 70);
    assert_eq!(world.get_ai_actors()[0].movable.position, position);
    world.update(16_000);
    assert_eq!(world.get_ai_actors()[0].hp.current(), 20);
    assert_eq!(world.get_ai_actors()[0].movable.position, position);
    let last = world.get_ai_actors()[0].hp.get_last_modification().unwrap();
    assert_eq!(last.source_origin, OUT_OF_BOUNDS_SRC);
    assert_eq!(last.amount, -50);
    world.update(16_000);
    assert!(world.get_ai_actors().is_empty());
    assert_eq!(world.score, 0);
}

#[test]
fn out_of_bounds_step_leaves_controller_and_player_alone() {
    let mut actor = Actor::new(2, Vec2::new(0, 1200 * UNIT), 80 * UNIT, 200);
    let mut ai = Ai::new(WeightedStates::new_idle_wandering(&[0, 1, 0]));
    let mut player = Player::new(Actor::new(1, Vec2::zero(), 100 * UNIT, 5), 1_000_000);
    let snapshot: Vec<(u64, CdBounds)> = Vec::new();
    let bounds = Rect::new(-1000 * UNIT, -1000 * UNIT, 2000 * UNIT, 2000 * UNIT);
    for k in 1..=4 {
        update_ai_actor(&mut actor, &mut ai, &mut player, &snapshot, &bounds, 2_000_000);
        assert_eq!(actor.hp.current(), 200 - 50 * k);
        assert_eq!(actor.movable.position, Vec2::new(0, 1200 * UNIT));
    }
    assert!(!actor.is_alive());
    assert_eq!(player.actor.hp.current(), 5);
}

#[test]
fn enemy_touching_player_deals_one_damage_per_window() {
    let mut world = new_world();
    let id = world.issue_id();
    let actor = Actor::new(id, Vec2::new(10 * UNIT, 0), 0, 2);
    let ai = Ai::new(WeightedStates::new_idle_wandering(&[1, 0, 0]));
    world.add_ai_actor(actor, ai);

    world.update(100_000);
    assert_eq!(world.get_player().actor.hp.current(), 4);
    assert!(world.get_player().invulnerable);
    world.update(100_000);
    world.update(100_000);
    assert_eq!(world.get_player().actor.hp.current(), 4);
    let hits = world.get_player().actor.hp.modifications.len();
    assert_eq!(hits, 2);
}

#[test]
fn projectile_kill_scores_for_player() {
    let mut world = new_world();
    let id = world.issue_id();
    let actor = Actor::new(id, Vec2::new(200 * UNIT, 0), 0, 1);
    let ai = Ai::new(WeightedStates::new_idle_wandering(&[1, 0, 0]));
    world.add_ai_actor(actor, ai);
    let mut ticks = 0;
    while world.score == 0 {
        world.update(50_000);
        ticks += 1;
        assert!(ticks < 200);
    }
    assert_eq!(world.score, 1);
    assert!(world.get_ai_actors().iter().all(|a| a.get_id() != id));
    assert!(world.get_projectiles().iter().all(|p| p.is_alive));
}

#[test]
fn push_back_uses_last_overlapping_neighbour() {
    let actor = Actor::new(1, Vec2::zero(), 0, 2);
    let snapshot = vec![
        (1, CdBounds::new(Vec2::zero(), 24 * UNIT, 32 * UNIT)),
        (2, CdBounds::new(Vec2::new(10 * UNIT, 0), 24 * UNIT, 32 * UNIT)),
        (3, CdBounds::new(Vec2::new(0, 10 * UNIT), 24 * UNIT, 32 * UNIT)),
        (4, CdBounds::new(Vec2::new(500 * UNIT, 0), 24 * UNIT, 32 * UNIT)),
    ];
    assert_eq!(push_back_impulse(&actor, &snapshot), Some(Vec2::new(0, -120 * UNIT)));
    let alone = vec![(1, CdBounds::new(Vec2::zero(), 24 * UNIT, 32 * UNIT))];
    assert_eq!(push_back_impulse(&actor, &alone), None);
}

#[test]
fn spawn_thresholds_follow_the_table() {
    assert_eq!(spawn_threshold(1), 4_000_000);
    assert_eq!(spawn_threshold(2), 3_000_000);
    assert_eq!(spawn_threshold(4), 2_000_000);
    assert_eq!(spawn_threshold(7), 1_000_000);
    assert_eq!(spawn_threshold(11), 900_000);
    assert_eq!(spawn_threshold(16), 700_000);
    assert_eq!(spawn_threshold(17), 500_000);
}

#[test]
fn spawn_positions_lie_on_the_edges() {
    let b = Rect::new(-1000 * UNIT, -1000 * UNIT, 2000 * UNIT, 2000 * UNIT);
    assert_eq!(spawn_position(&b, 0, 5), Vec2::new(-1000 * UNIT, -1000 * UNIT + 5));
    assert_eq!(spawn_position(&b, 1, 5), Vec2::new(1000 * UNIT, -1000 * UNIT + 5));
    assert_eq!(spawn_position(&b, 2, 5), Vec2::new(-1000 * UNIT + 5, -1000 * UNIT));
    assert_eq!(spawn_position(&b, 3, 5), Vec2::new(-1000 * UNIT + 5, 1000 * UNIT));
}

#[test]
fn spawn_policy_brings_enemies_and_raises_difficulty() {
    let mut world = new_world();
    world.update_spawn_policy(2_000_001);
    assert_eq!(world.get_ai_actors().len(), 1);
    assert_eq!(world.ai_controllers.len(), 1);
    let enemy = &world.get_ai_actors()[0];
    assert_eq!(enemy.get_id(), 2);
    assert!(world.bounds.contains(&enemy.movable.position));
    assert_eq!(enemy.movable.speed, 70 * UNIT);
    world.update_spawn_policy(3_000_000);
    assert_eq!(world.difficulty, 1);
    assert_eq!(world.spawn_timer.threshold, 4_000_000);
}

#[test]
fn mouse_click_moves_player() {
    let mut world = new_world();
    world.on_mouse_button_down(Vec2::new(0, 100 * UNIT));
    assert_eq!(world.get_player().actor.movable.target_position, Some(Vec2::new(0, 100 * UNIT)));
    assert_eq!(world.get_player().actor.movable.velocity, Vec2::new(0, 100 * UNIT));
}

#[test]
fn with_ai_actors_keeps_pairs_together() {
    let world = new_world();
    let pairs = vec![
        (Actor::new(7, Vec2::new(300 * UNIT, 0), 0, 2), Ai::new(WeightedStates::new_idle_wandering(&[1, 5, 7]))),
        (Actor::new(8, Vec2::new(-300 * UNIT, 0), 0, 2), Ai::new(WeightedStates::new_idle_wandering(&[1, 5, 7]))),
    ];
    let world = world.with_ai_actors(pairs);
    assert_eq!(world.get_ai_actors().len(), 2);
    assert_eq!(world.ai_controllers.len(), 2);
    assert_eq!(world.get_ai_actors()[1].get_id(), 8);
}

#[test]
fn particles_expire_in_order() {
    let mut system = ParticleSystem::new();
    let frames = vec![Rect::new(16, 0, 16, 16)];
    system.add_particle(Particle::new(Vec2::zero(), Vec2::zero(), frames.clone(), 300_000));
    system.add_particle(Particle::new(Vec2::new(1, 1), Vec2::new(1000, 0), frames.clone(), 100_000));
    system.add_particle(Particle::new(Vec2::new(2, 2), Vec2::zero(), frames, 500_000));
    system.update(200_000);
    assert_eq!(system.particles.len(), 2);
    assert_eq!(system.particles[0].movable.position, Vec2::zero());
    assert_eq!(system.particles[1].movable.position, Vec2::new(2, 2));
    system.update(200_000);
    assert_eq!(system.particles.len(), 1);
    assert!(system.particles[0].is_alive());
}

#[test]
fn projectile_leaving_the_world_is_dropped() {
    let mut world = new_world();
    let p = Projectile::new(99, 1, Vec2::new(999 * UNIT, 0), Vec2::new(150 * UNIT, 0));
    world.projectiles.push(p);
    world.update(100_000);
    assert!(world.get_projectiles().is_empty());
}

#[test]
fn stage_stack_transitions() {
    let mut stack = StageStack::new().with_stages(vec![Stage::MainMenu]);
    assert_eq!(stack.top(), Some(Stage::MainMenu));
    stack.update(Some(StageAction::StartGame));
    assert_eq!(stack.top(), Some(Stage::Playing));
    stack.update(None);
    assert_eq!(stack.stack.len(), 2);
    stack.update(Some(StageAction::GameOver));
    assert_eq!(stack.top(), Some(Stage::GameOver));
    assert_eq!(stack.stack.len(), 2);
    stack.update(Some(StageAction::EndGame));
    assert_eq!(stack.top(), Some(Stage::MainMenu));
    stack.update(Some(StageAction::GameQuit));
    assert!(stack.is_empty());
}

#[test]
fn projectile_hits_only_the_first_overlapping_enemy() {
    let mut world = new_world();
    let a = world.issue_id();
    let b = world.issue_id();
    world.add_ai_actor(
        Actor::new(a, Vec2::new(100 * UNIT, 0), 0, 3),
        Ai::new(WeightedStates::new_idle_wandering(&[1, 0, 0])),
    );
    world.add_ai_actor(
        Actor::new(b, Vec2::new(100 * UNIT, 0), 0, 3),
        Ai::new(WeightedStates::new_idle_wandering(&[1, 0, 0])),
    );
    world.projectiles.push(Projectile::new(77, 1, Vec2::new(100 * UNIT, 0), Vec2::zero()));
    world.update_projectiles(10_000);
    assert!(!world.get_projectiles()[0].is_alive);
    assert_eq!(world.get_ai_actors()[0].hp.current(), 2);
    assert_eq!(world.get_ai_actors()[1].hp.current(), 3);
    world.update_projectiles(10_000);
    assert_eq!(world.get_ai_actors()[0].hp.current(), 2);
    assert_eq!(world.get_ai_actors()[1].hp.current(), 3);
    let from_77 = world.get_ai_actors()[0].hp.modifications.iter().filter(|m| m.is_of_source(77)).count();
    assert_eq!(from_77, 1);
}
