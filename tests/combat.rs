use kg_g::actor::Actor;
use kg_g::damage::{Hp, HpModification};
use kg_g::geometry::{Vec2, UNIT};
use kg_g::player::{find_nearest_enemy, Player};
use kg_g::projectile::{spawn_projectile_from_actor, Projectile, PROJECTILE_SPEED};

#[test]
fn ledger_sums_its_entries() {
    let mut hp = Hp::new(5);
    assert_eq!(hp.current(), 5);
    assert!(hp.is_alive());
    hp.modify(7, 3, -2);
    hp.modify(8, 3, 4);
    hp.modify(9, 4, -7);
    let sum: i64 = hp.modifications.iter().map(|m| m.amount).sum();
    assert_eq!(hp.current(), sum);
    assert_eq!(hp.current(), 0);
    assert!(!hp.is_alive());
    assert_eq!(hp.get_last_modification(), Some(HpModification::new(9, 4, -7)));
    assert!(hp.has_been_modified_by_source(8));
    assert!(!hp.has_been_modified_by_source(10));
}

#[test]
fn projectile_hits_an_actor_once() {
    let mut actor = Actor::new(2, Vec2::zero(), 0, 3);
    let mut p = Projectile::new(40, 1, Vec2::zero(), Vec2::new(PROJECTILE_SPEED, 0));
    assert!(p.is_alive);
    p.apply(&mut actor);
    assert!(!p.is_alive);
    assert_eq!(actor.hp.current(), 2);
    p.apply(&mut actor);
    p.apply(&mut actor);
    assert_eq!(actor.hp.current(), 2);
    let from_p = actor.hp.modifications.iter().filter(|m| m.is_of_source(40)).count();
    assert_eq!(from_p, 1);
    assert_eq!(actor.hp.get_last_modification().unwrap().source_origin, 1);
}

#[test]
fn projectile_flies_toward_target() {
    let p = spawn_projectile_from_actor(10, 1, &Vec2::zero(), &Vec2::new(0, -100 * UNIT));
    assert_eq!(p.movable.velocity, Vec2::new(0, -PROJECTILE_SPEED));
    assert_eq!(p.movable.position, Vec2::new(0, -32 * UNIT));
    assert_eq!(p.get_id(), 10);
    assert_eq!(p.origin, 1);
}

#[test]
fn player_fires_at_nearest_enemy() {
    let player_actor = Actor::new(1, Vec2::zero(), 100 * UNIT, 5);
    let mut player = Player::new(player_actor, 1_000_000);
    // squared distances 100 and 25 (world units)
    let far = Actor::new(2, Vec2::new(10 * UNIT, 0), 0, 2);
    let near = Actor::new(3, Vec2::new(0, 5 * UNIT), 0, 2);
    let enemies = vec![far, near];
    let mut projectiles: Vec<Projectile> = Vec::new();
    let mut next_id: u64 = 50;

    player.update(500_000, &mut projectiles, &enemies, &mut next_id);
    assert!(projectiles.is_empty());

    player.update(600_000, &mut projectiles, &enemies, &mut next_id);
    assert_eq!(projectiles.len(), 1);
    assert_eq!(projectiles[0].movable.velocity, Vec2::new(0, PROJECTILE_SPEED));
    assert_eq!(projectiles[0].get_id(), 50);
    assert_eq!(projectiles[0].origin, 1);
    assert_eq!(next_id, 51);
    assert!(!player.projectile_timer.is_over());
}

#[test]
fn nearest_enemy_skips_dead_and_prefers_first_of_equals() {
    let mut dead = Actor::new(2, Vec2::new(UNIT, 0), 0, 1);
    dead.hp.modify(9, 9, -1);
    let a = Actor::new(3, Vec2::new(0, 4 * UNIT), 0, 1);
    let b = Actor::new(4, Vec2::new(4 * UNIT, 0), 0, 1);
    let enemies = vec![dead, a, b];
    assert_eq!(find_nearest_enemy(&enemies, &Vec2::zero()), Some(1));
    let none: Vec<Actor> = Vec::new();
    assert_eq!(find_nearest_enemy(&none, &Vec2::zero()), None);
}

#[test]
fn player_without_enemies_keeps_trying() {
    let mut player = Player::new(Actor::new(1, Vec2::zero(), 0, 5), 100_000);
    let mut projectiles: Vec<Projectile> = Vec::new();
    let mut next_id: u64 = 5;
    let empty: Vec<Actor> = Vec::new();
    player.update(200_000, &mut projectiles, &empty, &mut next_id);
    assert!(player.projectile_timer.is_over());
    player.update(16_000, &mut projectiles, &empty, &mut next_id);
    assert!(projectiles.is_empty());
    let enemies = vec![Actor::new(2, Vec2::new(UNIT, 0), 0, 2)];
    player.update(16_000, &mut projectiles, &enemies, &mut next_id);
    assert_eq!(projectiles.len(), 1);
}

#[test]
fn invulnerability_window_ignores_hits() {
    let mut player = Player::new(Actor::new(1, Vec2::zero(), 0, 5), 1_000_000);
    let mut projectiles: Vec<Projectile> = Vec::new();
    let mut next_id: u64 = 5;
    let empty: Vec<Actor> = Vec::new();

    player.modify_hp(7, -1);
    assert!(player.invulnerable);
    assert_eq!(player.actor.hp.current(), 4);
    player.modify_hp(8, -1);
    assert_eq!(player.actor.hp.current(), 4);
    assert!(player.actor.hp.has_been_modified_by_source(7));
    assert!(!player.actor.hp.has_been_modified_by_source(8));

    player.update(300_000, &mut projectiles, &empty, &mut next_id);
    player.modify_hp(7, -1);
    assert_eq!(player.actor.hp.current(), 4);

    player.update(300_000, &mut projectiles, &empty, &mut next_id);
    assert!(!player.invulnerable);
    player.modify_hp(7, -1);
    assert_eq!(player.actor.hp.current(), 3);
    assert_eq!(player.actor.hp.modifications.len(), 3);
}
