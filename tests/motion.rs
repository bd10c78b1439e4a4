use kg_g::actor::Actor;
use kg_g::bounds::CdBounds;
use kg_g::geometry::{clamp, div_toward_zero, isqrt, scaled_direction, Rect, Vec2, UNIT};
use kg_g::movable::{Movable, IMPULSE_LIMIT};

const SPEED: i64 = 100 * UNIT;

fn create() -> Actor {
    Actor::new(1, Vec2::zero(), SPEED, 2)
}

#[test]
fn actor_update() {
    let mut actor = create();
    let tp = Vec2::new(6 * UNIT, 6 * UNIT);
    let delta_time: u64 = 10_000;
    let delta_v = scaled_direction(&Vec2::zero(), &tp, SPEED);

    actor.move_to(tp);
    assert_eq!(actor.movable.is_moving(), true);

    actor.update(delta_time);
    assert_eq!(
        actor.movable.position,
        Vec2::new(
            delta_v.x * delta_time as i64 / 1_000_000,
            delta_v.y * delta_time as i64 / 1_000_000
        )
    );

    for _ in 0..9 {
        actor.update(delta_time);
    }

    assert_eq!(actor.movable.is_moving(), false);
    assert_eq!(actor.get_source(), Rect::new(0, 0, 16, 16));
}

#[test]
fn isqrt_exact_values() {
    assert_eq!(isqrt(0), 0);
    assert_eq!(isqrt(1), 1);
    assert_eq!(isqrt(3), 1);
    assert_eq!(isqrt(4), 2);
    assert_eq!(isqrt(72_000_000), 8485);
    assert_eq!(isqrt(u64::MAX), 4_294_967_295);
}

#[test]
fn division_rounds_toward_zero() {
    assert_eq!(div_toward_zero(7, 2), 3);
    assert_eq!(div_toward_zero(-7, 2), -3);
    assert_eq!(clamp(10, 5), 5);
    assert_eq!(clamp(-10, 5), -5);
    assert_eq!(clamp(3, 5), 3);
}

#[test]
fn scaled_direction_values() {
    let v = scaled_direction(&Vec2::zero(), &Vec2::new(6_000, 6_000), SPEED);
    assert_eq!(v, Vec2::new(70_714, 70_714));
    let w = scaled_direction(&Vec2::new(10, 10), &Vec2::new(10, -5_000), 150);
    assert_eq!(w, Vec2::new(0, -150));
}

#[test]
fn move_to_own_position_gives_zero_velocity() {
    let mut actor = Actor::new(3, Vec2::new(500, 500), SPEED, 2);
    actor.move_to(Vec2::new(500, 500));
    assert!(!actor.movable.is_moving());
    assert_eq!(actor.movable.velocity, Vec2::zero());
    assert_eq!(actor.movable.target_position, Some(Vec2::new(500, 500)));
}

#[test]
fn slow_movable_still_heads_for_its_target() {
    let mut m = Movable::new(Vec2::zero(), 1, 0);
    m.set_moving_to(Vec2::new(3, 3));
    assert!(m.is_moving());
    assert_eq!(m.velocity, Vec2::new(1, 1));
}

#[test]
fn odd_sizes_are_refused_and_centres_decide_overlap() {
    let a = CdBounds::new(Vec2::zero(), 2, 0);
    let b = CdBounds::new(Vec2::new(2, 0), 0, 0);
    let c = CdBounds::new(Vec2::new(1, 0), 0, 0);
    assert!(!a.collide_with(&b));
    assert!(a.collide_with(&c));
}

#[test]
fn arrival_shows_the_standing_frame() {
    let mut actor = Actor::new(5, Vec2::zero(), SPEED, 2);
    actor.move_to(Vec2::new(UNIT, 0));
    assert_eq!(actor.animation.frames.list.len(), 4);
    actor.update(10_000);
    assert!(!actor.movable.is_moving());
    assert_eq!(actor.get_source(), Rect::new(0, 0, 16, 16));
    assert_eq!(actor.animation.frames.list.len(), 1);
}

#[test]
fn reach_threshold_is_strict() {
    let mut m = Movable::new(Vec2::zero(), SPEED, 0);
    m.set_moving_to(Vec2::new(3_162, 0));
    // 3162^2 = 9_998_244 < 10_000_000
    assert!(m.has_reached_target_position());
    let mut far = Movable::new(Vec2::zero(), SPEED, 0);
    far.set_moving_to(Vec2::new(3_163, 0));
    // 3163^2 = 10_004_569
    assert!(!far.has_reached_target_position());
    let idle = Movable::new(Vec2::zero(), SPEED, 0);
    assert!(!idle.has_reached_target_position());
}

#[test]
fn arrival_snaps_to_target_and_stops() {
    let mut actor = Actor::new(4, Vec2::zero(), SPEED, 2);
    let target = Vec2::new(10 * UNIT, 0);
    actor.move_to(target);
    let mut ticks = 0;
    while actor.movable.is_moving() {
        actor.update(16_667);
        ticks += 1;
        assert!(ticks < 100);
    }
    assert_eq!(actor.movable.position, target);
    assert_eq!(actor.movable.velocity, Vec2::zero());
    assert_eq!(actor.movable.target_position, None);
}

#[test]
fn impulse_decays_by_friction_and_snaps_to_zero() {
    let mut m = Movable::new(Vec2::zero(), SPEED, 800);
    m.add_impuls(Vec2::new(10_000, 0));
    m.update(0);
    assert_eq!(m.impuls, Vec2::new(8_000, 0));
    m.update(0);
    assert_eq!(m.impuls, Vec2::new(6_400, 0));
    let mut prev = 6_400 * 6_400;
    loop {
        m.update(0);
        let n = m.impuls.x * m.impuls.x + m.impuls.y * m.impuls.y;
        if n == 0 {
            break;
        }
        assert!(n < prev);
        assert!(n > 4_000);
        prev = n;
    }
    // 75 * 0.8 = 60 and 60^2 = 3_600 is below the threshold
    let mut small = Movable::new(Vec2::zero(), SPEED, 800);
    small.add_impuls(Vec2::new(75, 0));
    small.update(0);
    assert_eq!(small.impuls, Vec2::zero());
}

#[test]
fn impulse_is_additive_and_limited() {
    let mut m = Movable::new(Vec2::zero(), SPEED, 800);
    m.add_impuls(Vec2::new(100, -50));
    m.add_impuls(Vec2::new(20, 30));
    assert_eq!(m.impuls, Vec2::new(120, -20));
    m.add_impuls(Vec2::new(IMPULSE_LIMIT, 0));
    assert_eq!(m.impuls.x, IMPULSE_LIMIT);
}

#[test]
fn impulse_moves_position() {
    let mut m = Movable::new(Vec2::zero(), SPEED, 500);
    m.add_impuls(Vec2::new(100_000, 0));
    m.update(1_000_000);
    assert_eq!(m.impuls, Vec2::new(50_000, 0));
    assert_eq!(m.position, Vec2::new(50_000, 0));
}

#[test]
fn bounds_overlap_includes_edges() {
    let a = CdBounds::new(Vec2::zero(), 24_000, 32_000);
    let b = CdBounds::new(Vec2::new(24_000, 0), 24_000, 32_000);
    let c = CdBounds::new(Vec2::new(24_001, 0), 24_000, 32_000);
    assert!(a.collide_with(&b));
    assert!(!a.collide_with(&c));
    assert_eq!(a.get_rect(), Rect::new(-12_000, -16_000, 24_000, 32_000));
}

#[test]
fn rect_contains_includes_edges() {
    let r = Rect::new(-10, -10, 20, 20);
    assert!(r.contains(&Vec2::new(10, 10)));
    assert!(r.contains(&Vec2::new(-10, 0)));
    assert!(!r.contains(&Vec2::new(11, 0)));
}
