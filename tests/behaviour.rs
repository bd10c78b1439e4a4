use kg_g::actor::Actor;
use kg_g::ai::{Ai, AiState, WeightedStates, MIN_DECISION_INTERVAL, DECISION_INTERVAL_SPAN};
use kg_g::geometry::{Rect, Vec2, UNIT};

fn arena() -> Rect {
    Rect::new(-1000 * UNIT, -1000 * UNIT, 2000 * UNIT, 2000 * UNIT)
}

#[test]
fn selection_by_weight_walks_the_list() {
    let ws = WeightedStates::new_idle_wandering(&[1, 5, 30]);
    assert_eq!(ws.total, 36);
    assert_eq!(ws.get_state_by_weight(0), AiState::Idle);
    assert_eq!(ws.get_state_by_weight(1), AiState::Wandering);
    assert_eq!(ws.get_state_by_weight(5), AiState::Wandering);
    assert_eq!(ws.get_state_by_weight(6), AiState::Following);
    assert_eq!(ws.get_state_by_weight(35), AiState::Following);
    assert_eq!(ws.get_state_by_weight(36), AiState::Idle);
    let two = WeightedStates::new_idle_wandering(&[1, 1, 0]);
    assert_eq!(two.get_state_by_weight(0), AiState::Idle);
    assert_eq!(two.get_state_by_weight(1), AiState::Wandering);
}

#[test]
fn selection_counts_over_all_draws() {
    let ws = WeightedStates::new_idle_wandering(&[100, 200, 700]);
    let mut counts = [0usize; 3];
    for d in 0..ws.total {
        match ws.get_state_by_weight(d) {
            AiState::Idle => counts[0] += 1,
            AiState::Wandering => counts[1] += 1,
            AiState::Following => counts[2] += 1,
        }
    }
    assert_eq!(counts, [100, 200, 700]);
}

#[test]
fn drawn_states_follow_their_weights() {
    let ws = WeightedStates::new_idle_wandering(&[100, 200, 700]);
    let n = 20_000;
    let mut counts = [0usize; 3];
    for _ in 0..n {
        match ws.get_next_state() {
            AiState::Idle => counts[0] += 1,
            AiState::Wandering => counts[1] += 1,
            AiState::Following => counts[2] += 1,
        }
    }
    let expected = [0.1f64, 0.2, 0.7];
    for i in 0..3 {
        let freq = counts[i] as f64 / n as f64;
        assert!((freq - expected[i]).abs() < 0.03, "state {} frequency {}", i, freq);
    }
}

#[test]
fn zero_weights_fall_back_to_idle() {
    let ws = WeightedStates::new_idle_wandering(&[0, 0, 0]);
    assert_eq!(ws.total, 0);
    for _ in 0..10 {
        assert_eq!(ws.get_next_state(), AiState::Idle);
    }
}

#[test]
fn following_only_weights_always_follow() {
    let ws = WeightedStates::new_idle_wandering(&[0, 0, 1]);
    assert_eq!(ws.total, 1);
    assert_eq!(ws.get_state_by_weight(0), AiState::Following);
    for _ in 0..20 {
        assert_eq!(ws.get_next_state(), AiState::Following);
    }
}

#[test]
fn following_only_controller_follows_after_its_timer_fires() {
    let mut ai = Ai::new(WeightedStates::new_idle_wandering(&[0, 0, 1]));
    let mut enemy = Actor::new(2, Vec2::zero(), 70 * UNIT, 2);
    enemy.move_to(Vec2::new(UNIT, UNIT));
    let player = Actor::new(1, Vec2::new(100 * UNIT, 0), 100 * UNIT, 5);
    ai.update(2_100_000, &mut enemy, &player, &arena());
    assert_eq!(ai.state, AiState::Following);
    assert_eq!(enemy.movable.target_position, Some(Vec2::new(100 * UNIT, 0)));
    assert_eq!(enemy.movable.velocity, Vec2::new(70 * UNIT, 0));
}

#[test]
fn decision_interval_is_drawn_in_range() {
    for _ in 0..200 {
        let ai = Ai::new(WeightedStates::new_idle_wandering(&[1, 5, 30]));
        let t = ai.timer.threshold;
        assert!(t >= MIN_DECISION_INTERVAL);
        assert!(t < MIN_DECISION_INTERVAL + DECISION_INTERVAL_SPAN as u64);
        assert_eq!(ai.state, AiState::Idle);
    }
}

#[test]
fn following_targets_player_snapshot_once() {
    let mut ai = Ai::new(WeightedStates::new_idle_wandering(&[0, 0, 1]));
    let mut actor = Actor::new(2, Vec2::new(100 * UNIT, 0), 80 * UNIT, 2);
    let mut player = Actor::new(1, Vec2::zero(), 100 * UNIT, 5);
    ai.apply_state(AiState::Following, &mut actor, player.movable.position, Vec2::zero(), 1_000_000);
    assert_eq!(ai.state, AiState::Following);
    assert_eq!(actor.movable.target_position, Some(Vec2::zero()));
    assert_eq!(actor.movable.velocity, Vec2::new(-80 * UNIT, 0));

    // The player moves; until the next decision the actor keeps its target.
    player.movable.position = Vec2::new(0, 50 * UNIT);
    ai.update(100_000, &mut actor, &player, &arena());
    assert_eq!(actor.movable.target_position, Some(Vec2::zero()));
    assert_eq!(ai.state, AiState::Following);
}

#[test]
fn wandering_target_stays_inside_the_arena() {
    let a = arena();
    for _ in 0..50 {
        let mut ai = Ai::new(WeightedStates::new_idle_wandering(&[0, 1, 0]));
        let mut actor = Actor::new(2, Vec2::zero(), 80 * UNIT, 2);
        let player = Actor::new(1, Vec2::zero(), 100 * UNIT, 5);
        ai.set_state(AiState::Wandering, &mut actor, &player, &a);
        let t = actor.movable.target_position.unwrap();
        assert!(t.x >= a.x + 32 * UNIT && t.x < a.x + a.w - 32 * UNIT);
        assert!(t.y >= a.y + 32 * UNIT && t.y < a.y + a.h - 32 * UNIT);
    }
}

#[test]
fn idle_state_stops_the_actor() {
    let mut ai = Ai::new(WeightedStates::new_idle_wandering(&[1, 0, 0]));
    let mut actor = Actor::new(2, Vec2::zero(), 80 * UNIT, 2);
    actor.move_to(Vec2::new(UNIT * 50, 0));
    ai.apply_state(AiState::Idle, &mut actor, Vec2::zero(), Vec2::zero(), 700_000);
    assert!(!actor.movable.is_moving());
    assert_eq!(actor.movable.target_position, None);
    assert_eq!(ai.timer.threshold, 700_000);
}
