//! The weighted-random state machine that steers an enemy actor.

use vstd::prelude::*;
use crate::geometry::{Vec2, Rect, UNIT, point_in_range};
use crate::actor::Actor;
use crate::movable::Movable;
use crate::random::{random_below, RANDOM_LIMIT};
use crate::timer::{Timer, MAX_DURATION};

verus! {

/// Largest sum of the weights of a controller.
pub const MAX_TOTAL_WEIGHT: i32 = 0x20_0000;

/// Shortest interval between two decisions, in microseconds.
pub const MIN_DECISION_INTERVAL: u64 = 500_000;

/// Width of the range of decision intervals, in microseconds.
pub const DECISION_INTERVAL_SPAN: u32 = 1_500_000;

/// Distance kept from the arena's edges by wandering targets.
pub const WANDER_MARGIN: i64 = 32 * UNIT;

#[derive(Clone, Copy, Debug, PartialEq, Eq, Structural)]
pub enum AiState {
    Idle,
    Wandering,
    Following,
}

/// Sum of the weights of a list of weighted states.
pub open spec fn total_weight(s: Seq<(i32, AiState)>) -> int
    decreases s.len(),
{
    if s.len() == 0 {
        0
    } else {
        total_weight(s.drop_last()) + s.last().0
    }
}

/// Weights that are not negative and whose sum can be drawn from.
pub open spec fn weights_valid(s: Seq<(i32, AiState)>) -> bool {
    &&& forall|i: int| 0 <= i < s.len() ==> 0 <= #[trigger] s[i].0
    &&& total_weight(s) <= MAX_TOTAL_WEIGHT
}

/// Index of the entry that the draw `remaining` selects: the weights are
/// subtracted in order until what is left drops below zero; the length of
/// the list when that never happens.
pub open spec fn selected_index(s: Seq<(i32, AiState)>, remaining: int) -> int
    decreases s.len(),
{
    if s.len() == 0 {
        0
    } else if remaining - s[0].0 < 0 {
        0
    } else {
        1 + selected_index(s.drop_first(), remaining - s[0].0)
    }
}

/// The state that the draw `w` selects; `Idle` when the list is exhausted.
pub open spec fn select_state(s: Seq<(i32, AiState)>, w: int) -> AiState {
    let i = selected_index(s, w);
    if i < s.len() {
        s[i].1
    } else {
        AiState::Idle
    }
}

/// A wandering target: inside the arena, at least the margin from its edges.
pub open spec fn wander_target_ok(arena: Rect, p: Vec2) -> bool {
    arena.x + WANDER_MARGIN <= p.x < arena.x + arena.w - WANDER_MARGIN
        && arena.y + WANDER_MARGIN <= p.y < arena.y + arena.h - WANDER_MARGIN
}

/// An arena that wandering targets can be drawn from.
pub open spec fn arena_ok(arena: Rect) -> bool {
    &&& point_in_range(Vec2 { x: arena.x, y: arena.y })
    &&& point_in_range(Vec2 { x: (arena.x + arena.w) as i64, y: (arena.y + arena.h) as i64 })
    &&& 2 * WANDER_MARGIN < arena.w <= 2 * WANDER_MARGIN + RANDOM_LIMIT
    &&& 2 * WANDER_MARGIN < arena.h <= 2 * WANDER_MARGIN + RANDOM_LIMIT
}

/// Sum of the weights of a list, computed in order.
pub fn get_total_weight(states: &Vec<(i32, AiState)>) -> (r: i32)
    requires
        weights_valid(states@),
    ensures
        r == total_weight(states@),
{
    let mut acc: i32 = 0;
    let mut i: usize = 0;
    while i < states.len()
        invariant
            0 <= i <= states@.len(),
            weights_valid(states@),
            acc == total_weight(states@.take(i as int)),
        decreases states@.len() - i,
    {
        proof {
            assert(states@.take(i as int + 1).drop_last() =~= states@.take(i as int));
            lemma_total_weight_prefix(states@, i as int + 1);
        }
        acc = acc + states[i].0;
        i = i + 1;
    }
    assert(states@.take(i as int) =~= states@);
    acc
}

/// The sum of the weights of a prefix is between zero and the whole sum.
pub proof fn lemma_total_weight_prefix(s: Seq<(i32, AiState)>, n: int)
    requires
        0 <= n <= s.len(),
        forall|i: int| 0 <= i < s.len() ==> 0 <= #[trigger] s[i].0,
    ensures
        0 <= total_weight(s.take(n)) <= total_weight(s),
    decreases s.len() - n,
{
    if n < s.len() {
        lemma_total_weight_prefix(s, n + 1);
        assert(s.take(n + 1).drop_last() =~= s.take(n));
        let t = s.take(n);
        assert forall|i: int| 0 <= i < t.len() implies 0 <= #[trigger] t[i].0 by {
            assert(t[i] == s[i]);
        }
        lemma_total_weight_nonneg(t);
    } else {
        assert(s.take(n) =~= s);
        lemma_total_weight_nonneg(s);
    }
}

proof fn lemma_total_weight_nonneg(s: Seq<(i32, AiState)>)
    requires
        forall|i: int| 0 <= i < s.len() ==> 0 <= #[trigger] s[i].0,
    ensures
        0 <= total_weight(s),
    decreases s.len(),
{
    if s.len() > 0 {
        lemma_total_weight_nonneg(s.drop_last());
    }
}

/// A list of states with their weights, and the sum of the weights.
pub struct WeightedStates {
    pub states: Vec<(i32, AiState)>,
    pub total: i32,
}

impl WeightedStates {
    pub open spec fn wf(&self) -> bool {
        weights_valid(self.states@) && self.total == total_weight(self.states@)
    }

    pub fn new(states: Vec<(i32, AiState)>) -> (r: WeightedStates)
        requires
            weights_valid(states@),
        ensures
            r.wf(),
            r.states@ == states@,
    {
        let total = get_total_weight(&states);
        WeightedStates { states, total }
    }

    /// Idle, Wandering and Following, with the given weights in that order.
    pub fn new_idle_wandering(weights: &[i32; 3]) -> (r: WeightedStates)
        requires
            0 <= weights[0],
            0 <= weights[1],
            0 <= weights[2],
            weights[0] + weights[1] + weights[2] <= MAX_TOTAL_WEIGHT,
        ensures
            r.wf(),
            r.states@ == seq![
                (weights[0], AiState::Idle),
                (weights[1], AiState::Wandering),
                (weights[2], AiState::Following),
            ],
    {
        let states = vec![
            (weights[0], AiState::Idle),
            (weights[1], AiState::Wandering),
            (weights[2], AiState::Following),
        ];
        proof {
            let s = states@;
            assert(s.drop_last().drop_last().drop_last() =~= Seq::<(i32, AiState)>::empty());
            let one = s.drop_last().drop_last();
            assert(one.drop_last() =~= Seq::<(i32, AiState)>::empty());
            assert(one.last() == (weights[0], AiState::Idle));
            assert(total_weight(one.drop_last()) == 0);
            assert(total_weight(one) == weights[0]);
            assert(total_weight(s.drop_last()) == weights[0] + weights[1]);
            assert(total_weight(s) == weights[0] + weights[1] + weights[2]);
        }
        Self::new(states)
    }

    /// The state that the draw `weight` selects.
    pub fn get_state_by_weight(&self, weight: i32) -> (r: AiState)
        requires
            self.wf(),
            0 <= weight,
        ensures
            r == select_state(self.states@, weight as int),
    {
        let ghost s = self.states@;
        let mut result: i32 = weight;
        let mut i: usize = 0;
        assert(s.skip(0) =~= s);
        assert(s.take(0) =~= Seq::<(i32, AiState)>::empty());
        while i < self.states.len()
            invariant
                s == self.states@,
                self.wf(),
                0 <= weight,
                0 <= i <= s.len(),
                result == weight - total_weight(s.take(i as int)),
                result >= 0,
                selected_index(s, weight as int) == i + selected_index(s.skip(i as int), result as int),
            decreases s.len() - i,
        {
            proof {
                lemma_total_weight_prefix(s, i as int + 1);
                assert(s.take(i as int + 1).drop_last() =~= s.take(i as int));
                assert(s.take(i as int + 1).last() == s[i as int]);
                assert(total_weight(s.take(i as int + 1)) == total_weight(s.take(i as int)) + s[i as int].0);
                assert(s.skip(i as int).drop_first() =~= s.skip(i as int + 1));
            }
            let (w, st) = self.states[i];
            assert(w == s[i as int].0);
            assert(0 <= total_weight(s.take(i as int + 1)) <= MAX_TOTAL_WEIGHT);
            assert(result - w == weight - total_weight(s.take(i as int + 1)));
            result = result - w;
            if result < 0 {
                return st;
            }
            i = i + 1;
        }
        AiState::Idle
    }

    /// Draws a state with probability proportional to its weight; `Idle`
    /// when all weights are zero.
    pub fn get_next_state(&self) -> (r: AiState)
        requires
            self.wf(),
        ensures
            self.total == 0 ==> r == AiState::Idle,
            self.total > 0 ==> exists|d: int| 0 <= d < self.total && r == select_state(self.states@, d),
            self.total > 0 ==> exists|i: int|
                0 <= i < self.states@.len() && self.states@[i].0 > 0 && r == #[trigger] self.states@[i].1,
    {
        if self.total <= 0 {
            return AiState::Idle;
        }
        let d = random_below(self.total as u32);
        proof {
            lemma_selection_interval(self.states@, d as int);
            let i = selected_index(self.states@, d as int);
            lemma_total_weight_prefix(self.states@, i + 1);
            assert(self.states@.take(i + 1).drop_last() =~= self.states@.take(i));
            assert(self.states@.take(i + 1).last() == self.states@[i]);
        }
        self.get_state_by_weight(d as i32)
    }
}

/// Every draw below the total selects an entry of the list: entry `i` is
/// selected by exactly the draws in `[P(i), P(i+1))`, where `P(i)` is the sum
/// of the first `i` weights. So each entry is selected by as many draws as
/// its weight, and an entry of weight zero by none.
pub proof fn lemma_selection_interval(s: Seq<(i32, AiState)>, d: int)
    requires
        weights_valid(s),
        0 <= d < total_weight(s),
    ensures
        ({
            let i = selected_index(s, d);
            &&& 0 <= i < s.len()
            &&& total_weight(s.take(i)) <= d < total_weight(s.take(i + 1))
            &&& select_state(s, d) == s[i].1
        }),
{
    assert(s.skip(0) =~= s);
    assert(s.take(0) =~= Seq::<(i32, AiState)>::empty());
    if s.len() == 0 {
        assert(false);
    }
    lemma_selection_interval_from(s, d, 0);
}

proof fn lemma_selection_interval_from(s: Seq<(i32, AiState)>, d: int, k: int)
    requires
        weights_valid(s),
        0 <= k < s.len(),
        0 <= d < total_weight(s),
        total_weight(s.take(k)) <= d,
        selected_index(s, d) == k + selected_index(s.skip(k), d - total_weight(s.take(k))),
    ensures
        ({
            let i = selected_index(s, d);
            &&& 0 <= i < s.len()
            &&& total_weight(s.take(i)) <= d < total_weight(s.take(i + 1))
        }),
    decreases s.len() - k,
{
    let rem = d - total_weight(s.take(k));
    assert(s.take(k + 1).drop_last() =~= s.take(k));
    assert(s.skip(k)[0] == s[k]);
    if rem - s[k].0 < 0 {
        assert(selected_index(s.skip(k), rem) == 0);
    } else {
        assert(s.skip(k).drop_first() =~= s.skip(k + 1));
        if k + 1 == s.len() {
            assert(s.take(k + 1) =~= s);
            assert(false);
        }
        lemma_selection_interval_from(s, d, k + 1);
    }
}

/// A controller: its state, its weights and the timer of its next decision.
pub struct Ai {
    pub state: AiState,
    pub weighted_states: WeightedStates,
    pub timer: Timer,
}

/// A decision interval: a repeating timer of half a second up to two.
pub open spec fn decision_timer_ok(t: Timer) -> bool {
    &&& t.repeat
    &&& t.elapsed == 0
    &&& !t.just_over
    &&& MIN_DECISION_INTERVAL <= t.threshold < MIN_DECISION_INTERVAL + DECISION_INTERVAL_SPAN
}

/// A uniformly drawn decision timer.
fn random_decision_timer() -> (r: Timer)
    ensures
        decision_timer_ok(r),
        r.wf(),
{
    let d = random_below(DECISION_INTERVAL_SPAN);
    Timer::new(MIN_DECISION_INTERVAL + d as u64)
}

/// A uniformly drawn wandering target in `arena`.
fn random_wander_target(arena: &Rect) -> (r: Vec2)
    requires
        arena_ok(*arena),
    ensures
        wander_target_ok(*arena, r),
        point_in_range(r),
{
    let dx = random_below((arena.w - 2 * WANDER_MARGIN) as u32);
    let dy = random_below((arena.h - 2 * WANDER_MARGIN) as u32);
    Vec2::new(arena.x + WANDER_MARGIN + dx as i64, arena.y + WANDER_MARGIN + dy as i64)
}

impl Ai {
    pub open spec fn wf(&self) -> bool {
        self.weighted_states.wf() && self.timer.wf() && self.timer.repeat
    }

    /// What entering `state` does to the actor: following heads once for
    /// where the player stands now, wandering heads for `wander_target`, and
    /// idling stops.
    pub open spec fn commanded(actor: Actor, state: AiState, player_position: Vec2, wander_target: Vec2) -> Movable {
        match state {
            AiState::Following => Movable {
                velocity: actor.movable.velocity_toward(player_position),
                facing: actor.movable.velocity_toward(player_position),
                target_position: Some(player_position),
                ..actor.movable
            },
            AiState::Wandering => Movable {
                velocity: actor.movable.velocity_toward(wander_target),
                facing: actor.movable.velocity_toward(wander_target),
                target_position: Some(wander_target),
                ..actor.movable
            },
            AiState::Idle => Movable {
                velocity: Vec2 { x: 0, y: 0 },
                target_position: None,
                ..actor.movable
            },
        }
    }

    pub fn new(weighted_states: WeightedStates) -> (r: Ai)
        requires
            weighted_states.wf(),
        ensures
            r.wf(),
            r.state == AiState::Idle,
            r.weighted_states.states@ == weighted_states.states@,
            decision_timer_ok(r.timer),
    {
        Ai { state: AiState::Idle, timer: random_decision_timer(), weighted_states }
    }

    pub fn refresh_timer(&mut self)
        requires
            old(self).wf(),
        ensures
            final(self).wf(),
            final(self).state == old(self).state,
            final(self).weighted_states.states@ == old(self).weighted_states.states@,
            final(self).weighted_states.total == old(self).weighted_states.total,
            decision_timer_ok(final(self).timer),
    {
        self.timer = random_decision_timer();
    }

    /// Enters `state` with the given wandering target and next decision
    /// interval, and commands the actor accordingly.
    pub fn apply_state(
        &mut self,
        state: AiState,
        actor: &mut Actor,
        player_position: Vec2,
        wander_target: Vec2,
        interval: u64,
    )
        requires
            old(self).wf(),
            old(actor).wf(),
            point_in_range(player_position),
            point_in_range(wander_target),
            interval <= MAX_DURATION,
        ensures
            final(self).wf(),
            final(self).state == state,
            final(self).weighted_states.states@ == old(self).weighted_states.states@,
            final(self).weighted_states.total == old(self).weighted_states.total,
            final(self).timer == Timer::new_spec(interval),
            final(actor).wf(),
            final(actor).id == old(actor).id,
            final(actor).hp == old(actor).hp,
            final(actor).cd_bounds == old(actor).cd_bounds,
            final(actor).movable == Ai::commanded(*old(actor), state, player_position, wander_target),
    {
        self.state = state;
        match state {
            AiState::Following => {
                actor.move_to(player_position);
            },
            AiState::Wandering => {
                actor.move_to(wander_target);
            },
            AiState::Idle => {
                actor.stop();
            },
        }
        self.timer = Timer::new(interval);
    }

    /// Enters `state`: draws a wandering target in `arena` and a new decision
    /// interval, and commands the actor.
    pub fn set_state(&mut self, state: AiState, actor: &mut Actor, player_actor: &Actor, arena: &Rect)
        requires
            old(self).wf(),
            old(actor).wf(),
            player_actor.wf(),
            arena_ok(*arena),
        ensures
            final(self).wf(),
            final(self).state == state,
            final(self).weighted_states.states@ == old(self).weighted_states.states@,
            final(self).weighted_states.total == old(self).weighted_states.total,
            decision_timer_ok(final(self).timer),
            final(actor).wf(),
            final(actor).id == old(actor).id,
            final(actor).hp == old(actor).hp,
            final(actor).cd_bounds == old(actor).cd_bounds,
            exists|t: Vec2|
                wander_target_ok(*arena, t) && final(actor).movable == Ai::commanded(
                    *old(actor),
                    state,
                    player_actor.movable.position,
                    t,
                ),
    {
        let target = random_wander_target(arena);
        let interval = random_decision_timer().threshold;
        self.apply_state(state, actor, player_actor.movable.position, target, interval);
    }

    /// What one tick of a controller does: when the decision timer fires or
    /// the actor's animation has ended, a state is drawn by weight and
    /// entered, with a fresh decision interval; otherwise the timer advances
    /// and the actor is left as it is.
    pub open spec fn update_post(
        old_ai: Ai,
        new_ai: Ai,
        old_actor: Actor,
        new_actor: Actor,
        player_position: Vec2,
        arena: Rect,
        dt: u64,
    ) -> bool {
        let t = old_ai.timer.step(dt);
        &&& new_ai.wf()
        &&& new_ai.weighted_states.states@ == old_ai.weighted_states.states@
        &&& new_ai.weighted_states.total == old_ai.weighted_states.total
        &&& new_actor.wf()
        &&& new_actor.id == old_actor.id
        &&& new_actor.hp == old_actor.hp
        &&& new_actor.cd_bounds == old_actor.cd_bounds
        &&& if t.just_over || old_actor.animation.frames.finished() {
            &&& decision_timer_ok(new_ai.timer)
            &&& (old_ai.weighted_states.total == 0 ==> new_ai.state == AiState::Idle)
            &&& (old_ai.weighted_states.total > 0 ==> exists|d: int|
                0 <= d < old_ai.weighted_states.total && new_ai.state == select_state(
                    old_ai.weighted_states.states@,
                    d,
                ))
            &&& exists|w: Vec2|
                wander_target_ok(arena, w) && new_actor.movable == Ai::commanded(
                    old_actor,
                    new_ai.state,
                    player_position,
                    w,
                )
        } else {
            &&& new_ai.timer == t
            &&& new_ai.state == old_ai.state
            &&& new_actor == old_actor
        }
    }

    /// One tick of the controller: see `update_post`.
    pub fn update(&mut self, dt: u64, actor: &mut Actor, player_actor: &Actor, arena: &Rect)
        requires
            old(self).wf(),
            old(actor).wf(),
            player_actor.wf(),
            arena_ok(*arena),
            dt <= MAX_DURATION,
        ensures
            Ai::update_post(*old(self), *final(self), *old(actor), *final(actor), player_actor.movable.position, *arena, dt),
    {
        self.timer.update(dt);
        if self.timer.is_just_over() || actor.animation.is_finished() {
            let next = self.weighted_states.get_next_state();
            self.set_state(next, actor, player_actor, arena);
        }
    }
}

} // verus!
