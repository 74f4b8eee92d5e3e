use vstd::prelude::*;

use crate::geometry::Position;
use crate::heading_up_play::{
    best_pass_option, goal_distance2, has_support, heading_up_play_outcome, is_best_pass,
    is_pass_candidate, lemma_best_pass_unique, marks, open_for_pass, presses, supports,
    under_pressure,
    ForwardHeadingUpPlayState,
};
use crate::snapshot::{ForwardState, MatchPlayer, PlayerEvent, StateChangeResult, TickContext};

verus! {

/// What one player's evaluation yields on the snapshot: a player heading up play
/// is evaluated by that state; the other states make no decision here.
pub open spec fn player_outcome(ctx: TickContext, p: MatchPlayer) -> (
    Option<ForwardState>,
    Option<Position>,
    Seq<PlayerEvent>,
) {
    if p.state == ForwardState::HeadingUpPlay {
        heading_up_play_outcome(ctx, p)
    } else {
        (None, None, Seq::empty())
    }
}

/// The state a player holds on the next tick.
pub open spec fn next_state(ctx: TickContext, p: MatchPlayer) -> ForwardState {
    match player_outcome(ctx, p).0 {
        Some(s) => s,
        None => p.state,
    }
}

/// The events of the first `n` players, in snapshot order.
pub open spec fn tick_events(ctx: TickContext, n: nat) -> Seq<PlayerEvent>
    decreases n,
{
    if n == 0 {
        Seq::empty()
    } else {
        tick_events(ctx, (n - 1) as nat) + player_outcome(ctx, ctx.players@[n - 1]).2
    }
}

/// The whole tick: every player's next state and movement target, and all
/// events in snapshot order.
pub open spec fn tick_outcome(ctx: TickContext) -> (
    Seq<ForwardState>,
    Seq<Option<Position>>,
    Seq<PlayerEvent>,
) {
    (
        Seq::new(ctx.players@.len(), |i: int| next_state(ctx, ctx.players@[i])),
        Seq::new(ctx.players@.len(), |i: int| player_outcome(ctx, ctx.players@[i]).1),
        tick_events(ctx, ctx.players@.len()),
    )
}

/// The committed result of one tick, index by index in snapshot order.
#[derive(Debug)]
pub struct TickResult {
    pub states: Vec<ForwardState>,
    pub move_targets: Vec<Option<Position>>,
    pub events: Vec<PlayerEvent>,
}

impl View for TickResult {
    type V = (Seq<ForwardState>, Seq<Option<Position>>, Seq<PlayerEvent>);

    open spec fn view(&self) -> Self::V {
        (self.states@, self.move_targets@, self.events@)
    }
}

/// Evaluates one player on the snapshot: the fast path first, the slow path only
/// when the fast one yields nothing.
pub fn evaluate_player(ctx: &TickContext, player: &MatchPlayer) -> (r: Option<StateChangeResult>)
    ensures
        match r {
            Some(res) => res@ == player_outcome(*ctx, *player),
            None => player_outcome(*ctx, *player) == (
                None::<ForwardState>,
                None::<Position>,
                Seq::<PlayerEvent>::empty(),
            ),
        },
{
    match player.state {
        ForwardState::HeadingUpPlay => {
            let state = ForwardHeadingUpPlayState {};
            match state.try_fast(ctx, player) {
                Some(res) => Some(res),
                None => state.process_slow(ctx, player),
            }
        },
        _ => None,
    }
}

/// Runs one tick: every player is evaluated on the same snapshot, and the
/// transitions, movement targets and events are collected in snapshot order.
/// The snapshot itself is never changed; the new states are for the next tick.
pub fn process_tick(ctx: &TickContext) -> (r: TickResult)
    ensures
        r@ == tick_outcome(*ctx),
{
    let n = ctx.players.len();
    let mut states: Vec<ForwardState> = Vec::new();
    let mut move_targets: Vec<Option<Position>> = Vec::new();
    let mut events: Vec<PlayerEvent> = Vec::new();
    let mut i: usize = 0;
    while i < n
        invariant
            n == ctx.players@.len(),
            i <= n,
            states@ =~= tick_outcome(*ctx).0.subrange(0, i as int),
            move_targets@ =~= tick_outcome(*ctx).1.subrange(0, i as int),
            events@ == tick_events(*ctx, i as nat),
        decreases n - i,
    {
        let player = &ctx.players[i];
        match evaluate_player(ctx, player) {
            Some(res) => {
                let mut res = res;
                match res.state {
                    Some(s) => states.push(s),
                    None => states.push(player.state),
                }
                move_targets.push(res.move_target);
                events.append(&mut res.events);
            },
            None => {
                states.push(player.state);
                move_targets.push(None);
            },
        }
        i = i + 1;
        assert(events@ =~= tick_events(*ctx, i as nat));
    }
    TickResult { states, move_targets, events }
}

/// The two snapshots differ at most in the players' behavioural states.
pub open spec fn same_but_states(a: TickContext, b: TickContext) -> bool {
    &&& a.ball_position == b.ball_position
    &&& a.goal_positions == b.goal_positions
    &&& a.field_width == b.field_width
    &&& a.players@.len() == b.players@.len()
    &&& forall|j: int|
        0 <= j < a.players@.len() ==> {
            let (x, y) = (#[trigger] a.players@[j], b.players@[j]);
            &&& x.id == y.id
            &&& x.team_id == y.team_id
            &&& x.side == y.side
            &&& x.position == y.position
            &&& x.has_ball == y.has_ball
        }
}

/// A player's decision does not depend on the behavioural state of any player,
/// its own excepted: whatever transitions the others take in a tick, and in
/// whatever order they are committed, the decision is the one taken on the
/// snapshot. So each player's transition (at most one, the `Option` of its
/// outcome) takes effect only from the next tick, and the tick's new state is
/// either the old one or that transition.
pub proof fn lemma_transitions_take_effect_next_tick(
    ctx: TickContext,
    other: TickContext,
    p: MatchPlayer,
)
    requires
        same_but_states(ctx, other),
    ensures
        player_outcome(other, p) == player_outcome(ctx, p),
        next_state(ctx, p) == p.state || player_outcome(ctx, p).0 == Some(next_state(ctx, p)),
{
    let n = ctx.players@.len();
    assert forall|j: int| 0 <= j < n implies (presses(p, ctx.players@[j]) == presses(
        p,
        other.players@[j],
    ) && supports(p, ctx.players@[j]) == supports(p, other.players@[j])) by {
        let _ = ctx.players@[j];
    }
    assert(under_pressure(ctx, p) == under_pressure(other, p));
    assert(has_support(ctx, p) == has_support(other, p));
    lemma_same_but_states_symmetric(ctx, other);
    assert forall|b: int| #[trigger]
        is_best_pass(ctx, p, b) == is_best_pass(other, p, b) by {
        if is_best_pass(ctx, p, b) {
            lemma_best_pass_ignores_states(ctx, other, p, b);
        }
        if is_best_pass(other, p, b) {
            lemma_best_pass_ignores_states(other, ctx, p, b);
        }
    }
    if exists|b: int| is_best_pass(ctx, p, b) {
        let b = choose|b: int| is_best_pass(ctx, p, b);
        let c = choose|c: int| is_best_pass(other, p, c);
        assert(is_best_pass(other, p, b));
        assert(is_best_pass(ctx, p, c));
        lemma_best_pass_unique(ctx, p, b, c);
        let _ = ctx.players@[b];
    } else if exists|c: int| is_best_pass(other, p, c) {
        let c = choose|c: int| is_best_pass(other, p, c);
        assert(is_best_pass(ctx, p, c));
    }
}

proof fn lemma_same_but_states_symmetric(a: TickContext, b: TickContext)
    requires
        same_but_states(a, b),
    ensures
        same_but_states(b, a),
{
    assert forall|j: int| 0 <= j < b.players@.len() implies {
        let (x, y) = (#[trigger] b.players@[j], a.players@[j]);
        &&& x.id == y.id
        &&& x.team_id == y.team_id
        &&& x.side == y.side
        &&& x.position == y.position
        &&& x.has_ball == y.has_ball
    } by {
        let _ = a.players@[j];
    }
}

proof fn lemma_best_pass_ignores_states(
    ctx: TickContext,
    other: TickContext,
    p: MatchPlayer,
    b: int,
)
    requires
        same_but_states(ctx, other),
        is_best_pass(ctx, p, b),
    ensures
        is_best_pass(other, p, b),
{
    let n = ctx.players@.len();
    lemma_candidate_ignores_states(ctx, other, p, b);
    assert forall|j: int|
        0 <= j < n && #[trigger] is_pass_candidate(other, p, other.players@[j]) implies goal_distance2(
        other,
        other.players@[b],
    ) <= goal_distance2(other, other.players@[j]) by {
        lemma_candidate_ignores_states(ctx, other, p, j);
    }
    assert forall|j: int|
        0 <= j < b && #[trigger] is_pass_candidate(other, p, other.players@[j]) implies goal_distance2(
        other,
        other.players@[b],
    ) < goal_distance2(other, other.players@[j]) by {
        lemma_candidate_ignores_states(ctx, other, p, j);
    }
}

proof fn lemma_candidate_ignores_states(ctx: TickContext, other: TickContext, p: MatchPlayer, j: int)
    requires
        same_but_states(ctx, other),
        0 <= j < ctx.players@.len(),
    ensures
        is_pass_candidate(ctx, p, ctx.players@[j]) == is_pass_candidate(
            other,
            p,
            other.players@[j],
        ),
        goal_distance2(ctx, ctx.players@[j]) == goal_distance2(other, other.players@[j]),
{
    let t = ctx.players@[j];
    let u = other.players@[j];
    let n = ctx.players@.len();
    if open_for_pass(ctx, p, t) {
        assert forall|k: int| 0 <= k < n implies !#[trigger] marks(p, u, other.players@[k]) by {
            assert(!marks(p, t, ctx.players@[k]));
        }
    }
    if open_for_pass(other, p, u) {
        assert forall|k: int| 0 <= k < n implies !#[trigger] marks(p, t, ctx.players@[k]) by {
            assert(!marks(p, u, other.players@[k]));
        }
    }
}

/// A forward heading up play with the ball and an opponent within the pressure
/// distance moves to Passing, whatever support or pass is available.
pub proof fn lemma_pressure_means_passing(ctx: TickContext, p: MatchPlayer)
    requires
        p.state == ForwardState::HeadingUpPlay,
        p.has_ball,
        under_pressure(ctx, p),
    ensures
        next_state(ctx, p) == ForwardState::Passing,
        player_outcome(ctx, p).2 == Seq::<PlayerEvent>::empty(),
{
}

/// The same snapshot gives the same tick, states, movement targets and events alike.
pub proof fn lemma_tick_deterministic(a: TickContext, b: TickContext)
    requires
        a == b,
    ensures
        tick_outcome(a) == tick_outcome(b),
{
}

} // verus!
