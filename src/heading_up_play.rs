use vstd::prelude::*;

use crate::geometry::{aligned_from, dist2, Position};
use crate::snapshot::{
    opponent_goal, ForwardState, MatchPlayer, PlayerEvent, StateChangeResult, TickContext,
};

verus! {

/// A teammate closer than this (in centimetres) counts as support.
pub const SUPPORT_DISTANCE: i64 = 1000;

/// An opponent closer than this (in centimetres) puts a player under pressure.
pub const PRESSURE_DISTANCE: i64 = 500;

/// The longest pass (in centimetres) a forward heading up play considers.
pub const MAX_PASS_DISTANCE: i64 = 2000;

/// A receiver is open when every opponent is farther than this (in centimetres).
pub const PASS_CLEARANCE: i64 = 500;

/// `q` plays in `p`'s team and is not `p`.
pub open spec fn is_teammate(p: MatchPlayer, q: MatchPlayer) -> bool {
    q.team_id == p.team_id && q.id != p.id
}

/// `q` plays against `p`.
pub open spec fn is_opponent(p: MatchPlayer, q: MatchPlayer) -> bool {
    q.team_id != p.team_id
}

/// `q` is a teammate of `p` within the support distance.
pub open spec fn supports(p: MatchPlayer, q: MatchPlayer) -> bool {
    is_teammate(p, q) && dist2(p.position, q.position) < SUPPORT_DISTANCE * SUPPORT_DISTANCE
}

/// `q` is an opponent of `p` within the pressure distance.
pub open spec fn presses(p: MatchPlayer, q: MatchPlayer) -> bool {
    is_opponent(p, q) && dist2(p.position, q.position) < PRESSURE_DISTANCE * PRESSURE_DISTANCE
}

pub open spec fn has_support(ctx: TickContext, p: MatchPlayer) -> bool {
    exists|j: int| 0 <= j < ctx.players@.len() && #[trigger] supports(p, ctx.players@[j])
}

pub open spec fn under_pressure(ctx: TickContext, p: MatchPlayer) -> bool {
    exists|j: int| 0 <= j < ctx.players@.len() && #[trigger] presses(p, ctx.players@[j])
}

/// `q` is an opponent of `p` close enough to `t` to cut out a pass to it.
pub open spec fn marks(p: MatchPlayer, t: MatchPlayer, q: MatchPlayer) -> bool {
    is_opponent(p, q) && dist2(q.position, t.position) <= PASS_CLEARANCE * PASS_CLEARANCE
}

/// `t` is within passing range of `p` and no opponent of `p` is near `t`.
pub open spec fn open_for_pass(ctx: TickContext, p: MatchPlayer, t: MatchPlayer) -> bool {
    &&& dist2(p.position, t.position) <= MAX_PASS_DISTANCE * MAX_PASS_DISTANCE
    &&& forall|j: int| 0 <= j < ctx.players@.len() ==> !#[trigger] marks(p, t, ctx.players@[j])
}

/// The direction from `p` to `t` is within the passing cone around the direction
/// from `p` to the ball.
pub open spec fn in_passing_lane(ctx: TickContext, p: MatchPlayer, t: MatchPlayer) -> bool {
    aligned_from(p.position, ctx.ball_position, t.position)
}

pub open spec fn is_pass_candidate(ctx: TickContext, p: MatchPlayer, t: MatchPlayer) -> bool {
    is_teammate(p, t) && open_for_pass(ctx, p, t) && in_passing_lane(ctx, p, t)
}

/// Squared distance from `t` to the goal it attacks. The scoring chance
/// `1 - distance / field_width` of a pitch of positive width is higher exactly
/// when this is lower.
pub open spec fn goal_distance2(ctx: TickContext, t: MatchPlayer) -> int {
    dist2(t.position, opponent_goal(ctx.goal_positions, t.side))
}

/// Index `b` holds a pass candidate with the highest scoring chance, and the
/// first such one in snapshot order.
pub open spec fn is_best_pass(ctx: TickContext, p: MatchPlayer, b: int) -> bool {
    &&& 0 <= b < ctx.players@.len()
    &&& is_pass_candidate(ctx, p, ctx.players@[b])
    &&& forall|j: int|
        0 <= j < ctx.players@.len() && #[trigger] is_pass_candidate(ctx, p, ctx.players@[j])
            ==> goal_distance2(ctx, ctx.players@[b]) <= goal_distance2(ctx, ctx.players@[j])
    &&& forall|j: int|
        0 <= j < b && #[trigger] is_pass_candidate(ctx, p, ctx.players@[j])
            ==> goal_distance2(ctx, ctx.players@[b]) < goal_distance2(ctx, ctx.players@[j])
}

/// The id of the teammate `p` should pass to, if any.
pub open spec fn best_pass_option(ctx: TickContext, p: MatchPlayer) -> Option<u32> {
    if exists|b: int| is_best_pass(ctx, p, b) {
        Some(ctx.players@[choose|b: int| is_best_pass(ctx, p, b)].id)
    } else {
        None
    }
}

/// What a forward heading up play decides on the snapshot: the transition, the
/// point to move towards, and the events emitted.
pub open spec fn heading_up_play_outcome(ctx: TickContext, p: MatchPlayer) -> (
    Option<ForwardState>,
    Option<Position>,
    Seq<PlayerEvent>,
) {
    if !p.has_ball {
        (Some(ForwardState::Running), None, Seq::empty())
    } else if under_pressure(ctx, p) {
        (Some(ForwardState::Passing), None, Seq::empty())
    } else if !has_support(ctx, p) {
        (Some(ForwardState::Dribbling), None, Seq::empty())
    } else if best_pass_option(ctx, p) is Some {
        (Some(ForwardState::Running), None, seq![PlayerEvent::RequestPass(p.id)])
    } else {
        (None, Some(opponent_goal(ctx.goal_positions, p.side)), Seq::empty())
    }
}

/// There is at most one best pass.
pub proof fn lemma_best_pass_unique(ctx: TickContext, p: MatchPlayer, a: int, b: int)
    requires
        is_best_pass(ctx, p, a),
        is_best_pass(ctx, p, b),
    ensures
        a == b,
{
    if a < b {
        assert(is_pass_candidate(ctx, p, ctx.players@[a]));
    } else if b < a {
        assert(is_pass_candidate(ctx, p, ctx.players@[b]));
    }
}

/// Index `b` is the best pass among the first `k` players.
pub open spec fn is_best_pass_below(ctx: TickContext, p: MatchPlayer, b: int, k: int) -> bool {
    &&& 0 <= b < k <= ctx.players@.len()
    &&& is_pass_candidate(ctx, p, ctx.players@[b])
    &&& forall|j: int|
        0 <= j < k && #[trigger] is_pass_candidate(ctx, p, ctx.players@[j])
            ==> goal_distance2(ctx, ctx.players@[b]) <= goal_distance2(ctx, ctx.players@[j])
    &&& forall|j: int|
        0 <= j < b && #[trigger] is_pass_candidate(ctx, p, ctx.players@[j])
            ==> goal_distance2(ctx, ctx.players@[b]) < goal_distance2(ctx, ctx.players@[j])
}

proof fn lemma_best_pass_below_exists(ctx: TickContext, p: MatchPlayer, k: int, c: int)
    requires
        0 <= c < k <= ctx.players@.len(),
        is_pass_candidate(ctx, p, ctx.players@[c]),
    ensures
        exists|b: int| is_best_pass_below(ctx, p, b, k),
    decreases k,
{
    let last = k - 1;
    if c == last && !(exists|j: int|
        0 <= j < last && #[trigger] is_pass_candidate(ctx, p, ctx.players@[j])) {
        assert(is_best_pass_below(ctx, p, last, k));
    } else {
        let c2 = if c < last {
            c
        } else {
            choose|j: int| 0 <= j < last && #[trigger] is_pass_candidate(ctx, p, ctx.players@[j])
        };
        lemma_best_pass_below_exists(ctx, p, last, c2);
        let b = choose|b: int| is_best_pass_below(ctx, p, b, last);
        if is_pass_candidate(ctx, p, ctx.players@[last]) && goal_distance2(
            ctx,
            ctx.players@[last],
        ) < goal_distance2(ctx, ctx.players@[b]) {
            assert(is_best_pass_below(ctx, p, last, k));
        } else {
            assert(is_best_pass_below(ctx, p, b, k));
        }
    }
}

/// Whenever some teammate is open and in the passing lane, a pass is chosen.
pub proof fn lemma_candidate_gives_pass(ctx: TickContext, p: MatchPlayer, c: int)
    requires
        0 <= c < ctx.players@.len(),
        is_pass_candidate(ctx, p, ctx.players@[c]),
    ensures
        best_pass_option(ctx, p) is Some,
{
    lemma_best_pass_below_exists(ctx, p, ctx.players@.len() as int, c);
    let b = choose|b: int| is_best_pass_below(ctx, p, b, ctx.players@.len() as int);
    assert(is_best_pass(ctx, p, b));
}

/// Of two open teammates in the passing lane, the one with the higher scoring
/// chance (the one nearer the goal it attacks) is preferred: the other is never
/// the chosen pass, and when they are the only such teammates the first is chosen.
pub proof fn lemma_higher_scoring_chance_preferred(ctx: TickContext, p: MatchPlayer, a: int, b: int)
    requires
        0 <= a < ctx.players@.len(),
        0 <= b < ctx.players@.len(),
        is_pass_candidate(ctx, p, ctx.players@[a]),
        is_pass_candidate(ctx, p, ctx.players@[b]),
        goal_distance2(ctx, ctx.players@[a]) < goal_distance2(ctx, ctx.players@[b]),
    ensures
        best_pass_option(ctx, p) is Some,
        !is_best_pass(ctx, p, b),
        (forall|j: int|
            0 <= j < ctx.players@.len() && j != a && j != b ==> !#[trigger] is_pass_candidate(
                ctx,
                p,
                ctx.players@[j],
            )) ==> best_pass_option(ctx, p) == Some(ctx.players@[a].id),
{
    lemma_candidate_gives_pass(ctx, p, a);
    let c = choose|c: int| is_best_pass(ctx, p, c);
    if forall|j: int|
        0 <= j < ctx.players@.len() && j != a && j != b ==> !#[trigger] is_pass_candidate(
            ctx,
            p,
            ctx.players@[j],
        ) {
        assert(c == a);
    }
}

/// Whether an opponent is within the pressure distance of `player`.
pub fn is_under_pressure(ctx: &TickContext, player: &MatchPlayer) -> (r: bool)
    ensures
        r == under_pressure(*ctx, *player),
{
    let n = ctx.players.len();
    let mut i: usize = 0;
    while i < n
        invariant
            n == ctx.players@.len(),
            i <= n,
            forall|j: int| 0 <= j < i ==> !#[trigger] presses(*player, ctx.players@[j]),
        decreases n - i,
    {
        let q = &ctx.players[i];
        if q.team_id != player.team_id
            && player.position.distance_squared_to(&q.position) < PRESSURE_DISTANCE
            * PRESSURE_DISTANCE {
            assert(presses(*player, ctx.players@[i as int]));
            return true;
        }
        i = i + 1;
    }
    false
}

/// The state of a forward who has the ball and carries it up the pitch.
#[derive(Default, Debug)]
pub struct ForwardHeadingUpPlayState {}

impl ForwardHeadingUpPlayState {
    /// The fast, rule-based evaluation: losing the ball means running, pressure
    /// means passing, no support means dribbling, an available pass is requested,
    /// and otherwise the player moves towards the goal it attacks.
    pub fn try_fast(&self, ctx: &TickContext, player: &MatchPlayer) -> (r: Option<
        StateChangeResult,
    >)
        ensures
            r matches Some(res) && res@ == heading_up_play_outcome(*ctx, *player),
    {
        if !player.has_ball {
            return Some(StateChangeResult::with_forward_state(ForwardState::Running));
        }
        if is_under_pressure(ctx, player) {
            return Some(StateChangeResult::with_forward_state(ForwardState::Passing));
        }
        if !self.has_support(ctx, player) {
            return Some(StateChangeResult::with_forward_state(ForwardState::Dribbling));
        }
        if self.find_best_pass_option(ctx, player).is_some() {
            let mut result = StateChangeResult::with_forward_state(ForwardState::Running);
            result.events.push(PlayerEvent::RequestPass(player.id));
            assert(result.events@ =~= seq![PlayerEvent::RequestPass(player.id)]);
            return Some(result);
        }
        let mut result = StateChangeResult::new();
        result.move_target = Some(ctx.goal_positions.opponent_goal(player.side));
        Some(result)
    }

    /// The heavier evaluation; this state has nothing to add to the fast one.
    pub fn process_slow(&self, ctx: &TickContext, player: &MatchPlayer) -> (r: Option<
        StateChangeResult,
    >)
        ensures
            r is None,
    {
        None
    }

    /// The state's own movement contribution: none.
    pub fn velocity(&self, ctx: &TickContext, player: &MatchPlayer) -> (r: Position)
        ensures
            r == (Position { x: 0, y: 0, z: 0 }),
    {
        Position::zero()
    }

    /// Whether a teammate stands within the support distance.
    pub fn has_support(&self, ctx: &TickContext, player: &MatchPlayer) -> (r: bool)
        ensures
            r == has_support(*ctx, *player),
    {
        let n = ctx.players.len();
        let mut i: usize = 0;
        while i < n
            invariant
                n == ctx.players@.len(),
                i <= n,
                forall|j: int| 0 <= j < i ==> !#[trigger] supports(*player, ctx.players@[j]),
            decreases n - i,
        {
            let q = &ctx.players[i];
            if q.team_id == player.team_id && q.id != player.id
                && player.position.distance_squared_to(&q.position) < SUPPORT_DISTANCE
                * SUPPORT_DISTANCE {
                assert(supports(*player, ctx.players@[i as int]));
                return true;
            }
            i = i + 1;
        }
        false
    }

    /// The id of the open teammate in the passing lane with the highest scoring
    /// chance; among equals, the first in snapshot order.
    pub fn find_best_pass_option(&self, ctx: &TickContext, player: &MatchPlayer) -> (r: Option<
        u32,
    >)
        ensures
            r == best_pass_option(*ctx, *player),
            r is None <==> forall|j: int|
                0 <= j < ctx.players@.len() ==> !#[trigger] is_pass_candidate(
                    *ctx,
                    *player,
                    ctx.players@[j],
                ),
    {
        match self.find_best_pass_index(ctx, player) {
            Some(b) => {
                proof {
                    let c = choose|c: int| is_best_pass(*ctx, *player, c);
                    lemma_best_pass_unique(*ctx, *player, b as int, c);
                }
                Some(ctx.players[b].id)
            },
            None => {
                assert forall|b: int| !is_best_pass(*ctx, *player, b) by {
                    if 0 <= b < ctx.players@.len() {
                        assert(!is_pass_candidate(*ctx, *player, ctx.players@[b]));
                    }
                }
                None
            },
        }
    }

    fn find_best_pass_index(&self, ctx: &TickContext, player: &MatchPlayer) -> (r: Option<usize>)
        ensures
            r matches Some(b) ==> is_best_pass(*ctx, *player, b as int),
            r is None ==> forall|j: int|
                0 <= j < ctx.players@.len() ==> !#[trigger] is_pass_candidate(
                    *ctx,
                    *player,
                    ctx.players@[j],
                ),
    {
        let n = ctx.players.len();
        let mut best: Option<usize> = None;
        let mut best_distance: i64 = 0;
        let mut i: usize = 0;
        while i < n
            invariant
                n == ctx.players@.len(),
                i <= n,
                best is None ==> forall|j: int|
                    0 <= j < i ==> !#[trigger] is_pass_candidate(*ctx, *player, ctx.players@[j]),
                best matches Some(b) ==> {
                    &&& b < i
                    &&& is_pass_candidate(*ctx, *player, ctx.players@[b as int])
                    &&& best_distance == goal_distance2(*ctx, ctx.players@[b as int])
                    &&& forall|j: int|
                        0 <= j < i && #[trigger] is_pass_candidate(*ctx, *player, ctx.players@[j])
                            ==> best_distance <= goal_distance2(*ctx, ctx.players@[j])
                    &&& forall|j: int|
                        0 <= j < b && #[trigger] is_pass_candidate(*ctx, *player, ctx.players@[j])
                            ==> best_distance < goal_distance2(*ctx, ctx.players@[j])
                },
            decreases n - i,
        {
            let t = &ctx.players[i];
            if t.team_id == player.team_id && t.id != player.id && self.is_open_for_pass(
                ctx,
                player,
                t,
            ) && self.in_passing_lane(ctx, player, t) {
                let d = self.goal_distance_squared(ctx, t);
                match best {
                    None => {
                        best = Some(i);
                        best_distance = d;
                    },
                    Some(_) => {
                        if d < best_distance {
                            best = Some(i);
                            best_distance = d;
                        }
                    },
                }
            }
            i = i + 1;
        }
        best
    }

    /// The key that ranks pass receivers by scoring chance: the squared distance
    /// from `teammate` to the goal it attacks, lower meaning a higher chance.
    pub fn goal_distance_squared(&self, ctx: &TickContext, teammate: &MatchPlayer) -> (r: i64)
        ensures
            r == goal_distance2(*ctx, *teammate),
    {
        let goal = ctx.goal_positions.opponent_goal(teammate.side);
        teammate.position.distance_squared_to(&goal)
    }

    /// Whether `teammate` is within passing range and clear of every opponent.
    pub fn is_open_for_pass(&self, ctx: &TickContext, player: &MatchPlayer, teammate: &MatchPlayer) -> (r: bool)
        ensures
            r == open_for_pass(*ctx, *player, *teammate),
    {
        if player.position.distance_squared_to(&teammate.position) > MAX_PASS_DISTANCE
            * MAX_PASS_DISTANCE {
            return false;
        }
        let n = ctx.players.len();
        let mut i: usize = 0;
        while i < n
            invariant
                n == ctx.players@.len(),
                i <= n,
                forall|j: int| 0 <= j < i ==> !#[trigger] marks(*player, *teammate, ctx.players@[j]),
            decreases n - i,
        {
            let q = &ctx.players[i];
            if q.team_id != player.team_id && q.position.distance_squared_to(&teammate.position)
                <= PASS_CLEARANCE * PASS_CLEARANCE {
                assert(marks(*player, *teammate, ctx.players@[i as int]));
                return false;
            }
            i = i + 1;
        }
        true
    }

    /// Whether `teammate` lies in the passing lane: the cosine between the
    /// directions from the player to the ball and to the teammate exceeds four fifths.
    pub fn in_passing_lane(&self, ctx: &TickContext, player: &MatchPlayer, teammate: &MatchPlayer) -> (r: bool)
        ensures
            r == in_passing_lane(*ctx, *player, *teammate),
    {
        player.position.is_aligned(&ctx.ball_position, &teammate.position)
    }
}

} // verus!
