use vstd::prelude::*;

use crate::geometry::Position;

verus! {

/// The half of the pitch a player's team defends.
#[derive(Clone, Copy, Debug, PartialEq, Eq, Structural)]
pub enum PlayerSide {
    Left,
    Right,
}

/// The behavioural states of a forward.
#[derive(Clone, Copy, Debug, PartialEq, Eq, Structural)]
pub enum ForwardState {
    Standing,
    Running,
    Dribbling,
    Passing,
    Shooting,
    HeadingUpPlay,
}

/// An intent a player emits for the surrounding match logic to act on.
#[derive(Clone, Copy, Debug, PartialEq, Eq, Structural)]
pub enum PlayerEvent {
    /// The player with this id asks for a pass to be played.
    RequestPass(u32),
}

/// One player as the tick snapshot sees it.
#[derive(Clone, Copy, Debug, PartialEq, Eq, Structural)]
pub struct MatchPlayer {
    pub id: u32,
    pub team_id: u32,
    pub side: Option<PlayerSide>,
    pub position: Position,
    pub has_ball: bool,
    pub state: ForwardState,
}

/// Where the two goals stand.
#[derive(Clone, Copy, Debug, PartialEq, Eq, Structural)]
pub struct GoalPositions {
    pub left: Position,
    pub right: Position,
}

/// The read-only snapshot that every decision of one tick observes.
#[derive(Clone, Debug)]
pub struct TickContext {
    pub players: Vec<MatchPlayer>,
    pub ball_position: Position,
    pub goal_positions: GoalPositions,
    /// Width of the pitch, in centimetres.
    pub field_width: u32,
}

/// What one state evaluation asks for: at most one transition, an optional
/// point to move towards at half the player's acceleration, and the events emitted.
#[derive(Debug)]
pub struct StateChangeResult {
    pub state: Option<ForwardState>,
    pub move_target: Option<Position>,
    pub events: Vec<PlayerEvent>,
}

impl View for StateChangeResult {
    type V = (Option<ForwardState>, Option<Position>, Seq<PlayerEvent>);

    open spec fn view(&self) -> Self::V {
        (self.state, self.move_target, self.events@)
    }
}

impl StateChangeResult {
    /// A result that changes nothing.
    pub fn new() -> (r: StateChangeResult)
        ensures
            r@ == (None::<ForwardState>, None::<Position>, Seq::<PlayerEvent>::empty()),
    {
        StateChangeResult { state: None, move_target: None, events: Vec::new() }
    }

    /// A result that only moves the player into `state`.
    pub fn with_forward_state(state: ForwardState) -> (r: StateChangeResult)
        ensures
            r@ == (Some(state), None::<Position>, Seq::<PlayerEvent>::empty()),
    {
        StateChangeResult { state: Some(state), move_target: None, events: Vec::new() }
    }
}

/// The goal a player on `side` attacks; a player with no side has the origin.
pub open spec fn opponent_goal(goals: GoalPositions, side: Option<PlayerSide>) -> Position {
    match side {
        Some(PlayerSide::Left) => goals.right,
        Some(PlayerSide::Right) => goals.left,
        None => Position { x: 0, y: 0, z: 0 },
    }
}

impl GoalPositions {
    /// The goal that a player on `side` attacks.
    pub fn opponent_goal(&self, side: Option<PlayerSide>) -> (r: Position)
        ensures
            r == opponent_goal(*self, side),
    {
        match side {
            Some(PlayerSide::Left) => self.right,
            Some(PlayerSide::Right) => self.left,
            None => Position::zero(),
        }
    }
}

} // verus!
