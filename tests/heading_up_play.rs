use football_engine::geometry::Position;
use football_engine::heading_up_play::{is_under_pressure, ForwardHeadingUpPlayState};
use football_engine::snapshot::{
    ForwardState, GoalPositions, MatchPlayer, PlayerEvent, PlayerSide, TickContext,
};

fn player(id: u32, team_id: u32, x: i16, y: i16, has_ball: bool) -> MatchPlayer {
    MatchPlayer {
        id,
        team_id,
        side: Some(if team_id == 1 { PlayerSide::Left } else { PlayerSide::Right }),
        position: Position::new(x, y, 0),
        has_ball,
        state: ForwardState::HeadingUpPlay,
    }
}

fn context(players: Vec<MatchPlayer>) -> TickContext {
    TickContext {
        players,
        ball_position: Position::new(100, 0, 0),
        goal_positions: GoalPositions {
            left: Position::new(-5000, 0, 0),
            right: Position::new(5000, 0, 0),
        },
        field_width: 10000,
    }
}

/// The carrier at the origin, the ball just ahead of them.
fn carrier() -> MatchPlayer {
    player(1, 1, 0, 0, true)
}

#[test]
fn pass_goes_to_teammate_with_higher_scoring_chance() {
    // B comes first and is nearer the carrier, A stands nearer the goal.
    let b = player(3, 1, 800, -50, false);
    let a = player(2, 1, 1500, 50, false);
    let ctx = context(vec![carrier(), b, a, player(9, 2, -3000, 0, false)]);
    let state = ForwardHeadingUpPlayState::default();
    assert!(state.is_open_for_pass(&ctx, &carrier(), &a));
    assert!(state.is_open_for_pass(&ctx, &carrier(), &b));
    assert!(state.in_passing_lane(&ctx, &carrier(), &a));
    assert!(state.in_passing_lane(&ctx, &carrier(), &b));
    assert_eq!(state.find_best_pass_option(&ctx, &carrier()), Some(2));
}

#[test]
fn equal_scoring_chances_pick_the_first_in_order() {
    let ctx = context(vec![
        carrier(),
        player(4, 1, 1000, 100, false),
        player(5, 1, 1000, -100, false),
    ]);
    let state = ForwardHeadingUpPlayState::default();
    assert_eq!(state.find_best_pass_option(&ctx, &carrier()), Some(4));
}

#[test]
fn pressure_wins_over_support_and_pass() {
    let ctx = context(vec![
        carrier(),
        player(2, 1, 900, 0, false),
        player(9, 2, -300, 0, false),
    ]);
    let state = ForwardHeadingUpPlayState::default();
    assert!(is_under_pressure(&ctx, &carrier()));
    assert!(state.has_support(&ctx, &carrier()));
    assert_eq!(state.find_best_pass_option(&ctx, &carrier()), Some(2));
    let r = state.try_fast(&ctx, &carrier()).unwrap();
    assert_eq!(r.state, Some(ForwardState::Passing));
    assert!(r.events.is_empty());
    assert_eq!(r.move_target, None);
}

#[test]
fn losing_the_ball_means_running() {
    let me = player(1, 1, 0, 0, false);
    let ctx = context(vec![me, player(2, 1, 900, 0, false)]);
    let r = ForwardHeadingUpPlayState::default().try_fast(&ctx, &me).unwrap();
    assert_eq!(r.state, Some(ForwardState::Running));
    assert!(r.events.is_empty());
}

#[test]
fn no_support_means_dribbling() {
    // The only teammate is exactly at the support distance, which is not within it.
    let ctx = context(vec![carrier(), player(2, 1, 1000, 0, false)]);
    let state = ForwardHeadingUpPlayState::default();
    assert!(!state.has_support(&ctx, &carrier()));
    let r = state.try_fast(&ctx, &carrier()).unwrap();
    assert_eq!(r.state, Some(ForwardState::Dribbling));
}

#[test]
fn the_carrier_does_not_support_themself() {
    let ctx = context(vec![carrier()]);
    assert!(!ForwardHeadingUpPlayState::default().has_support(&ctx, &carrier()));
}

#[test]
fn available_pass_is_requested_and_player_runs() {
    let ctx = context(vec![carrier(), player(2, 1, 900, 0, false)]);
    let r = ForwardHeadingUpPlayState::default().try_fast(&ctx, &carrier()).unwrap();
    assert_eq!(r.state, Some(ForwardState::Running));
    assert_eq!(r.events, vec![PlayerEvent::RequestPass(1)]);
    assert_eq!(r.move_target, None);
}

#[test]
fn without_a_pass_the_player_heads_for_the_goal() {
    // The supporting teammate stands behind, out of the passing lane.
    let ctx = context(vec![carrier(), player(2, 1, -900, 0, false)]);
    let state = ForwardHeadingUpPlayState::default();
    assert_eq!(state.find_best_pass_option(&ctx, &carrier()), None);
    let r = state.try_fast(&ctx, &carrier()).unwrap();
    assert_eq!(r.state, None);
    assert!(r.events.is_empty());
    assert_eq!(r.move_target, Some(Position::new(5000, 0, 0)));
}

#[test]
fn right_side_attacks_the_left_goal() {
    let me = player(1, 2, 0, 0, true);
    let ctx = context(vec![me, player(2, 2, -900, 0, false)]);
    let r = ForwardHeadingUpPlayState::default().try_fast(&ctx, &me).unwrap();
    assert_eq!(r.move_target, Some(Position::new(-5000, 0, 0)));
}

#[test]
fn far_or_marked_teammates_are_not_open() {
    let state = ForwardHeadingUpPlayState::default();
    let far = player(2, 1, 2001, 0, false);
    let edge = player(3, 1, 2000, 0, false);
    let ctx = context(vec![carrier(), far, edge]);
    assert!(!state.is_open_for_pass(&ctx, &carrier(), &far));
    assert!(state.is_open_for_pass(&ctx, &carrier(), &edge));
    let marked = player(2, 1, 900, 0, false);
    let ctx = context(vec![carrier(), marked, player(9, 2, 1400, 0, false)]);
    assert!(!state.is_open_for_pass(&ctx, &carrier(), &marked));
    let ctx = context(vec![carrier(), marked, player(9, 2, 1401, 0, false)]);
    assert!(state.is_open_for_pass(&ctx, &carrier(), &marked));
}

#[test]
fn passing_lane_needs_cosine_above_four_fifths() {
    let state = ForwardHeadingUpPlayState::default();
    let ctx = context(vec![carrier()]);
    // cosine exactly 0.8 is not enough
    assert!(!state.in_passing_lane(&ctx, &carrier(), &player(2, 1, 400, 300, false)));
    assert!(state.in_passing_lane(&ctx, &carrier(), &player(2, 1, 400, 299, false)));
    assert!(!state.in_passing_lane(&ctx, &carrier(), &player(2, 1, 0, 500, false)));
    // a teammate on the carrier's own spot has no direction
    assert!(!state.in_passing_lane(&ctx, &carrier(), &player(2, 1, 0, 0, false)));
}

#[test]
fn slow_path_and_velocity_add_nothing() {
    let ctx = context(vec![carrier()]);
    let state = ForwardHeadingUpPlayState::default();
    assert!(state.process_slow(&ctx, &carrier()).is_none());
    assert_eq!(state.velocity(&ctx, &carrier()), Position::zero());
}

#[test]
fn squared_distances_and_dot_products_are_exact() {
    let a = Position::new(-32768, 0, 0);
    let b = Position::new(32767, 32767, -32768);
    assert_eq!(a.distance_squared_to(&b), 65535 * 65535 + 32767 * 32767 + 32768 * 32768);
    let o = Position::new(1, 1, 1);
    assert_eq!(o.dot_from(&Position::new(4, 5, 1), &Position::new(3, -2, 7)), 6 - 12);
    assert!(o.is_aligned(&Position::new(11, 1, 1), &Position::new(21, 2, 1)));
}

#[test]
fn goal_distance_ranks_by_the_attacked_goal() {
    let ctx = context(vec![]);
    let state = ForwardHeadingUpPlayState::default();
    // left side attacks the right goal at (5000, 0, 0)
    assert_eq!(state.goal_distance_squared(&ctx, &player(2, 1, 4000, 300, false)), 1000 * 1000 + 300 * 300);
    // right side attacks the left goal at (-5000, 0, 0)
    assert_eq!(state.goal_distance_squared(&ctx, &player(3, 2, 4000, 0, false)), 9000 * 9000);
    let mut sideless = player(4, 1, 30, 40, false);
    sideless.side = None;
    assert_eq!(state.goal_distance_squared(&ctx, &sideless), 2500);
}
