use battlesnake_logic::board::{Board, Coord, Snake};
use battlesnake_logic::engine::{end, get_move, start, SnakeMode, SnakePersonality};
use battlesnake_logic::grid::Grid;
use battlesnake_logic::history::OpponentHistory;
use battlesnake_logic::moves::{
    decode_action, determine_next_move, resolve_path_move, resolve_policy_action, ActionVector,
    DecisionError, Direction,
};

fn c(x: i32, y: i32) -> Coord {
    Coord { x, y }
}

fn av(dx: i32, dy: i32) -> ActionVector {
    ActionVector { dx, dy }
}

fn snake(id: u64, cells: &[(i32, i32)]) -> Snake {
    let mut body = Vec::new();
    for &(x, y) in cells {
        body.push(c(x, y));
    }
    Snake { id, body }
}

fn board(food: &[(i32, i32)], snakes: Vec<Snake>) -> Board {
    let mut f = Vec::new();
    for &(x, y) in food {
        f.push(c(x, y));
    }
    Board { width: 11, height: 11, food: f, snakes }
}

#[test]
fn decoding_covers_exactly_the_four_units() {
    assert_eq!(decode_action(&av(0, 1)), Ok(Direction::Up));
    assert_eq!(decode_action(&av(0, -1)), Ok(Direction::Down));
    assert_eq!(decode_action(&av(1, 0)), Ok(Direction::Right));
    assert_eq!(decode_action(&av(-1, 0)), Ok(Direction::Left));
    for bad in [av(0, 0), av(1, 1), av(0, 2), av(-2, 0), av(-1, -1), av(2, 2)] {
        assert_eq!(decode_action(&bad), Err(DecisionError::InvalidActionVector));
    }
}

#[test]
fn direction_tokens_match_protocol() {
    assert_eq!(Direction::Up.token(), "up");
    assert_eq!(Direction::Down.token(), "down");
    assert_eq!(Direction::Left.token(), "left");
    assert_eq!(Direction::Right.token(), "right");
}

#[test]
fn policy_resolution_reports_each_failure() {
    assert_eq!(
        resolve_policy_action(None),
        Err(DecisionError::NoPolicyAction)
    );
    assert_eq!(
        resolve_policy_action(Some(av(3, 0))),
        Err(DecisionError::InvalidActionVector)
    );
    assert_eq!(resolve_policy_action(Some(av(0, 1))), Ok(Direction::Up));
}

#[test]
fn open_grid_moves_straight_at_target() {
    let g = Grid::new(11, 11);
    assert_eq!(resolve_path_move(&g, &c(5, 5), &c(5, 3)), Ok(Direction::Down));
    assert_eq!(resolve_path_move(&g, &c(5, 5), &c(8, 5)), Ok(Direction::Right));
    assert_eq!(resolve_path_move(&g, &c(5, 5), &c(0, 5)), Ok(Direction::Left));
    assert_eq!(resolve_path_move(&g, &c(5, 5), &c(5, 9)), Ok(Direction::Up));
}

#[test]
fn blocked_cell_forces_a_detour() {
    // From (0,0) to (2,0) with (1,0) blocked: the only exit is up.
    let mut g = Grid::new(3, 3);
    g.set_blocked(1, 0, true);
    assert_eq!(resolve_path_move(&g, &c(0, 0), &c(2, 0)), Ok(Direction::Up));
}

#[test]
fn surrounded_target_is_unreachable() {
    // Target (2,2) walled off on all four sides.
    let mut g = Grid::new(5, 5);
    g.set_blocked(1, 2, true);
    g.set_blocked(3, 2, true);
    g.set_blocked(2, 1, true);
    g.set_blocked(2, 3, true);
    assert_eq!(
        resolve_path_move(&g, &c(0, 0), &c(2, 2)),
        Err(DecisionError::TargetUnreachable)
    );
}

#[test]
fn target_on_head_is_degenerate() {
    let g = Grid::new(5, 5);
    assert_eq!(
        resolve_path_move(&g, &c(2, 2), &c(2, 2)),
        Err(DecisionError::TargetUnreachable)
    );
}

#[test]
fn resolution_is_repeatable_on_a_static_grid() {
    let mut g = Grid::new(7, 7);
    g.set_blocked(3, 3, true);
    g.set_blocked(3, 4, true);
    let first = resolve_path_move(&g, &c(2, 3), &c(5, 3));
    let second = resolve_path_move(&g, &c(2, 3), &c(5, 3));
    assert_eq!(first, second);
}

#[test]
fn next_move_dispatches_on_personality() {
    let g = Grid::new(11, 11);
    assert_eq!(
        determine_next_move(&SnakePersonality::QLearning, &c(5, 3), &g, &c(5, 5), Some(av(0, 1))),
        Ok(Direction::Up)
    );
    assert_eq!(
        determine_next_move(&SnakePersonality::QLearning, &c(5, 3), &g, &c(5, 5), None),
        Err(DecisionError::NoPolicyAction)
    );
    assert_eq!(
        determine_next_move(&SnakePersonality::Snacky, &c(5, 3), &g, &c(5, 5), None),
        Ok(Direction::Down)
    );
}

#[test]
fn history_ledger_appends_per_opponent() {
    let mut h = OpponentHistory { entries: Vec::new() };
    let b = board(
        &[],
        vec![
            snake(1, &[(5, 5)]),
            snake(7, &[(2, 2), (2, 3)]),
            snake(9, &[(8, 8), (8, 7)]),
        ],
    );
    h.record_turn(0, &b);
    h.record_turn(1, &b);
    assert_eq!(h.entries.len(), 2);
    assert_eq!(h.entries[0].0, 7);
    assert_eq!(h.entries[0].1.moves, vec![(0, c(2, 2)), (1, c(2, 2))]);
    assert_eq!(h.entries[1].0, 9);
    assert_eq!(h.entries[1].1.moves, vec![(0, c(8, 8)), (1, c(8, 8))]);
}

#[test]
fn session_starts_with_an_empty_ledger() {
    let h = start();
    assert_eq!(h.entries.len(), 0);
    end(h);
}

#[test]
fn full_turn_eats_toward_nearest_food() {
    let b = board(&[(5, 7), (5, 4)], vec![snake(1, &[(5, 5)])]);
    let g = Grid::new(11, 11);
    let mut h = start();
    let r = get_move(
        &SnakePersonality::HeadHunter,
        &SnakeMode::Eat,
        &g,
        &b,
        3,
        &mut h,
        None,
    );
    assert_eq!(r, Ok(Direction::Down));
    assert_eq!(h.entries.len(), 0);
}

#[test]
fn full_turn_hunts_nearest_opponent_head() {
    let b = board(
        &[(0, 0)],
        vec![snake(1, &[(5, 5), (5, 6)]), snake(2, &[(5, 3), (5, 2)])],
    );
    let mut g = Grid::new(11, 11);
    // The opponent's body, but not its head, is an obstacle.
    g.set_blocked(5, 2, true);
    let mut h = start();
    let r = get_move(
        &SnakePersonality::HeadHunter,
        &SnakeMode::Kill,
        &g,
        &b,
        0,
        &mut h,
        None,
    );
    assert_eq!(r, Ok(Direction::Down));
    assert_eq!(h.entries.len(), 1);
    assert_eq!(h.entries[0].0, 2);
    assert_eq!(h.entries[0].1.moves, vec![(0, c(5, 3))]);
}

#[test]
fn full_turn_without_target_reports_it() {
    let empty = board(&[], vec![snake(1, &[(5, 5)])]);
    let g = Grid::new(11, 11);
    let mut h = start();
    assert_eq!(
        get_move(&SnakePersonality::Snacky, &SnakeMode::Eat, &g, &empty, 0, &mut h, None),
        Err(DecisionError::NoTargetAvailable)
    );
    assert_eq!(
        get_move(&SnakePersonality::Hungry, &SnakeMode::Eat, &g, &empty, 0, &mut h, None),
        Err(DecisionError::NoTargetAvailable)
    );
}

#[test]
fn full_turn_with_policy_action() {
    let b = board(&[(5, 7)], vec![snake(1, &[(5, 5)])]);
    let g = Grid::new(11, 11);
    let mut h = start();
    assert_eq!(
        get_move(&SnakePersonality::QLearning, &SnakeMode::Eat, &g, &b, 0, &mut h, Some(av(-1, 0))),
        Ok(Direction::Left)
    );
    assert_eq!(
        get_move(&SnakePersonality::QLearning, &SnakeMode::Eat, &g, &b, 1, &mut h, None),
        Err(DecisionError::NoPolicyAction)
    );
    assert_eq!(
        get_move(&SnakePersonality::QLearning, &SnakeMode::Eat, &g, &b, 2, &mut h, Some(av(2, 2))),
        Err(DecisionError::InvalidActionVector)
    );
}
