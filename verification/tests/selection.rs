use battlesnake_logic::board::{Board, Coord, Snake};
use battlesnake_logic::engine::{SnakeMode, SnakePersonality};
use battlesnake_logic::goal::{determine_goal, find_delicious_food, find_delicious_snake};

fn c(x: i32, y: i32) -> Coord {
    Coord { x, y }
}

fn snake(id: u64, cells: &[(i32, i32)]) -> Snake {
    let mut body = Vec::new();
    for &(x, y) in cells {
        body.push(c(x, y));
    }
    Snake { id, body }
}

fn board(food: &[(i32, i32)], snakes: Vec<Snake>) -> Board {
    let mut f = Vec::new();
    for &(x, y) in food {
        f.push(c(x, y));
    }
    Board { width: 11, height: 11, food: f, snakes }
}

#[test]
fn single_snake_picks_nearest_food() {
    // 11x11 board, single snake at (5,5), food at (5,7) and (5,4):
    // distance 1 beats distance 2.
    let b = board(&[(5, 7), (5, 4)], vec![snake(1, &[(5, 5)])]);
    let r = find_delicious_food(&b, &c(5, 5));
    assert_eq!(r, Some(c(5, 4)));
}

#[test]
fn single_snake_no_food_yields_none() {
    let b = board(&[], vec![snake(1, &[(5, 5)])]);
    assert_eq!(find_delicious_food(&b, &c(5, 5)), None);
}

#[test]
fn single_snake_tie_takes_first_food() {
    let b = board(&[(5, 6), (6, 5), (5, 4)], vec![snake(1, &[(5, 5)])]);
    // (5,6) and (6,5) and (5,4) are all at distance 1; first wins.
    assert_eq!(find_delicious_food(&b, &c(5, 5)), Some(c(5, 6)));
}

#[test]
fn opponent_distance_breaks_exact_ties_only() {
    // Head (5,5), opponent head (5,3). Food (5,6) and (6,5) tie on own
    // distance; the opponent is nearer to (5,6), so (6,5) is selected.
    let b = board(
        &[(5, 6), (6, 5)],
        vec![snake(1, &[(5, 5)]), snake(2, &[(5, 3), (5, 2)])],
    );
    assert_eq!(find_delicious_food(&b, &c(5, 5)), Some(c(6, 5)));
}

#[test]
fn own_distance_dominates_opponent_distance() {
    // Distinct own distances: (5,6) is closer to the agent than (5,2), even
    // though the opponent at (5,3) sits next to (5,2). The tie-break must
    // not trigger.
    let b = board(
        &[(5, 2), (5, 6)],
        vec![snake(1, &[(5, 5)]), snake(2, &[(5, 3), (5, 2)])],
    );
    assert_eq!(find_delicious_food(&b, &c(5, 5)), Some(c(5, 6)));
}

#[test]
fn nearest_opponent_excludes_coincident_head() {
    // Three opponents: one exactly on the head (excluded), then the
    // strictly closest of the rest wins.
    let b = board(
        &[],
        vec![
            snake(1, &[(5, 5)]),
            snake(2, &[(5, 5), (5, 6)]),
            snake(3, &[(5, 8), (5, 9)]),
            snake(4, &[(7, 5), (8, 5)]),
        ],
    );
    assert_eq!(find_delicious_snake(&b, &c(5, 5)), Some(c(7, 5)));
}

#[test]
fn nearest_opponent_tie_takes_first() {
    let b = board(
        &[],
        vec![
            snake(1, &[(5, 5)]),
            snake(2, &[(5, 8), (5, 9)]),
            snake(3, &[(8, 5), (9, 5)]),
        ],
    );
    // Both opponents are at squared distance 9; the first wins.
    assert_eq!(find_delicious_snake(&b, &c(5, 5)), Some(c(5, 8)));
}

#[test]
fn no_live_opponent_yields_none() {
    let only_coincident = board(
        &[],
        vec![snake(1, &[(5, 5)]), snake(2, &[(5, 5), (5, 6)])],
    );
    assert_eq!(find_delicious_snake(&only_coincident, &c(5, 5)), None);

    let alone = board(&[], vec![snake(1, &[(5, 5)])]);
    assert_eq!(find_delicious_snake(&alone, &c(5, 5)), None);
}

#[test]
fn goal_dispatch_follows_personality_and_mode() {
    let b = board(
        &[(5, 4)],
        vec![snake(1, &[(5, 5)]), snake(2, &[(5, 8), (5, 9)])],
    );
    let head = c(5, 5);
    assert_eq!(
        determine_goal(&SnakePersonality::Snacky, &SnakeMode::Eat, &b, &head),
        Some(c(5, 4))
    );
    assert_eq!(
        determine_goal(&SnakePersonality::HeadHunter, &SnakeMode::Eat, &b, &head),
        Some(c(5, 4))
    );
    assert_eq!(
        determine_goal(&SnakePersonality::HeadHunter, &SnakeMode::Kill, &b, &head),
        Some(c(5, 8))
    );
    assert_eq!(
        determine_goal(&SnakePersonality::QLearning, &SnakeMode::Kill, &b, &head),
        Some(c(5, 4))
    );
    assert_eq!(
        determine_goal(&SnakePersonality::Hungry, &SnakeMode::Eat, &b, &head),
        None
    );
    assert_eq!(
        determine_goal(&SnakePersonality::Timid, &SnakeMode::Eat, &b, &head),
        None
    );
}
