//! The per-turn decision entry points: the personality and mode the engine
//! branches on, session bookkeeping, and the function that turns a board
//! snapshot into one cardinal move.

use vstd::prelude::*;

use crate::board::{coord_in, lemma_coord_in_bounded, Board, Coord};
use crate::goal::{
    chosen_food_index, chosen_opponent_index, determine_goal, food_target_ok, goal_spec,
    opponent_target_ok,
};
use crate::grid::Grid;
use crate::history::{record_all, OpponentHistory};
use crate::moves::{determine_next_move, next_move_spec, ActionVector, DecisionError, Direction};

verus! {

/// The fixed behavioural strategy assigned to the agent for a game.
#[derive(Clone, Copy, PartialEq, Eq, Structural, Debug)]
pub enum SnakePersonality {
    /// Eats food no matter what (no behaviour defined yet).
    Hungry,
    /// Avoids snakes at all costs (no behaviour defined yet).
    Timid,
    /// Hunts other snakes' heads, or eats, depending on the current mode.
    HeadHunter,
    /// Eats food when it is safe to do so.
    Snacky,
    /// Follows a learned policy toward the nearest food.
    QLearning,
}

/// The short-term behavioural state, recomputed each turn by an external
/// classifier; only consulted when the personality is `HeadHunter`.
#[derive(Clone, Copy, PartialEq, Eq, Structural, Debug)]
pub enum SnakeMode {
    Eat,
    Kill,
}

/// Begin a game session: a fresh opponent-history ledger scoped to this
/// session alone.
pub fn start() -> (h: OpponentHistory)
    ensures
        h.wf(),
        h.ledger() == Seq::<(u64, Seq<(u32, Coord)>)>::empty(),
{
    OpponentHistory::new()
}

/// Finish a game session. The session's ledger is surrendered and dropped;
/// nothing is kept across games.
pub fn end(_history: OpponentHistory) {
}

/// The whole turn as a single mathematical value: the selected target fed to
/// the selected resolution strategy, or `NoTargetAvailable` when selection
/// yields nothing.
pub open spec fn get_move_spec(
    p: SnakePersonality,
    m: SnakeMode,
    grid: Grid,
    board: Board,
    action: Option<ActionVector>,
) -> Result<Direction, DecisionError> {
    match goal_spec(p, m, board, board.head_spec()) {
        None => Err(DecisionError::NoTargetAvailable),
        Some(t) => next_move_spec(p, t, grid, board.head_spec(), action),
    }
}

/// One turn of the decision engine: record every opponent's head in the
/// session ledger, select a target for the personality and mode, and resolve
/// it into one cardinal move. Every failure is an explicit error the caller
/// may answer with a safe default move.
///
/// The grid is the traversability view of the same board, built by the
/// caller with bodies and hazards already marked; for `QLearning` the caller
/// supplies the action it queried from the learned policy.
pub fn get_move(
    personality: &SnakePersonality,
    mode: &SnakeMode,
    grid: &Grid,
    board: &Board,
    turn: u32,
    history: &mut OpponentHistory,
    policy_action: Option<ActionVector>,
) -> (r: Result<Direction, DecisionError>)
    requires
        board.wf(),
        grid.wf(),
        grid.width as int == board.width as int,
        grid.height as int == board.height as int,
        old(history).wf(),
    ensures
        final(history).wf(),
        final(history).ledger() == record_all(
            old(history).ledger(),
            *board,
            turn,
            board.snakes@.len() as int,
        ),
        r == get_move_spec(*personality, *mode, *grid, *board, policy_action),
        (r == Err::<Direction, DecisionError>(DecisionError::NoTargetAvailable)) <==> goal_spec(
            *personality,
            *mode,
            *board,
            board.head_spec(),
        ) is None,
{
    proof {
        assert(board.snakes@[0].wf(board.width as int, board.height as int));
        lemma_coord_in_bounded(board.head_spec(), board.width as int, board.height as int);
    }
    let you = &board.snakes[0];
    let head = you.body[0];
    history.record_turn(turn, board);
    let target = determine_goal(personality, mode, board, &head);
    match target {
        None => Err(DecisionError::NoTargetAvailable),
        Some(goal) => {
            proof {
                if food_target_ok(*board, head, Some(goal)) {
                    let i = choose|i: int|
                        #[trigger] chosen_food_index(*board, head, i) && goal == board.food@[i];
                    assert(coord_in(board.food@[i], board.width as int, board.height as int));
                } else {
                    assert(opponent_target_ok(*board, head, Some(goal)));
                    let i = choose|i: int|
                        #[trigger] chosen_opponent_index(*board, head, i) && goal
                            == board.opponents()[i].head_spec();
                    assert(board.opponents()[i] == board.snakes@[i + 1]);
                    assert(board.snakes@[i + 1].wf(board.width as int, board.height as int));
                }
                assert(coord_in(goal, grid.width as int, grid.height as int));
            }
            determine_next_move(personality, &goal, grid, &head, policy_action)
        },
    }
}

} // verus!
