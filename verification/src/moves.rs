//! Move resolution: turn the selected target into one cardinal direction,
//! either by decoding the learned policy's action vector or by taking the
//! first step of a shortest path over the traversability grid. Every failure
//! is an explicit error; nothing here panics.

use vstd::prelude::*;

use crate::board::{coord_in, Coord};
use crate::engine::SnakePersonality;
use crate::grid::{manhattan, route_of, run_astar, Grid};

verus! {

/// One cardinal move, the engine's only externally observable output.
#[derive(Clone, Copy, PartialEq, Eq, Structural, Debug)]
pub enum Direction {
    Up,
    Down,
    Left,
    Right,
}

/// A unit displacement recommended by the learned policy; any value other
/// than the four cardinal units is invalid.
#[derive(Clone, Copy, PartialEq, Eq, Structural, Debug)]
pub struct ActionVector {
    pub dx: i32,
    pub dy: i32,
}

/// Why a turn produced no move. Each variant is recoverable: the caller may
/// substitute a safe default rather than abort the turn.
#[derive(Clone, Copy, PartialEq, Eq, Structural, Debug)]
pub enum DecisionError {
    /// Target selection found no valid food or opponent.
    NoTargetAvailable,
    /// The shortest-path search found no path, or a degenerate one.
    TargetUnreachable,
    /// The learned policy returned no action for the state.
    NoPolicyAction,
    /// The returned action vector is not one of the four unit directions.
    InvalidActionVector,
}

impl Direction {
    /// The move token the game protocol expects.
    pub fn token(&self) -> (r: &'static str)
        ensures
            *self == Direction::Up ==> r@ == "up"@,
            *self == Direction::Down ==> r@ == "down"@,
            *self == Direction::Left ==> r@ == "left"@,
            *self == Direction::Right ==> r@ == "right"@,
    {
        match self {
            Direction::Up => "up",
            Direction::Down => "down",
            Direction::Left => "left",
            Direction::Right => "right",
        }
    }
}

/// The exact decoding table: (0,1) up, (0,-1) down, (1,0) right, (-1,0)
/// left, and everything else invalid.
pub open spec fn decode_action_spec(v: ActionVector) -> Result<Direction, DecisionError> {
    if v.dx == 0 && v.dy == 1 {
        Ok(Direction::Up)
    } else if v.dx == 0 && v.dy == -1 {
        Ok(Direction::Down)
    } else if v.dx == 1 && v.dy == 0 {
        Ok(Direction::Right)
    } else if v.dx == -1 && v.dy == 0 {
        Ok(Direction::Left)
    } else {
        Err(DecisionError::InvalidActionVector)
    }
}

/// Decode an action vector. Decoding is total and exhaustive over the four
/// valid vectors, and rejects every other vector.
pub fn decode_action(v: &ActionVector) -> (r: Result<Direction, DecisionError>)
    ensures
        r == decode_action_spec(*v),
        (r is Ok) <==> ((v.dx == 0 && v.dy == 1) || (v.dx == 0 && v.dy == -1) || (v.dx == 1
            && v.dy == 0) || (v.dx == -1 && v.dy == 0)),
        (r is Err) ==> r == Err::<Direction, DecisionError>(DecisionError::InvalidActionVector),
{
    if v.dx == 0 && v.dy == 1 {
        Ok(Direction::Up)
    } else if v.dx == 0 && v.dy == -1 {
        Ok(Direction::Down)
    } else if v.dx == 1 && v.dy == 0 {
        Ok(Direction::Right)
    } else if v.dx == -1 && v.dy == 0 {
        Ok(Direction::Left)
    } else {
        Err(DecisionError::InvalidActionVector)
    }
}

/// What the learned-policy strategy yields for a queried action.
pub open spec fn policy_move_spec(action: Option<ActionVector>) -> Result<
    Direction,
    DecisionError,
> {
    match action {
        None => Err(DecisionError::NoPolicyAction),
        Some(v) => decode_action_spec(v),
    }
}

/// Resolve the action the learned policy returned: no action at all, an
/// invalid vector, and a valid vector each get their exact outcome.
pub fn resolve_policy_action(action: Option<ActionVector>) -> (r: Result<
    Direction,
    DecisionError,
>)
    ensures
        r == policy_move_spec(action),
        (r is Ok) <==> (action matches Some(v) && decode_action_spec(v) is Ok),
{
    match action {
        None => Err(DecisionError::NoPolicyAction),
        Some(v) => decode_action(&v),
    }
}

/// A board coordinate as a search-graph position.
pub open spec fn pos_of(c: Coord) -> (usize, usize) {
    (c.x as usize, c.y as usize)
}

/// The unit displacement from `head` to the search position `next`.
pub open spec fn step_vector(head: Coord, next: (usize, usize)) -> ActionVector {
    ActionVector {
        dx: (next.0 as int - head.x as int) as i32,
        dy: (next.1 as int - head.y as int) as i32,
    }
}

/// What the shortest-path strategy yields: the direction of the first step
/// of the route the search returns, or `TargetUnreachable` when no route
/// exists or the route is degenerate.
pub open spec fn path_move_spec(grid: Grid, head: Coord, target: Coord) -> Result<
    Direction,
    DecisionError,
> {
    match route_of(grid, pos_of(head), pos_of(target)) {
        None => Err(DecisionError::TargetUnreachable),
        Some(s) => if s.len() < 2 {
            Err(DecisionError::TargetUnreachable)
        } else {
            decode_action_spec(step_vector(head, s[1]))
        },
    }
}

/// Run the shortest-path strategy. Succeeds exactly when the target is
/// reachable and distinct from the head, and then moves one step along a
/// minimal route, into an open adjacent cell.
pub fn resolve_path_move(grid: &Grid, head: &Coord, target: &Coord) -> (r: Result<
    Direction,
    DecisionError,
>)
    requires
        grid.wf(),
        coord_in(*head, grid.width as int, grid.height as int),
        coord_in(*target, grid.width as int, grid.height as int),
    ensures
        r == path_move_spec(*grid, *head, *target),
        (r is Ok) <==> ((exists|s: Seq<(usize, usize)>|
            grid.is_route(s, pos_of(*head), pos_of(*target))) && pos_of(*head) != pos_of(
            *target,
        )),
        r matches Ok(d) ==> exists|next: (usize, usize)|
            #[trigger] grid.step_ok(pos_of(*head), next) && decode_action_spec(
                step_vector(*head, next),
            ) == Ok::<Direction, DecisionError>(d),
{
    let hp = (head.x as usize, head.y as usize);
    let tp = (target.x as usize, target.y as usize);
    let ghost ghp = pos_of(*head);
    let ghost gtp = pos_of(*target);
    match run_astar(grid, hp, tp) {
        None => Err(DecisionError::TargetUnreachable),
        Some(path) => {
            if path.len() < 2 {
                proof {
                    if ghp != gtp {
                        assert(path@[0] == ghp && path@[path@.len() - 1] == gtp);
                        assert(path@.len() != 1);
                    }
                }
                Err(DecisionError::TargetUnreachable)
            } else {
                let next = path[1];
                proof {
                    assert(grid.step_ok(path@[0], path@[1]));
                    assert(grid.in_bounds(next));
                    assert(manhattan(ghp, next) == 1);
                    if ghp == gtp {
                        let one = seq![ghp];
                        assert(one.len() == 1 && one[0] == ghp && one[one.len() - 1] == gtp);
                        assert(grid.is_route(one, ghp, gtp));
                        assert(path@.len() <= one.len());
                    }
                }
                let av = ActionVector { dx: next.0 as i32 - head.x, dy: next.1 as i32 - head.y };
                proof {
                    assert(av == step_vector(*head, next));
                    assert((av.dx == 0 && av.dy == 1) || (av.dx == 0 && av.dy == -1) || (av.dx == 1
                        && av.dy == 0) || (av.dx == -1 && av.dy == 0));
                }
                decode_action(&av)
            }
        },
    }
}

/// Shortest-path resolution is idempotent on a static board: the resolver's
/// contract pins its result to a function of the grid and the endpoints
/// alone, so two calls with identical inputs return the identical direction.
pub proof fn lemma_path_resolution_idempotent(
    grid: Grid,
    head: Coord,
    target: Coord,
    r1: Result<Direction, DecisionError>,
    r2: Result<Direction, DecisionError>,
)
    requires
        r1 == path_move_spec(grid, head, target),
        r2 == path_move_spec(grid, head, target),
    ensures
        r1 == r2,
{
}

/// What move resolution yields for each personality: the learned policy's
/// decoded action for `QLearning`, the first shortest-path step otherwise.
pub open spec fn next_move_spec(
    p: SnakePersonality,
    goal: Coord,
    grid: Grid,
    head: Coord,
    action: Option<ActionVector>,
) -> Result<Direction, DecisionError> {
    match p {
        SnakePersonality::QLearning => policy_move_spec(action),
        _ => path_move_spec(grid, head, goal),
    }
}

/// Turn the selected target into a concrete next step. For `QLearning` the
/// caller supplies the action it queried from the learned policy for the
/// (head, goal) state; every other personality searches the grid.
pub fn determine_next_move(
    personality: &SnakePersonality,
    goal: &Coord,
    grid: &Grid,
    head: &Coord,
    policy_action: Option<ActionVector>,
) -> (r: Result<Direction, DecisionError>)
    requires
        grid.wf(),
        coord_in(*head, grid.width as int, grid.height as int),
        coord_in(*goal, grid.width as int, grid.height as int),
    ensures
        r == next_move_spec(*personality, *goal, *grid, *head, policy_action),
{
    match personality {
        SnakePersonality::QLearning => resolve_policy_action(policy_action),
        _ => resolve_path_move(grid, head, goal),
    }
}

} // verus!
