//! Target selection: given personality, mode and the board snapshot, pick the
//! single coordinate the agent should move toward this turn.
//!
//! Food is ranked by the agent's own squared distance, with the nearest
//! opponent's squared distance to the same cell breaking exact ties when
//! opponents exist (a race-avoidance heuristic). Opponent heads are ranked by
//! distance alone, excluding the degenerate distance-zero case. All ties
//! resolve to the first-encountered candidate.

use vstd::prelude::*;

use crate::board::{coord_bounded, dist2, dist2_spec, lemma_coord_in_bounded, Board, Coord, Snake};
use crate::engine::{SnakeMode, SnakePersonality};

verus! {

/// Strict lexicographic order on (own distance, opponent distance) keys.
pub open spec fn lex_lt(a: (int, int), b: (int, int)) -> bool {
    a.0 < b.0 || (a.0 == b.0 && a.1 < b.1)
}

/// Lexicographic order on (own distance, opponent distance) keys.
pub open spec fn lex_le(a: (int, int), b: (int, int)) -> bool {
    a.0 < b.0 || (a.0 == b.0 && a.1 <= b.1)
}

/// Smallest squared distance from any of `opps`'s heads to `f`; meaningful
/// only when at least one opponent exists.
pub open spec fn min_opp_dist(opps: Seq<Snake>, f: Coord) -> int
    decreases opps.len(),
{
    if opps.len() <= 1 {
        dist2_spec(opps[0].head_spec(), f)
    } else {
        let rest = min_opp_dist(opps.drop_last(), f);
        let last = dist2_spec(opps[opps.len() - 1].head_spec(), f);
        if last < rest {
            last
        } else {
            rest
        }
    }
}

/// The ranking key of food cell `i`: primarily the agent's own squared
/// distance, secondarily (when opponents exist) the nearest opponent's
/// squared distance to the same cell.
pub open spec fn food_key(board: Board, head: Coord, i: int) -> (int, int) {
    if board.snakes@.len() == 1 {
        (dist2_spec(head, board.food@[i]), 0)
    } else {
        (dist2_spec(head, board.food@[i]), min_opp_dist(board.opponents(), board.food@[i]))
    }
}

/// `i` is the index the nearest-food rule picks: its key is a global minimum
/// under the lexicographic order, and every earlier index has a strictly
/// greater key.
pub open spec fn chosen_food_index(board: Board, head: Coord, i: int) -> bool {
    &&& 0 <= i < board.food@.len()
    &&& forall|j: int|
        0 <= j < board.food@.len() ==> lex_le(
            food_key(board, head, i),
            #[trigger] food_key(board, head, j),
        )
    &&& forall|j: int|
        0 <= j < i ==> lex_lt(food_key(board, head, i), #[trigger] food_key(board, head, j))
}

/// The food cell the nearest-food rule selects, or `None` when the board
/// holds no food.
pub open spec fn selected_food(board: Board, head: Coord) -> Option<Coord> {
    if board.food@.len() == 0 {
        None
    } else {
        Some(board.food@[choose|i: int| chosen_food_index(board, head, i)])
    }
}

/// What the nearest-food rule owes its caller: a result exactly when food
/// exists, and then a first-encountered minimum of the ranking key.
pub open spec fn food_target_ok(board: Board, head: Coord, r: Option<Coord>) -> bool {
    &&& (r is None <==> board.food@.len() == 0)
    &&& (r matches Some(c) ==> exists|i: int|
        #[trigger] chosen_food_index(board, head, i) && c == board.food@[i])
}

/// At most one index can be a first-encountered minimum.
pub proof fn lemma_chosen_food_unique(board: Board, head: Coord, i: int, j: int)
    requires
        chosen_food_index(board, head, i),
        chosen_food_index(board, head, j),
    ensures
        i == j,
{
    if i < j {
        assert(lex_lt(food_key(board, head, j), food_key(board, head, i)));
        assert(lex_le(food_key(board, head, i), food_key(board, head, j)));
    }
    if j < i {
        assert(lex_lt(food_key(board, head, i), food_key(board, head, j)));
        assert(lex_le(food_key(board, head, j), food_key(board, head, i)));
    }
}

/// The opponent side of the key only ever breaks exact ties on own
/// distance: across two boards with the same food and the same head, where
/// every candidate whose own distance attains the chosen one keeps its
/// opponent distance, changing the opponent distance of any other candidate
/// never changes which food is selected.
pub proof fn lemma_food_tiebreak_isolated(b1: Board, b2: Board, head: Coord, i1: int, i2: int)
    requires
        b1.food@ == b2.food@,
        b1.snakes@.len() > 1,
        b2.snakes@.len() > 1,
        chosen_food_index(b1, head, i1),
        chosen_food_index(b2, head, i2),
        forall|j: int|
            #![trigger food_key(b2, head, j)]
            0 <= j < b1.food@.len() && food_key(b1, head, j).0 == food_key(b1, head, i1).0
                ==> food_key(b2, head, j).1 == food_key(b1, head, j).1,
    ensures
        i1 == i2,
{
    assert forall|j: int| 0 <= j < b2.food@.len() implies lex_le(
        food_key(b2, head, i1),
        #[trigger] food_key(b2, head, j),
    ) by {
        assert(lex_le(food_key(b1, head, i1), food_key(b1, head, j)));
        assert(food_key(b2, head, j).0 == food_key(b1, head, j).0);
        assert(food_key(b2, head, i1).0 == food_key(b1, head, i1).0);
    }
    assert forall|j: int| 0 <= j < i1 implies lex_lt(
        food_key(b2, head, i1),
        #[trigger] food_key(b2, head, j),
    ) by {
        assert(lex_lt(food_key(b1, head, i1), food_key(b1, head, j)));
        assert(food_key(b2, head, j).0 == food_key(b1, head, j).0);
        assert(food_key(b2, head, i1).0 == food_key(b1, head, i1).0);
    }
    assert(chosen_food_index(b2, head, i1));
    lemma_chosen_food_unique(b2, head, i1, i2);
}

/// Smallest squared distance from any opponent's head to `f`, computed by a
/// pass over the opponents.
fn min_opp_dist_to(board: &Board, f: &Coord) -> (r: u64)
    requires
        board.wf(),
        board.snakes@.len() >= 2,
        coord_bounded(*f),
    ensures
        r == min_opp_dist(board.opponents(), *f),
{
    let ghost opps = board.opponents();
    let n = board.snakes.len();
    proof {
        assert(board.snakes@[1].wf(board.width as int, board.height as int));
        lemma_coord_in_bounded(
            board.snakes@[1].body@[0],
            board.width as int,
            board.height as int,
        );
        assert(opps[0] == board.snakes@[1]);
    }
    let s1 = &board.snakes[1];
    let mut m = dist2(&s1.body[0], f);
    proof {
        assert(opps.take(1).len() == 1);
        assert(opps.take(1)[0] == opps[0]);
        assert(m == min_opp_dist(opps.take(1), *f));
    }
    let mut k: usize = 2;
    while k < n
        invariant
            2 <= k <= n,
            n == board.snakes@.len(),
            board.wf(),
            coord_bounded(*f),
            opps == board.opponents(),
            m == min_opp_dist(opps.take(k - 1), *f),
        decreases n - k,
    {
        proof {
            assert(board.snakes@[k as int].wf(board.width as int, board.height as int));
            lemma_coord_in_bounded(
                board.snakes@[k as int].body@[0],
                board.width as int,
                board.height as int,
            );
        }
        let sk = &board.snakes[k];
        let d = dist2(&sk.body[0], f);
        proof {
            let t1 = opps.take(k as int);
            assert(t1.drop_last() =~= opps.take(k - 1));
            assert(t1[t1.len() - 1] == opps[k - 1]);
            assert(opps[k - 1] == board.snakes@[k as int]);
        }
        if d < m {
            m = d;
        }
        k += 1;
    }
    proof {
        assert(opps.take(n - 1) =~= opps);
    }
    m
}

/// Nearest food under the two-part ranking key; ties resolve to the first
/// food in board order. `None` exactly when the board holds no food.
pub fn find_delicious_food(board: &Board, head: &Coord) -> (r: Option<Coord>)
    requires
        board.wf(),
        coord_bounded(*head),
    ensures
        food_target_ok(*board, *head, r),
        r == selected_food(*board, *head),
{
    let n = board.food.len();
    if n == 0 {
        return None;
    }
    let multi = board.snakes.len() > 1;
    proof {
        lemma_coord_in_bounded(board.food@[0], board.width as int, board.height as int);
    }
    let mut best_i: usize = 0;
    let f0 = board.food[0];
    let mut best_own = dist2(head, &f0);
    let mut best_opp: u64 = if multi {
        min_opp_dist_to(board, &f0)
    } else {
        0
    };
    let mut i: usize = 1;
    while i < n
        invariant
            1 <= i <= n,
            n == board.food@.len(),
            board.wf(),
            coord_bounded(*head),
            multi == (board.snakes@.len() > 1),
            0 <= best_i < i,
            (best_own as int, best_opp as int) == food_key(*board, *head, best_i as int),
            forall|j: int|
                0 <= j < i ==> lex_le(
                    food_key(*board, *head, best_i as int),
                    #[trigger] food_key(*board, *head, j),
                ),
            forall|j: int|
                0 <= j < best_i ==> lex_lt(
                    food_key(*board, *head, best_i as int),
                    #[trigger] food_key(*board, *head, j),
                ),
        decreases n - i,
    {
        proof {
            lemma_coord_in_bounded(board.food@[i as int], board.width as int, board.height as int);
        }
        let fi = board.food[i];
        let own = dist2(head, &fi);
        let opp: u64 = if multi {
            min_opp_dist_to(board, &fi)
        } else {
            0
        };
        proof {
            assert((own as int, opp as int) == food_key(*board, *head, i as int));
        }
        if own < best_own || (own == best_own && opp < best_opp) {
            best_i = i;
            best_own = own;
            best_opp = opp;
        }
        i += 1;
    }
    proof {
        assert(chosen_food_index(*board, *head, best_i as int));
        let k = choose|k: int| chosen_food_index(*board, *head, k);
        lemma_chosen_food_unique(*board, *head, best_i as int, k);
    }
    Some(board.food[best_i])
}

/// Squared distance from `head` to opponent `i`'s head.
pub open spec fn opp_head_dist(board: Board, head: Coord, i: int) -> int {
    dist2_spec(head, board.opponents()[i].head_spec())
}

/// Some opponent's head lies at a nonzero distance from `head`.
pub open spec fn any_live_opponent(board: Board, head: Coord) -> bool {
    exists|i: int|
        0 <= i < board.opponents().len() && #[trigger] opp_head_dist(board, head, i) != 0
}

/// `i` is the opponent the nearest-opponent-head rule picks: nonzero
/// distance, globally minimal among nonzero distances, and strictly below
/// every earlier nonzero distance.
pub open spec fn chosen_opponent_index(board: Board, head: Coord, i: int) -> bool {
    &&& 0 <= i < board.opponents().len()
    &&& opp_head_dist(board, head, i) != 0
    &&& forall|j: int|
        0 <= j < board.opponents().len() && #[trigger] opp_head_dist(board, head, j) != 0
            ==> opp_head_dist(board, head, i) <= opp_head_dist(board, head, j)
    &&& forall|j: int|
        0 <= j < i && #[trigger] opp_head_dist(board, head, j) != 0 ==> opp_head_dist(
            board,
            head,
            i,
        ) < opp_head_dist(board, head, j)
}

/// The opponent head the nearest-opponent-head rule selects, or `None` when
/// no opponent survives the distance-zero exclusion.
pub open spec fn selected_opponent(board: Board, head: Coord) -> Option<Coord> {
    if any_live_opponent(board, head) {
        Some(
            board.opponents()[choose|i: int|
                chosen_opponent_index(board, head, i)].head_spec(),
        )
    } else {
        None
    }
}

/// What the nearest-opponent-head rule owes its caller: a result exactly when
/// an opponent stands at nonzero distance, and then the first-encountered
/// strictly-closest one.
pub open spec fn opponent_target_ok(board: Board, head: Coord, r: Option<Coord>) -> bool {
    &&& (r is None <==> !any_live_opponent(board, head))
    &&& (r matches Some(c) ==> exists|i: int|
        #[trigger] chosen_opponent_index(board, head, i) && c == board.opponents()[i].head_spec())
}

/// At most one opponent can be the first-encountered strict minimum.
pub proof fn lemma_chosen_opponent_unique(board: Board, head: Coord, i: int, j: int)
    requires
        chosen_opponent_index(board, head, i),
        chosen_opponent_index(board, head, j),
    ensures
        i == j,
{
}

/// Nearest opponent head, excluding any opponent whose head coincides with
/// `head`; ties resolve to the first opponent in board order. `None` exactly
/// when no opponent survives the exclusion.
pub fn find_delicious_snake(board: &Board, head: &Coord) -> (r: Option<Coord>)
    requires
        board.wf(),
        coord_bounded(*head),
    ensures
        opponent_target_ok(*board, *head, r),
        r == selected_opponent(*board, *head),
{
    let ghost opps = board.opponents();
    let n = board.snakes.len();
    let mut found = false;
    let mut best_i: usize = 0;
    let mut best_d: u64 = 0;
    let mut k: usize = 1;
    while k < n
        invariant
            1 <= k <= n,
            n == board.snakes@.len(),
            board.wf(),
            coord_bounded(*head),
            opps == board.opponents(),
            found <==> exists|j: int|
                0 <= j < k - 1 && #[trigger] opp_head_dist(*board, *head, j) != 0,
            found ==> {
                &&& 0 <= best_i < k - 1
                &&& best_d as int == opp_head_dist(*board, *head, best_i as int)
                &&& best_d != 0
                &&& forall|j: int|
                    0 <= j < k - 1 && #[trigger] opp_head_dist(*board, *head, j) != 0
                        ==> (best_d as int) <= opp_head_dist(*board, *head, j)
                &&& forall|j: int|
                    0 <= j < best_i && #[trigger] opp_head_dist(*board, *head, j) != 0
                        ==> (best_d as int) < opp_head_dist(*board, *head, j)
            },
        decreases n - k,
    {
        proof {
            assert(board.snakes@[k as int].wf(board.width as int, board.height as int));
            lemma_coord_in_bounded(
                board.snakes@[k as int].body@[0],
                board.width as int,
                board.height as int,
            );
            assert(opps[k - 1] == board.snakes@[k as int]);
        }
        let sk = &board.snakes[k];
        let d = dist2(head, &sk.body[0]);
        proof {
            assert(d as int == opp_head_dist(*board, *head, k - 1));
        }
        if d != 0 && (!found || d < best_d) {
            found = true;
            best_i = k - 1;
            best_d = d;
        }
        k += 1;
    }
    if found {
        proof {
            assert(chosen_opponent_index(*board, *head, best_i as int));
            assert(any_live_opponent(*board, *head));
            let c = choose|c: int| chosen_opponent_index(*board, *head, c);
            lemma_chosen_opponent_unique(*board, *head, best_i as int, c);
            assert(opps[best_i as int] == board.snakes@[best_i + 1]);
        }
        Some(board.snakes[best_i + 1].body[0])
    } else {
        None
    }
}

/// The target each personality pursues, as a single mathematical value.
pub open spec fn goal_spec(p: SnakePersonality, m: SnakeMode, board: Board, head: Coord) -> Option<
    Coord,
> {
    match p {
        SnakePersonality::Snacky => selected_food(board, head),
        SnakePersonality::QLearning => selected_food(board, head),
        SnakePersonality::HeadHunter => if m == SnakeMode::Eat {
            selected_food(board, head)
        } else {
            selected_opponent(board, head)
        },
        SnakePersonality::Hungry => None,
        SnakePersonality::Timid => None,
    }
}

/// Dispatch target selection over the personality and mode. `Hungry` and
/// `Timid` have no defined behaviour yet and yield no target.
pub fn determine_goal(
    personality: &SnakePersonality,
    mode: &SnakeMode,
    board: &Board,
    head: &Coord,
) -> (r: Option<Coord>)
    requires
        board.wf(),
        coord_bounded(*head),
    ensures
        r == goal_spec(*personality, *mode, *board, *head),
        (personality is Snacky || personality is QLearning || (personality is HeadHunter && mode
            is Eat)) ==> food_target_ok(*board, *head, r),
        (personality is HeadHunter && mode is Kill) ==> opponent_target_ok(*board, *head, r),
        (personality is Hungry || personality is Timid) ==> r is None,
{
    match personality {
        SnakePersonality::Snacky => find_delicious_food(board, head),
        SnakePersonality::HeadHunter => {
            if matches!(mode, SnakeMode::Eat) {
                find_delicious_food(board, head)
            } else {
                find_delicious_snake(board, head)
            }
        },
        SnakePersonality::QLearning => find_delicious_food(board, head),
        SnakePersonality::Hungry | SnakePersonality::Timid => None,
    }
}

} // verus!
