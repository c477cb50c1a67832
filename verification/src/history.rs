//! The per-opponent history ledger: for every observed opponent, the ordered
//! list of (turn, head position) pairs, appended each turn. The ledger is
//! session-scoped state handed to the engine by its caller, so nothing bleeds
//! between concurrent games.

use vstd::prelude::*;

use crate::board::{Board, Coord};

verus! {

/// The observed moves of one opponent, in the order they were seen.
#[derive(Clone, Debug)]
pub struct SnakeHistory {
    pub moves: Vec<(u32, Coord)>,
}

/// One entry per observed opponent identifier, in order of first sighting.
#[derive(Clone, Debug)]
pub struct OpponentHistory {
    pub entries: Vec<(u64, SnakeHistory)>,
}

/// One observation folded into a ledger: append to the entry carrying this
/// identifier, or open a new entry at the end.
pub open spec fn record_one(
    h: Seq<(u64, Seq<(u32, Coord)>)>,
    id: u64,
    turn: u32,
    head: Coord,
) -> Seq<(u64, Seq<(u32, Coord)>)>
    decreases h.len(),
{
    if h.len() == 0 {
        seq![(id, seq![(turn, head)])]
    } else if h[0].0 == id {
        seq![(h[0].0, h[0].1.push((turn, head)))] + h.drop_first()
    } else {
        seq![h[0]] + record_one(h.drop_first(), id, turn, head)
    }
}

/// The heads of the first `upto` snakes, the local agent excepted, folded
/// into a ledger in board order.
pub open spec fn record_all(
    h: Seq<(u64, Seq<(u32, Coord)>)>,
    board: Board,
    turn: u32,
    upto: int,
) -> Seq<(u64, Seq<(u32, Coord)>)>
    decreases upto,
{
    if upto <= 1 {
        h
    } else {
        record_one(
            record_all(h, board, turn, upto - 1),
            board.snakes@[upto - 1].id,
            turn,
            board.snakes@[upto - 1].head_spec(),
        )
    }
}

impl OpponentHistory {
    /// The ledger as a sequence of (identifier, observations) pairs.
    pub open spec fn ledger(self) -> Seq<(u64, Seq<(u32, Coord)>)> {
        self.entries@.map(|i: int, e: (u64, SnakeHistory)| (e.0, e.1.moves@))
    }

    /// Each opponent identifier holds at most one entry.
    pub open spec fn wf(self) -> bool {
        forall|i: int, j: int|
            0 <= i < self.entries@.len() && 0 <= j < self.entries@.len() && i != j ==> (
            #[trigger] self.entries@[i]).0 != (#[trigger] self.entries@[j]).0
    }

    /// An empty ledger.
    pub fn new() -> (h: OpponentHistory)
        ensures
            h.wf(),
            h.ledger() == Seq::<(u64, Seq<(u32, Coord)>)>::empty(),
    {
        let h = OpponentHistory { entries: Vec::new() };
        proof {
            assert(h.ledger() =~= Seq::<(u64, Seq<(u32, Coord)>)>::empty());
        }
        h
    }

    /// Append one observation for the opponent `id`.
    pub fn record(&mut self, id: u64, turn: u32, head: Coord)
        requires
            old(self).wf(),
        ensures
            final(self).wf(),
            final(self).ledger() == record_one(old(self).ledger(), id, turn, head),
    {
        let n = self.entries.len();
        let mut i: usize = 0;
        while i < n
            invariant
                i <= n,
                n == self.entries@.len(),
                self.entries@ == old(self).entries@,
                old(self).wf(),
                forall|k: int| 0 <= k < i ==> (#[trigger] self.entries@[k]).0 != id,
            decreases n - i,
        {
            if self.entries[i].0 == id {
                self.entries[i].1.moves.push((turn, head));
                proof {
                    lemma_record_one_found(old(self).ledger(), id, turn, head, i as int);
                    assert(self.ledger() =~= old(self).ledger().update(
                        i as int,
                        (id, old(self).ledger()[i as int].1.push((turn, head))),
                    ));
                    assert forall|a: int, b: int|
                        0 <= a < self.entries@.len() && 0 <= b < self.entries@.len() && a != b
                        implies (#[trigger] self.entries@[a]).0 != (
                    #[trigger] self.entries@[b]).0 by {
                        assert(old(self).entries@[a].0 != old(self).entries@[b].0);
                    }
                }
                return ;
            }
            i += 1;
        }
        let mut moves: Vec<(u32, Coord)> = Vec::new();
        moves.push((turn, head));
        self.entries.push((id, SnakeHistory { moves }));
        proof {
            lemma_record_one_absent(old(self).ledger(), id, turn, head);
            assert(self.ledger() =~= old(self).ledger().push((id, seq![(turn, head)])));
        }
    }

    /// Append this turn's observation of every opponent on the board.
    pub fn record_turn(&mut self, turn: u32, board: &Board)
        requires
            old(self).wf(),
            board.wf(),
        ensures
            final(self).wf(),
            final(self).ledger() == record_all(
                old(self).ledger(),
                *board,
                turn,
                board.snakes@.len() as int,
            ),
    {
        let n = board.snakes.len();
        let mut k: usize = 1;
        while k < n
            invariant
                1 <= k <= n,
                n == board.snakes@.len(),
                board.wf(),
                self.wf(),
                self.ledger() == record_all(old(self).ledger(), *board, turn, k as int),
            decreases n - k,
        {
            proof {
                assert(board.snakes@[k as int].wf(board.width as int, board.height as int));
            }
            let sk = &board.snakes[k];
            let head = sk.body[0];
            self.record(sk.id, turn, head);
            k += 1;
        }
    }
}

/// When the identifier's first occurrence is at `j`, folding in one
/// observation updates exactly that entry.
proof fn lemma_record_one_found(
    h: Seq<(u64, Seq<(u32, Coord)>)>,
    id: u64,
    turn: u32,
    head: Coord,
    j: int,
)
    requires
        0 <= j < h.len(),
        h[j].0 == id,
        forall|k: int| 0 <= k < j ==> (#[trigger] h[k]).0 != id,
    ensures
        record_one(h, id, turn, head) == h.update(j, (id, h[j].1.push((turn, head)))),
    decreases j,
{
    if j == 0 {
        assert(record_one(h, id, turn, head) =~= h.update(0, (id, h[0].1.push((turn, head)))));
    } else {
        lemma_record_one_found(h.drop_first(), id, turn, head, j - 1);
        assert(h.drop_first()[j - 1] == h[j]);
        assert(seq![h[0]] + h.drop_first().update(j - 1, (id, h[j].1.push((turn, head))))
            =~= h.update(j, (id, h[j].1.push((turn, head)))));
    }
}

/// When the identifier holds no entry yet, folding in one observation opens
/// a new entry at the end.
proof fn lemma_record_one_absent(h: Seq<(u64, Seq<(u32, Coord)>)>, id: u64, turn: u32, head: Coord)
    requires
        forall|k: int| 0 <= k < h.len() ==> (#[trigger] h[k]).0 != id,
    ensures
        record_one(h, id, turn, head) == h.push((id, seq![(turn, head)])),
    decreases h.len(),
{
    if h.len() == 0 {
        assert(record_one(h, id, turn, head) =~= h.push((id, seq![(turn, head)])));
    } else {
        lemma_record_one_absent(h.drop_first(), id, turn, head);
        assert(seq![h[0]] + h.drop_first().push((id, seq![(turn, head)])) =~= h.push(
            (id, seq![(turn, head)]),
        ));
    }
}

} // verus!
