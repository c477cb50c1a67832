//! The board snapshot the decision engine works on: coordinates, snakes and
//! the food set, together with the integer distance measure that target
//! selection ranks candidates by.

use vstd::prelude::*;

verus! {

/// Largest grid dimension the engine accepts; keeps every distance
/// computation comfortably inside machine integers.
pub const MAX_DIM: i32 = 32768;

/// A single cell on the game grid, addressed by its column `x` and row `y`.
#[derive(Clone, Copy, PartialEq, Eq, Structural, Debug)]
pub struct Coord {
    pub x: i32,
    pub y: i32,
}

/// One snake on the board: a unique identifier and its body cells, ordered
/// head first.
#[derive(Clone, Debug)]
pub struct Snake {
    pub id: u64,
    pub body: Vec<Coord>,
}

/// The per-turn snapshot: grid dimensions, the food cells, and every snake on
/// the board. The local agent is always `snakes[0]`; the rest are opponents.
#[derive(Clone, Debug)]
pub struct Board {
    pub width: i32,
    pub height: i32,
    pub food: Vec<Coord>,
    pub snakes: Vec<Snake>,
}

/// `c` lies on a `w` by `h` grid.
pub open spec fn coord_in(c: Coord, w: int, h: int) -> bool {
    &&& 0 <= c.x < w
    &&& 0 <= c.y < h
}

/// Both components of `c` are small enough that squared distances fit in a
/// machine word.
pub open spec fn coord_bounded(c: Coord) -> bool {
    &&& 0 <= c.x <= MAX_DIM
    &&& 0 <= c.y <= MAX_DIM
}

/// Squared Euclidean distance between two cells. Ranking candidates by this
/// value orders them exactly as the Euclidean distance itself does.
pub open spec fn dist2_spec(a: Coord, b: Coord) -> int {
    (a.x - b.x) * (a.x - b.x) + (a.y - b.y) * (a.y - b.y)
}

impl Snake {
    /// A snake has at least its head, and every body cell is on the grid.
    pub open spec fn wf(self, w: int, h: int) -> bool {
        &&& self.body@.len() >= 1
        &&& forall|i: int| 0 <= i < self.body@.len() ==> coord_in(#[trigger] self.body@[i], w, h)
    }

    /// The snake's head: the first body cell.
    pub open spec fn head_spec(self) -> Coord {
        self.body@[0]
    }
}

impl Board {
    /// A usable snapshot: sane dimensions, at least the local agent, every
    /// snake well formed with a distinct identifier, and every food cell on
    /// the grid.
    pub open spec fn wf(self) -> bool {
        &&& 1 <= self.width <= MAX_DIM
        &&& 1 <= self.height <= MAX_DIM
        &&& self.snakes@.len() >= 1
        &&& forall|i: int| 0 <= i < self.snakes@.len()
                ==> (#[trigger] self.snakes@[i]).wf(self.width as int, self.height as int)
        &&& forall|i: int, j: int|
                0 <= i < self.snakes@.len() && 0 <= j < self.snakes@.len() && i != j
                ==> (#[trigger] self.snakes@[i]).id != (#[trigger] self.snakes@[j]).id
        &&& forall|i: int| 0 <= i < self.food@.len()
                ==> coord_in(#[trigger] self.food@[i], self.width as int, self.height as int)
    }

    /// The local agent's head.
    pub open spec fn head_spec(self) -> Coord {
        self.snakes@[0].head_spec()
    }

    /// The opponents: every snake but the local agent.
    pub open spec fn opponents(self) -> Seq<Snake> {
        self.snakes@.subrange(1, self.snakes@.len() as int)
    }
}

/// A cell on a well-formed board is bounded.
pub proof fn lemma_coord_in_bounded(c: Coord, w: int, h: int)
    requires
        coord_in(c, w, h),
        w <= MAX_DIM as int,
        h <= MAX_DIM as int,
    ensures
        coord_bounded(c),
{
}

/// Squared Euclidean distance, computed exactly.
pub fn dist2(a: &Coord, b: &Coord) -> (r: u64)
    requires
        coord_bounded(*a),
        coord_bounded(*b),
    ensures
        r == dist2_spec(*a, *b),
{
    let dx: i64 = a.x as i64 - b.x as i64;
    let dy: i64 = a.y as i64 - b.y as i64;
    proof {
        assert(0 <= dx * dx <= 0x4000_0000i64 && 0 <= dy * dy <= 0x4000_0000i64 && dx * dx + dy
            * dy == dist2_spec(*a, *b)) by (nonlinear_arith)
            requires
                -(MAX_DIM as i64) <= dx <= MAX_DIM as i64,
                -(MAX_DIM as i64) <= dy <= MAX_DIM as i64,
                dx == a.x - b.x,
                dy == a.y - b.y,
        ;
    }
    (dx * dx + dy * dy) as u64
}

} // verus!
