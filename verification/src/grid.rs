//! The traversability grid the shortest-path strategy searches over: a
//! 4-connected unit-cost grid whose blocked cells an external builder has
//! already derived from the board (bodies, hazards). The search itself is the
//! `pathfinding` crate's A*, called behind a trusted wrapper whose contract
//! states what its documentation promises: a minimal-length route when one
//! exists. The Manhattan heuristic handed to it is proved admissible here.

use vstd::prelude::*;

verus! {

/// A `width` by `height` grid; `blocked[y * width + x]` says whether the cell
/// `(x, y)` may not be entered.
#[derive(Clone, Debug)]
pub struct Grid {
    pub width: usize,
    pub height: usize,
    pub blocked: Vec<bool>,
}

/// Manhattan distance between two grid positions.
pub open spec fn manhattan(a: (usize, usize), b: (usize, usize)) -> int {
    (if a.0 >= b.0 {
        a.0 - b.0
    } else {
        b.0 - a.0
    }) + (if a.1 >= b.1 {
        a.1 - b.1
    } else {
        b.1 - a.1
    })
}

impl Grid {
    /// Sane dimensions, and one traversability flag per cell.
    pub open spec fn wf(self) -> bool {
        &&& 1 <= self.width <= 32768
        &&& 1 <= self.height <= 32768
        &&& self.blocked@.len() == self.width * self.height
    }

    pub open spec fn in_bounds(self, p: (usize, usize)) -> bool {
        p.0 < self.width && p.1 < self.height
    }

    /// Row-major index of position `p`.
    pub open spec fn cell_index(self, p: (usize, usize)) -> int {
        p.1 * self.width + p.0
    }

    /// `p` lies on the grid and may be entered.
    pub open spec fn open_cell(self, p: (usize, usize)) -> bool {
        self.in_bounds(p) && !self.blocked@[self.cell_index(p)]
    }

    /// One legal move of the search: to an adjacent open cell.
    pub open spec fn step_ok(self, a: (usize, usize), b: (usize, usize)) -> bool {
        self.open_cell(b) && manhattan(a, b) == 1
    }

    /// `s` walks from `a` to `b` in legal steps; it comprises both endpoints.
    pub open spec fn is_route(self, s: Seq<(usize, usize)>, a: (usize, usize), b: (usize, usize)) -> bool {
        &&& s.len() >= 1
        &&& s[0] == a
        &&& s[s.len() - 1] == b
        &&& forall|i: int| 0 <= i < s.len() - 1 ==> self.step_ok(#[trigger] s[i], s[i + 1])
    }
}

/// Row-major indexing stays inside the cell vector.
pub proof fn lemma_cell_index_bound(w: int, h: int, x: int, y: int)
    requires
        0 <= x < w <= 32768,
        0 <= y < h <= 32768,
    ensures
        0 <= y * w + x < w * h,
        w * h <= 0x4000_0000,
{
    assert(0 <= y * w + x < w * h && w * h <= 0x4000_0000) by (nonlinear_arith)
        requires
            0 <= x < w <= 32768,
            0 <= y < h <= 32768,
    ;
}

impl Grid {
    /// A grid with every cell open.
    pub fn new(width: usize, height: usize) -> (g: Grid)
        requires
            1 <= width <= 32768,
            1 <= height <= 32768,
        ensures
            g.wf(),
            g.width == width,
            g.height == height,
            forall|p: (usize, usize)| g.in_bounds(p) ==> #[trigger] g.open_cell(p),
    {
        proof {
            lemma_cell_index_bound(width as int, height as int, 0, 0);
        }
        let total = width * height;
        let mut blocked: Vec<bool> = Vec::new();
        while blocked.len() < total
            invariant
                blocked@.len() <= total,
                forall|i: int| 0 <= i < blocked@.len() ==> !(#[trigger] blocked@[i]),
            decreases total - blocked@.len(),
        {
            blocked.push(false);
        }
        let g = Grid { width, height, blocked };
        proof {
            assert forall|p: (usize, usize)| g.in_bounds(p) implies #[trigger] g.open_cell(p) by {
                lemma_cell_index_bound(width as int, height as int, p.0 as int, p.1 as int);
            }
        }
        g
    }

    /// Whether `(x, y)` may not be entered.
    pub fn is_blocked(&self, x: usize, y: usize) -> (r: bool)
        requires
            self.wf(),
            x < self.width,
            y < self.height,
        ensures
            r == self.blocked@[self.cell_index((x, y))],
    {
        proof {
            lemma_cell_index_bound(
                self.width as int,
                self.height as int,
                x as int,
                y as int,
            );
        }
        self.blocked[y * self.width + x]
    }

    /// Mark `(x, y)` blocked or open.
    pub fn set_blocked(&mut self, x: usize, y: usize, b: bool)
        requires
            old(self).wf(),
            x < old(self).width,
            y < old(self).height,
        ensures
            final(self).wf(),
            final(self).width == old(self).width,
            final(self).height == old(self).height,
            final(self).blocked@ == old(self).blocked@.update(
                old(self).cell_index((x, y)),
                b,
            ),
    {
        proof {
            lemma_cell_index_bound(
                self.width as int,
                self.height as int,
                x as int,
                y as int,
            );
        }
        let idx = y * self.width + x;
        self.blocked.set(idx, b);
    }

    /// Manhattan distance from `p` to `goal`, the search's heuristic.
    pub fn manhattan_to(&self, p: (usize, usize), goal: (usize, usize)) -> (r: u32)
        requires
            self.wf(),
            self.in_bounds(p),
            self.in_bounds(goal),
        ensures
            r == manhattan(p, goal),
    {
        let dx = if p.0 >= goal.0 {
            p.0 - goal.0
        } else {
            goal.0 - p.0
        };
        let dy = if p.1 >= goal.1 {
            p.1 - goal.1
        } else {
            goal.1 - p.1
        };
        (dx + dy) as u32
    }

    /// The legal moves out of `p`: every adjacent open cell, at unit cost.
    pub fn successors(&self, p: (usize, usize)) -> (r: Vec<((usize, usize), u32)>)
        requires
            self.wf(),
            self.in_bounds(p),
        ensures
            forall|k: int|
                0 <= k < r@.len() ==> (#[trigger] r@[k]).1 == 1 && self.step_ok(p, r@[k].0),
            forall|q: (usize, usize)|
                #[trigger] self.step_ok(p, q) ==> exists|k: int| 0 <= k < r@.len() && (#[trigger] r@[k]).0 == q,
    {
        let x = p.0;
        let y = p.1;
        let mut v: Vec<((usize, usize), u32)> = Vec::new();
        let ghost mut idx_e: int = -1;
        let ghost mut idx_w: int = -1;
        let ghost mut idx_n: int = -1;
        let ghost mut idx_s: int = -1;
        if x + 1 < self.width && !self.is_blocked(x + 1, y) {
            proof {
                idx_e = v@.len() as int;
            }
            v.push(((x + 1, y), 1));
        }
        if x > 0 && !self.is_blocked(x - 1, y) {
            proof {
                idx_w = v@.len() as int;
            }
            v.push(((x - 1, y), 1));
        }
        if y + 1 < self.height && !self.is_blocked(x, y + 1) {
            proof {
                idx_n = v@.len() as int;
            }
            v.push(((x, y + 1), 1));
        }
        if y > 0 && !self.is_blocked(x, y - 1) {
            proof {
                idx_s = v@.len() as int;
            }
            v.push(((x, y - 1), 1));
        }
        proof {
            assert forall|q: (usize, usize)| #[trigger] self.step_ok(p, q) implies exists|k: int|
                0 <= k < v@.len() && (#[trigger] v@[k]).0 == q by {
                if q.0 == x + 1 && q.1 == y {
                    assert(0 <= idx_e < v@.len() && v@[idx_e].0 == q);
                } else if x > 0 && q.0 == x - 1 && q.1 == y {
                    assert(0 <= idx_w < v@.len() && v@[idx_w].0 == q);
                } else if q.0 == x && q.1 == y + 1 {
                    assert(0 <= idx_n < v@.len() && v@[idx_n].0 == q);
                } else {
                    assert(x == q.0 && y > 0 && q.1 == y - 1);
                    assert(0 <= idx_s < v@.len() && v@[idx_s].0 == q);
                }
            }
        }
        v
    }
}

/// The Manhattan heuristic is admissible on the 4-connected unit-cost grid:
/// no route from `a` to `b` takes fewer than `manhattan(a, b)` steps, so the
/// heuristic never overestimates the true remaining cost.
pub proof fn lemma_manhattan_admissible(
    grid: Grid,
    s: Seq<(usize, usize)>,
    a: (usize, usize),
    b: (usize, usize),
)
    requires
        grid.is_route(s, a, b),
    ensures
        manhattan(a, b) <= s.len() - 1,
    decreases s.len(),
{
    if s.len() > 1 {
        let s2 = s.drop_first();
        assert forall|i: int| 0 <= i < s2.len() - 1 implies grid.step_ok(
            #[trigger] s2[i],
            s2[i + 1],
        ) by {
            assert(grid.step_ok(s[i + 1], s[i + 2]));
        }
        assert(grid.is_route(s2, s[1], b));
        lemma_manhattan_admissible(grid, s2, s[1], b);
        assert(grid.step_ok(s[0], s[1]));
    }
}

/// The route the A* search returns for these arguments. The search is a
/// deterministic function of the grid contents and the two endpoints, so its
/// result can be given a name; nothing further is assumed of the name beyond
/// what the trusted wrapper below states.
pub uninterp spec fn astar_route(
    blocked: Seq<bool>,
    width: int,
    height: int,
    start: (usize, usize),
    goal: (usize, usize),
) -> Option<Seq<(usize, usize)>>;

/// `astar_route` applied to a grid.
pub open spec fn route_of(grid: Grid, start: (usize, usize), goal: (usize, usize)) -> Option<
    Seq<(usize, usize)>,
> {
    astar_route(grid.blocked@, grid.width as int, grid.height as int, start, goal)
}

/// An optional route, seen at the spec level.
pub open spec fn route_view(r: Option<Vec<(usize, usize)>>) -> Option<Seq<(usize, usize)>> {
    match r {
        Some(v) => Some(v@),
        None => None,
    }
}

/// Relies on `pathfinding::prelude::astar`: with non-negative costs and a
/// heuristic that never overestimates (ours is Manhattan distance on a
/// unit-cost 4-connected grid; `lemma_manhattan_admissible` above), it
/// returns a shortest path comprising both endpoints, or `None` exactly when
/// the goal cannot be reached. Its search is a deterministic function of the
/// grid and the endpoints, which `astar_route` names.
#[verifier::external_body]
pub(crate) fn run_astar(grid: &Grid, start: (usize, usize), goal: (usize, usize)) -> (r: Option<
    Vec<(usize, usize)>,
>)
    requires
        grid.wf(),
        grid.in_bounds(start),
        grid.in_bounds(goal),
    ensures
        route_view(r) == astar_route(
            grid.blocked@,
            grid.width as int,
            grid.height as int,
            start,
            goal,
        ),
        (r is Some) <==> exists|s: Seq<(usize, usize)>| grid.is_route(s, start, goal),
        r matches Some(v) ==> grid.is_route(v@, start, goal) && forall|s: Seq<(usize, usize)>|
            grid.is_route(s, start, goal) ==> v@.len() <= s.len(),
{
    let found = pathfinding::prelude::astar(
        &start,
        |p: &(usize, usize)| grid.successors(*p),
        |p: &(usize, usize)| grid.manhattan_to(*p, goal),
        |p: &(usize, usize)| *p == goal,
    );
    found.map(|t| t.0)
}

} // verus!
