//! The mathematical model of the simulation: what a well-formed grid is and
//! what one generation step produces.

use vstd::prelude::*;

verus! {

/// The abstract contents of a cell matrix: one sequence of rows, each row a
/// sequence of cell states (`true` = alive).
pub open spec fn grid_view(g: Vec<Vec<bool>>) -> Seq<Seq<bool>> {
    Seq::new(g@.len(), |y: int| g@[y]@)
}

/// A grid is well formed for declared width `w` and height `h` when both
/// dimensions are at least 1, there are exactly `h` rows, and every row has
/// exactly `w` cells.
pub open spec fn grid_wf(s: Seq<Seq<bool>>, w: int, h: int) -> bool {
    &&& w >= 1
    &&& h >= 1
    &&& s.len() == h
    &&& forall|y: int| 0 <= y < h ==> (#[trigger] s[y]).len() == w
}

/// Contribution of position (y, x) to a neighbor count: 1 when the position
/// lies inside the grid and holds a live cell, 0 otherwise. Positions outside
/// the grid contribute nothing: there is no wraparound.
pub open spec fn cell_at(s: Seq<Seq<bool>>, w: int, h: int, y: int, x: int) -> int {
    if 0 <= y < h && 0 <= x < w && s[y][x] {
        1
    } else {
        0
    }
}

/// Number of live neighbors of cell (y, x): the up-to-8 adjacent positions,
/// clipped at the grid edges, never the cell itself.
pub open spec fn neighbor_count(s: Seq<Seq<bool>>, w: int, h: int, y: int, x: int) -> int {
    cell_at(s, w, h, y - 1, x - 1) + cell_at(s, w, h, y - 1, x) + cell_at(s, w, h, y - 1, x + 1)
        + cell_at(s, w, h, y, x - 1) + cell_at(s, w, h, y, x + 1)
        + cell_at(s, w, h, y + 1, x - 1) + cell_at(s, w, h, y + 1, x)
        + cell_at(s, w, h, y + 1, x + 1)
}

/// The transition rule for one cell: a live cell survives with 2 or 3 live
/// neighbors, a dead cell is born with exactly 3, everything else is dead.
pub open spec fn next_cell(alive: bool, n: int) -> bool {
    if alive {
        2 <= n && n <= 3
    } else {
        n == 3
    }
}

/// One generation step: every cell of the result is the transition rule
/// applied to the corresponding cell of `s`, all evaluated against the same
/// snapshot `s`.
pub open spec fn step(s: Seq<Seq<bool>>, w: int, h: int) -> Seq<Seq<bool>> {
    Seq::new(
        h as nat,
        |y: int| Seq::new(w as nat, |x: int| next_cell(s[y][x], neighbor_count(s, w, h, y, x))),
    )
}

/// `n` generation steps in a row.
pub open spec fn step_n(s: Seq<Seq<bool>>, w: int, h: int, n: nat) -> Seq<Seq<bool>>
    decreases n,
{
    if n == 0 {
        s
    } else {
        step(step_n(s, w, h, (n - 1) as nat), w, h)
    }
}

/// A grid with one row of the wrong length is not well formed.
pub proof fn lemma_bad_row_not_wf(s: Seq<Seq<bool>>, w: int, h: int, i: int)
    requires
        0 <= i < h,
        s[i].len() != w,
    ensures
        !grid_wf(s, w, h),
{
}

/// Stepping preserves well-formedness: the result again has `h` rows of `w`
/// cells each.
pub proof fn lemma_step_wf(s: Seq<Seq<bool>>, w: int, h: int)
    requires
        grid_wf(s, w, h),
    ensures
        grid_wf(step(s, w, h), w, h),
{
}

} // verus!
