//! General laws of the stepping rule, each proved once and for all grids:
//! determinism, composability of repeated stepping, the block still life, the
//! blinker oscillator, and the fate of a lone cell.

use vstd::prelude::*;
use crate::rules::{grid_wf, neighbor_count, next_cell, step, step_n, lemma_step_wf};

verus! {

/// Advancing is deterministic: the next grid is a function of the current
/// grid and the dimensions alone, so two engines built from identical grids
/// produce identical next grids.
pub proof fn lemma_step_deterministic(s1: Seq<Seq<bool>>, s2: Seq<Seq<bool>>, w: int, h: int)
    requires
        s1 == s2,
    ensures
        step(s1, w, h) == step(s2, w, h),
{
}

/// Taking zero steps leaves the grid unchanged.
pub proof fn lemma_step_n_zero(s: Seq<Seq<bool>>, w: int, h: int)
    ensures
        step_n(s, w, h, 0) == s,
{
}

/// Stepping composes: `n` steps followed by `m` steps is the same as `n + m`
/// steps taken at once.
pub proof fn lemma_step_n_additive(s: Seq<Seq<bool>>, w: int, h: int, n: nat, m: nat)
    ensures
        step_n(step_n(s, w, h, n), w, h, m) == step_n(s, w, h, n + m),
    decreases m,
{
    if m > 0 {
        lemma_step_n_additive(s, w, h, n, (m - 1) as nat);
    }
}

/// Membership in a 2-by-2 block whose top-left corner is (y0, x0).
pub open spec fn in_block(y0: int, x0: int, y: int, x: int) -> bool {
    (y == y0 || y == y0 + 1) && (x == x0 || x == x0 + 1)
}

/// Still life: a grid whose only live cells form a 2-by-2 block (every other
/// cell dead, so the block is surrounded by dead cells up to the edges) is
/// unchanged by a step. Each block cell has exactly 3 live neighbors and
/// survives; every dead cell sees at most 2 and stays dead.
pub proof fn lemma_block_still_life(s: Seq<Seq<bool>>, w: int, h: int, y0: int, x0: int)
    requires
        grid_wf(s, w, h),
        0 <= y0,
        y0 + 1 < h,
        0 <= x0,
        x0 + 1 < w,
        forall|y: int, x: int|
            0 <= y < h && 0 <= x < w ==> ((#[trigger] s[y][x]) <==> in_block(y0, x0, y, x)),
    ensures
        step(s, w, h) == s,
{
    assert forall|y: int, x: int|
        0 <= y < h && 0 <= x < w implies next_cell(s[y][x], neighbor_count(s, w, h, y, x)) == s[y][x] by {
        if in_block(y0, x0, y, x) {
            assert(neighbor_count(s, w, h, y, x) == 3);
        } else {
            assert(neighbor_count(s, w, h, y, x) <= 2);
        }
    }
    assert(step(s, w, h) =~~= s);
}

/// Membership in a horizontal blinker: the 3 cells of row y0 at columns
/// x0, x0 + 1, x0 + 2.
pub open spec fn in_hblinker(y0: int, x0: int, y: int, x: int) -> bool {
    y == y0 && (x == x0 || x == x0 + 1 || x == x0 + 2)
}

/// Membership in a vertical blinker: the 3 cells of column x0 + 1 at rows
/// y0 - 1, y0, y0 + 1.
pub open spec fn in_vblinker(y0: int, x0: int, y: int, x: int) -> bool {
    x == x0 + 1 && (y == y0 - 1 || y == y0 || y == y0 + 1)
}

/// One step turns a horizontal blinker (away from the edges, everything else
/// dead) into the vertical blinker on the same center cell.
pub proof fn lemma_blinker_horizontal_to_vertical(
    s: Seq<Seq<bool>>,
    w: int,
    h: int,
    y0: int,
    x0: int,
)
    requires
        grid_wf(s, w, h),
        1 <= y0,
        y0 + 1 < h,
        0 <= x0,
        x0 + 2 < w,
        forall|y: int, x: int|
            0 <= y < h && 0 <= x < w ==> ((#[trigger] s[y][x]) <==> in_hblinker(y0, x0, y, x)),
    ensures
        forall|y: int, x: int|
            0 <= y < h && 0 <= x < w ==> ((#[trigger] step(s, w, h)[y][x]) <==> in_vblinker(
                y0,
                x0,
                y,
                x,
            )),
{
    assert forall|y: int, x: int|
        0 <= y < h && 0 <= x < w implies ((#[trigger] step(s, w, h)[y][x]) <==> in_vblinker(
        y0,
        x0,
        y,
        x,
    )) by {
        if in_vblinker(y0, x0, y, x) {
            assert(neighbor_count(s, w, h, y, x) == if y == y0 {
                2int
            } else {
                3int
            });
        } else {
            assert(!next_cell(s[y][x], neighbor_count(s, w, h, y, x)));
        }
        assert(step(s, w, h)[y][x] == next_cell(s[y][x], neighbor_count(s, w, h, y, x)));
    }
}

/// One step turns a vertical blinker (away from the edges, everything else
/// dead) back into the horizontal blinker on the same center cell.
pub proof fn lemma_blinker_vertical_to_horizontal(
    s: Seq<Seq<bool>>,
    w: int,
    h: int,
    y0: int,
    x0: int,
)
    requires
        grid_wf(s, w, h),
        1 <= y0,
        y0 + 1 < h,
        0 <= x0,
        x0 + 2 < w,
        forall|y: int, x: int|
            0 <= y < h && 0 <= x < w ==> ((#[trigger] s[y][x]) <==> in_vblinker(y0, x0, y, x)),
    ensures
        forall|y: int, x: int|
            0 <= y < h && 0 <= x < w ==> ((#[trigger] step(s, w, h)[y][x]) <==> in_hblinker(
                y0,
                x0,
                y,
                x,
            )),
{
    assert forall|y: int, x: int|
        0 <= y < h && 0 <= x < w implies ((#[trigger] step(s, w, h)[y][x]) <==> in_hblinker(
        y0,
        x0,
        y,
        x,
    )) by {
        if in_hblinker(y0, x0, y, x) {
            assert(neighbor_count(s, w, h, y, x) == if x == x0 + 1 {
                2int
            } else {
                3int
            });
        } else {
            assert(!next_cell(s[y][x], neighbor_count(s, w, h, y, x)));
        }
        assert(step(s, w, h)[y][x] == next_cell(s[y][x], neighbor_count(s, w, h, y, x)));
    }
}

/// Oscillator: a horizontal blinker away from the edges becomes vertical
/// after one step and is restored, cell for cell, after two.
pub proof fn lemma_blinker_oscillates(s: Seq<Seq<bool>>, w: int, h: int, y0: int, x0: int)
    requires
        grid_wf(s, w, h),
        1 <= y0,
        y0 + 1 < h,
        0 <= x0,
        x0 + 2 < w,
        forall|y: int, x: int|
            0 <= y < h && 0 <= x < w ==> ((#[trigger] s[y][x]) <==> in_hblinker(y0, x0, y, x)),
    ensures
        forall|y: int, x: int|
            0 <= y < h && 0 <= x < w ==> ((#[trigger] step(s, w, h)[y][x]) <==> in_vblinker(
                y0,
                x0,
                y,
                x,
            )),
        step(step(s, w, h), w, h) == s,
{
    lemma_blinker_horizontal_to_vertical(s, w, h, y0, x0);
    lemma_step_wf(s, w, h);
    lemma_blinker_vertical_to_horizontal(step(s, w, h), w, h, y0, x0);
    lemma_step_wf(step(s, w, h), w, h);
    assert(step(step(s, w, h), w, h) =~~= s);
}

/// A 1-by-1 grid advances without reading any out-of-bounds index and its
/// one cell dies: with 0 neighbors it can satisfy neither birth nor survival.
pub proof fn lemma_lone_cell_dies(s: Seq<Seq<bool>>)
    requires
        grid_wf(s, 1, 1),
    ensures
        step(s, 1, 1) == seq![seq![false]],
{
    assert(neighbor_count(s, 1, 1, 0, 0) == 0);
    assert(step(s, 1, 1) =~~= seq![seq![false]]);
}

} // verus!

