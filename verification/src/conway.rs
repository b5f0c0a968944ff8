//! The generation-stepping engine: a cell matrix, an arbitrary-precision
//! generation counter, and the operations that advance them.

use vstd::prelude::*;
use num_bigint::BigUint;
use crate::bigcount::{biguint_nat, biguint_increment};
use crate::rules::{grid_view, grid_wf, neighbor_count, next_cell, cell_at, step, step_n, lemma_step_wf, lemma_bad_row_not_wf};

verus! {

/// Why a construction attempt was rejected.
#[derive(Clone, Copy, PartialEq, Eq, Structural, Debug)]
pub enum ConwayError {
    /// The declared width or height is 0.
    EmptyGrid,
    /// The supplied matrix disagrees with the declared width or height.
    DimensionMismatch,
}

/// The engine. It exclusively owns its grid and its generation counter;
/// `size` is `(width, height)` and never changes after construction.
#[derive(Debug)]
pub struct Conway {
    generation: BigUint,
    grid: Vec<Vec<bool>>,
    size: (usize, usize),
}

impl Conway {
    /// Declared grid width.
    pub closed spec fn width(&self) -> int {
        self.size.0 as int
    }

    /// Declared grid height.
    pub closed spec fn height(&self) -> int {
        self.size.1 as int
    }

    /// The current cell matrix, as a sequence of rows.
    pub closed spec fn cells(&self) -> Seq<Seq<bool>> {
        grid_view(self.grid)
    }

    /// The number of steps taken so far (plus the initial count the engine
    /// was constructed with).
    pub closed spec fn generation_count(&self) -> nat {
        biguint_nat(self.generation)
    }

    /// The engine's invariant: the matrix matches the declared dimensions.
    pub open spec fn well_formed(&self) -> bool {
        grid_wf(self.cells(), self.width(), self.height())
    }

    /// Builds an engine from an initial generation count, a cell matrix, and
    /// the declared `(width, height)`. Construction succeeds exactly when
    /// both dimensions are at least 1 and the matrix has `height` rows of
    /// `width` cells each; otherwise it reports why.
    pub fn new(gen: BigUint, gri: Vec<Vec<bool>>, siz: (usize, usize)) -> (r: Result<
        Conway,
        ConwayError,
    >)
        ensures
            r is Ok <==> (siz.0 >= 1 && siz.1 >= 1 && grid_wf(
                grid_view(gri),
                siz.0 as int,
                siz.1 as int,
            )),
            match r {
                Ok(c) => {
                    &&& c.well_formed()
                    &&& c.width() == siz.0
                    &&& c.height() == siz.1
                    &&& c.cells() == grid_view(gri)
                    &&& c.generation_count() == biguint_nat(gen)
                },
                Err(e) => {
                    &&& (e == ConwayError::EmptyGrid <==> (siz.0 == 0 || siz.1 == 0))
                    &&& (e == ConwayError::DimensionMismatch <==> (siz.0 >= 1 && siz.1 >= 1
                        && !grid_wf(grid_view(gri), siz.0 as int, siz.1 as int)))
                },
            },
    {
        let w = siz.0;
        let h = siz.1;
        if w == 0 || h == 0 {
            return Err(ConwayError::EmptyGrid);
        }
        if gri.len() != h {
            proof {
                assert(grid_view(gri).len() == gri@.len());
                assert(!grid_wf(grid_view(gri), siz.0 as int, siz.1 as int));
            }
            return Err(ConwayError::DimensionMismatch);
        }
        let mut y: usize = 0;
        while y < h
            invariant
                w == siz.0,
                h == siz.1,
                w >= 1,
                h >= 1,
                gri@.len() == h,
                y <= h,
                forall|i: int| 0 <= i < y ==> (#[trigger] gri@[i])@.len() == w,
            decreases h - y,
        {
            if gri[y].len() != w {
                proof {
                    assert(grid_view(gri)[y as int] == gri@[y as int]@);
                    lemma_bad_row_not_wf(grid_view(gri), siz.0 as int, siz.1 as int, y as int);
                }
                return Err(ConwayError::DimensionMismatch);
            }
            y += 1;
        }
        proof {
            assert forall|i: int| 0 <= i < h implies (#[trigger] grid_view(gri)[i]).len()
                == w by {
                assert(gri@[i]@.len() == w);
            }
            assert(grid_wf(grid_view(gri), siz.0 as int, siz.1 as int));
        }
        Ok(Conway { generation: gen, grid: gri, size: siz })
    }

    /// The generation counter's current value.
    pub fn current_generation(&self) -> (r: &BigUint)
        ensures
            biguint_nat(*r) == self.generation_count(),
    {
        &self.generation
    }

    /// A read-only view of the current cell matrix.
    pub fn current_grid(&self) -> (r: &Vec<Vec<bool>>)
        ensures
            grid_view(*r) == self.cells(),
    {
        &self.grid
    }

    /// The declared `(width, height)`.
    pub fn dimensions(&self) -> (r: (usize, usize))
        ensures
            r.0 == self.width(),
            r.1 == self.height(),
    {
        self.size
    }

    /// Advances the simulation by one generation: the whole grid is evaluated
    /// against the previous snapshot, then committed, and the generation
    /// counter grows by exactly 1. Never fails past construction.
    pub fn next_generation(&mut self)
        requires
            old(self).well_formed(),
        ensures
            final(self).well_formed(),
            final(self).width() == old(self).width(),
            final(self).height() == old(self).height(),
            final(self).generation_count() == old(self).generation_count() + 1,
            final(self).cells() == step(old(self).cells(), old(self).width(), old(self).height()),
    {
        biguint_increment(&mut self.generation);
        let next = step_grid(&self.grid, self.size.0, self.size.1);
        proof {
            lemma_step_wf(grid_view(self.grid), self.size.0 as int, self.size.1 as int);
        }
        self.grid = next;
    }

    /// Advances the simulation by exactly `steps` generations; `steps == 0`
    /// is a no-op, not an error.
    pub fn run(&mut self, steps: usize)
        requires
            old(self).well_formed(),
        ensures
            final(self).well_formed(),
            final(self).width() == old(self).width(),
            final(self).height() == old(self).height(),
            final(self).generation_count() == old(self).generation_count() + steps,
            final(self).cells() == step_n(
                old(self).cells(),
                old(self).width(),
                old(self).height(),
                steps as nat,
            ),
    {
        let ghost s0 = self.cells();
        let ghost w0 = self.width();
        let ghost h0 = self.height();
        let ghost g0 = self.generation_count();
        let mut i: usize = 0;
        while i < steps
            invariant
                i <= steps,
                self.well_formed(),
                self.width() == w0,
                self.height() == h0,
                self.generation_count() == g0 + i,
                self.cells() == step_n(s0, w0, h0, i as nat),
            decreases steps - i,
        {
            self.next_generation();
            i += 1;
        }
    }
}

/// Number of live neighbors of cell (y, x), counted against one snapshot of
/// the grid, with edges clipped: no index outside the grid is ever read.
fn count_neighbors(g: &Vec<Vec<bool>>, w: usize, h: usize, y: usize, x: usize) -> (n: u32)
    requires
        grid_wf(grid_view(*g), w as int, h as int),
        y < h,
        x < w,
    ensures
        n as int == neighbor_count(grid_view(*g), w as int, h as int, y as int, x as int),
{
    let ghost s = grid_view(*g);
    proof {
        assert(g@.len() == h);
        assert forall|yy: int| 0 <= yy < h implies (#[trigger] g@[yy])@.len() == w by {
            assert(grid_view(*g)[yy].len() == w);
        }
    }
    let n1: u32 = if y > 0 && x > 0 && g[y - 1][x - 1] {
        1
    } else {
        0
    };
    let n2: u32 = if y > 0 && g[y - 1][x] {
        1
    } else {
        0
    };
    let n3: u32 = if y > 0 && x + 1 < w && g[y - 1][x + 1] {
        1
    } else {
        0
    };
    let n4: u32 = if x > 0 && g[y][x - 1] {
        1
    } else {
        0
    };
    let n5: u32 = if x + 1 < w && g[y][x + 1] {
        1
    } else {
        0
    };
    let n6: u32 = if y + 1 < h && x > 0 && g[y + 1][x - 1] {
        1
    } else {
        0
    };
    let n7: u32 = if y + 1 < h && g[y + 1][x] {
        1
    } else {
        0
    };
    let n8: u32 = if y + 1 < h && x + 1 < w && g[y + 1][x + 1] {
        1
    } else {
        0
    };
    assert(n1 == cell_at(s, w as int, h as int, y as int - 1, x as int - 1));
    assert(n2 == cell_at(s, w as int, h as int, y as int - 1, x as int));
    assert(n3 == cell_at(s, w as int, h as int, y as int - 1, x as int + 1));
    assert(n4 == cell_at(s, w as int, h as int, y as int, x as int - 1));
    assert(n5 == cell_at(s, w as int, h as int, y as int, x as int + 1));
    assert(n6 == cell_at(s, w as int, h as int, y as int + 1, x as int - 1));
    assert(n7 == cell_at(s, w as int, h as int, y as int + 1, x as int));
    assert(n8 == cell_at(s, w as int, h as int, y as int + 1, x as int + 1));
    n1 + n2 + n3 + n4 + n5 + n6 + n7 + n8
}

/// One full pass of the transition rule: a freshly materialized next
/// generation, every cell computed from the same snapshot `g`.
fn step_grid(g: &Vec<Vec<bool>>, w: usize, h: usize) -> (r: Vec<Vec<bool>>)
    requires
        grid_wf(grid_view(*g), w as int, h as int),
    ensures
        grid_view(r) == step(grid_view(*g), w as int, h as int),
{
    let ghost s = grid_view(*g);
    proof {
        assert(g@.len() == h);
        assert forall|yy: int| 0 <= yy < h implies (#[trigger] g@[yy])@.len() == w by {
            assert(grid_view(*g)[yy].len() == w);
        }
    }
    let mut rows: Vec<Vec<bool>> = Vec::new();
    let mut y: usize = 0;
    while y < h
        invariant
            grid_wf(s, w as int, h as int),
            s == grid_view(*g),
            g@.len() == h,
            forall|yy: int| 0 <= yy < h ==> (#[trigger] g@[yy])@.len() == w,
            y <= h,
            rows@.len() == y,
            forall|i: int| 0 <= i < y ==> (#[trigger] rows@[i])@ == step(
                s,
                w as int,
                h as int,
            )[i],
        decreases h - y,
    {
        let mut row: Vec<bool> = Vec::new();
        let mut x: usize = 0;
        while x < w
            invariant
                grid_wf(s, w as int, h as int),
                s == grid_view(*g),
                g@.len() == h,
                forall|yy: int| 0 <= yy < h ==> (#[trigger] g@[yy])@.len() == w,
                y < h,
                x <= w,
                row@.len() == x,
                forall|j: int| 0 <= j < x ==> (#[trigger] row@[j]) == next_cell(
                    s[y as int][j],
                    neighbor_count(s, w as int, h as int, y as int, j),
                ),
            decreases w - x,
        {
            let nb = count_neighbors(g, w, h, y, x);
            let a = g[y][x];
            let alive_next = if a {
                nb >= 2 && nb <= 3
            } else {
                nb == 3
            };
            row.push(alive_next);
            x += 1;
        }
        proof {
            assert(row@ =~= step(s, w as int, h as int)[y as int]);
        }
        rows.push(row);
        y += 1;
    }
    proof {
        assert(grid_view(rows) =~~= step(s, w as int, h as int));
    }
    rows
}

} // verus!

