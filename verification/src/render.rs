//! Frame rendering: a pure, stateless text picture of a generation. A frame
//! is a header line naming the generation, one text line per grid row, and a
//! trailing blank line. The cell glyphs are an explicit caller choice: filled
//! and hollow squares, or `1`/`0` digits separated by spaces.

use vstd::prelude::*;
use crate::conway::Conway;
use crate::rules::{grid_view, grid_wf};
use crate::bigcount::{biguint_decimal, decimal_chars};

verus! {

/// How cells are drawn in a frame.
#[derive(Clone, Copy, PartialEq, Eq, Structural, Debug)]
pub enum FrameFormat {
    /// A filled square for a live cell, a hollow square for a dead one.
    Glyphs,
    /// `1` for a live cell, `0` for a dead one, cells separated by spaces.
    Digits,
}

/// The characters that draw one cell.
pub open spec fn cell_chars(alive: bool, format: FrameFormat) -> Seq<char> {
    match format {
        FrameFormat::Glyphs => if alive {
            "◼"@
        } else {
            "◻"@
        },
        FrameFormat::Digits => if alive {
            "1"@
        } else {
            "0"@
        },
    }
}

/// The characters between two cells of a row.
pub open spec fn sep_chars(format: FrameFormat) -> Seq<char> {
    match format {
        FrameFormat::Glyphs => Seq::empty(),
        FrameFormat::Digits => " "@,
    }
}

/// The text of one grid row: its cells in order, separated by `sep_chars`.
pub open spec fn row_chars(row: Seq<bool>, format: FrameFormat) -> Seq<char>
    decreases row.len(),
{
    if row.len() == 0 {
        Seq::empty()
    } else if row.len() == 1 {
        cell_chars(row[0], format)
    } else {
        row_chars(row.drop_last(), format) + sep_chars(format) + cell_chars(row.last(), format)
    }
}

/// The text of the whole grid: one line per row, each ended by a newline.
pub open spec fn body_chars(s: Seq<Seq<bool>>, format: FrameFormat) -> Seq<char>
    decreases s.len(),
{
    if s.len() == 0 {
        Seq::empty()
    } else {
        body_chars(s.drop_last(), format) + row_chars(s.last(), format) + "\n"@
    }
}

/// A full frame: the header naming the generation, a blank line, the grid
/// body, and a trailing blank line.
pub open spec fn frame_chars(g: nat, s: Seq<Seq<bool>>, format: FrameFormat) -> Seq<char> {
    "Generation: "@ + decimal_chars(g) + "\n\n"@ + body_chars(s, format) + "\n"@
}

/// The glyph drawn for one cell.
fn cell_str(alive: bool, format: FrameFormat) -> (r: &'static str)
    ensures
        r@ == cell_chars(alive, format),
{
    match format {
        FrameFormat::Glyphs => if alive {
            "◼"
        } else {
            "◻"
        },
        FrameFormat::Digits => if alive {
            "1"
        } else {
            "0"
        },
    }
}

/// The separator between two cells of a row.
fn sep_str(format: FrameFormat) -> (r: &'static str)
    ensures
        r@ == sep_chars(format),
{
    proof {
        reveal_strlit("");
        reveal_strlit(" ");
    }
    match format {
        FrameFormat::Glyphs => {
            let r = "";
            proof {
                assert(r@ =~= sep_chars(FrameFormat::Glyphs));
            }
            r
        },
        FrameFormat::Digits => " ",
    }
}

/// The text of one row of cells.
fn row_string(row: &Vec<bool>, format: FrameFormat) -> (r: String)
    ensures
        r@ == row_chars(row@, format),
{
    let mut s = String::new();
    let mut x: usize = 0;
    while x < row.len()
        invariant
            x <= row@.len(),
            s@ == row_chars(row@.take(x as int), format),
        decreases row@.len() - x,
    {
        if x > 0 {
            s.append(sep_str(format));
        }
        s.append(cell_str(row[x], format));
        x += 1;
        proof {
            assert(row@.take(x as int).drop_last() =~= row@.take(x as int - 1));
            assert(row@.take(x as int).last() == row@[x as int - 1]);
        }
    }
    proof {
        assert(row@.take(row@.len() as int) =~= row@);
    }
    s
}

/// The text of the whole grid, one line per row.
fn body_string(g: &Vec<Vec<bool>>, w: usize, h: usize, format: FrameFormat) -> (r: String)
    requires
        grid_wf(grid_view(*g), w as int, h as int),
    ensures
        r@ == body_chars(grid_view(*g), format),
{
    let ghost s0 = grid_view(*g);
    let mut s = String::new();
    let mut y: usize = 0;
    while y < h
        invariant
            s0 == grid_view(*g),
            grid_wf(s0, w as int, h as int),
            g@.len() == h,
            y <= h,
            s@ == body_chars(s0.take(y as int), format),
        decreases h - y,
    {
        proof {
            assert(g@[y as int]@ == s0[y as int]);
        }
        let rs = row_string(&g[y], format);
        s.append(rs.as_str());
        s.append("\n");
        y += 1;
        proof {
            assert(s0.take(y as int).drop_last() =~= s0.take(y as int - 1));
            assert(s0.take(y as int).last() == s0[y as int - 1]);
        }
    }
    proof {
        assert(s0.take(h as int) =~= s0);
    }
    s
}

impl Conway {
    /// The current grid as text, one line per row of filled and hollow
    /// squares, with a trailing blank line and no header. The engine itself
    /// is left untouched.
    pub fn stringify(&mut self) -> (r: String)
        requires
            old(self).well_formed(),
        ensures
            *final(self) == *old(self),
            r@ == body_chars(old(self).cells(), FrameFormat::Glyphs) + "\n"@,
    {
        let dims = self.dimensions();
        let mut s = body_string(self.current_grid(), dims.0, dims.1, FrameFormat::Glyphs);
        s.append("\n");
        s
    }

    /// A full frame of the current state: `Generation: <n>`, a blank line,
    /// the grid body in the chosen format, and a trailing blank line. A pure
    /// function of the grid contents and the generation counter.
    pub fn render(&self, format: FrameFormat) -> (r: String)
        requires
            self.well_formed(),
        ensures
            r@ == frame_chars(self.generation_count(), self.cells(), format),
    {
        let mut s = String::from_str("Generation: ");
        let d = biguint_decimal(self.current_generation());
        s.append(d.as_str());
        s.append("\n\n");
        let dims = self.dimensions();
        let b = body_string(self.current_grid(), dims.0, dims.1, format);
        s.append(b.as_str());
        s.append("\n");
        proof {
            assert(s@ =~= frame_chars(self.generation_count(), self.cells(), format));
        }
        s
    }

    /// The text of row `y` alone, for partial or incremental display.
    pub fn render_row(&self, y: usize, format: FrameFormat) -> (r: String)
        requires
            self.well_formed(),
            y < self.height(),
        ensures
            r@ == row_chars(self.cells()[y as int], format),
    {
        let g = self.current_grid();
        proof {
            assert(grid_view(*g).len() == g@.len());
            assert(grid_view(*g)[y as int] == g@[y as int]@);
        }
        row_string(&g[y], format)
    }
}

} // verus!
