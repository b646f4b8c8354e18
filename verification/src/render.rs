//! Deterministic text rendering of the board.
//!
//! The output is one header line of column markers followed by one line per
//! row, each prefixed by a row marker, each cell mapped to a fixed glyph per
//! cell state. Rendering is a pure function of the grid: [`render_view`]
//! says character for character what [`Board::get_string`] returns. The two
//! player markers use distinct glyphs so the rendering tells the players
//! apart.

use vstd::prelude::*;
use vstd::string::StringExecFns;

use crate::board::Board;
use crate::board::grid_dims;
use crate::grid::COLS;
use crate::grid::ROWS;
use crate::grid::Slot;

verus! {

/// The glyph a cell state is drawn with. A trap is indistinguishable from an
/// empty cell on purpose.
pub open spec fn glyph(s: Slot) -> Seq<char> {
    match s {
        Slot::Player1 => ":sunglasses:"@,
        Slot::Player2 => ":smiling_imp:"@,
        Slot::Empty => ":brown_square:"@,
        Slot::Trap => ":brown_square:"@,
        Slot::Wall => ":black_large_square:"@,
    }
}

/// The marker heading column `j`.
pub open spec fn col_header(j: int) -> Seq<char> {
    if j == 0 {
        ":regional_indicator_a:"@
    } else if j == 1 {
        ":regional_indicator_b:"@
    } else if j == 2 {
        ":regional_indicator_c:"@
    } else if j == 3 {
        ":regional_indicator_d:"@
    } else if j == 4 {
        ":regional_indicator_e:"@
    } else if j == 5 {
        ":regional_indicator_f:"@
    } else if j == 6 {
        ":regional_indicator_g:"@
    } else if j == 7 {
        ":regional_indicator_h:"@
    } else if j == 8 {
        ":regional_indicator_i:"@
    } else if j == 9 {
        ":regional_indicator_j:"@
    } else if j == 10 {
        ":regional_indicator_k:"@
    } else {
        ":regional_indicator_l:"@
    }
}

/// The marker prefixed to row `i`.
pub open spec fn row_header(i: int) -> Seq<char> {
    if i == 0 {
        ":one:"@
    } else if i == 1 {
        ":two:"@
    } else if i == 2 {
        ":three:"@
    } else if i == 3 {
        ":four:"@
    } else if i == 4 {
        ":five:"@
    } else if i == 5 {
        ":six:"@
    } else {
        ":seven:"@
    }
}

/// The glyphs of the first `n` cells of one row, in column order.
pub open spec fn row_cells(row: Seq<Slot>, n: int) -> Seq<char>
    decreases n,
{
    if n <= 0 {
        Seq::empty()
    } else {
        row_cells(row, n - 1) + glyph(row[n - 1])
    }
}

/// The first `n` column markers of the header line, in column order.
pub open spec fn header(n: int) -> Seq<char>
    decreases n,
{
    if n <= 0 {
        Seq::empty()
    } else {
        header(n - 1) + col_header(n - 1)
    }
}

/// One rendered row: its marker, its cells left to right, and a newline.
pub open spec fn row_line(g: Seq<Seq<Slot>>, i: int) -> Seq<char> {
    row_header(i) + row_cells(g[i], COLS as int) + "\n"@
}

/// The first `n` rendered rows, top to bottom.
pub open spec fn rows(g: Seq<Seq<Slot>>, n: int) -> Seq<char>
    decreases n,
{
    if n <= 0 {
        Seq::empty()
    } else {
        rows(g, n - 1) + row_line(g, n - 1)
    }
}

/// The full rendering: the corner marker, the column headers, a newline,
/// then every row.
pub open spec fn render_view(g: Seq<Seq<Slot>>) -> Seq<char> {
    ":blue_square:"@ + header(COLS as int) + "\n"@ + rows(g, ROWS as int)
}

/// The glyph a cell state is drawn with.
fn glyph_str(s: Slot) -> (r: &'static str)
    ensures
        r@ == glyph(s),
{
    match s {
        Slot::Player1 => ":sunglasses:",
        Slot::Player2 => ":smiling_imp:",
        Slot::Empty => ":brown_square:",
        Slot::Trap => ":brown_square:",
        Slot::Wall => ":black_large_square:",
    }
}

/// The marker heading column `j`.
fn col_header_str(j: usize) -> (r: &'static str)
    requires
        j < COLS,
    ensures
        r@ == col_header(j as int),
{
    if j == 0 {
        ":regional_indicator_a:"
    } else if j == 1 {
        ":regional_indicator_b:"
    } else if j == 2 {
        ":regional_indicator_c:"
    } else if j == 3 {
        ":regional_indicator_d:"
    } else if j == 4 {
        ":regional_indicator_e:"
    } else if j == 5 {
        ":regional_indicator_f:"
    } else if j == 6 {
        ":regional_indicator_g:"
    } else if j == 7 {
        ":regional_indicator_h:"
    } else if j == 8 {
        ":regional_indicator_i:"
    } else if j == 9 {
        ":regional_indicator_j:"
    } else if j == 10 {
        ":regional_indicator_k:"
    } else {
        ":regional_indicator_l:"
    }
}

/// The marker prefixed to row `i`.
fn row_header_str(i: usize) -> (r: &'static str)
    requires
        i < ROWS,
    ensures
        r@ == row_header(i as int),
{
    if i == 0 {
        ":one:"
    } else if i == 1 {
        ":two:"
    } else if i == 2 {
        ":three:"
    } else if i == 3 {
        ":four:"
    } else if i == 4 {
        ":five:"
    } else if i == 5 {
        ":six:"
    } else {
        ":seven:"
    }
}

impl Board {
    /// Render the board as the text grid [`render_view`] describes. Pure:
    /// the board is not touched, and equal boards render equally.
    pub fn get_string(&self) -> (r: String)
        requires
            grid_dims(self@),
        ensures
            r@ == render_view(self@),
    {
        let mut out = String::new();
        out.append(":blue_square:");
        let mut j: usize = 0;
        while j < COLS
            invariant
                j <= COLS,
                out@ == ":blue_square:"@ + header(j as int),
            decreases COLS - j,
        {
            out.append(col_header_str(j));
            proof {
                assert(out@ =~= ":blue_square:"@ + header(j + 1));
            }
            j += 1;
        }
        out.append("\n");
        proof {
            assert(out@ =~= ":blue_square:"@ + header(COLS as int) + "\n"@);
            assert(rows(self@, 0) == Seq::<char>::empty());
            assert(out@ =~= ":blue_square:"@ + header(COLS as int) + "\n"@ + rows(self@, 0));
        }
        let mut i: usize = 0;
        while i < ROWS
            invariant
                grid_dims(self@),
                i <= ROWS,
                out@ == ":blue_square:"@ + header(COLS as int) + "\n"@ + rows(self@, i as int),
            decreases ROWS - i,
        {
            out.append(row_header_str(i));
            let mut j: usize = 0;
            while j < COLS
                invariant
                    grid_dims(self@),
                    i < ROWS,
                    j <= COLS,
                    out@ == ":blue_square:"@ + header(COLS as int) + "\n"@ + rows(
                        self@,
                        i as int,
                    ) + row_header(i as int) + row_cells(self@[i as int], j as int),
                decreases COLS - j,
            {
                out.append(glyph_str(self.get_cell(i, j)));
                proof {
                    assert(out@ =~= ":blue_square:"@ + header(COLS as int) + "\n"@ + rows(
                        self@,
                        i as int,
                    ) + row_header(i as int) + row_cells(self@[i as int], j + 1));
                }
                j += 1;
            }
            out.append("\n");
            proof {
                assert(rows(self@, i + 1) == rows(self@, i as int) + row_line(self@, i as int));
                assert(out@ =~= ":blue_square:"@ + header(COLS as int) + "\n"@ + rows(
                    self@,
                    i + 1,
                ));
            }
            i += 1;
        }
        out
    }
}

} // verus!
