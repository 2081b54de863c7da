//! Rendering of sample grids.
//!
//! A grid renders as text row by row: each scalar becomes one of four glyph
//! cells picked by absolute magnitude, and every row ends in a newline.

use vstd::prelude::*;
use vstd::string::StringExecFns;
use crate::grid::{grid_cells, grid_dims, SampleGrid};

verus! {

/// Why plotting failed.
#[derive(Clone, Copy, PartialEq, Eq, Structural, Debug)]
pub enum PlotError {
    /// The sink refused a write.
    Io,
}

/// The magnitude of `v`.
pub open spec fn abs_val(v: int) -> int {
    if v >= 0 {
        v
    } else {
        -v
    }
}

/// The glyph bucket of scalar `v`, by the absolute magnitude of its value:
/// below one hundredth a middle dot, below one half a star, below
/// ninety-nine hundredths an `O`, from there an `X`.
pub open spec fn glyph(v: int) -> char {
    if abs_val(v) * 100 < 65536 {
        '\u{b7}'
    } else if abs_val(v) * 2 < 65536 {
        '*'
    } else if abs_val(v) * 100 < 99 * 65536 {
        'O'
    } else {
        'X'
    }
}

/// The rendered cell for scalar `v`: its glyph, then a space.
pub open spec fn glyph_cell(v: int) -> Seq<char> {
    seq![glyph(v), ' ']
}

/// The rendered text of row `x`: the glyph cells of its first `sy` columns.
pub open spec fn row_text(m: Map<(int, int), i64>, x: int, sy: int) -> Seq<char>
    decreases sy,
{
    if sy <= 0 {
        Seq::empty()
    } else {
        row_text(m, x, sy - 1) + glyph_cell(m[(x, sy - 1)] as int)
    }
}

/// The rendered text of the first `sx` rows, each closed by a newline.
pub open spec fn grid_text(m: Map<(int, int), i64>, sx: int, sy: int) -> Seq<char>
    decreases sx,
{
    if sx <= 0 {
        Seq::empty()
    } else {
        grid_text(m, sx - 1, sy) + row_text(m, sx - 1, sy) + seq!['\n']
    }
}

/// The rendered cell for scalar `v`.
fn glyph_str(v: i64) -> (s: &'static str)
    ensures
        s@ == glyph_cell(v as int),
{
    let a: u64 = if v >= 0 {
        v as u64
    } else {
        (-(v as i128)) as u64
    };
    proof {
        reveal_strlit("\u{b7} ");
        reveal_strlit("* ");
        reveal_strlit("O ");
        reveal_strlit("X ");
        assert(("\u{b7} ")@ =~= seq!['\u{b7}', ' ']);
        assert(("* ")@ =~= seq!['*', ' ']);
        assert(("O ")@ =~= seq!['O', ' ']);
        assert(("X ")@ =~= seq!['X', ' ']);
    }
    if a < 656 {
        "\u{b7} "
    } else if a < 32768 {
        "* "
    } else if a < 64881 {
        "O "
    } else {
        "X "
    }
}

/// Renders `graph` as text: one line per grid row, one glyph cell per
/// column, each line closed by a newline.
#[verifier::loop_isolation(false)]
pub fn render_text(graph: &SampleGrid) -> (s: String)
    ensures
        s@ == grid_text(grid_cells(graph), grid_dims(graph).0, grid_dims(graph).1),
{
    let (w, h) = graph.dim();
    let ghost m: Map<(int, int), i64> = grid_cells(graph);
    let mut s: String = String::new();
    let mut x: usize = 0;
    while x < w
        invariant
            x <= w,
            s@ == grid_text(m, x as int, h as int),
        decreases w - x,
    {
        let mut y: usize = 0;
        while y < h
            invariant
                y <= h,
                s@ == grid_text(m, x as int, h as int) + row_text(m, x as int, y as int),
            decreases h - y,
        {
            let v: i64 = graph.get(x, y);
            s.append(glyph_str(v));
            proof {
                assert(s@ =~= grid_text(m, x as int, h as int) + row_text(
                    m,
                    x as int,
                    y as int + 1,
                ));
            }
            y = y + 1;
        }
        s.append("\n");
        proof {
            reveal_strlit("\n");
            assert(("\n")@ =~= seq!['\n']);
            assert(s@ =~= grid_text(m, x as int + 1, h as int));
        }
        x = x + 1;
    }
    proof {
        assert(s@ =~= grid_text(m, x as int, h as int));
    }
    s
}

/// A byte sink that rendered text is written into: callers supply one for
/// each place a plot can go.
pub trait PlotSink {
    /// Accepts the next piece of rendered text.
    fn write_text(&mut self, s: &str) -> Result<(), PlotError>;
}

/// An in-memory sink: writing appends the text's bytes.
impl PlotSink for Vec<u8> {
    fn write_text(&mut self, s: &str) -> Result<(), PlotError> {
        let bytes: &[u8] = s.as_bytes();
        let mut i: usize = 0;
        while i < bytes.len()
            decreases bytes.len() - i,
        {
            self.push(bytes[i]);
            i = i + 1;
        }
        Ok(())
    }
}

/// A renderer of two-dimensional sample grids.
pub trait Plotter2D {
    /// Renders `graph` into the plotter's sink.
    fn plot_2d(&mut self, graph: &SampleGrid) -> Result<(), PlotError>;
}

/// A plotter that renders grids as glyph text into a sink.
pub struct WritePlotter<W> {
    writer: W,
}

impl<W: PlotSink> WritePlotter<W> {
    /// A plotter writing to `writer`.
    pub fn new(writer: W) -> WritePlotter<W> {
        WritePlotter { writer }
    }

    /// The plotter's sink, handed back.
    pub fn into_writer(self) -> W {
        self.writer
    }
}

impl<W: PlotSink> Plotter2D for WritePlotter<W> {
    fn plot_2d(&mut self, graph: &SampleGrid) -> Result<(), PlotError> {
        let text: String = render_text(graph);
        self.writer.write_text(text.as_str())
    }
}

} // verus!
