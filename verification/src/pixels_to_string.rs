//! Terminal rendering of a pixel grid: each lit cell is a colored block, each
//! unlit cell two spaces, rows joined with newlines.

use crate::rgb::Rgb888;
use crate::screen::grid_view;
use vstd::prelude::*;

verus! {

#[verifier::external_type_specification]
#[verifier::external_body]
pub struct ExColour(ansi_term::Colour);

impl Rgb888 {
    /// Relies on ansi_term::Colour::RGB: the terminal color variant carrying
    /// exactly these three channels.
    #[verifier::external_body]
    pub fn to_term_rgb(&self) -> ansi_term::Colour {
        ansi_term::Colour::RGB(self.r, self.g, self.b)
    }
}

/// What ansi_term paints for a color and a text.
pub uninterp spec fn painted(r: u8, g: u8, b: u8, text: Seq<char>) -> Seq<char>;

/// Relies on ansi_term::Colour::RGB(..).paint(..): the painted text — the
/// text wrapped in the color's escape codes — depends on the color and the
/// text alone.
#[verifier::external_body]
fn paint_cell(c: Rgb888, text: &str) -> (out: String)
    ensures
        out@ == painted(c.r, c.g, c.b, text@),
{
    ansi_term::Colour::RGB(c.r, c.g, c.b).paint(text).to_string()
}

/// One rendered cell: the block painted in its color, or two spaces.
pub open spec fn spec_cell_text(p: Option<Rgb888>) -> Seq<char> {
    match p {
        Some(c) => painted(c.r, c.g, c.b, "██"@),
        None => "  "@,
    }
}

/// One rendered row, left to right.
pub open spec fn spec_row_text(row: Seq<Option<Rgb888>>) -> Seq<char>
    decreases row.len(),
{
    if row.len() == 0 {
        Seq::empty()
    } else {
        spec_row_text(row.drop_last()) + spec_cell_text(row.last())
    }
}

/// The rendered grid, rows joined with newlines.
pub open spec fn spec_pixels_text(px: Seq<Seq<Option<Rgb888>>>) -> Seq<char>
    decreases px.len(),
{
    if px.len() == 0 {
        Seq::empty()
    } else if px.len() == 1 {
        spec_row_text(px[0])
    } else {
        spec_pixels_text(px.drop_last()) + seq!['\n'] + spec_row_text(px.last())
    }
}

/// Renders a pixel grid for the terminal.
pub fn pixels_to_string(pixels: &Vec<Vec<Option<Rgb888>>>) -> (s: String)
    ensures
        s@ == spec_pixels_text(grid_view(pixels@)),
{
    let ghost gv = grid_view(pixels@);
    let mut out = String::new();
    let mut y: usize = 0;
    while y < pixels.len()
        invariant
            gv == grid_view(pixels@),
            gv.len() == pixels@.len(),
            y <= pixels@.len(),
            out@ == spec_pixels_text(gv.subrange(0, y as int)),
        decreases pixels@.len() - y,
    {
        if y > 0 {
            out.append("\n");
        }
        let ghost head = out@;
        let row = &pixels[y];
        proof {
            assert(row@ == gv[y as int]);
        }
        let mut x: usize = 0;
        while x < row.len()
            invariant
                row@ == gv[y as int],
                x <= row@.len(),
                out@ == head + spec_row_text(gv[y as int].subrange(0, x as int)),
            decreases row@.len() - x,
        {
            match row[x] {
                Some(c) => {
                    let cell = paint_cell(c, "██");
                    out.append(cell.as_str());
                },
                None => {
                    out.append("  ");
                },
            }
            x = x + 1;
            proof {
                let sub = gv[y as int].subrange(0, x as int);
                assert(sub.drop_last() =~= gv[y as int].subrange(0, x - 1));
                assert(sub.last() == gv[y as int][x - 1]);
                assert(out@ =~= head + spec_row_text(sub));
            }
        }
        y = y + 1;
        proof {
            reveal_strlit("\n");
            assert("\n"@ =~= seq!['\n']);
            assert(gv[y - 1].subrange(0, gv[y - 1].len() as int) =~= gv[y - 1]);
            let sub = gv.subrange(0, y as int);
            assert(sub.drop_last() =~= gv.subrange(0, y - 1));
            assert(sub.last() == gv[y - 1]);
            if y > 1 {
                assert(head =~= spec_pixels_text(gv.subrange(0, y - 1)) + seq!['\n']);
                assert(out@ =~= spec_pixels_text(gv.subrange(0, y as int)));
            } else {
                assert(head =~= Seq::<char>::empty());
                assert(out@ =~= spec_pixels_text(gv.subrange(0, y as int)));
            }
        }
    }
    proof {
        assert(gv.subrange(0, gv.len() as int) =~= gv);
    }
    out
}

} // verus!
