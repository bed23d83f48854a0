//! The 32 by 8 pixel screen and the operations the renderers use: blitting a
//! smaller grid onto it, overlaying two screens, and packing it for the LED
//! matrix.

use crate::rgb::{spec_rgb565, Rgb888};
use vstd::prelude::*;

verus! {

/// The screen width, in pixels.
pub const WIDTH: usize = 32;

/// The screen height, in pixels.
pub const HEIGHT: usize = 8;

/// The model of any pixel grid: its rows as sequences.
pub open spec fn grid_view(px: Seq<Vec<Option<Rgb888>>>) -> Seq<Seq<Option<Rgb888>>> {
    px.map_values(|r: Vec<Option<Rgb888>>| r@)
}

/// A rectangular grid: every row as wide as the first.
pub open spec fn grid_rect(g: Seq<Seq<Option<Rgb888>>>) -> bool {
    forall|r: int| 0 <= r < g.len() ==> #[trigger] g[r].len() == g[0].len()
}

/// The blank screen: every pixel unlit.
pub open spec fn spec_blank() -> Seq<Seq<Option<Rgb888>>> {
    Seq::new(HEIGHT as nat, |y: int| Seq::new(WIDTH as nat, |x: int| None::<Rgb888>))
}

/// A screen with `src` drawn over `before` at `(x0, y0)`, clipped to the
/// screen: inside the drawn rectangle the pixel comes from `src`, outside it
/// the old pixel stays.
pub open spec fn spec_draw(
    before: Seq<Seq<Option<Rgb888>>>,
    src: Seq<Seq<Option<Rgb888>>>,
    x0: int,
    y0: int,
) -> Seq<Seq<Option<Rgb888>>> {
    Seq::new(
        HEIGHT as nat,
        |y: int|
            Seq::new(
                WIDTH as nat,
                |x: int|
                    if y0 <= y < y0 + src.len() && x0 <= x < x0 + src[0].len() {
                        src[y - y0][x - x0]
                    } else {
                        before[y][x]
                    },
            ),
    )
}

/// `top` over `below`: wherever `top` has a lit pixel it wins; everywhere
/// else the pixel below shows through.
pub open spec fn spec_overlay(
    below: Seq<Seq<Option<Rgb888>>>,
    top: Seq<Seq<Option<Rgb888>>>,
) -> Seq<Seq<Option<Rgb888>>> {
    Seq::new(
        HEIGHT as nat,
        |y: int|
            Seq::new(
                WIDTH as nat,
                |x: int|
                    if top[y][x] is Some {
                        top[y][x]
                    } else {
                        below[y][x]
                    },
            ),
    )
}

/// The full-screen pixel grid.
pub struct Screen {
    pub pixels: Vec<Vec<Option<Rgb888>>>,
}

impl View for Screen {
    type V = Seq<Seq<Option<Rgb888>>>;

    open spec fn view(&self) -> Seq<Seq<Option<Rgb888>>> {
        grid_view(self.pixels@)
    }
}

impl Screen {
    /// A well-formed screen: exactly `HEIGHT` rows of `WIDTH` pixels.
    pub open spec fn wf(&self) -> bool {
        &&& self@.len() == HEIGHT
        &&& forall|r: int| 0 <= r < HEIGHT ==> #[trigger] self@[r].len() == WIDTH
    }

    /// Draws a smaller rectangular grid onto the screen with its top-left
    /// corner at `(x0, y0)`, clipping whatever falls outside.
    pub fn draw(&mut self, pixels: &Vec<Vec<Option<Rgb888>>>, x0: usize, y0: usize)
        requires
            old(self).wf(),
            x0 < WIDTH,
            y0 < HEIGHT,
            pixels@.len() > 0,
            grid_rect(grid_view(pixels@)),
        ensures
            final(self).wf(),
            final(self)@ == spec_draw(old(self)@, grid_view(pixels@), x0 as int, y0 as int),
    {
        let ghost src = grid_view(pixels@);
        let ghost before = self@;
        let ghost target = spec_draw(before, src, x0 as int, y0 as int);
        let height = pixels.len();
        let width = pixels[0].len();
        let mut out: Vec<Vec<Option<Rgb888>>> = Vec::new();
        let mut y: usize = 0;
        while y < HEIGHT
            invariant
                old(self).wf(),
                self == old(self),
                before == self@,
                src == grid_view(pixels@),
                grid_rect(src),
                src.len() == height,
                height > 0,
                src[0].len() == width,
                x0 < WIDTH,
                y0 < HEIGHT,
                target == spec_draw(before, src, x0 as int, y0 as int),
                y <= HEIGHT,
                out@.len() == y,
                forall|r: int| 0 <= r < y ==> #[trigger] grid_view(out@)[r] == target[r],
            decreases HEIGHT - y,
        {
            let mut row: Vec<Option<Rgb888>> = Vec::new();
            let mut x: usize = 0;
            while x < WIDTH
                invariant
                    old(self).wf(),
                    self == old(self),
                    before == self@,
                    src == grid_view(pixels@),
                    grid_rect(src),
                    src.len() == height,
                    height > 0,
                    src[0].len() == width,
                    x0 < WIDTH,
                    y0 < HEIGHT,
                    target == spec_draw(before, src, x0 as int, y0 as int),
                    y < HEIGHT,
                    x <= WIDTH,
                    row@.len() == x,
                    forall|c: int| 0 <= c < x ==> #[trigger] row@[c] == target[y as int][c],
                decreases WIDTH - x,
            {
                let cell: Option<Rgb888> = if y0 <= y && y - y0 < height && x0 <= x && x - x0
                    < width {
                    proof {
                        assert(src[y - y0] == grid_view(pixels@)[y - y0]);
                        assert(src[y - y0].len() == width);
                    }
                    pixels[y - y0][x - x0]
                } else {
                    proof {
                        assert(before[y as int] == grid_view(self.pixels@)[y as int]);
                    }
                    self.pixels[y][x]
                };
                row.push(cell);
                x = x + 1;
            }
            proof {
                assert(row@ =~= target[y as int]);
            }
            let ghost prev = out@;
            let ghost rowv = row@;
            out.push(row);
            y = y + 1;
            proof {
                assert forall|r: int| 0 <= r < y implies #[trigger] grid_view(out@)[r]
                    == target[r] by {
                    if r < prev.len() {
                        assert(out@[r] == prev[r]);
                        assert(grid_view(prev)[r] == prev[r]@);
                    } else {
                        assert(out@[r]@ == rowv);
                    }
                }
            }
        }
        self.pixels = out;
        proof {
            assert(self@ =~= target);
        }
    }

    /// Overlays `top` onto this screen.
    pub fn overlay(self, top: Screen) -> (r: Screen)
        requires
            self.wf(),
            top.wf(),
        ensures
            r.wf(),
            r@ == spec_overlay(self@, top@),
    {
        let ghost target = spec_overlay(self@, top@);
        let mut out: Vec<Vec<Option<Rgb888>>> = Vec::new();
        let mut y: usize = 0;
        while y < HEIGHT
            invariant
                self.wf(),
                top.wf(),
                target == spec_overlay(self@, top@),
                y <= HEIGHT,
                out@.len() == y,
                forall|r: int| 0 <= r < y ==> #[trigger] grid_view(out@)[r] == target[r],
            decreases HEIGHT - y,
        {
            let mut row: Vec<Option<Rgb888>> = Vec::new();
            let mut x: usize = 0;
            while x < WIDTH
                invariant
                    self.wf(),
                    top.wf(),
                    target == spec_overlay(self@, top@),
                    y < HEIGHT,
                    x <= WIDTH,
                    row@.len() == x,
                    forall|c: int| 0 <= c < x ==> #[trigger] row@[c] == target[y as int][c],
                decreases WIDTH - x,
            {
                proof {
                    assert(top@[y as int] == grid_view(top.pixels@)[y as int]);
                    assert(self@[y as int] == grid_view(self.pixels@)[y as int]);
                }
                let cell: Option<Rgb888> = match top.pixels[y][x] {
                    Some(c) => Some(c),
                    None => self.pixels[y][x],
                };
                row.push(cell);
                x = x + 1;
            }
            proof {
                assert(row@ =~= target[y as int]);
            }
            let ghost prev = out@;
            let ghost rowv = row@;
            out.push(row);
            y = y + 1;
            proof {
                assert forall|r: int| 0 <= r < y implies #[trigger] grid_view(out@)[r]
                    == target[r] by {
                    if r < prev.len() {
                        assert(out@[r] == prev[r]);
                        assert(grid_view(prev)[r] == prev[r]@);
                    } else {
                        assert(out@[r]@ == rowv);
                    }
                }
            }
        }
        let r = Screen { pixels: out };
        proof {
            assert(r@ =~= target);
        }
        r
    }

    /// Packs the screen for the LED matrix: one RGB565 word per pixel in row
    /// order, unlit pixels as black.
    pub fn serialize(&self) -> (words: Vec<u16>)
        requires
            self.wf(),
        ensures
            words@.len() == HEIGHT * WIDTH,
            forall|y: int, x: int|
                0 <= y < HEIGHT && 0 <= x < WIDTH ==> #[trigger] words@[y * WIDTH + x]
                    == (match self@[y][x] {
                    Some(c) => spec_rgb565(c.r, c.g, c.b),
                    None => spec_rgb565(0, 0, 0),
                }),
    {
        let mut words: Vec<u16> = Vec::new();
        let mut y: usize = 0;
        while y < HEIGHT
            invariant
                self.wf(),
                y <= HEIGHT,
                words@.len() == y * WIDTH,
                forall|r: int, x: int|
                    0 <= r < y && 0 <= x < WIDTH ==> #[trigger] words@[r * WIDTH + x]
                        == (match self@[r][x] {
                        Some(c) => spec_rgb565(c.r, c.g, c.b),
                        None => spec_rgb565(0, 0, 0),
                    }),
            decreases HEIGHT - y,
        {
            let mut x: usize = 0;
            while x < WIDTH
                invariant
                    self.wf(),
                    y < HEIGHT,
                    x <= WIDTH,
                    words@.len() == y * WIDTH + x,
                    forall|r: int, c: int|
                        0 <= r < y && 0 <= c < WIDTH ==> #[trigger] words@[r * WIDTH + c]
                            == (match self@[r][c] {
                            Some(cl) => spec_rgb565(cl.r, cl.g, cl.b),
                            None => spec_rgb565(0, 0, 0),
                        }),
                    forall|c: int|
                        0 <= c < x ==> #[trigger] words@[y * WIDTH + c] == (match self@[y as int][c] {
                            Some(cl) => spec_rgb565(cl.r, cl.g, cl.b),
                            None => spec_rgb565(0, 0, 0),
                        }),
                decreases WIDTH - x,
            {
                proof {
                    assert(self@[y as int] == grid_view(self.pixels@)[y as int]);
                }
                let w = match self.pixels[y][x] {
                    Some(c) => c.to_rgb565(),
                    None => Rgb888::new(0, 0, 0).to_rgb565(),
                };
                words.push(w);
                x = x + 1;
            }
            y = y + 1;
        }
        words
    }
}

impl Default for Screen {
    /// The blank screen.
    fn default() -> (s: Screen)
        ensures
            s.wf(),
            s@ == spec_blank(),
    {
        let mut pixels: Vec<Vec<Option<Rgb888>>> = Vec::new();
        let mut y: usize = 0;
        while y < HEIGHT
            invariant
                y <= HEIGHT,
                pixels@.len() == y,
                forall|r: int| 0 <= r < y ==> #[trigger] grid_view(pixels@)[r] == spec_blank()[r],
            decreases HEIGHT - y,
        {
            let mut row: Vec<Option<Rgb888>> = Vec::new();
            let mut x: usize = 0;
            while x < WIDTH
                invariant
                    x <= WIDTH,
                    row@.len() == x,
                    forall|c: int| 0 <= c < x ==> #[trigger] row@[c] is None,
                decreases WIDTH - x,
            {
                row.push(None);
                x = x + 1;
            }
            proof {
                assert(row@ =~= spec_blank()[y as int]);
            }
            let ghost prev = pixels@;
            let ghost rowv = row@;
            pixels.push(row);
            y = y + 1;
            proof {
                assert forall|r: int| 0 <= r < y implies #[trigger] grid_view(pixels@)[r]
                    == spec_blank()[r] by {
                    if r < prev.len() {
                        assert(pixels@[r] == prev[r]);
                        assert(grid_view(prev)[r] == prev[r]@);
                    } else {
                        assert(pixels@[r]@ == rowv);
                    }
                }
            }
        }
        let s = Screen { pixels };
        proof {
            assert(s@ =~= spec_blank());
        }
        s
    }
}

} // verus!
