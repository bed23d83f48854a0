//! Glyph rasterization: the three pixel fonts the displays use, one glyph
//! per character, and the texts (prices, clock times) composed from them.
//!
//! Each glyph is a small bitmap: one bit row per pixel row, bit `x` standing
//! for column `x`, lit pixels drawn white. Characters are composed left to
//! right with a one-pixel gap.

use crate::digits::{digits, spec_digits};
use crate::fixed::{div_rhe, lemma_div_rhe_le, spec_div_rhe, Fixed};
use crate::rgb::Rgb888;
use crate::screen::{grid_rect, grid_view, spec_draw, Screen, HEIGHT, WIDTH};
use vstd::prelude::*;

verus! {

/// The three pixel fonts, five, four and three rows tall.
#[derive(Clone, Copy, PartialEq, Eq, Structural, Debug)]
pub enum Font {
    Large,
    Medium,
    Small,
}

/// The pixel height of a font.
pub open spec fn font_height(f: Font) -> int {
    match f {
        Font::Large => 5,
        Font::Medium => 4,
        Font::Small => 3,
    }
}

/// Bit `x` of a three-bit glyph row.
pub open spec fn bit3(bits: u8, x: int) -> bool {
    if x == 0 {
        bits % 2 == 1
    } else if x == 1 {
        (bits / 2) % 2 == 1
    } else {
        (bits / 4) % 2 == 1
    }
}

/// The bit rows of one glyph, top row first.
pub open spec fn spec_glyph_rows(c: char, f: Font) -> Seq<u8> {
    match f {
        Font::Large => match c {
                ' ' => seq![0u8, 0u8, 0u8, 0u8, 0u8],
                '|' => seq![0u8, 0u8, 0u8, 0u8, 0u8],
                '0' => seq![7u8, 5u8, 5u8, 5u8, 7u8],
                '1' => seq![2u8, 3u8, 2u8, 2u8, 7u8],
                '2' => seq![7u8, 4u8, 7u8, 1u8, 7u8],
                '3' => seq![7u8, 4u8, 7u8, 4u8, 7u8],
                '4' => seq![5u8, 5u8, 7u8, 4u8, 4u8],
                '5' => seq![7u8, 1u8, 7u8, 4u8, 7u8],
                '6' => seq![7u8, 1u8, 7u8, 5u8, 7u8],
                '7' => seq![7u8, 4u8, 4u8, 4u8, 4u8],
                '8' => seq![7u8, 5u8, 7u8, 5u8, 7u8],
                '9' => seq![7u8, 5u8, 7u8, 4u8, 7u8],
                '.' => seq![0u8, 0u8, 0u8, 0u8, 1u8],
                ':' => seq![0u8, 1u8, 0u8, 1u8, 0u8],
                _ => seq![7u8, 7u8, 7u8, 7u8, 7u8],
            },
        Font::Medium => match c {
                ' ' => seq![0u8, 0u8, 0u8, 0u8],
                '|' => seq![0u8, 0u8, 0u8, 0u8],
                '0' => seq![7u8, 5u8, 5u8, 7u8],
                '1' => seq![3u8, 2u8, 2u8, 7u8],
                '2' => seq![7u8, 4u8, 3u8, 7u8],
                '3' => seq![3u8, 6u8, 4u8, 7u8],
                '4' => seq![5u8, 5u8, 7u8, 4u8],
                '5' => seq![7u8, 1u8, 6u8, 7u8],
                '6' => seq![1u8, 7u8, 5u8, 7u8],
                '7' => seq![7u8, 5u8, 4u8, 4u8],
                '8' => seq![7u8, 5u8, 7u8, 7u8],
                '9' => seq![7u8, 5u8, 7u8, 4u8],
                '.' => seq![0u8, 0u8, 0u8, 1u8],
                ':' => seq![0u8, 1u8, 0u8, 1u8],
                _ => seq![7u8, 7u8, 7u8, 7u8],
            },
        Font::Small => match c {
                ' ' => seq![0u8, 0u8, 0u8],
                '|' => seq![0u8, 0u8, 0u8],
                '0' => seq![7u8, 5u8, 7u8],
                '1' => seq![2u8, 3u8, 2u8],
                '2' => seq![1u8, 2u8, 7u8],
                '3' => seq![7u8, 6u8, 7u8],
                '4' => seq![5u8, 7u8, 4u8],
                '5' => seq![6u8, 2u8, 3u8],
                '6' => seq![1u8, 7u8, 7u8],
                '7' => seq![7u8, 4u8, 4u8],
                '8' => seq![7u8, 7u8, 7u8],
                '9' => seq![7u8, 7u8, 4u8],
                '.' => seq![0u8, 0u8, 1u8],
                ':' => seq![1u8, 0u8, 1u8],
                _ => seq![7u8, 7u8, 7u8],
            },
    }
}

/// The pixel width of one glyph.
pub open spec fn spec_glyph_width(c: char, f: Font) -> int {
    match f {
        Font::Large => match c {
                ' ' => 0,
                '|' => 1,
                '0' => 3,
                '1' => 3,
                '2' => 3,
                '3' => 3,
                '4' => 3,
                '5' => 3,
                '6' => 3,
                '7' => 3,
                '8' => 3,
                '9' => 3,
                '.' => 1,
                ':' => 1,
                _ => 3,
            },
        Font::Medium => match c {
                ' ' => 0,
                '|' => 1,
                '0' => 3,
                '1' => 3,
                '2' => 3,
                '3' => 3,
                '4' => 3,
                '5' => 3,
                '6' => 3,
                '7' => 3,
                '8' => 3,
                '9' => 3,
                '.' => 1,
                ':' => 1,
                _ => 3,
            },
        Font::Small => match c {
                ' ' => 0,
                '|' => 1,
                '0' => 3,
                '1' => 3,
                '2' => 3,
                '3' => 3,
                '4' => 3,
                '5' => 3,
                '6' => 3,
                '7' => 3,
                '8' => 3,
                '9' => 3,
                '.' => 1,
                ':' => 1,
                _ => 3,
            },
    }
}

/// The white color lit glyph pixels use.
pub open spec fn spec_white() -> Rgb888 {
    Rgb888 { r: 255, g: 255, b: 255 }
}

/// One pixel row from one bit row.
pub open spec fn bit_row(bits: u8, w: int) -> Seq<Option<Rgb888>> {
    Seq::new(
        w as nat,
        |x: int|
            if bit3(bits, x) {
                Some(spec_white())
            } else {
                None
            },
    )
}

/// The full pixel grid of one glyph.
pub open spec fn spec_glyph_grid(c: char, f: Font) -> Seq<Seq<Option<Rgb888>>> {
    Seq::new(
        font_height(f) as nat,
        |r: int| bit_row(spec_glyph_rows(c, f)[r], spec_glyph_width(c, f)),
    )
}

/// The pixel grid of a text: its glyphs left to right with one-pixel gaps.
pub open spec fn spec_text_pixels(t: Seq<char>, f: Font) -> Seq<Seq<Option<Rgb888>>>
    decreases t.len(),
{
    if t.len() == 0 {
        Seq::new(font_height(f) as nat, |r: int| Seq::<Option<Rgb888>>::empty())
    } else if t.len() == 1 {
        spec_glyph_grid(t[0], f)
    } else {
        let rest = spec_text_pixels(t.drop_last(), f);
        let last = spec_glyph_grid(t.last(), f);
        Seq::new(font_height(f) as nat, |r: int| rest[r] + seq![None::<Rgb888>] + last[r])
    }
}

fn row_from_bits(bits: u8, w: usize) -> (row: Vec<Option<Rgb888>>)
    requires
        w <= 3,
    ensures
        row@ == bit_row(bits, w as int),
{
    let mut row: Vec<Option<Rgb888>> = Vec::new();
    let mut x: usize = 0;
    while x < w
        invariant
            w <= 3,
            x <= w,
            row@.len() == x,
            forall|k: int| 0 <= k < x ==> #[trigger] row@[k] == bit_row(bits, w as int)[k],
        decreases w - x,
    {
        let lit: bool = if x == 0 {
            bits % 2 == 1
        } else if x == 1 {
            (bits / 2) % 2 == 1
        } else {
            (bits / 4) % 2 == 1
        };
        row.push(
            if lit {
                Some(Rgb888::new(255, 255, 255))
            } else {
                None
            },
        );
        x = x + 1;
    }
    proof {
        assert(row@ =~= bit_row(bits, w as int));
    }
    row
}

/// A rasterized text: its font and its pixel grid.
pub struct Character {
    pub font: Font,
    pub pixels: Vec<Vec<Option<Rgb888>>>,
}

impl View for Character {
    type V = Seq<Seq<Option<Rgb888>>>;

    open spec fn view(&self) -> Seq<Seq<Option<Rgb888>>> {
        grid_view(self.pixels@)
    }
}

impl Character {
    /// As tall as the font says and rectangular.
    pub open spec fn wf(&self) -> bool {
        &&& self@.len() == font_height(self.font)
        &&& forall|r: int, r2: int|
            0 <= r < self@.len() && 0 <= r2 < self@.len() ==> #[trigger] self@[r].len()
                == #[trigger] self@[r2].len()
    }

    /// The pixel width of the rasterized text.
    pub open spec fn spec_width(&self) -> int {
        self@[0].len() as int
    }

    /// Rasterizes one character; anything outside the font's repertoire
    /// becomes a filled block.
    pub fn new(c: char, font: Font) -> (ch: Character)
        ensures
            ch.font == font,
            ch@ == spec_glyph_grid(c, font),
            ch.wf(),
    {
        let mut rb: Vec<u8> = Vec::new();
        let w: usize;
        match font {
            Font::Large => match c {
                ' ' => {
                    rb.push(0);
                    rb.push(0);
                    rb.push(0);
                    rb.push(0);
                    rb.push(0);
                    w = 0;
                },
                '|' => {
                    rb.push(0);
                    rb.push(0);
                    rb.push(0);
                    rb.push(0);
                    rb.push(0);
                    w = 1;
                },
                '0' => {
                    rb.push(7);
                    rb.push(5);
                    rb.push(5);
                    rb.push(5);
                    rb.push(7);
                    w = 3;
                },
                '1' => {
                    rb.push(2);
                    rb.push(3);
                    rb.push(2);
                    rb.push(2);
                    rb.push(7);
                    w = 3;
                },
                '2' => {
                    rb.push(7);
                    rb.push(4);
                    rb.push(7);
                    rb.push(1);
                    rb.push(7);
                    w = 3;
                },
                '3' => {
                    rb.push(7);
                    rb.push(4);
                    rb.push(7);
                    rb.push(4);
                    rb.push(7);
                    w = 3;
                },
                '4' => {
                    rb.push(5);
                    rb.push(5);
                    rb.push(7);
                    rb.push(4);
                    rb.push(4);
                    w = 3;
                },
                '5' => {
                    rb.push(7);
                    rb.push(1);
                    rb.push(7);
                    rb.push(4);
                    rb.push(7);
                    w = 3;
                },
                '6' => {
                    rb.push(7);
                    rb.push(1);
                    rb.push(7);
                    rb.push(5);
                    rb.push(7);
                    w = 3;
                },
                '7' => {
                    rb.push(7);
                    rb.push(4);
                    rb.push(4);
                    rb.push(4);
                    rb.push(4);
                    w = 3;
                },
                '8' => {
                    rb.push(7);
                    rb.push(5);
                    rb.push(7);
                    rb.push(5);
                    rb.push(7);
                    w = 3;
                },
                '9' => {
                    rb.push(7);
                    rb.push(5);
                    rb.push(7);
                    rb.push(4);
                    rb.push(7);
                    w = 3;
                },
                '.' => {
                    rb.push(0);
                    rb.push(0);
                    rb.push(0);
                    rb.push(0);
                    rb.push(1);
                    w = 1;
                },
                ':' => {
                    rb.push(0);
                    rb.push(1);
                    rb.push(0);
                    rb.push(1);
                    rb.push(0);
                    w = 1;
                },
                _ => {
                    rb.push(7);
                    rb.push(7);
                    rb.push(7);
                    rb.push(7);
                    rb.push(7);
                    w = 3;
                },
            },
            Font::Medium => match c {
                ' ' => {
                    rb.push(0);
                    rb.push(0);
                    rb.push(0);
                    rb.push(0);
                    w = 0;
                },
                '|' => {
                    rb.push(0);
                    rb.push(0);
                    rb.push(0);
                    rb.push(0);
                    w = 1;
                },
                '0' => {
                    rb.push(7);
                    rb.push(5);
                    rb.push(5);
                    rb.push(7);
                    w = 3;
                },
                '1' => {
                    rb.push(3);
                    rb.push(2);
                    rb.push(2);
                    rb.push(7);
                    w = 3;
                },
                '2' => {
                    rb.push(7);
                    rb.push(4);
                    rb.push(3);
                    rb.push(7);
                    w = 3;
                },
                '3' => {
                    rb.push(3);
                    rb.push(6);
                    rb.push(4);
                    rb.push(7);
                    w = 3;
                },
                '4' => {
                    rb.push(5);
                    rb.push(5);
                    rb.push(7);
                    rb.push(4);
                    w = 3;
                },
                '5' => {
                    rb.push(7);
                    rb.push(1);
                    rb.push(6);
                    rb.push(7);
                    w = 3;
                },
                '6' => {
                    rb.push(1);
                    rb.push(7);
                    rb.push(5);
                    rb.push(7);
                    w = 3;
                },
                '7' => {
                    rb.push(7);
                    rb.push(5);
                    rb.push(4);
                    rb.push(4);
                    w = 3;
                },
                '8' => {
                    rb.push(7);
                    rb.push(5);
                    rb.push(7);
                    rb.push(7);
                    w = 3;
                },
                '9' => {
                    rb.push(7);
                    rb.push(5);
                    rb.push(7);
                    rb.push(4);
                    w = 3;
                },
                '.' => {
                    rb.push(0);
                    rb.push(0);
                    rb.push(0);
                    rb.push(1);
                    w = 1;
                },
                ':' => {
                    rb.push(0);
                    rb.push(1);
                    rb.push(0);
                    rb.push(1);
                    w = 1;
                },
                _ => {
                    rb.push(7);
                    rb.push(7);
                    rb.push(7);
                    rb.push(7);
                    w = 3;
                },
            },
            Font::Small => match c {
                ' ' => {
                    rb.push(0);
                    rb.push(0);
                    rb.push(0);
                    w = 0;
                },
                '|' => {
                    rb.push(0);
                    rb.push(0);
                    rb.push(0);
                    w = 1;
                },
                '0' => {
                    rb.push(7);
                    rb.push(5);
                    rb.push(7);
                    w = 3;
                },
                '1' => {
                    rb.push(2);
                    rb.push(3);
                    rb.push(2);
                    w = 3;
                },
                '2' => {
                    rb.push(1);
                    rb.push(2);
                    rb.push(7);
                    w = 3;
                },
                '3' => {
                    rb.push(7);
                    rb.push(6);
                    rb.push(7);
                    w = 3;
                },
                '4' => {
                    rb.push(5);
                    rb.push(7);
                    rb.push(4);
                    w = 3;
                },
                '5' => {
                    rb.push(6);
                    rb.push(2);
                    rb.push(3);
                    w = 3;
                },
                '6' => {
                    rb.push(1);
                    rb.push(7);
                    rb.push(7);
                    w = 3;
                },
                '7' => {
                    rb.push(7);
                    rb.push(4);
                    rb.push(4);
                    w = 3;
                },
                '8' => {
                    rb.push(7);
                    rb.push(7);
                    rb.push(7);
                    w = 3;
                },
                '9' => {
                    rb.push(7);
                    rb.push(7);
                    rb.push(4);
                    w = 3;
                },
                '.' => {
                    rb.push(0);
                    rb.push(0);
                    rb.push(1);
                    w = 1;
                },
                ':' => {
                    rb.push(1);
                    rb.push(0);
                    rb.push(1);
                    w = 1;
                },
                _ => {
                    rb.push(7);
                    rb.push(7);
                    rb.push(7);
                    w = 3;
                },
            },
        }
        proof {
            assert(rb@ =~= spec_glyph_rows(c, font));
            assert(w as int == spec_glyph_width(c, font));
        }
        let mut pixels: Vec<Vec<Option<Rgb888>>> = Vec::new();
        let mut r: usize = 0;
        while r < rb.len()
            invariant
                rb@ == spec_glyph_rows(c, font),
                w as int == spec_glyph_width(c, font),
                w <= 3,
                r <= rb@.len(),
                pixels@.len() == r,
                forall|m: int|
                    0 <= m < r ==> #[trigger] grid_view(pixels@)[m] == spec_glyph_grid(c, font)[m],
            decreases rb@.len() - r,
        {
            let row = row_from_bits(rb[r], w);
            let ghost prev = pixels@;
            let ghost rowv = row@;
            pixels.push(row);
            r = r + 1;
            proof {
                assert forall|m: int| 0 <= m < r implies #[trigger] grid_view(pixels@)[m]
                    == spec_glyph_grid(c, font)[m] by {
                    if m < prev.len() {
                        assert(pixels@[m] == prev[m]);
                        assert(grid_view(prev)[m] == prev[m]@);
                    } else {
                        assert(pixels@[m]@ == rowv);
                    }
                }
            }
        }
        let ch = Character { font, pixels };
        proof {
            assert(rb@.len() == font_height(font));
            assert(ch@ =~= spec_glyph_grid(c, font));
        }
        ch
    }

    /// Joins two rasterized texts of one font with a one-pixel gap.
    pub fn hcat(self, rhs: Character) -> (r: Character)
        requires
            self.wf(),
            rhs.wf(),
            self.font == rhs.font,
        ensures
            r.font == self.font,
            r.wf(),
            r@.len() == self@.len(),
            forall|m: int|
                0 <= m < r@.len() ==> #[trigger] r@[m] == self@[m] + seq![None::<Rgb888>]
                    + rhs@[m],
    {
        let mut pixels: Vec<Vec<Option<Rgb888>>> = Vec::new();
        let n = self.pixels.len();
        let mut m: usize = 0;
        while m < n
            invariant
                self.wf(),
                rhs.wf(),
                self.font == rhs.font,
                n == self@.len(),
                m <= n,
                pixels@.len() == m,
                forall|k: int|
                    0 <= k < m ==> #[trigger] grid_view(pixels@)[k] == self@[k] + seq![
                        None::<Rgb888>,
                    ] + rhs@[k],
            decreases n - m,
        {
            proof {
                assert(self@[m as int] == grid_view(self.pixels@)[m as int]);
                assert(rhs@[m as int] == grid_view(rhs.pixels@)[m as int]);
                assert(font_height(self.font) == font_height(rhs.font));
            }
            let mut row: Vec<Option<Rgb888>> = Vec::new();
            let a = &self.pixels[m];
            let mut i: usize = 0;
            while i < a.len()
                invariant
                    a@ == self@[m as int],
                    m < self@.len(),
                    i <= a@.len(),
                    row@ == self@[m as int].subrange(0, i as int),
                decreases a@.len() - i,
            {
                row.push(a[i]);
                i = i + 1;
                proof {
                    assert(row@ =~= self@[m as int].subrange(0, i as int));
                }
            }
            row.push(None);
            let b = &rhs.pixels[m];
            let mut j: usize = 0;
            while j < b.len()
                invariant
                    a@ == self@[m as int],
                    b@ == rhs@[m as int],
                    m < self@.len(),
                    m < rhs@.len(),
                    j <= b@.len(),
                    row@ == self@[m as int] + seq![None::<Rgb888>] + rhs@[m as int].subrange(
                        0,
                        j as int,
                    ),
                decreases b@.len() - j,
            {
                row.push(b[j]);
                j = j + 1;
                proof {
                    assert(row@ =~= self@[m as int] + seq![None::<Rgb888>]
                        + rhs@[m as int].subrange(0, j as int));
                }
            }
            proof {
                assert(row@ =~= self@[m as int] + seq![None::<Rgb888>] + rhs@[m as int]);
            }
            let ghost prev = pixels@;
            let ghost rowv = row@;
            pixels.push(row);
            m = m + 1;
            proof {
                assert forall|k: int| 0 <= k < m implies #[trigger] grid_view(pixels@)[k]
                    == self@[k] + seq![None::<Rgb888>] + rhs@[k] by {
                    if k < prev.len() {
                        assert(pixels@[k] == prev[k]);
                        assert(grid_view(prev)[k] == prev[k]@);
                    } else {
                        assert(pixels@[k]@ == rowv);
                    }
                }
            }
        }
        let r = Character { font: self.font, pixels };
        proof {
            assert(r@.len() == self@.len());
            if r@.len() > 0 {
                assert(forall|k: int|
                    0 <= k < r@.len() ==> #[trigger] r@[k].len() == self@[k].len() + 1
                        + rhs@[k].len());
            }
        }
        r
    }

    /// Rasterizes a text, glyph by glyph.
    pub fn from_text(text: &Vec<char>, font: Font) -> (r: Character)
        requires
            text@.len() >= 1,
        ensures
            r.font == font,
            r.wf(),
            r@ == spec_text_pixels(text@, font),
    {
        let mut ch = Character::new(text[0], font);
        proof {
            assert(text@.subrange(0, 1) =~= seq![text@[0]]);
            assert(spec_text_pixels(text@.subrange(0, 1), font) == spec_glyph_grid(
                text@[0],
                font,
            ));
        }
        let mut i: usize = 1;
        while i < text.len()
            invariant
                1 <= i <= text@.len(),
                ch.font == font,
                ch.wf(),
                ch@ == spec_text_pixels(text@.subrange(0, i as int), font),
            decreases text@.len() - i,
        {
            let g = Character::new(text[i], font);
            let next = ch.hcat(g);
            proof {
                let pre = text@.subrange(0, i as int);
                let cur = text@.subrange(0, i + 1);
                assert(cur.drop_last() =~= pre);
                assert(cur.last() == text@[i as int]);
                assert(cur.len() >= 2);
                assert(next@ =~= spec_text_pixels(cur, font));
            }
            ch = next;
            i = i + 1;
        }
        proof {
            assert(text@.subrange(0, text@.len() as int) =~= text@);
        }
        ch
    }

    /// The price text `whole.fr`, the price rounded half-to-even to two
    /// fractional digits.
    pub fn from_float(p: Fixed, font: Font) -> (r: Character)
        ensures
            r.font == font,
            r.wf(),
            r@ == spec_text_pixels(spec_price_text(p), font),
    {
        proof {
            lemma_div_rhe_le(p.units as int, 1000000);
        }
        let cents = div_rhe(p.units as u128, 1000000) as u64;
        let whole = cents / 100;
        let mut text: Vec<char> = Vec::new();
        let ds = digits(whole);
        let mut i: usize = 0;
        while i < ds.len()
            invariant
                ds@ == spec_digits(whole as nat),
                i <= ds@.len(),
                text@.len() == i,
                forall|k: int| 0 <= k < i ==> #[trigger] text@[k] == (ds@[k] as char),
            decreases ds@.len() - i,
        {
            text.push(ds[i] as char);
            i = i + 1;
        }
        text.push('.');
        text.push((48 + ((cents / 10) % 10)) as u8 as char);
        text.push((48 + (cents % 10)) as u8 as char);
        proof {
            assert(text@ =~= spec_price_text(p));
            crate::digits::lemma_digits_len(whole as nat);
        }
        Character::from_text(&text, font)
    }

    /// The clock text `HH:MM:SS`.
    pub fn from_time(h: u8, m: u8, s: u8, font: Font) -> (r: Character)
        requires
            h < 24,
            m < 60,
            s < 60,
        ensures
            r.font == font,
            r.wf(),
            r@ == spec_text_pixels(spec_clock_text(h, m, s), font),
    {
        let mut text: Vec<char> = Vec::new();
        text.push((48 + h / 10) as char);
        text.push((48 + h % 10) as char);
        text.push(':');
        text.push((48 + m / 10) as char);
        text.push((48 + m % 10) as char);
        text.push(':');
        text.push((48 + s / 10) as char);
        text.push((48 + s % 10) as char);
        proof {
            assert(text@ =~= spec_clock_text(h, m, s));
        }
        Character::from_text(&text, font)
    }
}

/// The text a price shows: its whole digits, a point, and two fractional
/// digits, rounded half to even.
pub open spec fn spec_price_text(p: Fixed) -> Seq<char> {
    let cents = spec_div_rhe(p.units as int, 1000000);
    spec_digits((cents / 100) as nat).map_values(|b: u8| b as char) + seq![
        '.',
        ((48 + (cents / 10) % 10) as u8) as char,
        ((48 + cents % 10) as u8) as char,
    ]
}

/// The text a clock shows: `HH:MM:SS`.
pub open spec fn spec_clock_text(h: u8, m: u8, s: u8) -> Seq<char> {
    seq![
        ((48 + h / 10) as u8) as char,
        ((48 + h % 10) as u8) as char,
        ':',
        ((48 + m / 10) as u8) as char,
        ((48 + m % 10) as u8) as char,
        ':',
        ((48 + s / 10) as u8) as char,
        ((48 + s % 10) as u8) as char,
    ]
}

impl Screen {
    /// A screen with the text drawn at the top-right corner, one pixel in
    /// from the edge.
    pub fn from_chars(cs: Character) -> (s: Screen)
        requires
            cs.wf(),
            cs@.len() > 0,
            cs.spec_width() < WIDTH,
        ensures
            s.wf(),
            s@ == spec_draw(
                crate::screen::spec_blank(),
                cs@,
                WIDTH - cs.spec_width() - 1,
                0,
            ),
    {
        let mut s = Screen::default();
        proof {
            assert(grid_view(cs.pixels@)[0].len() == cs.spec_width());
            assert(grid_rect(grid_view(cs.pixels@)));
        }
        let w = cs.pixels[0].len();
        s.draw(&cs.pixels, WIDTH - (w + 1), 0);
        s
    }

    /// A screen showing one price in the large font at the top-right corner.
    pub fn from_float(p: Fixed) -> (s: Screen)
        requires
            spec_text_pixels(spec_price_text(p), Font::Large)[0].len() < WIDTH,
        ensures
            s.wf(),
            s@ == spec_draw(
                crate::screen::spec_blank(),
                spec_text_pixels(spec_price_text(p), Font::Large),
                WIDTH - spec_text_pixels(spec_price_text(p), Font::Large)[0].len() - 1,
                0,
            ),
    {
        let cs = Character::from_float(p, Font::Large);
        Screen::from_chars(cs)
    }
}

} // verus!
