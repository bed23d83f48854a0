//! 24-bit colors and their conversion to the 16-bit RGB565 wire format of the
//! LED matrix.

use vstd::prelude::*;

verus! {

/// A 24-bit color, 8 bits per channel.
#[derive(Clone, Copy, PartialEq, Eq, Structural, Debug)]
pub struct Rgb888 {
    pub r: u8,
    pub g: u8,
    pub b: u8,
}

/// The RGB565 packing of a 24-bit color: the upper 5 bits of red, 6 of green
/// and 5 of blue, packed high to low into one 16-bit word.
pub open spec fn spec_rgb565(r: u8, g: u8, b: u8) -> u16 {
    (((r / 8) as u16) * 2048 + ((g / 4) as u16) * 32 + ((b / 8) as u16)) as u16
}

impl Rgb888 {
    pub open spec fn spec_r(self) -> u8 {
        self.r
    }

    pub open spec fn spec_g(self) -> u8 {
        self.g
    }

    pub open spec fn spec_b(self) -> u8 {
        self.b
    }

    pub fn new(r: u8, g: u8, b: u8) -> (c: Rgb888)
        ensures
            c == (Rgb888 { r, g, b }),
    {
        Rgb888 { r, g, b }
    }

    pub fn to_rgb565(&self) -> (w: u16)
        ensures
            w == spec_rgb565(self.r, self.g, self.b),
    {
        let r = self.r;
        let g = self.g;
        let b = self.b;
        proof {
            assert((((r >> 3) as u16) << 11) | (((g >> 2) as u16) << 5) | ((b >> 3) as u16) == (((r
                / 8) as u16) * 2048 + ((g / 4) as u16) * 32 + ((b / 8) as u16)) as u16)
                by (bit_vector);
        }
        (((r >> 3) as u16) << 11) | (((g >> 2) as u16) << 5) | ((b >> 3) as u16)
    }
}

/// Recoloring of a pixel grid: every lit cell holding exactly `from` is
/// repainted with `to`; unlit cells and other colors stay.
pub open spec fn spec_colorize(
    px: Seq<Seq<Option<Rgb888>>>,
    from: Rgb888,
    to: Rgb888,
) -> Seq<Seq<Option<Rgb888>>> {
    px.map_values(
        |row: Seq<Option<Rgb888>>|
            row.map_values(
                |cell: Option<Rgb888>|
                    match cell {
                        Some(c) => if c == from {
                            Some(to)
                        } else {
                            Some(c)
                        },
                        None => None,
                    },
            ),
    )
}

pub fn colorize(px: &Vec<Vec<Option<Rgb888>>>, from: &Rgb888, to: &Rgb888) -> (out: Vec<
    Vec<Option<Rgb888>>,
>)
    ensures
        out@.map_values(|r: Vec<Option<Rgb888>>| r@) == spec_colorize(
            px@.map_values(|r: Vec<Option<Rgb888>>| r@),
            *from,
            *to,
        ),
{
    let mut out: Vec<Vec<Option<Rgb888>>> = Vec::new();
    let mut i: usize = 0;
    while i < px.len()
        invariant
            i <= px@.len(),
            out@.len() == i,
            forall|r: int|
                0 <= r < i ==> #[trigger] out@[r]@ == spec_colorize(
                    px@.map_values(|r2: Vec<Option<Rgb888>>| r2@),
                    *from,
                    *to,
                )[r],
        decreases px@.len() - i,
    {
        let row = &px[i];
        let mut new_row: Vec<Option<Rgb888>> = Vec::new();
        let mut j: usize = 0;
        while j < row.len()
            invariant
                j <= row@.len(),
                new_row@.len() == j,
                forall|c: int|
                    0 <= c < j ==> #[trigger] new_row@[c] == (match row@[c] {
                        Some(col) => if col == *from {
                            Some(*to)
                        } else {
                            Some(col)
                        },
                        None => None,
                    }),
            decreases row@.len() - j,
        {
            let cell = match row[j] {
                Some(c) => if c == *from {
                    Some(*to)
                } else {
                    Some(c)
                },
                None => None,
            };
            new_row.push(cell);
            j = j + 1;
        }
        proof {
            assert(new_row@ =~= spec_colorize(
                px@.map_values(|r2: Vec<Option<Rgb888>>| r2@),
                *from,
                *to,
            )[i as int]);
        }
        out.push(new_row);
        i = i + 1;
    }
    proof {
        assert(out@.map_values(|r: Vec<Option<Rgb888>>| r@) =~= spec_colorize(
            px@.map_values(|r: Vec<Option<Rgb888>>| r@),
            *from,
            *to,
        ));
    }
    out
}

} // verus!
