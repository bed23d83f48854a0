//! The nixie-tube display message: a price pressed into six tubes and six
//! decimal-point lamps, framed as a sixteen-byte serial command.

use crate::digits::{digits, digits6, spec_digits, spec_digits6};
use crate::fixed::{div_rhe, lemma_div_rhe_le, pow10, spec_div_rhe, spec_pow10, Fixed, UNIT};
use vstd::prelude::*;

verus! {

/// The six display digits of a price and where its decimal point sits.
///
/// A price below 1 shows the first six of its eight fractional digits with
/// the point lamp before them. A price of six or more whole digits is rounded
/// to a whole number and truncated to its first six digits, with no point. In
/// between, the price is rounded half-to-even to fill all six tubes, and the
/// point lamp sits after the whole digits whenever the source text carried
/// fractional digits.
pub open spec fn spec_nixie_digits(p: Fixed) -> (Seq<u8>, Option<int>) {
    let int_part = p.units as int / (UNIT as int);
    if int_part == 0 {
        let frac6 = (p.units as int % (UNIT as int)) / 100;
        (Seq::new(6, |i: int| (48 + (frac6 / spec_pow10((5 - i) as nat)) % 10) as u8), Some(0))
    } else {
        let il = spec_digits(int_part as nat).len() as int;
        if il >= 6 {
            (spec_digits6(spec_div_rhe(p.units as int, UNIT as int) as nat), None)
        } else {
            let q = spec_div_rhe(p.units as int, spec_pow10((8 - (6 - il)) as nat));
            (spec_digits6(q as nat), if p.pscale > 0 {
                Some(il)
            } else {
                None
            })
        }
    }
}

/// The sixteen command bytes: the `TIMD` header, six digit bytes, and six
/// point-lamp bytes (`L` lit, `B` blank).
pub open spec fn spec_nixie_bytes(p: Fixed) -> Seq<u8> {
    let (ds, dot) = spec_nixie_digits(p);
    seq![84u8, 73u8, 77u8, 68u8] + ds + Seq::new(
        6,
        |i: int|
            if dot == Some(i) {
                76u8
            } else {
                66u8
            },
    )
}

/// One display message: the price it shows and its command bytes.
pub struct NixieMsg {
    pub num: Fixed,
    pub bytes: Vec<u8>,
}

impl NixieMsg {
    pub open spec fn wf(&self) -> bool {
        self.bytes@.len() == 16
    }

    /// Toggles the first decimal-point lamp, so a fresh tick blinks.
    pub fn flip_first_decimal_point(&mut self)
        requires
            old(self).wf(),
        ensures
            final(self).wf(),
            final(self).num == old(self).num,
            final(self).bytes@ == old(self).bytes@.update(
                10,
                if old(self).bytes@[10] == 66 {
                    76u8
                } else {
                    66u8
                },
            ),
    {
        let b: u8 = if self.bytes[10] == 66 {
            76
        } else {
            66
        };
        self.bytes[10] = b;
    }

    /// Whether two messages would light the tubes identically.
    pub fn same_bytes(&self, other: &NixieMsg) -> (r: bool)
        ensures
            r == (self.bytes@ == other.bytes@),
    {
        if self.bytes.len() != other.bytes.len() {
            return false;
        }
        let mut i: usize = 0;
        while i < self.bytes.len()
            invariant
                self.bytes@.len() == other.bytes@.len(),
                i <= self.bytes@.len(),
                forall|k: int| 0 <= k < i ==> self.bytes@[k] == other.bytes@[k],
            decreases self.bytes@.len() - i,
        {
            if self.bytes[i] != other.bytes[i] {
                return false;
            }
            i = i + 1;
        }
        proof {
            assert(self.bytes@ =~= other.bytes@);
        }
        true
    }
}

/// Renders a price as its display message.
pub fn decimal_to_bytes(num: Fixed) -> (m: NixieMsg)
    ensures
        m.num == num,
        m.wf(),
        m.bytes@ == spec_nixie_bytes(num),
{
    let int_part = num.units / UNIT;
    let (ds, dot): (Vec<u8>, Option<usize>) = if int_part == 0 {
        let frac6 = (num.units % UNIT) / 100;
        let mut v: Vec<u8> = Vec::new();
        let mut i: usize = 0;
        while i < 6
            invariant
                frac6 == (num.units as int % (UNIT as int)) / 100,
                frac6 < 1000000,
                i <= 6,
                v@.len() == i,
                forall|k: int|
                    0 <= k < i ==> v@[k] == (48 + ((frac6 as int) / spec_pow10((5 - k) as nat))
                        % 10) as u8,
            decreases 6 - i,
        {
            let place = pow10(5 - (i as u8));
            proof {
                crate::fixed::lemma_pow10_pos((5 - i) as nat);
            }
            let d = (frac6 / place) % 10;
            v.push(48 + (d as u8));
            i = i + 1;
        }
        (v, Some(0))
    } else {
        let il = digits(int_part).len();
        proof {
            crate::digits::lemma_digits_len(int_part as nat);
        }
        if il >= 6 {
            proof {
                lemma_div_rhe_le(num.units as int, UNIT as int);
            }
            let q = div_rhe(num.units as u128, UNIT as u128);
            (digits6(q as u64), None)
        } else {
            let k: u8 = 6 - (il as u8);
            let divisor = pow10(8 - k);
            proof {
                crate::fixed::lemma_pow10_pos((8 - k) as nat);
                lemma_div_rhe_le(num.units as int, spec_pow10((8 - k) as nat));
            }
            let q = div_rhe(num.units as u128, divisor as u128);
            (digits6(q as u64), if num.pscale > 0 {
                Some(il)
            } else {
                None
            })
        }
    };
    let mut bytes: Vec<u8> = Vec::new();
    bytes.push(84);
    bytes.push(73);
    bytes.push(77);
    bytes.push(68);
    let mut i: usize = 0;
    while i < 6
        invariant
            ds@.len() == 6,
            i <= 6,
            bytes@.len() == 4 + i,
            bytes@.subrange(0, 4) =~= seq![84u8, 73u8, 77u8, 68u8],
            forall|m: int| 0 <= m < i ==> bytes@[4 + m] == ds@[m],
        decreases 6 - i,
    {
        bytes.push(ds[i]);
        i = i + 1;
    }
    let mut j: usize = 0;
    while j < 6
        invariant
            ds@.len() == 6,
            j <= 6,
            bytes@.len() == 10 + j,
            bytes@.subrange(0, 4) =~= seq![84u8, 73u8, 77u8, 68u8],
            forall|m: int| 0 <= m < 6 ==> bytes@[4 + m] == ds@[m],
            forall|m: int|
                0 <= m < j ==> #[trigger] bytes@[10 + m] == (if (match dot {
                    Some(dp) => m == dp,
                    None => false,
                }) {
                    76u8
                } else {
                    66u8
                }),
        decreases 6 - j,
    {
        let lit = match dot {
            Some(dp) => j == dp,
            None => false,
        };
        bytes.push(if lit {
            76
        } else {
            66
        });
        j = j + 1;
    }
    proof {
        let (sds, sdot) = spec_nixie_digits(num);
        let target = spec_nixie_bytes(num);
        assert(ds@ =~= sds);
        assert(match (dot, sdot) {
            (Some(a), Some(b)) => a == b,
            (None, None) => true,
            _ => false,
        });
        assert(target.len() == 16);
        assert(bytes@.len() == 16);
        assert(bytes@.subrange(0, 4)[0] == bytes@[0]);
        assert(bytes@.subrange(0, 4)[1] == bytes@[1]);
        assert(bytes@.subrange(0, 4)[2] == bytes@[2]);
        assert(bytes@.subrange(0, 4)[3] == bytes@[3]);
        assert forall|i: int| 0 <= i < 16 implies bytes@[i] == target[i] by {
            if i < 4 {
            } else if i < 10 {
                assert(bytes@[4 + (i - 4)] == ds@[i - 4]);
                assert(target[i] == sds[i - 4]);
            } else {
                assert(bytes@[10 + (i - 10)] == (if (match dot {
                    Some(dp) => i - 10 == dp,
                    None => false,
                }) {
                    76u8
                } else {
                    66u8
                }));
            }
        }
        assert(bytes@ =~= target);
    }
    NixieMsg { num, bytes }
}

} // verus!
