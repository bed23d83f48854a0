//! Fixed-point decimal prices.
//!
//! A price is held exactly, as an integer count of 10^-8 units together with
//! the number of fractional digits its source text showed. A value of this
//! type can never be NaN or otherwise undefined, and parsing rejects any text
//! that the representation could not hold exactly.

use crate::json::{
    digit_end, digits_value, lemma_digit_end_bounds, lemma_digits_value_nonneg, parse_nat,
};
use vstd::arithmetic::div_mod::lemma_fundamental_div_mod;
use vstd::arithmetic::mul::lemma_mul_inequality;
use vstd::prelude::*;

verus! {

/// How many fractional decimal digits one unit stands for.
pub const FRAC_DIGITS: u8 = 8;

/// 10 to the `FRAC_DIGITS`: the number of units in 1.0.
pub const UNIT: u64 = 100000000;

/// An exact decimal price.
///
/// `units` counts 10^-8, so the numeric value is `units` / `UNIT`;
/// `pscale` is how many fractional digits the source text carried (at most
/// `FRAC_DIGITS`), kept only for faithful display.
#[derive(Clone, Copy, PartialEq, Eq, Structural, Debug)]
pub struct Fixed {
    pub units: u64,
    pub pscale: u8,
}

pub open spec fn spec_pow10(k: nat) -> int
    decreases k,
{
    if k == 0 {
        1
    } else {
        10 * spec_pow10((k - 1) as nat)
    }
}

pub proof fn lemma_pow10_pos(k: nat)
    ensures
        spec_pow10(k) >= 1,
    decreases k,
{
    if k > 0 {
        lemma_pow10_pos((k - 1) as nat);
    }
}

pub proof fn lemma_pow10_add(a: nat, b: nat)
    ensures
        spec_pow10(a) * spec_pow10(b) == spec_pow10(a + b),
    decreases a,
{
    if a == 0 {
        assert(spec_pow10(0) * spec_pow10(b) == spec_pow10(b));
    } else {
        lemma_pow10_add((a - 1) as nat, b);
        assert((10 * spec_pow10((a - 1) as nat)) * spec_pow10(b) == 10 * (spec_pow10(
            (a - 1) as nat,
        ) * spec_pow10(b))) by (nonlinear_arith);
    }
}

/// The value of a run of digits is below 10 to its length.
pub proof fn lemma_digits_value_upper(s: Seq<char>, i: int, j: int)
    requires
        i <= j,
        forall|m: int| i <= m < j ==> crate::json::is_digit(s[m]),
    ensures
        digits_value(s, i, j) < spec_pow10((j - i) as nat),
    decreases j - i,
{
    if i < j {
        lemma_digits_value_upper(s, i, j - 1);
        lemma_pow10_pos((j - 1 - i) as nat);
        assert(digits_value(s, i, j - 1) * 10 <= (spec_pow10((j - 1 - i) as nat) - 1) * 10)
            by (nonlinear_arith)
            requires
                digits_value(s, i, j - 1) <= spec_pow10((j - 1 - i) as nat) - 1,
        ;
    }
}

/// Spells out the small powers of ten, one definitional unfolding at a time.
pub proof fn lemma_pow10_values()
    ensures
        spec_pow10(0) == 1,
        spec_pow10(1) == 10,
        spec_pow10(2) == 100,
        spec_pow10(3) == 1000,
        spec_pow10(4) == 10000,
        spec_pow10(5) == 100000,
        spec_pow10(6) == 1000000,
        spec_pow10(7) == 10000000,
        spec_pow10(8) == 100000000,
{
    assert(spec_pow10(0) == 1);
    assert(spec_pow10(1) == 10);
    assert(spec_pow10(2) == 100);
    assert(spec_pow10(3) == 1000);
    assert(spec_pow10(4) == 10000);
    assert(spec_pow10(5) == 100000);
    assert(spec_pow10(6) == 1000000);
    assert(spec_pow10(7) == 10000000);
    assert(spec_pow10(8) == 100000000);
}

pub fn pow10(k: u8) -> (r: u64)
    requires
        k <= 8,
    ensures
        r as int == spec_pow10(k as nat),
{
    proof {
        lemma_pow10_values();
    }
    if k == 0 {
        1
    } else if k == 1 {
        10
    } else if k == 2 {
        100
    } else if k == 3 {
        1000
    } else if k == 4 {
        10000
    } else if k == 5 {
        100000
    } else if k == 6 {
        1000000
    } else if k == 7 {
        10000000
    } else {
        100000000
    }
}

impl Fixed {
    /// A well-formed price: the display scale never exceeds what the
    /// representation holds.
    pub open spec fn wf(self) -> bool {
        self.pscale <= FRAC_DIGITS
    }

    pub fn new(units: u64, pscale: u8) -> (r: Fixed)
        requires
            pscale <= FRAC_DIGITS,
        ensures
            r == (Fixed { units, pscale }),
    {
        Fixed { units, pscale }
    }

    /// The whole part of the price.
    pub open spec fn spec_int_part(self) -> int {
        self.units as int / (UNIT as int)
    }

    /// The fractional part of the price, in 10^-8 units.
    pub open spec fn spec_frac_part(self) -> int {
        self.units as int % (UNIT as int)
    }
}

/// `n / d` rounded half to even, the rounding the display paths use.
pub open spec fn spec_div_rhe(n: int, d: int) -> int {
    let q = n / d;
    let r = n % d;
    if 2 * r < d {
        q
    } else if 2 * r > d {
        q + 1
    } else if q % 2 == 0 {
        q
    } else {
        q + 1
    }
}

/// Where the numerator stays within `k` times the denominator, the rounded
/// quotient stays within `k`.
pub proof fn lemma_div_rhe_bound(n: int, d: int, k: int)
    requires
        d >= 1,
        0 <= n <= k * d,
    ensures
        0 <= spec_div_rhe(n, d) <= k,
{
    lemma_fundamental_div_mod(n, d);
    let q = n / d;
    let r = n % d;
    assert(0 <= r < d) by {
        vstd::arithmetic::div_mod::lemma_mod_bound(n, d);
    }
    assert(q >= 0) by {
        vstd::arithmetic::div_mod::lemma_div_pos_is_pos(n, d);
    }
    if q >= k + 1 {
        assert(d * q >= k * d + d) by (nonlinear_arith)
            requires
                q >= k + 1,
                d >= 1,
        ;
        assert(false);
    }
    if q == k {
        assert(d * q == k * d) by (nonlinear_arith)
            requires
                q == k,
        ;
        assert(r <= 0);
    }
}

/// The rounded quotient never exceeds the numerator.
pub proof fn lemma_div_rhe_le(n: int, d: int)
    requires
        n >= 0,
        d >= 1,
    ensures
        0 <= spec_div_rhe(n, d) <= n,
{
    lemma_fundamental_div_mod(n, d);
    vstd::arithmetic::div_mod::lemma_mod_bound(n, d);
    vstd::arithmetic::div_mod::lemma_div_pos_is_pos(n, d);
    let q = n / d;
    let r = n % d;
    assert(d * q >= q) by (nonlinear_arith)
        requires
            q >= 0,
            d >= 1,
    ;
    if r >= 1 {
        assert(q + 1 <= n);
    }
}

pub fn div_rhe(n: u128, d: u128) -> (r: u128)
    requires
        d >= 1,
    ensures
        r as int == spec_div_rhe(n as int, d as int),
{
    let q = n / d;
    let rem = n % d;
    proof {
        lemma_fundamental_div_mod(n as int, d as int);
        if rem >= 1 {
            assert(q * d >= q * 1) by (nonlinear_arith)
                requires
                    q >= 0,
                    d >= 1,
            ;
        }
    }
    if rem < d - rem {
        q
    } else if rem > d - rem {
        q + 1
    } else if q % 2 == 0 {
        q
    } else {
        q + 1
    }
}

/// The decimal text `digit+ ('.' digit{1..8})?`, valued exactly, where the
/// value fits the representation; anything else is rejected.
pub open spec fn spec_fixed_of(s: Seq<char>) -> Option<Fixed> {
    let p = digit_end(s, 0);
    if p <= 0 {
        None
    } else if p == s.len() {
        let v = digits_value(s, 0, p) * (UNIT as int);
        if v <= u64::MAX {
            Some(Fixed { units: v as u64, pscale: 0 })
        } else {
            None
        }
    } else if s[p] == '.' {
        let q = digit_end(s, p + 1);
        let fl = q - (p + 1);
        if q == s.len() && 1 <= fl <= FRAC_DIGITS {
            let v = digits_value(s, 0, p) * (UNIT as int) + digits_value(s, p + 1, q) * spec_pow10(
                (FRAC_DIGITS - fl) as nat,
            );
            if v <= u64::MAX {
                Some(Fixed { units: v as u64, pscale: fl as u8 })
            } else {
                None
            }
        } else {
            None
        }
    } else {
        None
    }
}

/// Every price the parser accepts is well-formed: no NaN-like or otherwise
/// undefined value can come out of a payload.
pub proof fn lemma_fixed_of_wf(s: Seq<char>)
    ensures
        spec_fixed_of(s) matches Some(f) ==> f.wf(),
{
}

/// Parses a decimal price from its text.
pub fn parse_fixed(s: &Vec<char>) -> (r: Option<Fixed>)
    ensures
        r == spec_fixed_of(s@),
{
    let len = s.len();
    let ghost sq = s@;
    let (iv, p) = match parse_nat(s, 0) {
        Some(x) => x,
        None => {
            proof {
                let p = digit_end(sq, 0);
                lemma_digit_end_bounds(sq, 0);
                if p > 0 {
                    // the digits alone exceed u64::MAX, so any value built on
                    // them does too
                    assert(digits_value(sq, 0, p) > u64::MAX);
                    lemma_pow10_pos(8);
                    assert(digits_value(sq, 0, p) * (UNIT as int) >= digits_value(sq, 0, p) * 1)
                        by (nonlinear_arith)
                        requires
                            digits_value(sq, 0, p) >= 0,
                    ;
                    if p < sq.len() && sq[p] == '.' {
                        let q = digit_end(sq, p + 1);
                        lemma_digit_end_bounds(sq, p + 1);
                        lemma_digits_value_nonneg(sq, p + 1, q);
                        let fl = q - (p + 1);
                        if q == sq.len() && 1 <= fl <= FRAC_DIGITS {
                            lemma_pow10_pos((FRAC_DIGITS - fl) as nat);
                            assert(digits_value(sq, p + 1, q) * spec_pow10(
                                (FRAC_DIGITS - fl) as nat,
                            ) >= 0) by (nonlinear_arith)
                                requires
                                    digits_value(sq, p + 1, q) >= 0,
                                    spec_pow10((FRAC_DIGITS - fl) as nat) >= 0,
                            ;
                        }
                    }
                }
            }
            return None;
        },
    };
    if p == len {
        if iv > u64::MAX / UNIT {
            proof {
                lemma_fundamental_div_mod(u64::MAX as int, UNIT as int);
                lemma_mul_inequality(u64::MAX as int / (UNIT as int) + 1, iv as int, UNIT as int);
            }
            return None;
        }
        proof {
            lemma_fundamental_div_mod(u64::MAX as int, UNIT as int);
            lemma_mul_inequality(iv as int, u64::MAX as int / (UNIT as int), UNIT as int);
        }
        return Some(Fixed { units: iv * UNIT, pscale: 0 });
    }
    if s[p] != '.' {
        return None;
    }
    let (fv, q) = match parse_nat(s, p + 1) {
        Some(x) => x,
        None => {
            proof {
                let q = digit_end(sq, p + 1);
                lemma_digit_end_bounds(sq, p + 1);
                let fl = q - (p + 1);
                if q > p + 1 {
                    // the fractional digits exceed u64::MAX, so there are
                    // more than eight of them
                    assert(digits_value(sq, p + 1, q) > u64::MAX);
                    if fl <= 8 {
                        lemma_digits_value_upper(sq, p + 1, q);
                        lemma_pow10_values();
                        lemma_pow10_pos((8 - fl) as nat);
                        lemma_pow10_add(fl as nat, (8 - fl) as nat);
                        assert(spec_pow10(fl as nat) <= spec_pow10(8)) by (nonlinear_arith)
                            requires
                                spec_pow10(fl as nat) * spec_pow10((8 - fl) as nat) == spec_pow10(
                                    8,
                                ),
                                spec_pow10((8 - fl) as nat) >= 1,
                                spec_pow10(fl as nat) >= 1,
                        ;
                    }
                }
            }
            return None;
        },
    };
    let fl = q - (p + 1);
    if !(q == len && 1 <= fl && fl <= 8) {
        return None;
    }
    let mult = pow10(8 - (fl as u8));
    proof {
        lemma_digit_end_bounds(sq, p + 1);
        lemma_digits_value_upper(sq, p + 1, q as int);
        lemma_pow10_add(fl as nat, (8 - fl) as nat);
        lemma_pow10_values();
        lemma_mul_inequality(fv as int, spec_pow10(fl as nat) - 1, mult as int);
        lemma_pow10_pos((8 - fl) as nat);
        assert((spec_pow10(fl as nat) - 1) * (mult as int) == spec_pow10(fl as nat) * (mult as int)
            - (mult as int)) by (nonlinear_arith);
    }
    let frac_scaled = fv * mult;
    if iv > u64::MAX / UNIT {
        proof {
            lemma_fundamental_div_mod(u64::MAX as int, UNIT as int);
            lemma_mul_inequality(u64::MAX as int / (UNIT as int) + 1, iv as int, UNIT as int);
            lemma_digits_value_nonneg(sq, p + 1, q as int);
            assert(digits_value(sq, p + 1, q as int) * spec_pow10((8 - fl) as nat) >= 0)
                by (nonlinear_arith)
                requires
                    digits_value(sq, p + 1, q as int) >= 0,
                    spec_pow10((8 - fl) as nat) >= 0,
            ;
        }
        return None;
    }
    proof {
        lemma_fundamental_div_mod(u64::MAX as int, UNIT as int);
        lemma_mul_inequality(iv as int, u64::MAX as int / (UNIT as int), UNIT as int);
    }
    let base = iv * UNIT;
    if frac_scaled > u64::MAX - base {
        return None;
    }
    Some(Fixed { units: base + frac_scaled, pscale: fl as u8 })
}

} // verus!
