//! Decimal digit strings, shared by the number displays.

use vstd::prelude::*;

verus! {

/// The ASCII decimal digits of `n`, most significant first.
pub open spec fn spec_digits(n: nat) -> Seq<u8>
    decreases n,
{
    if n < 10 {
        seq![(48 + n) as u8]
    } else {
        spec_digits(n / 10).push((48 + n % 10) as u8)
    }
}

pub proof fn lemma_digits_len(n: nat)
    ensures
        spec_digits(n).len() >= 1,
        forall|i: int| 0 <= i < spec_digits(n).len() ==> 48 <= #[trigger] spec_digits(n)[i] <= 57,
    decreases n,
{
    if n >= 10 {
        lemma_digits_len(n / 10);
    }
}

/// The ASCII decimal digits of `n`, most significant first.
pub fn digits(n: u64) -> (v: Vec<u8>)
    ensures
        v@ == spec_digits(n as nat),
    decreases n,
{
    if n < 10 {
        let mut v: Vec<u8> = Vec::new();
        v.push(48 + (n as u8));
        proof {
            assert(v@ =~= spec_digits(n as nat));
        }
        v
    } else {
        let mut v = digits(n / 10);
        v.push(48 + ((n % 10) as u8));
        proof {
            assert(v@ =~= spec_digits(n as nat));
        }
        v
    }
}

/// The first six digits of `n`, padded on the right with zeros where `n` is
/// shorter: the six-window form a nixie display shows.
pub open spec fn spec_digits6(n: nat) -> Seq<u8> {
    let ds = spec_digits(n);
    if ds.len() >= 6 {
        ds.subrange(0, 6)
    } else {
        ds + Seq::new((6 - ds.len()) as nat, |i: int| 48u8)
    }
}

pub fn digits6(n: u64) -> (v: Vec<u8>)
    ensures
        v@ == spec_digits6(n as nat),
        v@.len() == 6,
{
    let mut v = digits(n);
    proof {
        lemma_digits_len(n as nat);
    }
    if v.len() >= 6 {
        v.truncate(6);
        proof {
            assert(v@ =~= spec_digits6(n as nat));
        }
    } else {
        let ghost ds = spec_digits(n as nat);
        while v.len() < 6
            invariant
                ds.len() <= v@.len() <= 6,
                v@ == ds + Seq::new((v@.len() - ds.len()) as nat, |i: int| 48u8),
            decreases 6 - v@.len(),
        {
            v.push(48);
            proof {
                assert(v@ =~= ds + Seq::new((v@.len() - ds.len()) as nat, |i: int| 48u8));
            }
        }
    }
    v
}

} // verus!
