//! Decimal text of integers, for the ASCII form.

use vstd::prelude::*;

verus! {

/// The decimal digits of `n`, most significant first, as ASCII bytes.
pub open spec fn dec_u64(n: nat) -> Seq<u8>
    decreases n,
{
    if n < 10 {
        seq![(0x30 + n) as u8]
    } else {
        dec_u64(n / 10) + seq![(0x30 + n % 10) as u8]
    }
}

/// The decimal text of `v`: a minus sign for negative values, then the
/// digits of the magnitude.
pub open spec fn dec_i64(v: int) -> Seq<u8> {
    if v >= 0 {
        dec_u64(v as nat)
    } else {
        seq![0x2du8] + dec_u64((0 - v) as nat)
    }
}

/// Appends the decimal digits of `n`.
pub fn push_dec_u64(out: &mut Vec<u8>, n: u64)
    ensures
        final(out)@ == old(out)@ + dec_u64(n as nat),
    decreases n,
{
    if n < 10 {
        out.push(0x30 + n as u8);
        proof {
            assert(final(out)@ =~= old(out)@ + dec_u64(n as nat));
        }
    } else {
        proof {
            vstd::arithmetic::div_mod::lemma_div_is_strictly_smaller(n as int, 10);
        }
        push_dec_u64(out, n / 10);
        out.push(0x30 + (n % 10) as u8);
        proof {
            assert(final(out)@ =~= old(out)@ + dec_u64(n as nat));
        }
    }
}

/// Appends the decimal text of `v`.
pub fn push_dec_i64(out: &mut Vec<u8>, v: i64)
    ensures
        final(out)@ == old(out)@ + dec_i64(v as int),
{
    if v >= 0 {
        push_dec_u64(out, v as u64);
    } else {
        let ghost base = out@;
        out.push(0x2d);
        let m: u64 = (-(v + 1)) as u64 + 1;
        push_dec_u64(out, m);
        proof {
            assert(out@ =~= base + dec_i64(v as int));
        }
    }
}

} // verus!
