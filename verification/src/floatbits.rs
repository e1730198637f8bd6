//! Conversions between IEEE 754 single- and double-precision values,
//! carried out on their bit patterns with integer arithmetic only.
//!
//! Throughout the crate a single-precision value is held as its `u32` bit
//! pattern and a double-precision value as its `u64` bit pattern.  Widening
//! (single to double) is exact; narrowing (double to single) rounds to
//! nearest, ties to even, overflowing to an infinity, as IEEE 754 demands.

use vstd::prelude::*;
use vstd::arithmetic::power2::{
    lemma2_to64, lemma2_to64_rest, lemma_pow2_adds, lemma_pow2_strictly_increases, pow2,
};

verus! {

/// Sign bit of a double bit pattern: 0 or 1.
pub open spec fn f64_sign(b: u64) -> u64 {
    b / 0x8000_0000_0000_0000
}

/// Biased exponent field (11 bits) of a double bit pattern.
pub open spec fn f64_exp(b: u64) -> u64 {
    (b / 0x10_0000_0000_0000) % 0x800
}

/// Fraction field (52 bits) of a double bit pattern.
pub open spec fn f64_frac(b: u64) -> u64 {
    b % 0x10_0000_0000_0000
}

/// Sign bit of a single bit pattern: 0 or 1.
pub open spec fn f32_sign(b: u32) -> u32 {
    b / 0x8000_0000
}

/// Biased exponent field (8 bits) of a single bit pattern.
pub open spec fn f32_exp(b: u32) -> u32 {
    (b / 0x80_0000) % 0x100
}

/// Fraction field (23 bits) of a single bit pattern.
pub open spec fn f32_frac(b: u32) -> u32 {
    b % 0x80_0000
}

/// Position of the highest set bit: `pow2(floor_log2(m)) <= m < pow2(floor_log2(m) + 1)`.
pub open spec fn floor_log2(m: nat) -> nat
    decreases m,
{
    if m < 2 {
        0
    } else {
        1 + floor_log2(m / 2)
    }
}

/// `s / pow2(sh)`, rounded to nearest with ties to even.
pub open spec fn round_half_even(s: nat, sh: nat) -> nat {
    let p = pow2(sh);
    let q = s / p;
    let r = s % p;
    if 2 * r > p || (2 * r == p && q % 2 == 1) {
        q + 1
    } else {
        q
    }
}

/// The double bit pattern denoting the same value as the single bit
/// pattern `b` (NaN payloads are shifted into the wider fraction field).
pub open spec fn widen_f32_bits_spec(b: u32) -> u64 {
    let s = (f32_sign(b) as nat) * pow2(63);
    let e = f32_exp(b);
    let m = f32_frac(b);
    if e == 0xff {
        // Infinity or NaN: top exponent, fraction shifted left 29 bits.
        (s + 0x7ff * pow2(52) + (m as nat) * pow2(29)) as u64
    } else if e == 0 {
        if m == 0 {
            // Signed zero.
            s as u64
        } else {
            // Single subnormal `m * 2^-149`: normalize into the double format.
            let k = floor_log2(m as nat);
            (s + (k + 874) * pow2(52) + (m - pow2(k)) * pow2((52 - k) as nat)) as u64
        }
    } else {
        // Normal: re-bias the exponent (1023 - 127 = 896), widen the fraction.
        (s + ((e + 896) as nat) * pow2(52) + (m as nat) * pow2(29)) as u64
    }
}

/// The single bit pattern nearest (ties to even) the value of the double
/// bit pattern `b`; overflow gives an infinity, NaN stays NaN with the
/// payload truncated and the quiet bit set.
pub open spec fn narrow_f64_bits_spec(b: u64) -> u32 {
    let s = (f64_sign(b) as nat) * pow2(31);
    let e = f64_exp(b);
    let m = f64_frac(b);
    if e == 0x7ff {
        if m == 0 {
            // Infinity.
            (s + 0x7f80_0000) as u32
        } else {
            // NaN: truncate the payload, force the quiet bit.
            let t = (m as nat) / pow2(29);
            let tq = if t >= pow2(22) {
                t
            } else {
                t + pow2(22)
            };
            (s + 0x7f80_0000 + tq) as u32
        }
    } else if e == 0 {
        // Double zero or subnormal: far below the single range, rounds to zero.
        s as u32
    } else {
        let ex = e as int - 1023;
        let sval = pow2(52) + m as nat;  // value is sval * 2^(ex - 52)
        if ex > 127 {
            // Above the single range: infinity.
            (s + 0x7f80_0000) as u32
        } else if ex >= -126 {
            // Lands among the single normals (or just above after rounding).
            let q = round_half_even(sval, 29);
            if q == pow2(24) {
                // Fraction rounded up into the next binade.
                if ex == 127 {
                    (s + 0x7f80_0000) as u32
                } else {
                    (s + (ex + 1 + 127) * pow2(23)) as u32
                }
            } else {
                (s + (ex + 127) * pow2(23) + (q - pow2(23))) as u32
            }
        } else {
            // Lands among the single subnormals: t * 2^-149; t = 2^23 is the
            // least normal, reached only by rounding up.
            let sh = (0 - ex - 97) as nat;
            let t = round_half_even(sval, sh);
            (s + t) as u32
        }
    }
}

proof fn lemma_floor_log2_bounds(m: nat)
    requires
        m >= 1,
    ensures
        pow2(floor_log2(m)) <= m < pow2(floor_log2(m) + 1),
    decreases m,
{
    vstd::arithmetic::power2::lemma_pow2_unfold(floor_log2(m) + 1);
    if m < 2 {
        lemma2_to64();
    } else {
        lemma_floor_log2_bounds(m / 2);
        vstd::arithmetic::power2::lemma_pow2_unfold(floor_log2(m));
    }
}

/// `pow2(sh)` as a machine word.
fn pow2_u64(sh: u64) -> (r: u64)
    requires
        sh <= 63,
    ensures
        r == pow2(sh as nat),
{
    let mut r: u64 = 1;
    let mut i: u64 = 0;
    proof {
        lemma2_to64();
        lemma2_to64_rest();
    }
    while i < sh
        invariant
            i <= sh <= 63,
            r == pow2(i as nat),
        decreases sh - i,
    {
        proof {
            lemma2_to64_rest();
            if i as nat + 1 < 64 {
                lemma_pow2_strictly_increases(i as nat + 1, 64);
            }
            vstd::arithmetic::power2::lemma_pow2_unfold(i as nat + 1);
        }
        r = r * 2;
        i = i + 1;
    }
    r
}

proof fn lemma_floor_log2_unique(m: nat, k: nat)
    requires
        pow2(k) <= m < pow2(k + 1),
    ensures
        floor_log2(m) == k,
{
    vstd::arithmetic::power2::lemma_pow2_pos(k);
    lemma_floor_log2_bounds(m);
    let k1 = floor_log2(m);
    if k1 < k {
        lemma_pow2_strictly_increases(k1 + 1, k + 1);
        if k1 + 1 < k {
            lemma_pow2_strictly_increases(k1 + 1, k);
        }
    } else if k1 > k {
        if k + 1 < k1 {
            lemma_pow2_strictly_increases(k + 1, k1);
        }
    }
}

/// `floor_log2(m)` for a positive fraction field (at most 23 bits).
fn floor_log2_u32(m: u32) -> (r: u32)
    requires
        1 <= m < 0x80_0000,
    ensures
        r == floor_log2(m as nat),
        r <= 22,
{
    let mut k: u32 = 22;
    let mut p: u32 = 0x40_0000;
    proof {
        lemma2_to64();
    }
    while m < p
        invariant
            k <= 22,
            p == pow2(k as nat),
            (m as nat) < pow2(k as nat + 1),
            m >= 1,
        decreases k,
    {
        proof {
            lemma2_to64();
            vstd::arithmetic::power2::lemma_pow2_unfold(k as nat);
        }
        k = k - 1;
        p = p / 2;
    }
    proof {
        lemma_floor_log2_unique(m as nat, k as nat);
    }
    k
}

/// Exact widening of a single-precision bit pattern to double precision.
pub fn widen_f32_bits(b: u32) -> (r: u64)
    ensures
        r == widen_f32_bits_spec(b),
{
    proof {
        lemma2_to64();
        lemma2_to64_rest();
    }
    let sign: u64 = (b / 0x8000_0000) as u64 * 0x8000_0000_0000_0000;
    let e: u32 = (b / 0x80_0000) % 0x100;
    let m: u32 = b % 0x80_0000;
    if e == 0xff {
        sign + 0x7ff0_0000_0000_0000 + (m as u64) * 0x2000_0000
    } else if e == 0 {
        if m == 0 {
            sign
        } else {
            let k: u32 = floor_log2_u32(m);
            proof {
                lemma_floor_log2_bounds(m as nat);
                if k >= 23 {
                    lemma_pow2_strictly_increases(23, k as nat);
                }
            }
            let pk: u64 = pow2_u64(k as u64);
            let pshift: u64 = pow2_u64(52 - k as u64);
            proof {
                lemma_pow2_adds(k as nat, (52 - k) as nat);
                assert((m - pk) * pshift < pow2(52)) by {
                    vstd::arithmetic::mul::lemma_mul_inequality(
                        m as int - pk as int,
                        pk as int - 1,
                        pshift as int,
                    );
                    vstd::arithmetic::mul::lemma_mul_is_distributive_sub_other_way(
                        pshift as int,
                        pk as int,
                        1,
                    );
                    vstd::arithmetic::power2::lemma_pow2_pos((52 - k) as nat);
                };
            }
            sign + (k as u64 + 874) * 0x10_0000_0000_0000 + (m as u64 - pk) * pshift
        }
    } else {
        sign + (e as u64 + 896) * 0x10_0000_0000_0000 + (m as u64) * 0x2000_0000
    }
}

/// Narrowing of a double-precision bit pattern to single precision,
/// rounding to nearest with ties to even.
pub fn narrow_f64_bits(b: u64) -> (r: u32)
    ensures
        r == narrow_f64_bits_spec(b),
{
    proof {
        lemma2_to64();
        lemma2_to64_rest();
    }
    let sign: u32 = (b / 0x8000_0000_0000_0000) as u32 * 0x8000_0000;
    let e: u64 = (b / 0x10_0000_0000_0000) % 0x800;
    let m: u64 = b % 0x10_0000_0000_0000;
    if e == 0x7ff {
        if m == 0 {
            sign + 0x7f80_0000
        } else {
            let t: u64 = m / 0x2000_0000;
            let tq: u64 = if t >= 0x40_0000 {
                t
            } else {
                t + 0x40_0000
            };
            sign + 0x7f80_0000 + tq as u32
        }
    } else if e == 0 {
        sign
    } else {
        let sval: u64 = 0x10_0000_0000_0000 + m;
        if e > 127 + 1023 {
            sign + 0x7f80_0000
        } else if e + 126 >= 1023 {
            // Normal target range: drop 29 fraction bits with rounding.
            let q0: u64 = sval / 0x2000_0000;
            let r0: u64 = sval % 0x2000_0000;
            let q: u64 = if 2 * r0 > 0x2000_0000 || (2 * r0 == 0x2000_0000 && q0 % 2 == 1) {
                q0 + 1
            } else {
                q0
            };
            let ex: u64 = e + 127 - 1023;  // biased single exponent before overflow of q
            if q == 0x100_0000 {
                if ex == 254 {
                    sign + 0x7f80_0000
                } else {
                    sign + (ex as u32 + 1) * 0x80_0000
                }
            } else {
                sign + ex as u32 * 0x80_0000 + (q as u32 - 0x80_0000)
            }
        } else {
            // Subnormal target range.
            let sh: u64 = 1023 - 97 - e;
            if sh >= 54 {
                proof {
                    let shn = sh as nat;
                    lemma_pow2_strictly_increases(53, shn);
                    vstd::arithmetic::power2::lemma_pow2_unfold(shn);
                    if 53 < shn - 1 {
                        lemma_pow2_strictly_increases(53, (shn - 1) as nat);
                    }
                    assert(sval < pow2((shn - 1) as nat));
                    vstd::arithmetic::div_mod::lemma_basic_div(sval as int, pow2(shn) as int);
                    vstd::arithmetic::div_mod::lemma_small_mod(sval as nat, pow2(shn));
                }
                sign
            } else {
                let p: u64 = pow2_u64(sh);
                proof {
                    lemma_pow2_strictly_increases(53, 54);
                }
                let q0: u64 = sval / p;
                let r0: u64 = sval % p;
                let q: u64 = if 2 * r0 > p || (2 * r0 == p && q0 % 2 == 1) {
                    q0 + 1
                } else {
                    q0
                };
                proof {
                    lemma_pow2_strictly_increases(29, sh as nat);
                    vstd::arithmetic::div_mod::lemma_div_is_ordered_by_denominator(
                        sval as int,
                        pow2(29) as int,
                        p as int,
                    );
                    vstd::arithmetic::power2::lemma_pow2_pos(sh as nat);
                }
                sign + q as u32
            }
        }
    }
}

} // verus!
