use vstd::prelude::*;
use vstd::arithmetic::power2::{pow2, lemma2_to64, lemma2_to64_rest, lemma_pow2_adds, lemma_pow2_strictly_increases};
use vstd::bits::{lemma_u64_shl_is_mul, lemma_u64_shr_is_div};

verus! {

/// Biased exponent field of an IEEE-754 double.
pub open spec fn exponent_field(bits: u64) -> u64 {
    (bits >> 52u64) & 0x7ffu64
}

/// Fraction (mantissa without the hidden bit) of an IEEE-754 double.
pub open spec fn fraction_field(bits: u64) -> u64 {
    bits & 0xf_ffff_ffff_ffffu64
}

pub open spec fn sign_bit(bits: u64) -> bool {
    (bits >> 63u64) == 1
}

pub open spec fn is_nan(bits: u64) -> bool {
    exponent_field(bits) == 0x7ff && fraction_field(bits) != 0
}

pub open spec fn is_infinite(bits: u64) -> bool {
    exponent_field(bits) == 0x7ff && fraction_field(bits) == 0
}

/// The magnitude of a finite double, rounded toward zero to an integer.
/// Zero and subnormal numbers are below one; a normal number is
/// `(2^52 + fraction) * 2^(exponent - 1075)`.
pub open spec fn truncated_magnitude(bits: u64) -> nat {
    let e = exponent_field(bits) as nat;
    let m = pow2(52) + fraction_field(bits) as nat;
    if e == 0 {
        0
    } else if e >= 1075 {
        m * pow2((e - 1075) as nat)
    } else {
        m / pow2((1075 - e) as nat)
    }
}

pub open spec fn clamp(v: int, lo: int, hi: int) -> int {
    if v < lo {
        lo
    } else if v > hi {
        hi
    } else {
        v
    }
}

/// The double with these bits converted to an integer in `lo..=hi`:
/// rounded toward zero and then clamped, with NaN giving zero and the
/// infinities giving the nearest bound.
pub open spec fn saturated(bits: u64, lo: int, hi: int) -> int {
    if is_nan(bits) {
        0
    } else if is_infinite(bits) {
        if sign_bit(bits) {
            lo
        } else {
            hi
        }
    } else if sign_bit(bits) {
        clamp(-(truncated_magnitude(bits) as int), lo, hi)
    } else {
        clamp(truncated_magnitude(bits) as int, lo, hi)
    }
}

/// Converts the double whose bit pattern is `bits` to an integer in
/// `lo..=hi`, rounding toward zero and saturating at the bounds.
pub fn saturate_bits(bits: u64, lo: i128, hi: i128) -> (r: i128)
    requires
        -0x8000_0000_0000_0000 <= lo <= 0 <= hi <= 0xffff_ffff_ffff_ffff,
    ensures
        r == saturated(bits, lo as int, hi as int),
        lo <= r <= hi,
{
    let e: u64 = (bits >> 52u64) & 0x7ffu64;
    let frac: u64 = bits & 0xf_ffff_ffff_ffffu64;
    let negative: bool = (bits >> 63u64) == 1;
    if e == 0x7ff {
        if frac != 0 {
            return 0;
        }
        return if negative { lo } else { hi };
    }
    proof {
        lemma2_to64();
        lemma2_to64_rest();
        assert(frac < 0x10_0000_0000_0000u64) by (bit_vector)
            requires
                frac == bits & 0xf_ffff_ffff_ffffu64,
        ;
        assert((0x10_0000_0000_0000u64 | frac) == 0x10_0000_0000_0000u64 + frac) by (bit_vector)
            requires
                frac < 0x10_0000_0000_0000u64,
        ;
        assert(e < 0x7ff) by (bit_vector)
            requires
                e == (bits >> 52u64) & 0x7ffu64,
                e != 0x7ff,
        ;
    }
    let m: u64 = 0x10_0000_0000_0000u64 | frac;
    assert(m as nat == pow2(52) + fraction_field(bits) as nat);
    let magnitude: u64;
    if e == 0 {
        magnitude = 0;
    } else if e >= 1075 {
        let shift: u64 = e - 1075;
        if shift >= 12 {
            proof {
                lemma_pow2_strictly_increases(11, shift as nat);
                lemma_pow2_adds(52, 12);
                assert(pow2(12) <= pow2(shift as nat)) by {
                    if shift > 12 {
                        lemma_pow2_strictly_increases(12, shift as nat);
                    }
                }
                assert(m as nat * pow2(shift as nat) >= pow2(52) * pow2(12)) by (nonlinear_arith)
                    requires
                        m as nat >= pow2(52),
                        pow2(12) <= pow2(shift as nat),
                ;
            }
            return if negative { lo } else { hi };
        }
        proof {
            assert(m as nat * pow2(shift as nat) <= 0x1f_ffff_ffff_ffff * 2048) by (nonlinear_arith)
                requires
                    m <= 0x1f_ffff_ffff_ffff,
                    pow2(shift as nat) <= 2048,
            ;
            lemma_u64_shl_is_mul(m, shift);
        }
        magnitude = m << shift;
    } else {
        let shift: u64 = 1075 - e;
        if shift >= 64 {
            proof {
                lemma_pow2_strictly_increases(53, shift as nat);
                assert((m as nat) / pow2(shift as nat) == 0) by (nonlinear_arith)
                    requires
                        (m as nat) < pow2(shift as nat),
                ;
            }
            magnitude = 0;
        } else {
            proof {
                lemma_u64_shr_is_div(m, shift);
            }
            magnitude = m >> shift;
        }
    }
    assert(magnitude == truncated_magnitude(bits));
    if negative {
        let v: i128 = -(magnitude as i128);
        if v < lo { lo } else { v }
    } else {
        let v: i128 = magnitude as i128;
        if v > hi { hi } else { v }
    }
}

} // verus!
