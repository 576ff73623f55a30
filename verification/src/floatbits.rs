//! IEEE-754 bit-pattern arithmetic.
//!
//! Floating-point columns are carried through the library as their raw bit
//! patterns, so that the no-NaN invariant of the generic value model and the
//! exact single-to-double widening can be stated and proved over integers.

use vstd::prelude::*;
use vstd::arithmetic::power2::pow2;
use vstd::arithmetic::power2::lemma_pow2_strictly_increases;

verus! {

/// The bit pattern encodes a single-precision NaN.
pub open spec fn f32_is_nan(bits: u32) -> bool {
    (bits >> 23) & 0xff == 0xff && bits & 0x7fffff != 0
}

/// The bit pattern encodes a double-precision NaN.
pub open spec fn f64_is_nan(bits: u64) -> bool {
    (bits >> 52) & 0x7ff == 0x7ff && bits & 0xf_ffff_ffff_ffff != 0
}

pub fn check_f32_nan(bits: u32) -> (r: bool)
    ensures
        r == f32_is_nan(bits),
{
    (bits >> 23) & 0xff == 0xff && bits & 0x7fffff != 0
}

pub fn check_f64_nan(bits: u64) -> (r: bool)
    ensures
        r == f64_is_nan(bits),
{
    (bits >> 52) & 0x7ff == 0x7ff && bits & 0xf_ffff_ffff_ffff != 0
}

/// Index of the most significant set bit (0 for 0 and 1).
pub open spec fn msb_index(x: nat) -> nat
    decreases x,
{
    if x >= 2 {
        1 + msb_index(x / 2)
    } else {
        0
    }
}

/// The double-precision bit pattern that represents exactly the same number
/// as the given single-precision bit pattern.  Normal numbers re-bias the
/// exponent (896 = 1023 - 127) and widen the fraction by 29 bits; zeros and
/// infinities map by sign; single-precision subnormals become normal doubles,
/// with the leading fraction bit promoted into the exponent.
pub open spec fn widen_f32_bits(b: u32) -> u64 {
    let sign = ((b >> 31) as u64) << 63;
    let exp = ((b >> 23) & 0xff) as u64;
    let frac = (b & 0x7fffff) as u64;
    if exp == 0xff {
        sign | (0x7ffu64 << 52) | (frac << 29)
    } else if exp == 0 {
        if frac == 0 {
            sign
        } else {
            let m = msb_index(frac as nat);
            sign | (((m + 874) as u64) << 52) | ((frac << ((52 - m) as u64)) & 0xf_ffff_ffff_ffff)
        }
    } else {
        sign | (((exp + 896) as u64) << 52) | (frac << 29)
    }
}

pub fn widen_f32(b: u32) -> (r: u64)
    ensures
        r == widen_f32_bits(b),
{
    let sign: u64 = ((b >> 31) as u64) << 63;
    let exp: u64 = ((b >> 23) & 0xff) as u64;
    let frac: u64 = (b & 0x7fffff) as u64;
    if exp == 0xff {
        sign | (0x7ffu64 << 52) | (frac << 29)
    } else if exp == 0 {
        if frac == 0 {
            sign
        } else {
            proof {
                assert((b & 0x7fffff) <= 0x7fffff) by (bit_vector);
            }
            let m = find_msb(frac);
            sign | ((m as u64 + 874) << 52) | ((frac << (52 - m) as u64) & 0xf_ffff_ffff_ffff)
        }
    } else {
        sign | ((exp + 896) << 52) | (frac << 29)
    }
}

/// Most significant set bit of a nonzero 23-bit value.
fn find_msb(frac: u64) -> (m: u32)
    requires
        1 <= frac < 0x800000,
    ensures
        m as nat == msb_index(frac as nat),
        m <= 22,
{
    let mut m: u32 = 0;
    let mut x: u64 = frac;
    proof {
        vstd::arithmetic::power2::lemma2_to64();
    }
    while x >= 2
        invariant
            1 <= frac < 0x800000,
            1 <= x,
            x < 0x800000,
            m <= 22,
            msb_index(frac as nat) == m + msb_index(x as nat),
            x as nat * pow2(m as nat) <= frac as nat,
        decreases x,
    {
        proof {
            assert(msb_index(x as nat) == 1 + msb_index((x / 2) as nat));
            assert((x / 2) as nat * pow2((m + 1) as nat) <= x as nat * pow2(m as nat)) by {
                assert(pow2((m + 1) as nat) == 2 * pow2(m as nat)) by {
                    vstd::arithmetic::power2::lemma_pow2_unfold((m + 1) as nat);
                }
                assert((x / 2) as nat * (2 * pow2(m as nat)) <= x as nat * pow2(m as nat)) by (
                nonlinear_arith)
                    requires
                        (x / 2) as nat * 2 <= x as nat,
                        pow2(m as nat) >= 0,
                ;
            }
            assert(pow2((m + 1) as nat) <= frac as nat) by {
                assert((x / 2) as nat >= 1);
                assert((x / 2) as nat * pow2((m + 1) as nat) >= pow2((m + 1) as nat)) by (
                nonlinear_arith)
                    requires
                        (x / 2) as nat >= 1,
                        pow2((m + 1) as nat) >= 0,
                ;
            }
            vstd::arithmetic::power2::lemma2_to64();
            if m + 1 > 23 {
                lemma_pow2_strictly_increases(23, (m + 1) as nat);
            }
            assert(m + 1 <= 22);
        }
        x = x / 2;
        m = m + 1;
    }
    proof {
        assert(msb_index(x as nat) == 0);
    }
    m
}

} // verus!
