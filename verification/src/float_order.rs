//! The total order that `OrderedFloat<f64>` puts on `f64` values, computed on
//! the raw IEEE-754 bits (`f64::to_bits`).
//!
//! `OrderedFloat` orders every non-NaN value as `f64` does, treats `-0.0` and
//! `+0.0` as equal, and places every NaN above every other value (all NaNs
//! being equal to one another). The library stores floating-point fields as
//! their bit patterns and compares them through [`float_key`].
use vstd::arithmetic::power2::{lemma_pow2_adds, lemma_pow2_strictly_increases, lemma_pow2_unfold, pow2};
use vstd::prelude::*;

verus! {

/// Mask of the exponent bits of an `f64`.
pub const EXPONENT_MASK: u64 = 0x7ff0_0000_0000_0000;
/// Mask of the mantissa bits of an `f64`.
pub const MANTISSA_MASK: u64 = 0x000f_ffff_ffff_ffff;
/// Mask of every bit but the sign bit.
pub const MAGNITUDE_MASK: u64 = 0x7fff_ffff_ffff_ffff;
/// Mask of the sign bit.
pub const SIGN_MASK: u64 = 0x8000_0000_0000_0000;

/// Whether the bit pattern encodes a NaN.
pub open spec fn is_nan_bits(bits: u64) -> bool {
    (bits & EXPONENT_MASK) == EXPONENT_MASK && (bits & MANTISSA_MASK) != 0
}

/// The integer that stands for an `f64` in `OrderedFloat`'s order: NaN maps
/// above every other value, every other value to its signed magnitude bits
/// (both zeros map to 0).
pub open spec fn float_key(bits: u64) -> i128 {
    if is_nan_bits(bits) {
        0x8000_0000_0000_0000i128
    } else if (bits & SIGN_MASK) != 0 {
        (-((bits & MAGNITUDE_MASK) as int)) as i128
    } else {
        (bits & MAGNITUDE_MASK) as i128
    }
}

/// The order key of an optional float that defaults to `0.0` when absent
/// (`opt.unwrap_or(0.0)` in `OrderedFloat`'s order).
pub open spec fn float_key_or_zero(bits: Option<u64>) -> i128 {
    match bits {
        Some(b) => float_key(b),
        None => 0,
    }
}

/// Computes [`float_key`].
pub fn order_key(bits: u64) -> (k: i128)
    ensures
        k == float_key(bits),
{
    if (bits & EXPONENT_MASK) == EXPONENT_MASK && (bits & MANTISSA_MASK) != 0 {
        0x8000_0000_0000_0000i128
    } else if (bits & SIGN_MASK) != 0 {
        let m = bits & MAGNITUDE_MASK;
        -(m as i128)
    } else {
        let m = bits & MAGNITUDE_MASK;
        m as i128
    }
}

/// Computes [`float_key_or_zero`].
pub fn order_key_or_zero(bits: Option<u64>) -> (k: i128)
    ensures
        k == float_key_or_zero(bits),
{
    match bits {
        Some(b) => order_key(b),
        None => 0,
    }
}

/// NaN ranks above every other value and all NaNs rank equal; the two zeros
/// rank equal.
pub proof fn law_float_order_specials(nan: u64, x: u64)
    requires
        is_nan_bits(nan),
    ensures
        float_key(x) <= float_key(nan),
        float_key(x) == float_key(nan) <==> is_nan_bits(x),
        float_key(0) == float_key(SIGN_MASK),
{
    assert(x & MAGNITUDE_MASK <= 0x7fff_ffff_ffff_ffff) by (bit_vector);
    assert(0u64 & EXPONENT_MASK == 0) by (bit_vector);
    assert(0x8000_0000_0000_0000u64 & EXPONENT_MASK == 0) by (bit_vector);
    assert(0x8000_0000_0000_0000u64 & MAGNITUDE_MASK == 0) by (bit_vector);
    assert(0u64 & MAGNITUDE_MASK == 0) by (bit_vector);
    assert(0x8000_0000_0000_0000u64 & SIGN_MASK != 0) by (bit_vector);
    assert(0u64 & SIGN_MASK == 0) by (bit_vector);
}

/// `e` is the position of the highest set bit of `n`.
pub open spec fn is_top_bit(n: nat, e: nat) -> bool {
    pow2(e) <= n < pow2(e + 1)
}

/// The IEEE-754 bits of the `f64` that equals the unsigned integer `n`
/// (`(n as f64).to_bits()`): zero for zero, else biased exponent
/// `1023 + e` and the bits of `n` below its top bit `e` as the mantissa.
pub open spec fn u32_f64_bits(n: u32) -> u64 {
    if n == 0 {
        0
    } else {
        let e = choose|e: nat| is_top_bit(n as nat, e);
        ((1023 + e) * pow2(52) + (n - pow2(e)) * pow2((52 - e) as nat)) as u64
    }
}

proof fn lemma_top_bit_unique(n: nat, e1: nat, e2: nat)
    requires
        is_top_bit(n, e1),
        is_top_bit(n, e2),
    ensures
        e1 == e2,
{
    if e1 < e2 {
        lemma_pow2_strictly_increases(e1 + 1, e2);
        if e1 + 1 == e2 {
        }
    } else if e2 < e1 {
        lemma_pow2_strictly_increases(e2 + 1, e1);
        if e2 + 1 == e1 {
        }
    }
}

/// Computes [`u32_f64_bits`].
pub fn f64_bits_of_u32(n: u32) -> (b: u64)
    ensures
        b == u32_f64_bits(n),
{
    if n == 0 {
        return 0;
    }
    let mut e: u64 = 0;
    let mut top: u64 = 1;
    proof {
        assert(pow2(0) == 1) by {
            vstd::arithmetic::power2::lemma2_to64();
            vstd::arithmetic::power2::lemma2_to64_rest();
        }
    }
    while top * 2 <= n as u64
        invariant
            1 <= top <= n,
            top == pow2(e as nat),
            e <= 31,
            n <= 0xffff_ffff,
        decreases n - top,
    {
        proof {
            lemma_pow2_unfold((e + 1) as nat);
            if e == 31 {
                vstd::arithmetic::power2::lemma2_to64();
                vstd::arithmetic::power2::lemma2_to64_rest();
                assert(pow2(32) == 0x1_0000_0000);
                lemma_pow2_strictly_increases(31, 32);
            }
        }
        top = top * 2;
        e = e + 1;
    }
    proof {
        lemma_pow2_unfold((e + 1) as nat);
        assert(is_top_bit(n as nat, e as nat));
        let c = choose|c: nat| is_top_bit(n as nat, c);
        lemma_top_bit_unique(n as nat, c, e as nat);
    }
    let mut scale: u64 = 1;
    let mut k: u64 = 0;
    while k < 52 - e
        invariant
            e <= 31,
            k <= 52 - e,
            scale == pow2(k as nat),
            scale <= 0x10_0000_0000_0000,
        decreases 52 - e - k,
    {
        proof {
            lemma_pow2_unfold((k + 1) as nat);
            vstd::arithmetic::power2::lemma2_to64();
            vstd::arithmetic::power2::lemma2_to64_rest();
            assert(pow2(52) == 0x10_0000_0000_0000);
            if k + 1 < 52 {
                lemma_pow2_strictly_increases((k + 1) as nat, 52);
            }
        }
        scale = scale * 2;
        k = k + 1;
    }
    proof {
        lemma_pow2_adds(e as nat, (52 - e) as nat);
        vstd::arithmetic::power2::lemma2_to64();
        vstd::arithmetic::power2::lemma2_to64_rest();
        vstd::arithmetic::power2::lemma_pow2_pos(k as nat);
        assert(k == 52 - e);
        assert(pow2(52) == 0x10_0000_0000_0000);
        assert((e + (52 - e)) as nat == 52);
        assert(pow2(e as nat) * pow2((52 - e) as nat) == pow2(52));
        assert((n - top) * scale < top * scale) by (nonlinear_arith)
            requires
                n - top < top,
                scale > 0,
        ;
        assert(top * scale == 0x10_0000_0000_0000);
    }
    let mant: u64 = (n as u64 - top) * scale;
    let b: u64 = (1023 + e) * 0x10_0000_0000_0000 + mant;
    b
}

} // verus!
