//! Host numbers.
//!
//! The host has one numeric type, the IEEE 754 binary64 number. It is
//! carried here as its 64-bit pattern: one sign bit, eleven bits of biased
//! exponent, fifty-two bits of fraction. Everything the marshalling layer
//! decides about a number (whether it is a whole number, which integer it
//! is, what it becomes under an integer field) is decided on that pattern.

use vstd::arithmetic::div_mod::*;
use vstd::arithmetic::mul::*;
use vstd::arithmetic::power2::*;
use vstd::bits::*;
use vstd::prelude::*;

verus! {

/// 2^52: the weight of the lowest exponent bit, and the hidden bit of a
/// normal number's significand.
pub const TWO_52: u64 = 0x10_0000_0000_0000;

/// 2^63: the sign bit.
pub const SIGN_BIT: u64 = 0x8000_0000_0000_0000;

/// The biased exponent at which the significand is scaled by 2^0.
pub const EXPONENT_UNIT: u64 = 1075;

pub open spec fn is_negative(bits: u64) -> bool {
    bits >= SIGN_BIT
}

pub open spec fn biased_exponent(bits: u64) -> int {
    (bits as int / TWO_52 as int) % 2048
}

pub open spec fn fraction(bits: u64) -> int {
    bits as int % TWO_52 as int
}

/// Neither an infinity nor a NaN.
pub open spec fn is_finite(bits: u64) -> bool {
    biased_exponent(bits) != 2047
}

pub open spec fn is_nan(bits: u64) -> bool {
    biased_exponent(bits) == 2047 && fraction(bits) != 0
}

/// The integer that the fraction bits stand for, with the hidden bit of a
/// normal number.
pub open spec fn significand(bits: u64) -> int {
    if biased_exponent(bits) == 0 {
        fraction(bits)
    } else {
        fraction(bits) + TWO_52 as int
    }
}

/// The exponent that scales the significand; a subnormal number scales as
/// the smallest normal one does.
pub open spec fn scale_exponent(bits: u64) -> int {
    if biased_exponent(bits) == 0 {
        1
    } else {
        biased_exponent(bits)
    }
}

/// A finite number is `significand * 2^(scale_exponent - 1075)`, negated
/// where the sign bit is set. It is a whole number when that product is.
pub open spec fn is_integral(bits: u64) -> bool {
    &&& is_finite(bits)
    &&& (scale_exponent(bits) >= 1075 || significand(bits) % (pow2(
        (1075 - scale_exponent(bits)) as nat,
    ) as int) == 0)
}

/// The magnitude of a finite number, rounded toward zero.
pub open spec fn magnitude(bits: u64) -> int {
    if scale_exponent(bits) >= 1075 {
        significand(bits) * pow2((scale_exponent(bits) - 1075) as nat)
    } else {
        significand(bits) / (pow2((1075 - scale_exponent(bits)) as nat) as int)
    }
}

/// A finite number rounded toward zero.
pub open spec fn truncated(bits: u64) -> int {
    if is_negative(bits) {
        -magnitude(bits)
    } else {
        magnitude(bits)
    }
}

/// The integer nearest to `x` that an `i64` can hold.
pub open spec fn saturate_i64(x: int) -> i64 {
    if x < i64::MIN as int {
        i64::MIN
    } else if x > i64::MAX as int {
        i64::MAX
    } else {
        x as i64
    }
}

/// The integer nearest to `x` that a `u64` can hold.
pub open spec fn saturate_u64(x: int) -> u64 {
    if x < 0 {
        0
    } else if x > u64::MAX as int {
        u64::MAX
    } else {
        x as u64
    }
}

/// What a host number is taken for where no schema declares its type.
#[derive(Clone, Copy, Debug, PartialEq, Eq, Structural)]
pub enum Number {
    /// A whole number from 0 to 2^64 - 1.
    Unsigned(u64),
    /// Any other whole number, held to the range of `i64`.
    Signed(i64),
    /// Anything else, by its bit pattern.
    Float(u64),
}

/// The rule by which a host number is classified: a whole number in the
/// unsigned range is unsigned; any other whole number is signed; what is
/// left (a number with a fractional part, an infinity, a NaN) stays a float.
pub open spec fn classify_spec(bits: u64) -> Number {
    if is_integral(bits) {
        if 0 <= truncated(bits) <= u64::MAX as int {
            Number::Unsigned(truncated(bits) as u64)
        } else {
            Number::Signed(saturate_i64(truncated(bits)))
        }
    } else {
        Number::Float(bits)
    }
}

/// The unsigned integer that a host number is: a whole number from 0 to
/// 2^64 - 1 is that integer; no other number is one.
pub open spec fn whole_u64_spec(bits: u64) -> Option<u64> {
    if is_integral(bits) && 0 <= truncated(bits) <= u64::MAX as int {
        Some(truncated(bits) as u64)
    } else {
        None
    }
}

/// The signed integer that a host number is: a whole number from -2^63 to
/// 2^63 - 1 is that integer; no other number is one.
pub open spec fn whole_i64_spec(bits: u64) -> Option<i64> {
    if is_integral(bits) && i64::MIN as int <= truncated(bits) <= i64::MAX as int {
        Some(truncated(bits) as i64)
    } else {
        None
    }
}

/// A host number as an unsigned integer: rounded toward zero and held to
/// the range of `u64`, so that a negative number is 0; a NaN is 0.
pub open spec fn to_u64_spec(bits: u64) -> u64 {
    if is_nan(bits) {
        0
    } else if !is_finite(bits) {
        if is_negative(bits) {
            0
        } else {
            u64::MAX
        }
    } else {
        saturate_u64(truncated(bits))
    }
}

/// The pattern under which numbers order as unsigned integers the way the
/// numbers themselves order: the sign bit is set on a number whose sign bit
/// is clear, and every bit is flipped on one whose sign bit is set.
pub open spec fn sortable_spec(bits: u64) -> u64 {
    if is_negative(bits) {
        (u64::MAX - bits) as u64
    } else {
        (bits + SIGN_BIT) as u64
    }
}

/// The parts of a bit pattern.
struct Parts {
    negative: bool,
    exponent: u64,
    significand: u64,
}

fn parts(bits: u64) -> (p: Parts)
    ensures
        p.negative == is_negative(bits),
        p.exponent == scale_exponent(bits),
        p.significand == significand(bits),
        1 <= p.exponent <= 2047,
        p.significand < 2 * TWO_52,
        p.exponent >= 2 ==> p.significand >= TWO_52,
        is_finite(bits) <==> p.exponent != 2047,
        is_nan(bits) <==> p.exponent == 2047 && p.significand != TWO_52,
{
    let e: u64 = (bits / TWO_52) % 2048;
    let f: u64 = bits % TWO_52;
    if e == 0 {
        Parts { negative: bits >= SIGN_BIT, exponent: 1, significand: f }
    } else {
        Parts { negative: bits >= SIGN_BIT, exponent: e, significand: f + TWO_52 }
    }
}

/// Whether the number is a whole number, and its magnitude rounded toward
/// zero, capped at `u64::MAX`; `capped` tells that the cap was applied.
struct Whole {
    integral: bool,
    magnitude: u64,
    capped: bool,
}

fn whole(p: &Parts) -> (w: Whole)
    requires
        1 <= p.exponent < 2047,
        p.significand < 2 * TWO_52,
        p.exponent >= 2 ==> p.significand >= TWO_52,
    ensures
        w.integral == (p.exponent >= 1075 || p.significand as int % (pow2(
            (1075 - p.exponent) as nat,
        ) as int) == 0),
        w.capped == (spec_magnitude(p.exponent as int, p.significand as int) > u64::MAX as int),
        !w.capped ==> w.magnitude == spec_magnitude(p.exponent as int, p.significand as int),
        w.capped ==> w.magnitude == u64::MAX,
{
    let sig: u64 = p.significand;
    proof {
        lemma2_to64();
        lemma2_to64_rest();
    }
    if p.exponent >= EXPONENT_UNIT {
        let k: u64 = p.exponent - EXPONENT_UNIT;
        if k <= 11 {
            proof {
                lemma_pow2_strictly_increases(k as nat, 12);
                lemma_mul_strict_inequality(
                    sig as int,
                    (2 * TWO_52) as int,
                    pow2(k as nat) as int,
                );
                lemma_mul_inequality(
                    pow2(k as nat) as int,
                    pow2(11) as int,
                    (2 * TWO_52) as int,
                );
                lemma_mul_is_commutative(sig as int, pow2(k as nat) as int);
                lemma_mul_is_commutative((2 * TWO_52) as int, pow2(k as nat) as int);
                lemma_mul_is_commutative((2 * TWO_52) as int, pow2(11) as int);
                lemma_u64_shl_is_mul(sig, k);
            }
            Whole { integral: true, magnitude: sig << k, capped: false }
        } else {
            proof {
                if k > 12 {
                    lemma_pow2_strictly_increases(12, k as nat);
                }
                lemma_mul_inequality(TWO_52 as int, sig as int, pow2(k as nat) as int);
                lemma_mul_inequality(pow2(12) as int, pow2(k as nat) as int, TWO_52 as int);
                lemma_mul_is_commutative(TWO_52 as int, pow2(k as nat) as int);
                lemma_mul_is_commutative(TWO_52 as int, pow2(12) as int);
            }
            Whole { integral: true, magnitude: u64::MAX, capped: true }
        }
    } else {
        let k: u64 = EXPONENT_UNIT - p.exponent;
        if k >= 53 {
            proof {
                if k > 53 {
                    lemma_pow2_strictly_increases(53, k as nat);
                }
                lemma_small_mod(sig as nat, pow2(k as nat));
                lemma_basic_div(sig as int, pow2(k as nat) as int);
            }
            Whole { integral: sig == 0, magnitude: 0, capped: false }
        } else {
            let q: u64 = sig >> k;
            proof {
                lemma_u64_shr_is_div(sig, k);
                lemma_pow2_pos(k as nat);
                lemma_fundamental_div_mod(sig as int, pow2(k as nat) as int);
                lemma_mul_is_commutative(q as int, pow2(k as nat) as int);
                lemma_u64_shl_is_mul(q, k);
            }
            Whole { integral: (q << k) == sig, magnitude: q, capped: false }
        }
    }
}

/// `magnitude` over the parts of a pattern.
pub open spec fn spec_magnitude(exponent: int, significand: int) -> int {
    if exponent >= 1075 {
        significand * pow2((exponent - 1075) as nat)
    } else {
        significand / (pow2((1075 - exponent) as nat) as int)
    }
}

/// Classifies a host number where no schema declares its type.
pub fn classify(bits: u64) -> (n: Number)
    ensures
        n == classify_spec(bits),
{
    let p = parts(bits);
    if p.exponent == 2047 {
        return Number::Float(bits);
    }
    let w = whole(&p);
    if !w.integral {
        Number::Float(bits)
    } else if w.capped {
        if p.negative {
            Number::Signed(i64::MIN)
        } else {
            Number::Signed(i64::MAX)
        }
    } else if !p.negative || w.magnitude == 0 {
        Number::Unsigned(w.magnitude)
    } else if w.magnitude > SIGN_BIT {
        Number::Signed(i64::MIN)
    } else if w.magnitude == SIGN_BIT {
        Number::Signed(i64::MIN)
    } else {
        Number::Signed(-(w.magnitude as i64))
    }
}

/// The unsigned integer that a host number is, if it is one.
pub fn whole_u64(bits: u64) -> (r: Option<u64>)
    ensures
        r == whole_u64_spec(bits),
{
    let p = parts(bits);
    if p.exponent == 2047 {
        return None;
    }
    let w = whole(&p);
    if !w.integral || w.capped {
        None
    } else if p.negative && w.magnitude != 0 {
        None
    } else {
        Some(w.magnitude)
    }
}

/// The signed integer that a host number is, if it is one.
pub fn whole_i64(bits: u64) -> (r: Option<i64>)
    ensures
        r == whole_i64_spec(bits),
{
    let p = parts(bits);
    if p.exponent == 2047 {
        return None;
    }
    let w = whole(&p);
    if !w.integral || w.capped {
        None
    } else if p.negative {
        if w.magnitude > SIGN_BIT {
            None
        } else if w.magnitude == SIGN_BIT {
            Some(i64::MIN)
        } else {
            Some(-(w.magnitude as i64))
        }
    } else if w.magnitude >= SIGN_BIT {
        None
    } else {
        Some(w.magnitude as i64)
    }
}

/// A host number as an unsigned integer.
pub fn to_u64(bits: u64) -> (r: u64)
    ensures
        r == to_u64_spec(bits),
{
    let p = parts(bits);
    if p.exponent == 2047 {
        if p.significand != TWO_52 || p.negative {
            0
        } else {
            u64::MAX
        }
    } else {
        let w = whole(&p);
        if p.negative {
            0
        } else {
            w.magnitude
        }
    }
}

/// The pattern by which the engine orders floats.
pub fn sortable(bits: u64) -> (r: u64)
    ensures
        r == sortable_spec(bits),
{
    if bits >= SIGN_BIT {
        u64::MAX - bits
    } else {
        bits + SIGN_BIT
    }
}

} // verus!
