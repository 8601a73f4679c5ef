//! Numbers are IEEE 754 binary64 values, held as their 64-bit patterns.
//! Ordering, negation and truncation are integer work on the pattern;
//! the four rounded operations and the decimal text come from `rustc_apfloat`.

use rustc_apfloat::ieee::Double;
use rustc_apfloat::Float;
use vstd::arithmetic::power2::*;
use vstd::prelude::*;

verus! {

/// The pattern with only the sign bit set.
pub const SIGN_BIT: u64 = 0x8000_0000_0000_0000;

/// The pattern of positive infinity: every exponent bit set, no fraction bit.
pub const INFINITY: u64 = 0x7ff0_0000_0000_0000;

/// The weight of the implicit leading bit of a normal significand.
pub const HIDDEN_BIT: u64 = 0x10_0000_0000_0000;

/// The pattern without its sign bit.
pub open spec fn magnitude(bits: u64) -> u64 {
    if bits >= SIGN_BIT {
        (bits - SIGN_BIT) as u64
    } else {
        bits
    }
}

/// The sign bit is set: true of negative numbers, of the negative zero and
/// of the NaNs with the bit.
pub open spec fn is_negative(bits: u64) -> bool {
    bits >= SIGN_BIT
}

/// The pattern is that of no number: every exponent bit is set, and some
/// fraction bit.
pub open spec fn is_nan(bits: u64) -> bool {
    magnitude(bits) > INFINITY
}

/// Where a pattern that is no NaN stands on the number line: patterns of one
/// sign are ordered as their magnitudes, and both zeros stand at 0.
pub open spec fn rank(bits: u64) -> int {
    if is_negative(bits) {
        -(magnitude(bits) as int)
    } else {
        magnitude(bits) as int
    }
}

/// Two numbers are equal: neither is a NaN, and they stand at one place.
pub open spec fn number_eq(a: u64, b: u64) -> bool {
    !is_nan(a) && !is_nan(b) && rank(a) == rank(b)
}

/// The first number is less than the second: neither is a NaN, and the
/// first stands before the second.
pub open spec fn number_lt(a: u64, b: u64) -> bool {
    !is_nan(a) && !is_nan(b) && rank(a) < rank(b)
}

/// The first number is less than the second or equal to it.
pub open spec fn number_le(a: u64, b: u64) -> bool {
    !is_nan(a) && !is_nan(b) && rank(a) <= rank(b)
}

/// The pattern with its sign bit flipped.
pub open spec fn negated(bits: u64) -> u64 {
    if bits >= SIGN_BIT {
        (bits - SIGN_BIT) as u64
    } else {
        (bits + SIGN_BIT) as u64
    }
}

/// The biased exponent field of a pattern.
pub open spec fn exponent(bits: u64) -> int {
    magnitude(bits) as int / HIDDEN_BIT as int
}

/// The fraction field of a pattern.
pub open spec fn fraction(bits: u64) -> int {
    magnitude(bits) as int % HIDDEN_BIT as int
}

/// The number rounded toward zero to an unsigned 64-bit integer: 0 for a NaN
/// or a negative number, `u64::MAX` for what lies above it.
pub open spec fn truncated(bits: u64) -> int {
    let e = exponent(bits);
    let significand = HIDDEN_BIT as int + fraction(bits);
    if is_nan(bits) || is_negative(bits) || e < 1023 {
        0
    } else if e >= 1087 {
        u64::MAX as int
    } else if e >= 1075 {
        significand * pow2((e - 1075) as nat)
    } else {
        significand / (pow2((1075 - e) as nat) as int)
    }
}

/// The truncated number as an index: what does not fit in `usize` becomes
/// `usize::MAX`.
pub open spec fn index_of(bits: u64) -> usize {
    if truncated(bits) > usize::MAX {
        usize::MAX
    } else {
        truncated(bits) as usize
    }
}

/// Whether the pattern is that of no number.
pub fn nan(bits: u64) -> (r: bool)
    ensures
        r == is_nan(bits),
{
    let m: u64 = if bits >= SIGN_BIT { bits - SIGN_BIT } else { bits };
    m > INFINITY
}

/// Whether two numbers are equal.
pub fn equal(a: u64, b: u64) -> (r: bool)
    ensures
        r == number_eq(a, b),
{
    if nan(a) || nan(b) {
        return false;
    }
    let ma: u64 = if a >= SIGN_BIT { a - SIGN_BIT } else { a };
    let mb: u64 = if b >= SIGN_BIT { b - SIGN_BIT } else { b };
    if ma == 0 && mb == 0 {
        true
    } else {
        a == b
    }
}

/// Whether the first number is less than the second.
pub fn less(a: u64, b: u64) -> (r: bool)
    ensures
        r == number_lt(a, b),
{
    if nan(a) || nan(b) {
        return false;
    }
    let ma: u64 = if a >= SIGN_BIT { a - SIGN_BIT } else { a };
    let mb: u64 = if b >= SIGN_BIT { b - SIGN_BIT } else { b };
    if a >= SIGN_BIT {
        if b >= SIGN_BIT {
            mb < ma
        } else {
            ma != 0 || mb != 0
        }
    } else {
        if b >= SIGN_BIT {
            false
        } else {
            ma < mb
        }
    }
}

/// Whether the first number is less than the second or equal to it.
pub fn less_or_equal(a: u64, b: u64) -> (r: bool)
    ensures
        r == number_le(a, b),
{
    less(a, b) || equal(a, b)
}

/// The number with the opposite sign.
pub fn negate(bits: u64) -> (r: u64)
    ensures
        r == negated(bits),
{
    if bits >= SIGN_BIT {
        bits - SIGN_BIT
    } else {
        bits + SIGN_BIT
    }
}

/// Doubles `value` `count` times.
fn scale_up(value: u64, count: u64) -> (r: u64)
    requires
        value * pow2(count as nat) <= u64::MAX,
    ensures
        r == value * pow2(count as nat),
{
    let mut r: u64 = value;
    let mut i: u64 = 0;
    proof {
        lemma2_to64();
    }
    while i < count
        invariant
            i <= count,
            r == value * pow2(i as nat),
            value * pow2(count as nat) <= u64::MAX,
        decreases count - i,
    {
        proof {
            lemma_pow2_unfold((i + 1) as nat);
            if i + 1 < count {
                lemma_pow2_strictly_increases((i + 1) as nat, count as nat);
            }
            assert(value * pow2((i + 1) as nat) == 2 * (value * pow2(i as nat))) by (nonlinear_arith)
                requires
                    pow2((i + 1) as nat) == 2 * pow2(i as nat),
            ;
            assert(value * pow2((i + 1) as nat) <= value * pow2(count as nat)) by (nonlinear_arith)
                requires
                    pow2((i + 1) as nat) <= pow2(count as nat),
            ;
        }
        r = r * 2;
        i = i + 1;
    }
    r
}

/// Halves `value` `count` times, dropping the remainders.
fn scale_down(value: u64, count: u64) -> (r: u64)
    ensures
        r == value as int / (pow2(count as nat) as int),
{
    let mut r: u64 = value;
    let mut i: u64 = 0;
    proof {
        lemma2_to64();
    }
    while i < count
        invariant
            i <= count,
            r == value as int / (pow2(i as nat) as int),
        decreases count - i,
    {
        proof {
            lemma_pow2_unfold((i + 1) as nat);
            lemma_pow2_pos(i as nat);
            let p = pow2(i as nat) as int;
            assert((value as int / p) / 2 == value as int / (p * 2)) by {
                vstd::arithmetic::div_mod::lemma_div_denominator(value as int, p, 2);
            }
        }
        r = r / 2;
        i = i + 1;
    }
    r
}

/// Rounds a number toward zero to an index, as a cast of the number to
/// `usize` does.
pub fn to_index(bits: u64) -> (r: usize)
    ensures
        r == index_of(bits),
{
    if nan(bits) || bits >= SIGN_BIT {
        return 0;
    }
    let e: u64 = bits / HIDDEN_BIT;
    let f: u64 = bits % HIDDEN_BIT;
    if e < 1023 {
        return 0;
    }
    let whole: u64 = if e >= 1087 {
        u64::MAX
    } else if e >= 1075 {
        proof {
            lemma2_to64();
            if e - 1075 < 11 {
                lemma_pow2_strictly_increases((e - 1075) as nat, 11);
            }
            assert((HIDDEN_BIT + f) * pow2((e - 1075) as nat) <= u64::MAX) by (nonlinear_arith)
                requires
                    HIDDEN_BIT + f < 0x20_0000_0000_0000,
                    pow2((e - 1075) as nat) <= 2048,
            ;
        }
        scale_up(HIDDEN_BIT + f, e - 1075)
    } else {
        scale_down(HIDDEN_BIT + f, 1075 - e)
    };
    if whole > usize::MAX as u64 {
        usize::MAX
    } else {
        whole as usize
    }
}

/// The sum of two numbers, rounded to nearest, ties to even.
pub uninterp spec fn ieee_sum(a: u64, b: u64) -> u64;

/// The difference of two numbers, rounded to nearest, ties to even.
pub uninterp spec fn ieee_difference(a: u64, b: u64) -> u64;

/// The product of two numbers, rounded to nearest, ties to even.
pub uninterp spec fn ieee_product(a: u64, b: u64) -> u64;

/// The quotient of two numbers, rounded to nearest, ties to even.
pub uninterp spec fn ieee_quotient(a: u64, b: u64) -> u64;

/// The decimal text of a number, in the format of `rustc_apfloat`: as
/// many digits as make sure that the number is read back, which are not
/// always the fewest (`0.10000000000000001` for the number nearest to a
/// tenth); scientific notation where more than three zeros would have to be
/// written (`1.0E+4`); `+Inf`, `-Inf` and `NaN` for what is no finite
/// number. It is not the text that `{}` of an `f64` writes.
pub uninterp spec fn decimal_text(bits: u64) -> Seq<char>;

/// `Add::add` of `rustc_apfloat::ieee::Double`, between `Float::from_bits`
/// and `Float::to_bits`: the result is a function of the two patterns alone,
/// and is named `ieee_sum`.
#[verifier::external_body]
pub(crate) fn sum(a: u64, b: u64) -> (r: u64)
    ensures
        r == ieee_sum(a, b),
{
    (Double::from_bits(a as u128) + Double::from_bits(b as u128)).value.to_bits() as u64
}

/// `Sub::sub` of `rustc_apfloat::ieee::Double`, between `Float::from_bits`
/// and `Float::to_bits`: the result is a function of the two patterns alone,
/// and is named `ieee_difference`.
#[verifier::external_body]
pub(crate) fn difference(a: u64, b: u64) -> (r: u64)
    ensures
        r == ieee_difference(a, b),
{
    (Double::from_bits(a as u128) - Double::from_bits(b as u128)).value.to_bits() as u64
}

/// `Mul::mul` of `rustc_apfloat::ieee::Double`, between `Float::from_bits`
/// and `Float::to_bits`: the result is a function of the two patterns alone,
/// and is named `ieee_product`.
#[verifier::external_body]
pub(crate) fn product(a: u64, b: u64) -> (r: u64)
    ensures
        r == ieee_product(a, b),
{
    (Double::from_bits(a as u128) * Double::from_bits(b as u128)).value.to_bits() as u64
}

/// `Div::div` of `rustc_apfloat::ieee::Double`, between `Float::from_bits`
/// and `Float::to_bits`: the result is a function of the two patterns alone,
/// and is named `ieee_quotient`. Division by zero is no failure: it gives an
/// infinity or a NaN.
#[verifier::external_body]
pub(crate) fn quotient(a: u64, b: u64) -> (r: u64)
    ensures
        r == ieee_quotient(a, b),
{
    (Double::from_bits(a as u128) / Double::from_bits(b as u128)).value.to_bits() as u64
}

/// `Display` of `rustc_apfloat::ieee::Double`, after `Float::from_bits`: the
/// text is a function of the pattern alone, and is named `decimal_text`.
#[verifier::external_body]
pub(crate) fn text(bits: u64) -> (r: String)
    ensures
        r@ == decimal_text(bits),
{
    format!("{}", Double::from_bits(bits as u128))
}

} // verus!
