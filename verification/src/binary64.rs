//! IEEE 754 binary64 numbers, read from their 64-bit encodings.
//!
//! An encoding holds, from the top, one sign bit, eleven bits of biased
//! exponent and fifty-two bits of fraction. Nothing here computes with
//! binary64 numbers; the encoding is taken apart as an integer.

use vstd::prelude::*;
use vstd::arithmetic::div_mod::lemma_basic_div;
use vstd::arithmetic::power2::{
    lemma2_to64_rest,
    lemma_pow2_pos,
    lemma_pow2_strictly_increases,
    pow2,
};
use vstd::bits::lemma_u64_shr_is_div;
use crate::decimal::{decimal, push_digits, push_digits_of_limbs, MINUS, ZERO};
use crate::natural::shifted;

verus! {

/// The number of fraction bits.
pub const FRACTION_BITS: u64 = 52;

/// The bias of the exponent field: the field of the numbers from one up
/// to, but not including, two.
pub const EXPONENT_BIAS: u64 = 1023;

/// The exponent field of the infinities and of the NaNs: all ones.
pub const EXPONENT_ALL_ONES: u64 = 0x7ff;

/// Two to the power `FRACTION_BITS`: the hidden bit of a normal number.
pub const HIDDEN_BIT: u64 = 0x10_0000_0000_0000;

/// The sign bit: the top bit of an encoding.
pub const SIGN_BIT: u64 = 0x8000_0000_0000_0000;

/// Whether the sign bit is set.
pub open spec fn sign_bit(bits: u64) -> bool {
    bits >= SIGN_BIT
}

/// The biased exponent: the eleven bits below the sign bit.
pub open spec fn exponent_field(bits: u64) -> nat {
    (bits as nat / HIDDEN_BIT as nat) % 0x800
}

/// The fraction: the low fifty-two bits.
pub open spec fn fraction_field(bits: u64) -> nat {
    bits as nat % HIDDEN_BIT as nat
}

/// Whether the encoding is that of a NaN.
pub open spec fn is_nan(bits: u64) -> bool {
    exponent_field(bits) == EXPONENT_ALL_ONES && fraction_field(bits) != 0
}

/// Whether the encoding is that of an infinity, of either sign.
pub open spec fn is_infinite(bits: u64) -> bool {
    exponent_field(bits) == EXPONENT_ALL_ONES && fraction_field(bits) == 0
}

/// Whether the encoding is that of a zero, of either sign.
pub open spec fn is_zero(bits: u64) -> bool {
    bits == 0 || bits == SIGN_BIT
}

/// Whether two encodings compare equal as numbers. A NaN is equal to
/// nothing, itself included, and the two zeros are equal. Apart from
/// these every number has one encoding.
pub open spec fn same_number(a: u64, b: u64) -> bool {
    &&& !is_nan(a)
    &&& !is_nan(b)
    &&& a == b || (is_zero(a) && is_zero(b))
}

/// The encoding with the other sign bit and the same exponent and
/// fraction.
pub open spec fn negation(bits: u64) -> u64 {
    if sign_bit(bits) {
        (bits - SIGN_BIT) as u64
    } else {
        (bits + SIGN_BIT) as u64
    }
}

/// The significand as a whole number. The magnitude of the encoded number
/// is `significand(bits)` times two to the power `exponent(bits)`.
/// A subnormal number has no hidden bit.
pub open spec fn significand(bits: u64) -> nat {
    if exponent_field(bits) == 0 {
        fraction_field(bits)
    } else {
        HIDDEN_BIT as nat + fraction_field(bits)
    }
}

/// The power of two by which the significand is scaled. A subnormal
/// number has that of the smallest normal numbers.
pub open spec fn exponent(bits: u64) -> int {
    if exponent_field(bits) == 0 {
        1 - (EXPONENT_BIAS + FRACTION_BITS)
    } else {
        exponent_field(bits) - (EXPONENT_BIAS + FRACTION_BITS)
    }
}

/// The whole part of the magnitude: the magnitude rounded down. It is a
/// number of up to 309 digits. An infinity and a NaN are read here by the
/// rule of the normal numbers, as if the exponent field of all ones were
/// one more exponent.
pub open spec fn whole_part(bits: u64) -> nat {
    if exponent(bits) >= 0 {
        significand(bits) * pow2(exponent(bits) as nat)
    } else {
        significand(bits) / pow2((-exponent(bits)) as nat)
    }
}

/// The encoded number rounded toward zero: its whole part, with its sign.
pub open spec fn whole_number(bits: u64) -> int {
    if sign_bit(bits) {
        -(whole_part(bits) as int)
    } else {
        whole_part(bits) as int
    }
}

/// The fields of an encoding are what shifts and masks take out of it.
proof fn lemma_fields(bits: u64)
    ensures
        exponent_field(bits) == (bits >> 52) & 0x7ff,
        fraction_field(bits) == bits & 0xf_ffff_ffff_ffff,
{
    assert((bits / 0x10_0000_0000_0000) % 0x800 == (bits >> 52) & 0x7ff) by (bit_vector);
    assert(bits % 0x10_0000_0000_0000 == bits & 0xf_ffff_ffff_ffff) by (bit_vector);
}

/// A magnitude below one has no whole part.
proof fn lemma_whole_part_below_one(bits: u64)
    requires
        exponent_field(bits) < EXPONENT_BIAS,
    ensures
        whole_part(bits) == 0,
{
    let down = (-exponent(bits)) as nat;
    lemma2_to64_rest();
    if down > 53 {
        lemma_pow2_strictly_increases(53, down);
    }
    lemma_basic_div(significand(bits) as int, pow2(down) as int);
}

/// A magnitude of one or more has a whole part.
proof fn lemma_whole_part_from_one(bits: u64)
    requires
        exponent_field(bits) >= EXPONENT_BIAS,
    ensures
        whole_part(bits) >= 1,
{
    let m = significand(bits);
    if exponent(bits) >= 0 {
        let p = pow2(exponent(bits) as nat);
        lemma_pow2_pos(exponent(bits) as nat);
        assert(m * p >= m) by (nonlinear_arith)
            requires
                p >= 1,
        ;
    } else {
        let m64 = m as u64;
        let down = (-exponent(bits)) as u64;
        lemma_u64_shr_is_div(m64, down);
        assert(m64 >> down >= 1) by (bit_vector)
            requires
                m64 >= 0x10_0000_0000_0000,
                down <= 52,
        ;
    }
}

/// Whether the sign bit of `bits` is set.
pub fn has_sign(bits: u64) -> (r: bool)
    ensures
        r == sign_bit(bits),
{
    bits >= SIGN_BIT
}

/// Whether `bits` encodes an infinity.
pub fn encodes_infinity(bits: u64) -> (r: bool)
    ensures
        r == is_infinite(bits),
{
    proof {
        lemma_fields(bits);
    }
    (bits >> FRACTION_BITS) & EXPONENT_ALL_ONES == EXPONENT_ALL_ONES && bits & (HIDDEN_BIT - 1) == 0
}

/// Whether `bits` encodes a NaN.
pub fn encodes_nan(bits: u64) -> (r: bool)
    ensures
        r == is_nan(bits),
{
    proof {
        lemma_fields(bits);
    }
    (bits >> FRACTION_BITS) & EXPONENT_ALL_ONES == EXPONENT_ALL_ONES && bits & (HIDDEN_BIT - 1) != 0
}

/// Whether `bits` encodes a zero.
fn encodes_zero(bits: u64) -> (r: bool)
    ensures
        r == is_zero(bits),
{
    assert(bits & 0x7fff_ffff_ffff_ffff == 0 <==> bits == 0 || bits == 0x8000_0000_0000_0000)
        by (bit_vector);
    bits & (SIGN_BIT - 1) == 0
}

/// Whether the numbers encoded by `a` and `b` compare equal.
pub fn equal(a: u64, b: u64) -> (r: bool)
    ensures
        r == same_number(a, b),
{
    !encodes_nan(a) && !encodes_nan(b) && (a == b || (encodes_zero(a) && encodes_zero(b)))
}

/// The encoding of the number encoded by `bits` with its sign changed.
/// The sign of a zero and of a NaN changes too.
pub fn negate(bits: u64) -> (r: u64)
    ensures
        r == negation(bits),
{
    assert(bits ^ 0x8000_0000_0000_0000 == if bits >= 0x8000_0000_0000_0000 {
        (bits - 0x8000_0000_0000_0000) as u64
    } else {
        (bits + 0x8000_0000_0000_0000) as u64
    }) by (bit_vector);
    bits ^ SIGN_BIT
}

/// Appends to `out` the number encoded by `bits`, rounded toward zero, in
/// base 10. The number is written in full, however large it is.
pub fn push_whole_number(out: &mut Vec<u8>, bits: u64)
    ensures
        final(out)@ == old(out)@ + decimal(whole_number(bits)),
{
    let negative = has_sign(bits);
    let field = (bits >> FRACTION_BITS) & EXPONENT_ALL_ONES;
    let fraction = bits & (HIDDEN_BIT - 1);
    proof {
        lemma_fields(bits);
    }
    if field < EXPONENT_BIAS {
        proof {
            lemma_whole_part_below_one(bits);
        }
        out.push(ZERO);
        assert(out@ =~= old(out)@ + decimal(whole_number(bits)));
    } else {
        proof {
            lemma_whole_part_from_one(bits);
        }
        if negative {
            out.push(MINUS);
        }
        let significand = HIDDEN_BIT + fraction;
        if field < EXPONENT_BIAS + FRACTION_BITS {
            let down = EXPONENT_BIAS + FRACTION_BITS - field;
            proof {
                lemma_u64_shr_is_div(significand, down);
            }
            push_digits(out, significand >> down);
        } else {
            let up = field - (EXPONENT_BIAS + FRACTION_BITS);
            push_digits_of_limbs(out, shifted(significand, up));
        }
        assert(out@ =~= old(out)@ + decimal(whole_number(bits)));
    }
}

} // verus!
