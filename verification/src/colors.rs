//! The line of text that stands for one pixel.

use vstd::prelude::*;
use vstd::arithmetic::power2::{lemma2_to64_rest, pow2};
use crate::binary64::{
    encodes_infinity,
    encodes_nan,
    exponent,
    exponent_field,
    fraction_field,
    has_sign,
    is_infinite,
    is_nan,
    push_whole_number,
    sign_bit,
    significand,
    whole_number,
    whole_part,
};
use crate::decimal::{decimal, push_digits, MINUS, ZERO};
use crate::vec3::Vec3;

verus! {

/// A vector read as a colour: its components are the red, the green and
/// the blue channel.
pub type Color = Vec3;

/// The encoding of 255.999, the factor by which an intensity is scaled to
/// a level. Full intensity, which is 1, comes to level 255 and not to 256.
pub const LEVEL_SCALE: u64 = 0x406f_fff7_ced9_1687;

/// The ASCII space that separates the levels of a line.
pub const SPACE: u8 = 32;

/// The ASCII line feed that ends a line.
pub const NEWLINE: u8 = 10;

/// The line of a pixel with the given levels: red, green and blue in
/// base 10, one space between them, a line feed at the end.
pub open spec fn color_line(red: int, green: int, blue: int) -> Seq<u8> {
    decimal(red) + seq![SPACE] + decimal(green) + seq![SPACE] + decimal(blue) + seq![NEWLINE]
}

/// The level of a channel, from the encoding of its scaled value: the
/// scaled value rounded toward zero. It is not rounded to the nearest
/// level and it is held to no range: a channel outside the intensities
/// from 0 to 1 has a level outside the levels from 0 to 255, of up to 309
/// digits. What is not a number has level 0, and an infinity has the
/// largest or the smallest `i32`.
pub open spec fn level(scaled: u64) -> int {
    if is_nan(scaled) {
        0
    } else if is_infinite(scaled) {
        if sign_bit(scaled) {
            i32::MIN as int
        } else {
            i32::MAX as int
        }
    } else {
        whole_number(scaled)
    }
}

/// Full intensity, which scales to `LEVEL_SCALE` itself, has level 255.
pub proof fn lemma_full_intensity_is_level_255()
    ensures
        level(LEVEL_SCALE) == 255,
{
    lemma2_to64_rest();
    assert(exponent_field(LEVEL_SCALE) == 0x406);
    assert(fraction_field(LEVEL_SCALE) == 0xf_fff7_ced9_1687);
    assert(exponent(LEVEL_SCALE) == -45);
    assert(significand(LEVEL_SCALE) == 0x1f_fff7_ced9_1687);
    assert(pow2(45) == 0x2000_0000_0000);
    assert(0x1f_fff7_ced9_1687int / 0x2000_0000_0000int == 255);
    assert(whole_part(LEVEL_SCALE) == 255);
}

/// Appends the level of a channel to `out`, in base 10.
fn push_level(out: &mut Vec<u8>, scaled: u64)
    ensures
        final(out)@ == old(out)@ + decimal(level(scaled)),
{
    if encodes_nan(scaled) {
        out.push(ZERO);
        assert(out@ =~= old(out)@ + decimal(0));
    } else if encodes_infinity(scaled) {
        if has_sign(scaled) {
            out.push(MINUS);
            push_digits(out, 0x8000_0000);
            assert(out@ =~= old(out)@ + decimal(i32::MIN as int));
        } else {
            push_digits(out, 0x7fff_ffff);
        }
    } else {
        push_whole_number(out, scaled);
    }
}

/// Appends the line of one pixel to `out`.
///
/// `scaled` is the colour of the pixel with each channel multiplied by
/// `LEVEL_SCALE`. The line holds the level of each channel.
pub fn write_color(out: &mut Vec<u8>, scaled: Color)
    ensures
        final(out)@ == old(out)@ + color_line(
            level(scaled.x()),
            level(scaled.y()),
            level(scaled.z()),
        ),
{
    push_level(out, scaled.x());
    out.push(SPACE);
    push_level(out, scaled.y());
    out.push(SPACE);
    push_level(out, scaled.z());
    out.push(NEWLINE);
    assert(out@ =~= old(out)@ + color_line(
        level(scaled.x()),
        level(scaled.y()),
        level(scaled.z()),
    ));
}

} // verus!
