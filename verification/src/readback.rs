//! From the radiance that the device wrote to the displayable image.
//!
//! The radiance of a generation comes back as the bytes of its texture: rows
//! of `stride` texels, each texel four little-endian binary32 words, of
//! which the first three are the red, green and blue radiance.  The image
//! keeps the first `width` texels of each row and one byte per channel.

use vstd::prelude::*;
use vstd::arithmetic::div_mod::{lemma_div_is_ordered, lemma_div_multiples_vanish_quotient, lemma_fundamental_div_mod, lemma_fundamental_div_mod_converse};
use vstd::arithmetic::power2::{pow2, lemma2_to64, lemma_pow2_adds, lemma_pow2_pos, lemma_pow2_strictly_increases};
use crate::error::{RenderError, Stage};
use crate::ieee::{is_finite, is_infinite, is_nan, lemma_magnitude_bounds, magnitude, one, power_of_two, sign_of, units};
use crate::layout::FrameLayout;
use crate::schedule::{action_count, holds_newest, lemma_no_iterations, spec_action, store_after, Action};

verus! {

/// The integer nearest to `numerator / denominator`; a value halfway between
/// two integers goes to the upper one.
pub open spec fn round_div(numerator: int, denominator: int) -> int {
    (2 * numerator + denominator) / (2 * denominator)
}

/// `value` limited to the range of a byte.
pub open spec fn clamp_to_byte(value: int) -> u8 {
    if value < 0 {
        0
    } else if value > 255 {
        255
    } else {
        value as u8
    }
}

/// The byte for a radiance: the radiance times 255, rounded to the nearest
/// integer and limited to 0..=255.  Minus infinity and a pattern that is not
/// a number give 0, plus infinity gives 255.
pub open spec fn spec_quantize(bits: u32) -> u8 {
    if is_nan(bits) {
        0
    } else if is_infinite(bits) {
        if sign_of(bits) == 1 {
            0
        } else {
            255
        }
    } else {
        clamp_to_byte(round_div(255 * units(bits), one() as int))
    }
}

/// A radiance of 1 or more becomes 255 and a radiance of 0 or less
/// becomes 0: values out of range are limited, they never wrap.
pub proof fn lemma_quantize_saturates(bits: u32)
    requires
        !is_nan(bits),
    ensures
        !is_infinite(bits) && units(bits) >= one() ==> spec_quantize(bits) == 255,
        !is_infinite(bits) && units(bits) <= 0 ==> spec_quantize(bits) == 0,
{
    let p = one() as int;
    lemma_pow2_pos(149);
    let u = units(bits);
    if !is_infinite(bits) && u >= p {
        assert((2 * (255 * u) + p) / (2 * p) >= 255) by (nonlinear_arith)
            requires
                u >= p,
                p > 0,
        ;
    }
    if !is_infinite(bits) && u <= 0 {
        assert((2 * (255 * u) + p) / (2 * p) <= 0) by (nonlinear_arith)
            requires
                u <= 0,
                p > 0,
        ;
    }
}

/// Of two finite radiances the larger one gets the larger byte, or the
/// same.
pub proof fn lemma_quantize_monotonic(darker: u32, brighter: u32)
    requires
        is_finite(darker),
        is_finite(brighter),
        units(darker) <= units(brighter),
    ensures
        spec_quantize(darker) <= spec_quantize(brighter),
{
    let p = one() as int;
    lemma_pow2_pos(149);
    lemma_div_is_ordered(2 * (255 * units(darker)) + p, 2 * (255 * units(brighter)) + p, 2 * p);
}

/// Turns a radiance into a byte.
pub fn quantize(bits: u32) -> (level: u8)
    ensures
        level == spec_quantize(bits),
{
    let exponent: u32 = (bits / 0x80_0000) % 256;
    let fraction: u32 = bits % 0x80_0000;
    proof {
        lemma2_to64();
        lemma_pow2_pos(149);
        lemma_magnitude_bounds(bits);
    }
    if exponent == 255 {
        return if fraction == 0 && bits < 0x8000_0000 {
            255
        } else {
            0
        };
    }
    if bits >= 0x8000_0000 {
        proof {
            lemma_quantize_saturates(bits);
        }
        return 0;
    }
    assert(sign_of(bits) == 0);
    if exponent >= 127 {
        proof {
            if exponent > 127 {
                lemma_pow2_strictly_increases(149, (exponent + 22) as nat);
            }
            lemma_quantize_saturates(bits);
        }
        return 255;
    }
    if exponent < 118 {
        proof {
            let m = magnitude(bits) as int;
            let p = one() as int;
            if exponent > 0 {
                if exponent < 117 {
                    lemma_pow2_strictly_increases((exponent + 23) as nat, 140);
                }
            } else {
                lemma_pow2_strictly_increases(23, 140);
            }
            lemma_pow2_adds(9, 140);
            assert(m < pow2(140));
            assert(0 <= 2 * (255 * m) + p < 2 * p) by (nonlinear_arith)
                requires
                    0 <= m < pow2(140),
                    p == 512 * pow2(140),
            ;
            assert((2 * (255 * m) + p) / (2 * p) == 0) by (nonlinear_arith)
                requires
                    0 <= 2 * (255 * m) + p < 2 * p,
            ;
        }
        return 0;
    }
    let significand: u64 = 0x80_0000 + fraction as u64;
    let shift: u32 = 150 - exponent;
    let half: u64 = power_of_two(shift - 1);
    proof {
        lemma_pow2_strictly_increases((shift - 1) as nat, 32);
        lemma_pow2_pos((shift - 1) as nat);
    }
    let level: u64 = (255 * significand + half) / (2 * half);
    proof {
        let c = pow2((exponent - 1) as nat) as int;
        let s = significand as int;
        let h = half as int;
        let p = one() as int;
        lemma_pow2_pos((exponent - 1) as nat);
        lemma_pow2_adds((exponent - 1) as nat, (shift - 1) as nat);
        lemma_pow2_adds(148, 1);
        assert(p == 2 * (c * h));
        assert(units(bits) == s * c);
        let n = 2 * (255 * (s * c)) + p;
        assert(n == (2 * c) * (255 * s + h)) by (nonlinear_arith)
            requires
                n == 2 * (255 * (s * c)) + p,
                p == 2 * (c * h),
        ;
        assert(2 * p == (2 * c) * (2 * h)) by (nonlinear_arith)
            requires
                p == 2 * (c * h),
        ;
        lemma_div_multiples_vanish_quotient(2 * c, 255 * s + h, 2 * h);
        assert(round_div(255 * units(bits), p) == (255 * s + h) / (2 * h));
        lemma_pow2_adds(24, (shift - 1) as nat);
        lemma_pow2_adds(23, (shift - 1) as nat);
        // The radiance is below 1, so the level is at most 255.
        lemma_pow2_adds(23, 1);
        assert(h >= pow2(23)) by {
            if shift > 24 {
                lemma_pow2_strictly_increases(23, (shift - 1) as nat);
            }
        }
        assert((255 * s + h) / (2 * h) <= 255) by (nonlinear_arith)
            requires
                0 <= s < 0x100_0000,
                h >= 0x80_0000,
        ;
    }
    level as u8
}

/// The little-endian 32-bit word number `index` of `bytes`.
pub open spec fn spec_word(bytes: Seq<u8>, index: int) -> u32 {
    (bytes[4 * index] as int + 0x100 * bytes[4 * index + 1] as int + 0x1_0000 * bytes[4 * index
        + 2] as int + 0x100_0000 * bytes[4 * index + 3] as int) as u32
}

/// Reads the little-endian 32-bit word number `index` of `bytes`.
pub fn word_at(bytes: &Vec<u8>, index: usize) -> (word: u32)
    requires
        4 * index + 4 <= bytes@.len(),
    ensures
        word == spec_word(bytes@, index as int),
{
    let length: usize = bytes.len();
    assert(4 * index + 4 <= length);
    let at: usize = 4 * index;
    let b0: u32 = bytes[at] as u32;
    let b1: u32 = bytes[at + 1] as u32;
    let b2: u32 = bytes[at + 2] as u32;
    let b3: u32 = bytes[at + 3] as u32;
    b0 + 0x100 * b1 + 0x1_0000 * b2 + 0x100_0000 * b3
}

/// Byte number `i` of the image: channel `i mod 3` of the pixel number
/// `i div 3`, counted row by row, taken from the texel of the same column
/// and row.
pub open spec fn spec_image_byte(bytes: Seq<u8>, layout: FrameLayout, i: int) -> u8 {
    let pixel = i / 3;
    let channel = i % 3;
    let x = pixel % (layout.spec_width() as int);
    let y = pixel / (layout.spec_width() as int);
    spec_quantize(spec_word(bytes, layout.spec_texel_word(x as nat, y as nat) + channel))
}

/// The image made from the bytes of a radiance texture: row-major RGB
/// bytes, padding columns left out.
pub open spec fn spec_image(bytes: Seq<u8>, layout: FrameLayout) -> Seq<u8> {
    Seq::new(layout.spec_image_bytes(), |i: int| spec_image_byte(bytes, layout, i))
}

/// Turns the bytes of a radiance texture into the image.
///
/// Fails, at the finalize stage, when the engine handed back another number
/// of bytes than the texture holds.
pub fn read_image(bytes: &Vec<u8>, layout: &FrameLayout) -> (image: Result<Vec<u8>, RenderError>)
    requires
        layout.wf(),
    ensures
        image.is_ok() <==> bytes@.len() == layout.spec_buffer_bytes(),
        match image {
            Ok(pixels) => pixels@ == spec_image(bytes@, *layout),
            Err(e) => e == RenderError::Resource(Stage::Finalize),
        },
{
    if bytes.len() != layout.buffer_bytes() as usize {
        return Err(RenderError::Resource(Stage::Finalize));
    }
    let width: usize = layout.width() as usize;
    let height: usize = layout.height() as usize;
    let stride: usize = layout.stride() as usize;
    let mut pixels: Vec<u8> = Vec::new();
    let mut y: usize = 0;
    while y < height
        invariant
            layout.wf(),
            width == layout.spec_width(),
            height == layout.spec_height(),
            stride == layout.spec_stride(),
            bytes@.len() == layout.spec_buffer_bytes(),
            y <= height,
            pixels@.len() == 3 * (y * width),
            forall|i: int| 0 <= i < pixels@.len() ==> pixels@[i] == spec_image_byte(bytes@, *layout, i),
        decreases height - y,
    {
        let mut x: usize = 0;
        while x < width
            invariant
                layout.wf(),
                width == layout.spec_width(),
                height == layout.spec_height(),
                stride == layout.spec_stride(),
                bytes@.len() == layout.spec_buffer_bytes(),
                y < height,
                x <= width,
                pixels@.len() == 3 * (y * width + x),
                forall|i: int|
                    0 <= i < pixels@.len() ==> pixels@[i] == spec_image_byte(bytes@, *layout, i),
            decreases width - x,
        {
            proof {
                lemma_texel_in_bounds(*layout, x as nat, y as nat);
            }
            let texel: usize = (y * stride + x) * 4;
            let red: u8 = quantize(word_at(bytes, texel));
            let green: u8 = quantize(word_at(bytes, texel + 1));
            let blue: u8 = quantize(word_at(bytes, texel + 2));
            let ghost before = pixels@;
            pixels.push(red);
            pixels.push(green);
            pixels.push(blue);
            proof {
                let pixel = y * width + x;
                assert(before.len() == 3 * pixel);
                lemma_fundamental_div_mod_converse(pixel as int, width as int, y as int, x as int);
                assert forall|i: int| 0 <= i < pixels@.len() implies pixels@[i] == spec_image_byte(
                    bytes@,
                    *layout,
                    i,
                ) by {
                    if i >= before.len() {
                        let channel = i - 3 * pixel;
                        lemma_fundamental_div_mod_converse(i, 3, pixel as int, channel);
                    } else {
                        assert(pixels@[i] == before[i]);
                    }
                }
            }
            x = x + 1;
        }
        proof {
            assert(3 * (y * width + width) == 3 * ((y + 1) * width)) by (nonlinear_arith);
        }
        y = y + 1;
    }
    proof {
        assert(3 * (height * width) == layout.spec_image_bytes()) by (nonlinear_arith)
            requires
                width == layout.spec_width(),
                height == layout.spec_height(),
        ;
        assert(pixels@ =~= spec_image(bytes@, *layout));
    }
    Ok(pixels)
}

/// The four words of texel (`x`, `y`) lie inside the texture.
pub proof fn lemma_texel_in_bounds(layout: FrameLayout, x: nat, y: nat)
    requires
        layout.wf(),
        x < layout.spec_width(),
        y < layout.spec_height(),
    ensures
        4 * layout.spec_texel_word(x, y) + 16 <= layout.spec_buffer_bytes(),
        y * layout.spec_stride() + x < layout.spec_stride() * layout.spec_height(),
{
    let s = layout.spec_stride() as int;
    let h = layout.spec_height() as int;
    assert(y * s + x < s * h) by (nonlinear_arith)
        requires
            0 <= x < s,
            0 <= y < h,
    ;
    assert(4 * ((y * s + x) * 4) + 16 <= 16 * s * h) by (nonlinear_arith)
        requires
            y * s + x < s * h,
    ;
}

/// The pixel that byte `i` of the image belongs to lies inside the image.
proof fn lemma_image_byte_in_frame(layout: FrameLayout, i: int)
    requires
        layout.wf(),
        0 <= i < layout.spec_image_bytes(),
    ensures
        0 <= (i / 3) % (layout.spec_width() as int) < layout.spec_width(),
        0 <= (i / 3) / (layout.spec_width() as int) < layout.spec_height(),
        0 <= i % 3 < 3,
{
    let w = layout.spec_width() as int;
    let h = layout.spec_height() as int;
    let pixel = i / 3;
    assert(0 <= pixel < w * h) by (nonlinear_arith)
        requires
            0 <= i < 3 * w * h,
            pixel == i / 3,
    ;
    lemma_fundamental_div_mod(pixel, w);
    assert(0 <= pixel / w < h) by (nonlinear_arith)
        requires
            0 <= pixel < w * h,
            pixel == w * (pixel / w) + pixel % w,
            0 <= pixel % w < w,
    ;
}

/// The image depends on the red, green and blue words of the texels inside
/// the logical width alone: the padding columns and the fourth word of
/// each texel do not show in it.
pub proof fn lemma_image_ignores_padding(first: Seq<u8>, second: Seq<u8>, layout: FrameLayout)
    requires
        layout.wf(),
        forall|x: nat, y: nat, channel: int|
            x < layout.spec_width() && y < layout.spec_height() && 0 <= channel < 3
                ==> #[trigger] spec_word(first, layout.spec_texel_word(x, y) + channel)
                == spec_word(second, layout.spec_texel_word(x, y) + channel),
    ensures
        spec_image(first, layout) == spec_image(second, layout),
{
    assert forall|i: int| 0 <= i < layout.spec_image_bytes() implies spec_image_byte(
        first,
        layout,
        i,
    ) == spec_image_byte(second, layout, i) by {
        lemma_image_byte_in_frame(layout, i);
        let x = ((i / 3) % (layout.spec_width() as int)) as nat;
        let y = ((i / 3) / (layout.spec_width() as int)) as nat;
        let channel = i % 3;
        assert(spec_word(first, layout.spec_texel_word(x, y) + channel) == spec_word(
            second,
            layout.spec_texel_word(x, y) + channel,
        ));
    }
    assert(spec_image(first, layout) =~= spec_image(second, layout));
}

/// A texture of zero bytes, such as the radiance that the reset leaves,
/// gives an image of zero bytes.
pub proof fn lemma_zero_radiance_is_black(bytes: Seq<u8>, layout: FrameLayout)
    requires
        layout.wf(),
        bytes.len() == layout.spec_buffer_bytes(),
        forall|i: int| 0 <= i < bytes.len() ==> bytes[i] == 0,
    ensures
        spec_image(bytes, layout).len() == layout.spec_image_bytes(),
        forall|i: int| 0 <= i < layout.spec_image_bytes() ==> spec_image(bytes, layout)[i] == 0,
{
    assert forall|i: int| 0 <= i < layout.spec_image_bytes() implies spec_image(bytes, layout)[i]
        == 0 by {
        lemma_image_byte_in_frame(layout, i);
        let x = ((i / 3) % (layout.spec_width() as int)) as nat;
        let y = ((i / 3) / (layout.spec_width() as int)) as nat;
        lemma_texel_in_bounds(layout, x, y);
        assert(spec_word(bytes, layout.spec_texel_word(x, y) + i % 3) == 0);
        lemma_zero_is_black();
    }
}

/// The radiance 0 gives the byte 0.
pub proof fn lemma_zero_is_black()
    ensures
        spec_quantize(0) == 0,
{
    lemma_pow2_pos(149);
    let p = one() as int;
    assert((2 * (255 * 0) + p) / (2 * p) == 0) by (nonlinear_arith)
        requires
            p > 0,
    ;
}

/// A run of zero simulation passes consists of allocation, reset and
/// readback: it reads back generation 0 as the reset left it.  The reset
/// leaves a radiance of zero bytes, so the image of such a run is black.
pub proof fn lemma_unstepped_run_is_black(layout: FrameLayout, reset_radiance: Seq<u8>)
    requires
        layout.wf(),
        reset_radiance.len() == layout.spec_buffer_bytes(),
        forall|i: int| 0 <= i < reset_radiance.len() ==> reset_radiance[i] == 0,
    ensures
        forall|k: nat| k < action_count(0) ==> !(#[trigger] spec_action(layout, 0, k) is Step),
        spec_action(layout, 0, 2) == (Action::Readback {
            source: 0,
            bytes: layout.spec_buffer_bytes() as u32,
        }),
        holds_newest(store_after(layout, 0, 2), 0, 0),
        spec_image(reset_radiance, layout).len() == layout.spec_image_bytes(),
        forall|i: int|
            0 <= i < layout.spec_image_bytes() ==> spec_image(reset_radiance, layout)[i] == 0,
{
    lemma_no_iterations(layout);
    lemma_zero_radiance_is_black(reset_radiance, layout);
}

} // verus!
