//! Frame geometry: logical resolution, padded row stride and buffer sizes.

use vstd::prelude::*;
use vstd::arithmetic::div_mod::{lemma_fundamental_div_mod, lemma_mod_multiples_basic};
use crate::error::ConfigurationError;

verus! {

/// Row alignment, in texels, that the device demands of a frame that is
/// copied into a buffer.
///
/// Trusted: reads `wgpu::COPY_BYTES_PER_ROW_ALIGNMENT`, which the device
/// library declares as the constant 256.
#[verifier::external_body]
pub(crate) fn device_row_alignment() -> (alignment: u32)
    ensures
        alignment == 256,
{
    wgpu::COPY_BYTES_PER_ROW_ALIGNMENT
}

/// `stride` is the least multiple of `alignment` that is at least `width`.
pub open spec fn is_padding_of(stride: int, width: int, alignment: int) -> bool {
    &&& alignment > 0
    &&& stride % alignment == 0
    &&& width <= stride < width + alignment
}

/// Two multiples of `alignment` that lie less than `alignment` apart are
/// not in strict order.
proof fn lemma_multiples_not_between(a: int, b: int, alignment: int)
    requires
        alignment > 0,
        a % alignment == 0,
        b % alignment == 0,
        a <= b < a + alignment,
    ensures
        a == b,
{
    lemma_fundamental_div_mod(a, alignment);
    lemma_fundamental_div_mod(b, alignment);
    let qa = a / alignment;
    let qb = b / alignment;
    assert(alignment * (qb - qa) == b - a) by (nonlinear_arith)
        requires
            a == alignment * qa,
            b == alignment * qb,
    ;
    assert(qb - qa <= 0) by (nonlinear_arith)
        requires
            alignment * (qb - qa) == b - a,
            b - a < alignment,
            alignment > 0,
    ;
    assert(b - a <= 0) by (nonlinear_arith)
        requires
            alignment * (qb - qa) == b - a,
            qb - qa <= 0,
            alignment > 0,
    ;
}

/// At most one stride pads a width to an alignment.
pub proof fn lemma_padding_unique(a: int, b: int, width: int, alignment: int)
    requires
        is_padding_of(a, width, alignment),
        is_padding_of(b, width, alignment),
    ensures
        a == b,
{
    if a <= b {
        lemma_multiples_not_between(a, b, alignment);
    } else {
        lemma_multiples_not_between(b, a, alignment);
    }
}

/// Rounds `width` up to the next multiple of `alignment`.
///
/// Returns `None` when the alignment is zero or the padded width does not
/// fit in 32 bits.
pub fn padded_stride(width: u32, alignment: u32) -> (stride: Option<u32>)
    ensures
        match stride {
            Some(s) => is_padding_of(s as int, width as int, alignment as int),
            None => forall|s: int| is_padding_of(s, width as int, alignment as int) ==> s > u32::MAX,
        },
{
    if alignment == 0 {
        return None;
    }
    let rest: u32 = width % alignment;
    if rest == 0 {
        return Some(width);
    }
    let pad: u32 = alignment - rest;
    proof {
        let w = width as int;
        let a = alignment as int;
        lemma_fundamental_div_mod(w, a);
        let q = w / a;
        assert(w + pad == a * (q + 1)) by (nonlinear_arith)
            requires
                w == a * q + rest,
                pad == a - rest,
        ;
        lemma_mod_multiples_basic(q + 1, a);
        assert(a * (q + 1) == (q + 1) * a) by (nonlinear_arith);
        assert(is_padding_of(w + pad, w, a));
        assert forall|s: int| is_padding_of(s, w, a) implies s == w + pad by {
            lemma_padding_unique(s, w + pad, w, a);
        }
    }
    if width > u32::MAX - pad {
        None
    } else {
        Some(width + pad)
    }
}

/// Geometry of one photon-state generation and of the image made from it.
///
/// The device works on rows of `stride` texels, of which the first `width`
/// belong to the image; the rest is padding.
#[derive(Clone, Copy, Debug, PartialEq, Eq, Structural)]
pub struct FrameLayout {
    width: u32,
    height: u32,
    stride: u32,
}

impl FrameLayout {
    /// Logical width of the image, in pixels.
    pub closed spec fn spec_width(self) -> nat {
        self.width as nat
    }

    /// Height of the image, in pixels.
    pub closed spec fn spec_height(self) -> nat {
        self.height as nat
    }

    /// Length of a device row, in texels.
    pub closed spec fn spec_stride(self) -> nat {
        self.stride as nat
    }

    /// The layout's invariant: a non-empty image, rows that hold it, and a
    /// device buffer whose size in bytes fits in 32 bits.
    pub open spec fn wf(self) -> bool {
        &&& 0 < self.spec_width() <= self.spec_stride()
        &&& 0 < self.spec_height()
        &&& 16 * self.spec_stride() * self.spec_height() <= u32::MAX
    }

    /// Number of bytes in one generation's radiance texture.
    pub open spec fn spec_buffer_bytes(self) -> nat {
        16 * self.spec_stride() * self.spec_height()
    }

    /// Number of bytes in the output image.
    pub open spec fn spec_image_bytes(self) -> nat {
        3 * self.spec_width() * self.spec_height()
    }

    /// Index, in 32-bit words, of the first word of texel (`x`, `y`).
    pub open spec fn spec_texel_word(self, x: nat, y: nat) -> nat {
        (y * self.spec_stride() + x) * 4
    }

    /// Lays out a `width` x `height` image on rows padded to `alignment`
    /// texels.
    pub fn with_alignment(width: u32, height: u32, alignment: u32) -> (layout: Result<
        FrameLayout,
        ConfigurationError,
    >)
        ensures
            match layout {
                Ok(l) => {
                    &&& l.wf()
                    &&& l.spec_width() == width
                    &&& l.spec_height() == height
                    &&& is_padding_of(l.spec_stride() as int, width as int, alignment as int)
                },
                Err(e) => {
                    &&& e == ConfigurationError::EmptyResolution <==> (width == 0 || height == 0)
                    &&& e == ConfigurationError::FrameTooLarge <==> (width > 0 && height > 0)
                    &&& e == ConfigurationError::FrameTooLarge ==> forall|s: int|
                        is_padding_of(s, width as int, alignment as int) ==> 16 * s * height
                            > u32::MAX
                },
            },
            (width == 0 || height == 0) ==> layout.is_err(),
            (width > 0 && height > 0 && exists|s: int|
                is_padding_of(s, width as int, alignment as int) && 16 * s * height <= u32::MAX)
                ==> layout.is_ok(),
    {
        if width == 0 || height == 0 {
            return Err(ConfigurationError::EmptyResolution);
        }
        let stride: u32 = match padded_stride(width, alignment) {
            Some(s) => s,
            None => {
                proof {
                    assert forall|s: int|
                        is_padding_of(s, width as int, alignment as int) implies 16 * s * height
                        > u32::MAX by {
                        assert(16 * s * height >= s) by (nonlinear_arith)
                            requires
                                s > 0,
                                height >= 1,
                        ;
                    }
                }
                return Err(ConfigurationError::FrameTooLarge);
            },
        };
        let limit: u64 = 0xFFFF_FFFF;
        proof {
            assert(stride as int * height as int <= 0xFFFF_FFFF * 0xFFFF_FFFF) by (nonlinear_arith)
                requires
                    0 <= stride <= 0xFFFF_FFFF,
                    0 <= height <= 0xFFFF_FFFF,
            ;
        }
        let rows: u64 = stride as u64 * height as u64;
        if rows > limit / 16 {
            proof {
                assert forall|s: int|
                    is_padding_of(s, width as int, alignment as int) implies 16 * s * height
                    > u32::MAX by {
                    lemma_padding_unique(s, stride as int, width as int, alignment as int);
                    assert(16 * s * height == 16 * (s * height)) by (nonlinear_arith);
                }
            }
            return Err(ConfigurationError::FrameTooLarge);
        }
        proof {
            assert(16 * (stride as nat) * (height as nat) == 16 * (stride as nat * height as nat))
                by (nonlinear_arith);
            assert forall|s: int|
                is_padding_of(s, width as int, alignment as int) implies s == stride by {
                lemma_padding_unique(s, stride as int, width as int, alignment as int);
            }
        }
        Ok(FrameLayout { width, height, stride })
    }

    /// Lays out a `width` x `height` image on rows padded to the alignment
    /// that the device demands.
    pub fn new(width: u32, height: u32) -> (layout: Result<FrameLayout, ConfigurationError>)
        ensures
            match layout {
                Ok(l) => {
                    &&& l.wf()
                    &&& l.spec_width() == width
                    &&& l.spec_height() == height
                    &&& is_padding_of(l.spec_stride() as int, width as int, 256)
                },
                Err(e) => {
                    &&& e == ConfigurationError::EmptyResolution <==> (width == 0 || height == 0)
                    &&& e == ConfigurationError::FrameTooLarge <==> (width > 0 && height > 0)
                    &&& e == ConfigurationError::FrameTooLarge ==> forall|s: int|
                        is_padding_of(s, width as int, 256) ==> 16 * s * height > u32::MAX
                },
            },
            (width == 0 || height == 0) ==> layout.is_err(),
            (width > 0 && height > 0 && exists|s: int|
                is_padding_of(s, width as int, 256) && 16 * s * height <= u32::MAX)
                ==> layout.is_ok(),
    {
        let alignment: u32 = device_row_alignment();
        FrameLayout::with_alignment(width, height, alignment)
    }

    /// Number of bytes in one generation's radiance texture.
    pub fn buffer_bytes(&self) -> (bytes: u32)
        requires
            self.wf(),
        ensures
            bytes == self.spec_buffer_bytes(),
    {
        proof {
            assert(16 * (self.stride as nat * self.height as nat) == 16 * (self.stride as nat)
                * (self.height as nat)) by (nonlinear_arith);
        }
        let rows: u64 = self.stride as u64 * self.height as u64;
        (16 * rows) as u32
    }

    /// Number of bytes in one device row.
    pub fn row_bytes(&self) -> (bytes: u32)
        requires
            self.wf(),
        ensures
            bytes == 16 * self.spec_stride(),
    {
        proof {
            assert(16 * (self.stride as nat) <= 16 * (self.stride as nat) * (self.height as nat))
                by (nonlinear_arith)
                requires
                    self.height >= 1,
            ;
        }
        16 * self.stride
    }

    /// Number of bytes in the output image.
    pub fn image_bytes(&self) -> (bytes: u32)
        requires
            self.wf(),
        ensures
            bytes == self.spec_image_bytes(),
    {
        proof {
            assert(3 * (self.width as nat) * (self.height as nat) <= 16 * (self.stride as nat) * (
            self.height as nat)) by (nonlinear_arith)
                requires
                    self.width <= self.stride,
            ;
            assert(3 * (self.width as nat * self.height as nat) == 3 * (self.width as nat) * (
            self.height as nat)) by (nonlinear_arith);
        }
        let pixels: u64 = self.width as u64 * self.height as u64;
        (3 * pixels) as u32
    }

    /// Logical width of the image, in pixels.
    pub fn width(&self) -> (width: u32)
        ensures
            width == self.spec_width(),
    {
        self.width
    }

    /// Height of the image, in pixels.
    pub fn height(&self) -> (height: u32)
        ensures
            height == self.spec_height(),
    {
        self.height
    }

    /// Length of a device row, in texels.
    pub fn stride(&self) -> (stride: u32)
        ensures
            stride == self.spec_stride(),
    {
        self.stride
    }
}

} // verus!
