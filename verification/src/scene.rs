//! The read-only inputs of a render: the density volume, the transfer
//! function and the camera transform.

use vstd::prelude::*;
use crate::error::ConfigurationError;
use crate::ieee::{finite, is_finite};

verus! {

/// A three-dimensional grid of density samples, one byte each.
#[derive(Debug)]
pub struct VolumeDescriptor {
    width: u32,
    height: u32,
    depth: u32,
    samples: Vec<u8>,
}

/// A volume, as contracts see it.
pub struct VolumeView {
    /// Number of samples along x.
    pub width: nat,
    /// Number of samples along y.
    pub height: nat,
    /// Number of samples along z.
    pub depth: nat,
    /// The samples, x running fastest.
    pub samples: Seq<u8>,
}

impl VolumeView {
    /// No dimension is zero and there is one sample for each grid point.
    pub open spec fn wf(self) -> bool {
        &&& self.width > 0
        &&& self.height > 0
        &&& self.depth > 0
        &&& self.samples.len() == self.width * self.height * self.depth
    }
}

impl View for VolumeDescriptor {
    type V = VolumeView;

    closed spec fn view(&self) -> VolumeView {
        VolumeView {
            width: self.width as nat,
            height: self.height as nat,
            depth: self.depth as nat,
            samples: self.samples@,
        }
    }
}

impl VolumeDescriptor {
    /// Describes a volume of `width` x `height` x `depth` samples.
    ///
    /// A zero dimension is refused, and so is a number of samples that is
    /// not the product of the three dimensions.
    pub fn new(width: u32, height: u32, depth: u32, samples: Vec<u8>) -> (volume: Result<
        VolumeDescriptor,
        ConfigurationError,
    >)
        ensures
            volume.is_ok() <==> (VolumeView {
                width: width as nat,
                height: height as nat,
                depth: depth as nat,
                samples: samples@,
            }).wf(),
            match volume {
                Ok(v) => v@ == (VolumeView {
                    width: width as nat,
                    height: height as nat,
                    depth: depth as nat,
                    samples: samples@,
                }),
                Err(e) => e == if width == 0 || height == 0 || depth == 0 {
                    ConfigurationError::VolumeDimensions
                } else {
                    ConfigurationError::VolumeSize
                },
            },
    {
        if width == 0 || height == 0 || depth == 0 {
            return Err(ConfigurationError::VolumeDimensions);
        }
        proof {
            assert(width as int * height as int <= 0xFFFF_FFFF * 0xFFFF_FFFF) by (nonlinear_arith)
                requires
                    0 <= width <= 0xFFFF_FFFF,
                    0 <= height <= 0xFFFF_FFFF,
            ;
        }
        let slice: u64 = width as u64 * height as u64;
        proof {
            assert(slice as int * depth as int <= 0xFFFF_FFFE_0000_0001 * 0xFFFF_FFFF)
                by (nonlinear_arith)
                requires
                    0 <= slice <= 0xFFFF_FFFE_0000_0001,
                    0 <= depth <= 0xFFFF_FFFF,
            ;
        }
        let expected: u128 = slice as u128 * depth as u128;
        if samples.len() as u128 != expected {
            return Err(ConfigurationError::VolumeSize);
        }
        Ok(VolumeDescriptor { width, height, depth, samples })
    }

    /// Number of samples along x.
    pub fn width(&self) -> (width: u32)
        ensures
            width == self@.width,
    {
        self.width
    }

    /// Number of samples along y.
    pub fn height(&self) -> (height: u32)
        ensures
            height == self@.height,
    {
        self.height
    }

    /// Number of samples along z.
    pub fn depth(&self) -> (depth: u32)
        ensures
            depth == self@.depth,
    {
        self.depth
    }

    /// The samples, x running fastest.
    pub fn samples(&self) -> (samples: &Vec<u8>)
        ensures
            samples@ == self@.samples,
    {
        &self.samples
    }
}

/// A colour and opacity for each normalized density: RGBA entries of four
/// bytes, in order of rising density.
#[derive(Debug)]
pub struct TransferFunction {
    entries: Vec<u8>,
}

impl View for TransferFunction {
    type V = Seq<u8>;

    closed spec fn view(&self) -> Seq<u8> {
        self.entries@
    }
}

/// The bytes of the transfer function that is used when none is given:
/// transparent black at the lowest density, opaque red at the highest.
pub open spec fn default_ramp() -> Seq<u8> {
    seq![0u8, 0u8, 0u8, 0u8, 255u8, 0u8, 0u8, 255u8]
}

impl TransferFunction {
    /// The bytes hold at least one entry and no partial entry.
    pub open spec fn wf(&self) -> bool {
        self@.len() > 0 && self@.len() % 4 == 0
    }

    /// Number of entries.
    pub open spec fn spec_len(&self) -> nat {
        self@.len() / 4
    }

    /// A transfer function from RGBA bytes.
    ///
    /// An empty table is refused, and so is one whose length is not a
    /// multiple of four.
    pub fn new(bytes: Vec<u8>) -> (table: Result<TransferFunction, ConfigurationError>)
        ensures
            table.is_ok() <==> (bytes@.len() > 0 && bytes@.len() % 4 == 0),
            match table {
                Ok(t) => t@ == bytes@ && t.wf(),
                Err(e) => e == if bytes@.len() == 0 {
                    ConfigurationError::EmptyTransferFunction
                } else {
                    ConfigurationError::RaggedTransferFunction
                },
            },
    {
        if bytes.len() == 0 {
            return Err(ConfigurationError::EmptyTransferFunction);
        }
        if bytes.len() % 4 != 0 {
            return Err(ConfigurationError::RaggedTransferFunction);
        }
        Ok(TransferFunction { entries: bytes })
    }

    /// Number of entries.
    pub fn len(&self) -> (len: usize)
        ensures
            len == self.spec_len(),
    {
        self.entries.len() / 4
    }

    /// The size of the texture that holds the table: the number of entries
    /// and the number of bytes in its one row, or `None` when the row does
    /// not fit the device's 32-bit sizes.
    pub fn texture_row(&self) -> (row: Option<(u32, u32)>)
        ensures
            row.is_some() <==> self@.len() <= u32::MAX,
            match row {
                Some((entries, bytes)) => entries == self.spec_len() && bytes == 4 * entries,
                None => true,
            },
    {
        let length: usize = self.entries.len();
        if length > 0xFFFF_FFFF {
            return None;
        }
        let entries: u32 = (length / 4) as u32;
        Some((entries, 4 * entries))
    }

    /// The RGBA bytes.
    pub fn bytes(&self) -> (bytes: &Vec<u8>)
        ensures
            bytes@ == self@,
    {
        &self.entries
    }
}

impl Default for TransferFunction {
    /// The transfer function that is used when none is given.
    fn default() -> (table: TransferFunction)
        ensures
            table@ == default_ramp(),
            table.wf(),
    {
        let mut entries: Vec<u8> = Vec::new();
        entries.push(0);
        entries.push(0);
        entries.push(0);
        entries.push(0);
        entries.push(255);
        entries.push(0);
        entries.push(0);
        entries.push(255);
        assert(entries@ =~= default_ramp());
        TransferFunction { entries }
    }
}

/// The combined inverse of projection, view and model transform: sixteen
/// binary32 words, the one camera datum that the simulation needs.
#[derive(Clone, Copy, Debug)]
pub struct CameraTransform {
    words: [u32; 16],
}

impl View for CameraTransform {
    type V = Seq<u32>;

    closed spec fn view(&self) -> Seq<u32> {
        self.words@
    }
}

/// Every word is a finite number.
pub open spec fn all_finite(words: Seq<u32>) -> bool {
    forall|i: int| 0 <= i < words.len() ==> is_finite(#[trigger] words[i])
}

impl CameraTransform {
    /// Sixteen finite words.
    pub open spec fn wf(&self) -> bool {
        self@.len() == 16 && all_finite(self@)
    }

    /// A camera transform from its sixteen entries.
    ///
    /// The inverse of a singular matrix holds infinities or entries that
    /// are not numbers; such a transform is refused, so that none of them
    /// reaches the simulation.
    pub fn new(words: [u32; 16]) -> (camera: Result<CameraTransform, ConfigurationError>)
        ensures
            camera.is_ok() <==> all_finite(words@),
            match camera {
                Ok(c) => c@ == words@ && c.wf(),
                Err(e) => e == ConfigurationError::SingularCamera,
            },
    {
        let mut i: usize = 0;
        while i < 16
            invariant
                i <= 16,
                words@.len() == 16,
                forall|j: int| 0 <= j < i ==> is_finite(#[trigger] words@[j]),
            decreases 16 - i,
        {
            if !finite(words[i]) {
                return Err(ConfigurationError::SingularCamera);
            }
            i = i + 1;
        }
        Ok(CameraTransform { words })
    }

    /// The sixteen entries.
    pub fn words(&self) -> (words: &[u32; 16])
        ensures
            words@ == self@,
    {
        &self.words
    }
}

} // verus!
