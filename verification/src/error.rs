//! Errors that abort a render.

use vstd::prelude::*;

verus! {

/// The part of a render during which something went wrong.
#[derive(Clone, Copy, Debug, PartialEq, Eq, Structural)]
pub enum Stage {
    /// Checking the inputs, before anything is allocated.
    Configure,
    /// Allocating the two photon-state generations and binding resources.
    Init,
    /// The pass that fills generation 0 with the initial photon states.
    Reset,
    /// One of the simulation passes.
    Step,
    /// Reading the final radiance back and turning it into an image.
    Finalize,
}

/// An input that is rejected before anything is allocated.
#[derive(Clone, Copy, Debug, PartialEq, Eq, Structural)]
pub enum ConfigurationError {
    /// The output resolution has a zero extent.
    EmptyResolution,
    /// The padded frame does not fit the device's 32-bit sizes.
    FrameTooLarge,
    /// A volume dimension is zero.
    VolumeDimensions,
    /// The number of density samples is not width x height x depth.
    VolumeSize,
    /// The transfer function holds no entry.
    EmptyTransferFunction,
    /// The transfer function is not a whole number of RGBA entries.
    RaggedTransferFunction,
    /// The combined inverse camera transform holds an entry that is not a
    /// finite number, as the inverse of a singular matrix does.
    SingularCamera,
}

/// Why a render produced no image.
#[derive(Clone, Copy, Debug, PartialEq, Eq, Structural)]
pub enum RenderError {
    /// The inputs were rejected.
    Configuration(ConfigurationError),
    /// The compute engine failed to allocate, execute or read back.
    Resource(Stage),
}

impl RenderError {
    /// The stage that the error belongs to.
    pub open spec fn spec_stage(self) -> Stage {
        match self {
            RenderError::Configuration(_) => Stage::Configure,
            RenderError::Resource(stage) => stage,
        }
    }

    /// The stage that the error belongs to.
    pub fn stage(&self) -> (stage: Stage)
        ensures
            stage == self.spec_stage(),
    {
        match self {
            RenderError::Configuration(_) => Stage::Configure,
            RenderError::Resource(stage) => *stage,
        }
    }
}

} // verus!
