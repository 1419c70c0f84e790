//! A render job: the inputs of one render, checked before anything is
//! allocated.

use vstd::prelude::*;
use crate::error::{ConfigurationError, RenderError};
use crate::layout::{is_padding_of, FrameLayout};
use crate::scene::{all_finite, default_ramp, CameraTransform, TransferFunction, VolumeDescriptor, VolumeView};
use crate::schedule::{Scheduler, SchedulerView};

verus! {

/// The numbers that steer the simulation.  Real numbers are binary32 words.
#[derive(Clone, Copy, Debug, PartialEq, Eq, Structural)]
pub struct RenderParameters {
    /// Width of the output image, in pixels.
    pub width: u32,
    /// Height of the output image, in pixels.
    pub height: u32,
    /// Extinction coefficient of the medium.
    pub extinction: u32,
    /// Anisotropy of the phase function.
    pub anisotropy: u32,
    /// How often a photon may scatter.
    pub max_bounces: u32,
    /// How many steps a pass may take per photon.
    pub steps: u32,
    /// Number of simulation passes.
    pub iterations: u32,
    /// Whether the volume is sampled with linear filtering.
    pub linear: bool,
}

/// What is wrong with an output resolution, if anything.
pub open spec fn resolution_fault(width: u32, height: u32) -> Option<ConfigurationError> {
    if width == 0 || height == 0 {
        Some(ConfigurationError::EmptyResolution)
    } else if exists|s: int| is_padding_of(s, width as int, 256) && 16 * s * height <= u32::MAX {
        None
    } else {
        Some(ConfigurationError::FrameTooLarge)
    }
}

/// What is wrong with a volume, if anything.
pub open spec fn volume_fault(dimensions: Seq<u32>, samples: Seq<u8>) -> Option<
    ConfigurationError,
> {
    if dimensions[0] == 0 || dimensions[1] == 0 || dimensions[2] == 0 {
        Some(ConfigurationError::VolumeDimensions)
    } else if samples.len() != dimensions[0] * dimensions[1] * dimensions[2] {
        Some(ConfigurationError::VolumeSize)
    } else {
        None
    }
}

/// What is wrong with the bytes of a transfer function, if anything.
pub open spec fn table_fault(bytes: Seq<u8>) -> Option<ConfigurationError> {
    if bytes.len() == 0 {
        Some(ConfigurationError::EmptyTransferFunction)
    } else if bytes.len() % 4 != 0 {
        Some(ConfigurationError::RaggedTransferFunction)
    } else {
        None
    }
}

/// What is wrong with a camera transform, if anything.
pub open spec fn camera_fault(words: Seq<u32>) -> Option<ConfigurationError> {
    if all_finite(words) {
        None
    } else {
        Some(ConfigurationError::SingularCamera)
    }
}

/// The bytes of the transfer function of a job: the given ones, or the
/// default ramp where none is given.
pub open spec fn table_bytes(given: Option<Vec<u8>>) -> Seq<u8> {
    match given {
        Some(bytes) => bytes@,
        None => default_ramp(),
    }
}

/// The first thing that is wrong with the inputs of a job, in the order
/// resolution, volume, transfer function, camera.
pub open spec fn first_fault(
    parameters: RenderParameters,
    dimensions: Seq<u32>,
    samples: Seq<u8>,
    table: Seq<u8>,
    camera: Seq<u32>,
) -> Option<ConfigurationError> {
    if resolution_fault(parameters.width, parameters.height).is_some() {
        resolution_fault(parameters.width, parameters.height)
    } else if volume_fault(dimensions, samples).is_some() {
        volume_fault(dimensions, samples)
    } else if table_fault(table).is_some() {
        table_fault(table)
    } else {
        camera_fault(camera)
    }
}

/// The checked inputs of one render, with the frame geometry derived from
/// them.
#[derive(Debug)]
pub struct RenderJob {
    parameters: RenderParameters,
    layout: FrameLayout,
    volume: VolumeDescriptor,
    table: TransferFunction,
    camera: CameraTransform,
}

impl RenderJob {
    /// The parameters of the job.
    pub closed spec fn spec_parameters(&self) -> RenderParameters {
        self.parameters
    }

    /// The frame geometry of the job.
    pub closed spec fn spec_layout(&self) -> FrameLayout {
        self.layout
    }

    /// The volume of the job.
    pub closed spec fn spec_volume(&self) -> VolumeView {
        self.volume@
    }

    /// The bytes of the job's transfer function.
    pub closed spec fn spec_table(&self) -> Seq<u8> {
        self.table@
    }

    /// The camera transform of the job.
    pub closed spec fn spec_camera(&self) -> Seq<u32> {
        self.camera@
    }

    /// The job's invariant: every input is valid, and the frame is the
    /// output resolution padded to the device's row alignment.
    pub open spec fn wf(&self) -> bool {
        &&& self.spec_layout().wf()
        &&& self.spec_layout().spec_width() == self.spec_parameters().width
        &&& self.spec_layout().spec_height() == self.spec_parameters().height
        &&& is_padding_of(
            self.spec_layout().spec_stride() as int,
            self.spec_parameters().width as int,
            256,
        )
        &&& self.spec_volume().wf()
        &&& self.spec_table().len() > 0
        &&& self.spec_table().len() % 4 == 0
        &&& self.spec_camera().len() == 16
        &&& all_finite(self.spec_camera())
    }

    /// Checks the inputs of a render and lays out its frame.
    ///
    /// Without a transfer function the default ramp is used.  The first
    /// fault, in the order resolution, volume, transfer function, camera,
    /// is returned as a configuration error.
    pub fn prepare(
        parameters: RenderParameters,
        dimensions: [u32; 3],
        samples: Vec<u8>,
        table: Option<Vec<u8>>,
        camera: [u32; 16],
    ) -> (job: Result<RenderJob, RenderError>)
        ensures
            job.is_ok() <==> first_fault(
                parameters,
                dimensions@,
                samples@,
                table_bytes(table),
                camera@,
            ).is_none(),
            match job {
                Ok(j) => {
                    &&& j.wf()
                    &&& j.spec_parameters() == parameters
                    &&& j.spec_volume() == (VolumeView {
                        width: dimensions@[0] as nat,
                        height: dimensions@[1] as nat,
                        depth: dimensions@[2] as nat,
                        samples: samples@,
                    })
                    &&& j.spec_table() == table_bytes(table)
                    &&& j.spec_camera() == camera@
                },
                Err(e) => Some(e) == match first_fault(
                    parameters,
                    dimensions@,
                    samples@,
                    table_bytes(table),
                    camera@,
                ) {
                    Some(fault) => Some(RenderError::Configuration(fault)),
                    None => None,
                },
            },
    {
        let layout = match FrameLayout::new(parameters.width, parameters.height) {
            Ok(layout) => layout,
            Err(fault) => {
                return Err(RenderError::Configuration(fault));
            },
        };
        let volume = match VolumeDescriptor::new(
            dimensions[0],
            dimensions[1],
            dimensions[2],
            samples,
        ) {
            Ok(volume) => volume,
            Err(fault) => {
                return Err(RenderError::Configuration(fault));
            },
        };
        let table = match table {
            Some(bytes) => match TransferFunction::new(bytes) {
                Ok(table) => table,
                Err(fault) => {
                    return Err(RenderError::Configuration(fault));
                },
            },
            None => TransferFunction::default(),
        };
        let camera = match CameraTransform::new(camera) {
            Ok(camera) => camera,
            Err(fault) => {
                return Err(RenderError::Configuration(fault));
            },
        };
        Ok(RenderJob { parameters, layout, volume, table, camera })
    }

    /// The parameters of the job.
    pub fn parameters(&self) -> (parameters: &RenderParameters)
        ensures
            *parameters == self.spec_parameters(),
    {
        &self.parameters
    }

    /// The frame geometry of the job.
    pub fn layout(&self) -> (layout: &FrameLayout)
        ensures
            *layout == self.spec_layout(),
    {
        &self.layout
    }

    /// The volume of the job.
    pub fn volume(&self) -> (volume: &VolumeDescriptor)
        ensures
            volume@ == self.spec_volume(),
    {
        &self.volume
    }

    /// The transfer function of the job.
    pub fn transfer_function(&self) -> (table: &TransferFunction)
        ensures
            table@ == self.spec_table(),
    {
        &self.table
    }

    /// The camera transform of the job.
    pub fn camera(&self) -> (camera: &CameraTransform)
        ensures
            camera@ == self.spec_camera(),
    {
        &self.camera
    }

    /// A scheduler for the job's passes.  Nothing has been handed out yet.
    pub fn scheduler(&self) -> (scheduler: Scheduler)
        requires
            self.wf(),
        ensures
            scheduler.wf(),
            scheduler@ == (SchedulerView {
                layout: self.spec_layout(),
                iterations: self.spec_parameters().iterations as nat,
                issued: 0,
                aborted: false,
            }),
    {
        Scheduler::new(self.layout, self.parameters.iterations)
    }
}

} // verus!
