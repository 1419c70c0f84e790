use mcm_render::error::{ConfigurationError, RenderError, Stage};
use mcm_render::job::{RenderJob, RenderParameters};
use mcm_render::schedule::Action;

fn parameters() -> RenderParameters {
    RenderParameters {
        width: 300,
        height: 200,
        extinction: 100.0f32.to_bits(),
        anisotropy: 0.0f32.to_bits(),
        max_bounces: 8,
        steps: 100,
        iterations: 2,
        linear: false,
    }
}

fn identity() -> [u32; 16] {
    let one = 1.0f32.to_bits();
    [one, 0, 0, 0, 0, one, 0, 0, 0, 0, one, 0, 0, 0, 0, one]
}

fn singular() -> [u32; 16] {
    let mut words = identity();
    words[5] = f32::INFINITY.to_bits();
    words
}

fn fault(job: Result<RenderJob, RenderError>) -> RenderError {
    match job {
        Ok(_) => panic!("the job was accepted"),
        Err(error) => error,
    }
}

#[test]
fn valid_inputs_make_a_job() {
    let job = RenderJob::prepare(
        parameters(),
        [4, 4, 4],
        vec![0u8; 64],
        Some(vec![0, 0, 0, 0, 255, 255, 255, 255]),
        identity(),
    )
    .unwrap();
    assert_eq!(*job.parameters(), parameters());
    assert_eq!(job.layout().width(), 300);
    assert_eq!(job.layout().height(), 200);
    assert_eq!(job.layout().stride(), 512);
    assert_eq!(job.volume().width(), 4);
    assert_eq!(job.volume().samples().len(), 64);
    assert_eq!(job.transfer_function().len(), 2);
    assert_eq!(job.camera().words(), &identity());
}

#[test]
fn job_without_transfer_function_uses_the_default_ramp() {
    let job = RenderJob::prepare(parameters(), [4, 4, 4], vec![0u8; 64], None, identity()).unwrap();
    assert_eq!(job.transfer_function().bytes(), &vec![0, 0, 0, 0, 255, 0, 0, 255]);
}

#[test]
fn job_schedules_its_iterations_on_its_layout() {
    let job = RenderJob::prepare(parameters(), [4, 4, 4], vec![0u8; 64], None, identity()).unwrap();
    let mut scheduler = job.scheduler();
    assert_eq!(scheduler.next_action(), Some(Action::Allocate { row_texels: 512, rows: 200 }));
    assert_eq!(scheduler.next_action(), Some(Action::Reset { target: 0 }));
    assert_eq!(scheduler.next_action(), Some(Action::Step { index: 0, source: 0, target: 1 }));
    assert_eq!(scheduler.next_action(), Some(Action::Step { index: 1, source: 1, target: 0 }));
    assert_eq!(
        scheduler.next_action(),
        Some(Action::Readback { source: 0, bytes: 16 * 512 * 200 })
    );
    assert_eq!(scheduler.next_action(), None);
}

#[test]
fn each_fault_is_reported_as_a_configuration_error() {
    let mut empty = parameters();
    empty.width = 0;
    assert_eq!(
        fault(RenderJob::prepare(empty, [4, 4, 4], vec![0u8; 64], None, identity())),
        RenderError::Configuration(ConfigurationError::EmptyResolution)
    );
    let mut huge = parameters();
    huge.width = 70_000;
    huge.height = 70_000;
    assert_eq!(
        fault(RenderJob::prepare(huge, [4, 4, 4], vec![0u8; 64], None, identity())),
        RenderError::Configuration(ConfigurationError::FrameTooLarge)
    );
    assert_eq!(
        fault(RenderJob::prepare(parameters(), [4, 0, 4], vec![0u8; 64], None, identity())),
        RenderError::Configuration(ConfigurationError::VolumeDimensions)
    );
    assert_eq!(
        fault(RenderJob::prepare(parameters(), [4, 4, 4], vec![0u8; 63], None, identity())),
        RenderError::Configuration(ConfigurationError::VolumeSize)
    );
    assert_eq!(
        fault(RenderJob::prepare(parameters(), [4, 4, 4], vec![0u8; 64], Some(Vec::new()), identity())),
        RenderError::Configuration(ConfigurationError::EmptyTransferFunction)
    );
    assert_eq!(
        fault(RenderJob::prepare(parameters(), [4, 4, 4], vec![0u8; 64], Some(vec![1, 2]), identity())),
        RenderError::Configuration(ConfigurationError::RaggedTransferFunction)
    );
    assert_eq!(
        fault(RenderJob::prepare(parameters(), [4, 4, 4], vec![0u8; 64], None, singular())),
        RenderError::Configuration(ConfigurationError::SingularCamera)
    );
}

#[test]
fn the_first_fault_in_order_is_the_one_reported() {
    let mut empty = parameters();
    empty.height = 0;
    assert_eq!(
        fault(RenderJob::prepare(empty, [0, 0, 0], Vec::new(), Some(Vec::new()), singular())),
        RenderError::Configuration(ConfigurationError::EmptyResolution)
    );
    assert_eq!(
        fault(RenderJob::prepare(parameters(), [4, 4, 4], vec![0u8; 1], Some(Vec::new()), singular())),
        RenderError::Configuration(ConfigurationError::VolumeSize)
    );
    assert_eq!(
        fault(RenderJob::prepare(parameters(), [4, 4, 4], vec![0u8; 64], Some(vec![9]), singular())),
        RenderError::Configuration(ConfigurationError::RaggedTransferFunction)
    );
}

#[test]
fn configuration_errors_belong_to_the_configure_stage() {
    let error = fault(RenderJob::prepare(parameters(), [4, 4, 4], vec![0u8; 64], None, singular()));
    assert_eq!(error.stage(), Stage::Configure);
    assert_eq!(RenderError::Resource(Stage::Reset).stage(), Stage::Reset);
}
