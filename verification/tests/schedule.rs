use mcm_render::error::{RenderError, Stage};
use mcm_render::layout::FrameLayout;
use mcm_render::schedule::{Action, Scheduler, GENERATIONS};

fn small_layout() -> FrameLayout {
    FrameLayout::with_alignment(4, 4, 4).unwrap()
}

fn drain(scheduler: &mut Scheduler) -> Vec<Action> {
    let mut actions = Vec::new();
    while let Some(action) = scheduler.next_action() {
        actions.push(action);
    }
    actions
}

#[test]
fn there_are_two_generations() {
    assert_eq!(GENERATIONS, 2);
}

#[test]
fn run_of_three_passes_alternates_generations() {
    let mut scheduler = Scheduler::new(small_layout(), 3);
    assert_eq!(
        drain(&mut scheduler),
        vec![
            Action::Allocate { row_texels: 4, rows: 4 },
            Action::Reset { target: 0 },
            Action::Step { index: 0, source: 0, target: 1 },
            Action::Step { index: 1, source: 1, target: 0 },
            Action::Step { index: 2, source: 0, target: 1 },
            Action::Readback { source: 1, bytes: 256 },
        ]
    );
    assert!(scheduler.is_complete());
    assert_eq!(scheduler.next_action(), None);
}

#[test]
fn run_without_passes_reads_back_generation_zero() {
    let mut scheduler = Scheduler::new(small_layout(), 0);
    assert_eq!(
        drain(&mut scheduler),
        vec![
            Action::Allocate { row_texels: 4, rows: 4 },
            Action::Reset { target: 0 },
            Action::Readback { source: 0, bytes: 256 },
        ]
    );
    assert_eq!(scheduler.steps_issued(), 0);
    assert_eq!(scheduler.newest_generation(), Some(0));
}

#[test]
fn newest_generation_is_the_number_of_passes_modulo_two() {
    for iterations in 0..12u32 {
        let mut scheduler = Scheduler::new(small_layout(), iterations);
        assert_eq!(scheduler.newest_generation(), None);
        assert_eq!(scheduler.next_action(), Some(Action::Allocate { row_texels: 4, rows: 4 }));
        assert_eq!(scheduler.newest_generation(), None);
        assert_eq!(scheduler.next_action(), Some(Action::Reset { target: 0 }));
        assert_eq!(scheduler.newest_generation(), Some(0));
        for done in 1..=iterations {
            let action = scheduler.next_action().unwrap();
            assert_eq!(
                action,
                Action::Step {
                    index: done - 1,
                    source: ((done - 1) % 2) as usize,
                    target: (done % 2) as usize,
                }
            );
            assert_eq!(scheduler.steps_issued(), done);
            assert_eq!(scheduler.newest_generation(), Some((done % 2) as usize));
        }
        assert_eq!(
            scheduler.next_action(),
            Some(Action::Readback { source: (iterations % 2) as usize, bytes: 256 })
        );
        assert_eq!(scheduler.steps_issued(), iterations);
        assert_eq!(scheduler.newest_generation(), Some((iterations % 2) as usize));
        assert!(scheduler.is_complete());
    }
}

#[test]
fn every_pass_reads_what_the_pass_before_wrote() {
    let mut scheduler = Scheduler::new(small_layout(), 9);
    let mut written: Option<usize> = None;
    while let Some(action) = scheduler.next_action() {
        match action {
            Action::Allocate { .. } => assert_eq!(written, None),
            Action::Reset { target } => {
                assert_eq!(written, None);
                written = Some(target);
            }
            Action::Step { source, target, .. } => {
                assert_eq!(written, Some(source));
                assert_ne!(source, target);
                assert!(target < GENERATIONS);
                written = Some(target);
            }
            Action::Readback { source, .. } => assert_eq!(written, Some(source)),
        }
    }
}

#[test]
fn failure_names_the_stage_of_the_last_action() {
    let mut scheduler = Scheduler::new(small_layout(), 2);
    assert_eq!(scheduler.fail(), RenderError::Resource(Stage::Init));

    let mut scheduler = Scheduler::new(small_layout(), 2);
    scheduler.next_action();
    assert_eq!(scheduler.fail(), RenderError::Resource(Stage::Init));

    let mut scheduler = Scheduler::new(small_layout(), 2);
    scheduler.next_action();
    scheduler.next_action();
    assert_eq!(scheduler.fail(), RenderError::Resource(Stage::Reset));

    let mut scheduler = Scheduler::new(small_layout(), 2);
    for _ in 0..3 {
        scheduler.next_action();
    }
    assert_eq!(scheduler.fail(), RenderError::Resource(Stage::Step));

    let mut scheduler = Scheduler::new(small_layout(), 2);
    for _ in 0..4 {
        scheduler.next_action();
    }
    assert_eq!(scheduler.fail(), RenderError::Resource(Stage::Step));

    let mut scheduler = Scheduler::new(small_layout(), 2);
    for _ in 0..5 {
        scheduler.next_action();
    }
    assert_eq!(scheduler.fail(), RenderError::Resource(Stage::Finalize));
}

#[test]
fn nothing_is_handed_out_after_a_failure() {
    let mut scheduler = Scheduler::new(small_layout(), 4);
    scheduler.next_action();
    scheduler.next_action();
    scheduler.next_action();
    let error = scheduler.fail();
    assert_eq!(error.stage(), Stage::Step);
    assert_eq!(scheduler.next_action(), None);
    assert_eq!(scheduler.next_action(), None);
    assert!(!scheduler.is_complete());
    assert_eq!(scheduler.steps_issued(), 1);
    assert_eq!(scheduler.fail(), RenderError::Resource(Stage::Step));
}

#[test]
fn largest_iteration_count_is_scheduled_without_overflow() {
    let mut scheduler = Scheduler::new(small_layout(), u32::MAX);
    scheduler.next_action();
    scheduler.next_action();
    assert_eq!(
        scheduler.next_action(),
        Some(Action::Step { index: 0, source: 0, target: 1 })
    );
    assert!(!scheduler.is_complete());
}
