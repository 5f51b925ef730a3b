use heatsolve::pipeline::{colormap_bindings, iteration_plan, BufferRole, Kernel, Stage};
use heatsolve::session::{ComputeRelevantEvent, CopyLayout, Dispatch, HeatSession, Pass, SessionError};

const STEP: [Stage; 6] = [
    Stage::BoundaryFix,
    Stage::Laplacian,
    Stage::MidpointStep,
    Stage::MidpointLaplacian,
    Stage::FullStep,
    Stage::Rotate,
];

#[test]
fn zero_iterations_plan_nothing() {
    assert!(iteration_plan(0).is_empty());
}

#[test]
fn plan_repeats_the_step_in_order() {
    let plan = iteration_plan(3);
    assert_eq!(plan.len(), 18);
    for (k, stage) in plan.iter().enumerate() {
        assert_eq!(*stage, STEP[k % 6]);
    }
}

#[test]
fn stages_bind_the_buffers_of_the_step() {
    assert_eq!(Stage::Laplacian.kernel(), Kernel::Laplacian);
    assert_eq!(Stage::MidpointLaplacian.kernel(), Kernel::Laplacian);
    assert_eq!(Stage::FullStep.kernel(), Kernel::Iterate);
    assert_eq!(Stage::Rotate.kernel(), Kernel::Move);
    assert_eq!(
        Stage::MidpointStep.bindings(),
        vec![
            BufferRole::Data,
            BufferRole::Laplacian,
            BufferRole::Midpoint,
            BufferRole::Width,
            BufferRole::Height,
            BufferRole::Kappa,
            BufferRole::HalfDeltaT,
        ]
    );
    assert_eq!(
        Stage::Rotate.bindings(),
        vec![BufferRole::Output, BufferRole::Data, BufferRole::Width, BufferRole::Height]
    );
    assert_eq!(colormap_bindings()[1], BufferRole::Colormap);
}

#[test]
fn session_accepts_a_matching_field() {
    let s = HeatSession::new(3, 4, 12).unwrap();
    assert_eq!((s.width(), s.height(), s.iterations()), (3, 4, 1));
    assert_eq!(s.progress(), None);
    assert_eq!(s.field_bytes(), 48);
    assert_eq!(s.colormap_bytes(), 1024);
}

#[test]
fn session_rejects_bad_grids() {
    assert_eq!(HeatSession::new(2, 5, 10).err(), Some(SessionError::GridTooSmall { width: 2, height: 5 }));
    assert_eq!(
        HeatSession::new(70000, 70000, 0).err(),
        Some(SessionError::GridTooLarge { width: 70000, height: 70000 })
    );
    assert_eq!(
        HeatSession::new(5, 5, 24).err(),
        Some(SessionError::SizeMismatch { expected: 25, actual: 24 })
    );
}

#[test]
fn zero_iterations_dispatch_nothing() {
    let mut s = HeatSession::new(5, 5, 25).unwrap();
    s.set_iterations(0);
    assert!(s.run_iterations().is_empty());
    assert_eq!(s.progress(), Some(ComputeRelevantEvent::ComputeIsWorking));
    assert!(!s.is_idle());
    s.work_done();
    assert_eq!(s.progress(), Some(ComputeRelevantEvent::ComputeDoneNowColor));
}

#[test]
fn a_batch_dispatches_each_step_in_order() {
    let mut s = HeatSession::new(100, 100, 10000).unwrap();
    s.set_iterations(2);
    let batch = s.run_iterations();
    assert_eq!(batch.len(), 12);
    for (k, d) in batch.iter().enumerate() {
        let groups = if k % 6 == 0 { 7 } else { 157 };
        assert_eq!(*d, Dispatch { pass: Pass::Step(STEP[k % 6]), workgroups: groups });
    }
    assert_eq!(s.progress(), Some(ComputeRelevantEvent::ComputeIsWorking));
    assert!(!s.is_idle());
    s.work_done();
    assert_eq!(s.progress(), Some(ComputeRelevantEvent::ComputeDoneNowColor));
    assert!(s.is_idle());
}

#[test]
fn colormap_and_copy_follow_the_padded_layout() {
    let mut s = HeatSession::new(65, 3, 195).unwrap();
    assert_eq!(s.field_bytes(), 780);
    assert_eq!(s.colormap_bytes(), 1536);
    assert_eq!(s.run_colormap(), Dispatch { pass: Pass::Colormap, workgroups: 4 });
    assert_eq!(s.progress(), Some(ComputeRelevantEvent::ColorIsWorking));
    s.work_done();
    assert_eq!(s.progress(), Some(ComputeRelevantEvent::ColorIsDone));
    assert_eq!(s.copy_colormap(), CopyLayout { bytes_per_row: 512, rows: 3 });
    assert_eq!(s.progress(), Some(ComputeRelevantEvent::ColorIsCopying));
    s.work_done();
    assert_eq!(s.progress(), Some(ComputeRelevantEvent::ColorCopyDone));
}

#[test]
fn events_settle_when_work_retires() {
    assert_eq!(ComputeRelevantEvent::ColorIsDone.on_work_done(), ComputeRelevantEvent::ColorIsDone);
    assert!(ComputeRelevantEvent::ColorIsCopying.is_working());
    assert!(!ComputeRelevantEvent::ComputeDoneNowColor.is_working());
}
