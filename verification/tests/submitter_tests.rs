use thrustler::error::ThrustlerBackendError;
use thrustler::error::ThrustlerError;
use thrustler::Size;
use thrustler::backend::Backend;
use thrustler::game_objects::GameObject;
use thrustler::game_objects::Vertex;
use thrustler::submitter::AcquireOutcome;
use thrustler::submitter::BufferExecutorResult;
use thrustler::submitter::FrameOutcome;
use thrustler::submitter::FrameSubmitter;
use thrustler::submitter::PresentOutcome;

fn square(id: u128) -> GameObject {
    GameObject {
        id,
        vertices: vec![
            Vertex::new([0.0f32.to_bits(), 0.0f32.to_bits()]),
            Vertex::new([1.0f32.to_bits(), 0.0f32.to_bits()]),
            Vertex::new([1.0f32.to_bits(), 1.0f32.to_bits()]),
            Vertex::new([0.0f32.to_bits(), 1.0f32.to_bits()]),
        ],
    }
}

#[test]
fn fatal_acquire_fails_the_frame() {
    let mut submitter = FrameSubmitter::new();
    let objects = vec![square(1)];
    match submitter.execute_buffer(AcquireOutcome::Fatal, &objects) {
        FrameOutcome::Skipped(r) => assert_eq!(r, BufferExecutorResult::Fail),
        FrameOutcome::Submitted(_) => panic!("a lost surface must not submit"),
    }
    // Nothing was recorded: the cache is untouched.
    assert_eq!(submitter.uploads_performed(), 0);
    assert_eq!(submitter.cached_objects(), 0);
}

#[test]
fn suboptimal_acquire_skips_with_recreate() {
    let mut submitter = FrameSubmitter::new();
    let objects = vec![square(1)];
    match submitter.execute_buffer(AcquireOutcome::Suboptimal, &objects) {
        FrameOutcome::Skipped(r) => assert_eq!(r, BufferExecutorResult::Recreate),
        FrameOutcome::Submitted(_) => panic!("a suboptimal frame must be skipped"),
    }
    assert_eq!(submitter.uploads_performed(), 0);
}

#[test]
fn acquired_frame_records_uploads_and_draws() {
    let mut submitter = FrameSubmitter::new();
    let objects = vec![square(1), square(2)];
    assert!(submitter.can_record(objects.len()));
    match submitter.execute_buffer(AcquireOutcome::Acquired(3), &objects) {
        FrameOutcome::Submitted(plan) => {
            assert_eq!(plan.target_index, 3);
            assert_eq!(plan.draws.len(), 2);
            assert_eq!(plan.uploads.len(), 2);
            assert!(plan.frees.is_empty());
            assert_eq!(plan.draws[0].vertex_count, 4);
            assert_eq!(plan.draws[0].buffer, plan.uploads[0].buffer);
            assert_eq!(plan.uploads[0].vertices.len(), 4);
        },
        FrameOutcome::Skipped(_) => panic!("an acquired frame must submit"),
    }
    assert_eq!(submitter.uploads_performed(), 2);
    assert_eq!(submitter.cached_objects(), 2);
}

#[test]
fn second_frame_reuses_buffers_and_frees_absent_ones() {
    let mut submitter = FrameSubmitter::new();
    let a = square(1);
    let b = square(2);
    let first_buffer_of_a = match submitter.execute_buffer(
        AcquireOutcome::Acquired(0),
        &vec![square(1), square(2)],
    ) {
        FrameOutcome::Submitted(plan) => plan.draws[0].buffer,
        FrameOutcome::Skipped(_) => panic!("frame 1 must submit"),
    };
    let _ = (a, b);
    // Frame 2 draws only object 2: no new upload, object 1's buffer freed.
    match submitter.execute_buffer(AcquireOutcome::Acquired(1), &vec![square(2)]) {
        FrameOutcome::Submitted(plan) => {
            assert!(plan.uploads.is_empty());
            assert_eq!(plan.draws.len(), 1);
            assert_eq!(plan.frees, vec![first_buffer_of_a]);
        },
        FrameOutcome::Skipped(_) => panic!("frame 2 must submit"),
    }
    assert_eq!(submitter.uploads_performed(), 2);
    assert_eq!(submitter.cached_objects(), 1);
}

#[test]
fn present_outcomes_classify_exactly() {
    let submitter = FrameSubmitter::new();
    assert_eq!(submitter.finish_frame(PresentOutcome::Presented), BufferExecutorResult::Done);
    assert_eq!(submitter.finish_frame(PresentOutcome::OutOfDate), BufferExecutorResult::Recreate);
    assert_eq!(submitter.finish_frame(PresentOutcome::Fatal), BufferExecutorResult::Fail);
}

#[test]
fn backend_lifecycle_ready_only_after_setup() {
    let mut backend = Backend::new(Size::new(640, 480));
    assert!(!backend.ready());
    // Failed collaborator setup: the backend stays uninitialized.
    let r = backend.init(Err(ThrustlerBackendError::CreationError));
    assert_eq!(r, Err(ThrustlerError::GraphicalBackendError));
    assert!(!backend.ready());
    // Successful setup: ready with an empty cache.
    assert_eq!(backend.init(Ok(())), Ok(()));
    assert!(backend.ready());
    assert_eq!(backend.uploads_performed(), 0);
    assert_eq!(backend.cached_objects(), 0);
}

#[test]
fn backend_frames_run_through_the_submitter() {
    let mut backend = Backend::new(Size::new(640, 480));
    backend.init(Ok(())).unwrap();
    let objects = vec![square(9)];
    assert!(backend.can_record(objects.len()));
    match backend.execute_frame(AcquireOutcome::Acquired(0), &objects) {
        FrameOutcome::Submitted(plan) => {
            assert_eq!(plan.uploads.len(), 1);
            assert_eq!(plan.draws.len(), 1);
        },
        FrameOutcome::Skipped(_) => panic!("an acquired frame must submit"),
    }
    assert_eq!(backend.finish_frame(PresentOutcome::Presented), BufferExecutorResult::Done);
    assert_eq!(backend.uploads_performed(), 1);
}

#[test]
fn error_messages_name_their_subsystem() {
    assert_eq!(ThrustlerError::WindowError.message(), "Unable error");
    assert_eq!(ThrustlerError::GraphicalBackendError.message(), "Graphical backend error");
    assert_eq!(ThrustlerError::EngineError.message(), "Engine error");
    assert_eq!(ThrustlerBackendError::BackendUnavailable.message(), "Unavailable");
    assert_eq!(ThrustlerBackendError::GraphicalApiError.message(), "Api error");
    assert_eq!(ThrustlerBackendError::AcquisitionError.message(), "Api entity acquisition error");
    assert_eq!(ThrustlerBackendError::CreationError.message(), "Api entity creation error");
    assert_eq!(ThrustlerBackendError::AllocationError.message(), "Allocation error");
    assert_eq!(ThrustlerBackendError::ShaderError.message(), "Shader error");
}
