use std::cell::RefCell;
use std::rc::Rc;

use thrustler::Size;
use thrustler::ThrustlerBackend;
use thrustler::WindowEvent;
use thrustler::engine::BackendKind;
use thrustler::engine::Engine;
use thrustler::engine::EngineSettings;
use thrustler::engine::WindowKind;
use thrustler::error::ThrustlerError;
use thrustler::game_objects::GameObject;
use thrustler::game_objects::Scene;
use thrustler::game_objects::Vertex;
use thrustler::submitter::AcquireOutcome;
use thrustler::submitter::BufferExecutorResult;
use thrustler::submitter::FrameOutcome;
use thrustler::submitter::FrameSubmitter;
use thrustler::submitter::PresentOutcome;

/// A scene that records every lifecycle hook it receives.
struct LogScene {
    log: Rc<RefCell<Vec<&'static str>>>,
    objects: Vec<GameObject>,
}

impl Scene for LogScene {
    fn on_start(&mut self) {
        self.log.borrow_mut().push("start");
    }

    fn on_update(&mut self) {
        self.log.borrow_mut().push("update");
    }

    fn on_destroy(&mut self) {
        self.log.borrow_mut().push("destroy");
    }

    fn get_scene_objects(&self) -> &Vec<GameObject> {
        &self.objects
    }
}

/// A backend that returns a fixed frame result and counts its draw calls.
struct FixedResultBackend {
    result: BufferExecutorResult,
    draw_calls: usize,
}

impl ThrustlerBackend for FixedResultBackend {
    fn draw_scene(&mut self, _game_objects: &Vec<GameObject>) -> BufferExecutorResult {
        self.draw_calls += 1;
        self.result
    }
}

/// A backend that runs every frame through a real frame submitter with an
/// always-successful surface, counting uploads executed and presents.
struct CountingGpuBackend {
    submitter: FrameSubmitter,
    uploads_executed: usize,
    presents: usize,
}

impl ThrustlerBackend for CountingGpuBackend {
    fn draw_scene(&mut self, game_objects: &Vec<GameObject>) -> BufferExecutorResult {
        if !self.submitter.can_record(game_objects.len()) {
            return BufferExecutorResult::Fail;
        }
        match self.submitter.execute_buffer(AcquireOutcome::Acquired(0), game_objects) {
            FrameOutcome::Skipped(r) => r,
            FrameOutcome::Submitted(plan) => {
                self.uploads_executed += plan.uploads.len();
                self.presents += 1;
                self.submitter.finish_frame(PresentOutcome::Presented)
            },
        }
    }
}

fn triangle_object() -> GameObject {
    GameObject {
        id: 42,
        vertices: vec![
            Vertex::new([(-0.5f32).to_bits(), (-0.5f32).to_bits()]),
            Vertex::new([0.0f32.to_bits(), 0.5f32.to_bits()]),
            Vertex::new([0.5f32.to_bits(), (-0.5f32).to_bits()]),
        ],
    }
}

fn settings(frames_per_second: u32) -> EngineSettings {
    EngineSettings { frames_per_second, ..EngineSettings::default() }
}

#[test]
fn engine_settings_defaults() {
    let defaults = EngineSettings::default();
    assert_eq!(defaults.window_size, Size::new(800, 600));
    assert_eq!(defaults.frames_per_second, 60);
    assert_eq!(defaults.window, WindowKind::Winit);
    assert_eq!(defaults.backend, BackendKind::Vulkan);
}

#[test]
fn engine_rejects_zero_frame_rate() {
    match Engine::<LogScene>::new_with_settings(settings(0)) {
        Err(e) => assert_eq!(e, ThrustlerError::EngineError),
        Ok(_) => panic!("a zero frame rate is a configuration error"),
    }
}

#[test]
fn lifecycle_order_one_start_then_updates_then_one_destroy() {
    let log = Rc::new(RefCell::new(Vec::new()));
    let scene = LogScene { log: log.clone(), objects: vec![triangle_object()] };
    let mut engine = Engine::new_with_settings(settings(10)).unwrap().add_scene(scene);
    let mut backend = FixedResultBackend { result: BufferExecutorResult::Done, draw_calls: 0 };

    engine.handle_event(WindowEvent::OnStart, 0, &mut backend).unwrap();
    // Two draw ticks: 0.25 s then 0.1 s at a 0.1 s period -> 2 + 1 steps.
    engine.handle_event(WindowEvent::OnDraw, 250_000_000, &mut backend).unwrap();
    engine.handle_event(WindowEvent::OnDraw, 100_000_000, &mut backend).unwrap();
    engine.handle_event(WindowEvent::OnStop, 0, &mut backend).unwrap();

    let calls = log.borrow().clone();
    assert_eq!(calls, vec!["start", "update", "update", "update", "destroy"]);
    assert_eq!(backend.draw_calls, 3);
}

#[test]
fn scheduler_starvation_triggers_no_draw() {
    let log = Rc::new(RefCell::new(Vec::new()));
    let scene = LogScene { log: log.clone(), objects: vec![] };
    let mut engine = Engine::new_with_settings(settings(10)).unwrap().add_scene(scene);
    let mut backend = FixedResultBackend { result: BufferExecutorResult::Done, draw_calls: 0 };

    engine.handle_event(WindowEvent::OnStart, 0, &mut backend).unwrap();
    let r = engine.handle_event(WindowEvent::OnDraw, 40_000_000, &mut backend);
    assert!(r.is_ok());
    assert_eq!(backend.draw_calls, 0);
    assert_eq!(log.borrow().clone(), vec!["start"]);
}

#[test]
fn transient_recreate_does_not_stop_the_loop() {
    let log = Rc::new(RefCell::new(Vec::new()));
    let scene = LogScene { log, objects: vec![triangle_object()] };
    let mut engine = Engine::new_with_settings(settings(10)).unwrap().add_scene(scene);
    let mut backend = FixedResultBackend { result: BufferExecutorResult::Recreate, draw_calls: 0 };

    engine.handle_event(WindowEvent::OnStart, 0, &mut backend).unwrap();
    let first = engine.handle_event(WindowEvent::OnDraw, 100_000_000, &mut backend);
    assert!(first.is_ok());
    assert_eq!(backend.draw_calls, 1);
    // The next draw event attempts acquisition again.
    let second = engine.handle_event(WindowEvent::OnDraw, 100_000_000, &mut backend);
    assert!(second.is_ok());
    assert_eq!(backend.draw_calls, 2);
}

#[test]
fn draw_with_no_scenes_succeeds() {
    // With an empty scene list a draw event does no work and cannot fail,
    // whatever the backend would have answered.
    let mut engine = Engine::<LogScene>::new_with_settings(settings(10)).unwrap();
    let mut backend = FixedResultBackend { result: BufferExecutorResult::Fail, draw_calls: 0 };
    engine.handle_event(WindowEvent::OnStart, 0, &mut backend).unwrap();
    let r = engine.handle_event(WindowEvent::OnDraw, 250_000_000, &mut backend);
    assert!(r.is_ok());
    assert_eq!(backend.draw_calls, 0);
}

#[test]
fn fatal_draw_result_stops_the_run() {
    let log = Rc::new(RefCell::new(Vec::new()));
    let scene = LogScene { log, objects: vec![triangle_object()] };
    let mut engine = Engine::new_with_settings(settings(10)).unwrap().add_scene(scene);
    let mut backend = FixedResultBackend { result: BufferExecutorResult::Fail, draw_calls: 0 };

    engine.handle_event(WindowEvent::OnStart, 0, &mut backend).unwrap();
    let r = engine.handle_event(WindowEvent::OnDraw, 100_000_000, &mut backend);
    assert_eq!(r, Err(ThrustlerError::GraphicalBackendError));
    assert_eq!(backend.draw_calls, 1);
}

#[test]
fn three_frames_one_triangle_one_upload_three_presents() {
    // End to end: one triangle object, stable identity, present for three
    // frames: exactly one GPU upload across the three draws, and three
    // presents.
    let log = Rc::new(RefCell::new(Vec::new()));
    let scene = LogScene { log, objects: vec![triangle_object()] };
    let mut engine = Engine::new_with_settings(settings(10)).unwrap().add_scene(scene);
    let mut backend = CountingGpuBackend {
        submitter: FrameSubmitter::new(),
        uploads_executed: 0,
        presents: 0,
    };

    engine.handle_event(WindowEvent::OnStart, 0, &mut backend).unwrap();
    for _ in 0..3 {
        engine.handle_event(WindowEvent::OnDraw, 100_000_000, &mut backend).unwrap();
    }
    engine.handle_event(WindowEvent::OnStop, 0, &mut backend).unwrap();

    assert_eq!(backend.uploads_executed, 1);
    assert_eq!(backend.submitter.uploads_performed(), 1);
    assert_eq!(backend.presents, 3);
    assert_eq!(backend.submitter.cached_objects(), 1);
}

#[test]
fn scenes_update_in_list_order_each_step() {
    let log = Rc::new(RefCell::new(Vec::new()));
    struct NamedScene {
        log: Rc<RefCell<Vec<&'static str>>>,
        name_start: &'static str,
        name_update: &'static str,
        name_destroy: &'static str,
        objects: Vec<GameObject>,
    }
    impl Scene for NamedScene {
        fn on_start(&mut self) {
            self.log.borrow_mut().push(self.name_start);
        }
        fn on_update(&mut self) {
            self.log.borrow_mut().push(self.name_update);
        }
        fn on_destroy(&mut self) {
            self.log.borrow_mut().push(self.name_destroy);
        }
        fn get_scene_objects(&self) -> &Vec<GameObject> {
            &self.objects
        }
    }
    let first = NamedScene {
        log: log.clone(),
        name_start: "a-start",
        name_update: "a-update",
        name_destroy: "a-destroy",
        objects: vec![],
    };
    let second = NamedScene {
        log: log.clone(),
        name_start: "b-start",
        name_update: "b-update",
        name_destroy: "b-destroy",
        objects: vec![],
    };
    let mut engine = Engine::new_with_settings(settings(10))
        .unwrap()
        .add_scene(first)
        .add_scene(second);
    let mut backend = FixedResultBackend { result: BufferExecutorResult::Done, draw_calls: 0 };

    engine.handle_event(WindowEvent::OnStart, 0, &mut backend).unwrap();
    engine.handle_event(WindowEvent::OnDraw, 100_000_000, &mut backend).unwrap();
    engine.handle_event(WindowEvent::OnStop, 0, &mut backend).unwrap();

    let calls = log.borrow().clone();
    assert_eq!(
        calls,
        vec!["a-start", "b-start", "a-update", "b-update", "a-destroy", "b-destroy"]
    );
    assert_eq!(backend.draw_calls, 2);
}
