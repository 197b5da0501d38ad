use thrustler::Size;
use thrustler::WindowEvent;
use thrustler::error::ThrustlerWindowError;
use thrustler::window::WindowCore;

#[test]
fn window_runs_once() {
    let mut window = WindowCore::new(Size::new(800, 600));
    assert!(window.begin_run().is_ok());
    // The platform event loop is one-shot: a second run fails.
    assert_eq!(window.begin_run(), Err(ThrustlerWindowError::WindowLoopError));
}

#[test]
fn window_blocks_start_until_surface_exists() {
    let mut window = WindowCore::new(Size::new(800, 600));
    window.begin_run().unwrap();
    // No surface yet: the start event may not be emitted.
    assert!(!window.emit(WindowEvent::OnStart));
    window.note_surface_created();
    assert!(window.emit(WindowEvent::OnStart));
}

#[test]
fn window_emits_no_event_before_run() {
    let mut window = WindowCore::new(Size::new(800, 600));
    assert!(!window.emit(WindowEvent::OnStart));
    assert!(!window.emit(WindowEvent::OnDraw));
    assert!(!window.emit(WindowEvent::OnStop));
}

#[test]
fn window_event_order_start_draws_stop() {
    let mut window = WindowCore::new(Size::new(320, 200));
    window.begin_run().unwrap();
    window.note_surface_created();
    // Draw events must not precede the start event.
    assert!(!window.emit(WindowEvent::OnDraw));
    assert!(window.emit(WindowEvent::OnStart));
    // The start event is emitted exactly once.
    assert!(!window.emit(WindowEvent::OnStart));
    assert!(window.emit(WindowEvent::OnDraw));
    assert!(window.emit(WindowEvent::OnDraw));
    assert!(window.emit(WindowEvent::OnStop));
    // Nothing is emitted after the stop event.
    assert!(!window.emit(WindowEvent::OnDraw));
    assert!(!window.emit(WindowEvent::OnStop));
    assert!(!window.emit(WindowEvent::OnStart));
}

#[test]
fn window_error_messages() {
    assert_eq!(ThrustlerWindowError::UnableToCreateWindow.message(), "Unable to create window");
    assert_eq!(ThrustlerWindowError::WindowLoopError.message(), "Window loop error");
}

#[test]
fn size_defaults_and_accessors() {
    let size = Size::default();
    assert_eq!(size.width, 800);
    assert_eq!(size.height, 600);
    let custom = Size::new(1024, 768);
    assert_eq!(custom.width, 1024);
    assert_eq!(custom.height, 768);
}
