use thrustler::error::EngineError;
use thrustler::scheduler::Scheduler;

#[test]
fn scheduler_catch_up() {
    // 10 frames per second: one step represents 0.1 s = 100_000_000 ns.
    let mut scheduler = Scheduler::new(10).unwrap();
    assert_eq!(scheduler.frame_period_nanos(), 100_000_000);
    assert_eq!(scheduler.accumulator_nanos(), 0);
    // A single elapsed delta of 0.35 s triggers exactly 3 update/draw
    // steps and leaves 0.05 s banked.
    let steps = scheduler.advance(350_000_000);
    assert_eq!(steps, 3);
    assert_eq!(scheduler.accumulator_nanos(), 50_000_000);
}

#[test]
fn scheduler_starvation() {
    // A delta of 0.04 s at 10 fps triggers no step; all of it stays banked.
    let mut scheduler = Scheduler::new(10).unwrap();
    let steps = scheduler.advance(40_000_000);
    assert_eq!(steps, 0);
    assert_eq!(scheduler.accumulator_nanos(), 40_000_000);
}

#[test]
fn scheduler_banks_across_draw_ticks() {
    // Banked time accumulates until a full period has elapsed.
    let mut scheduler = Scheduler::new(10).unwrap();
    assert_eq!(scheduler.advance(40_000_000), 0);
    assert_eq!(scheduler.advance(40_000_000), 0);
    assert_eq!(scheduler.accumulator_nanos(), 80_000_000);
    assert_eq!(scheduler.advance(40_000_000), 1);
    assert_eq!(scheduler.accumulator_nanos(), 20_000_000);
}

#[test]
fn scheduler_exact_multiple_leaves_empty_accumulator() {
    let mut scheduler = Scheduler::new(10).unwrap();
    let steps = scheduler.advance(300_000_000);
    assert_eq!(steps, 3);
    assert_eq!(scheduler.accumulator_nanos(), 0);
}

#[test]
fn scheduler_rejects_zero_rate() {
    match Scheduler::new(0) {
        Err(e) => assert_eq!(e, EngineError::InitialisationError),
        Ok(_) => panic!("a zero frame rate must be rejected"),
    }
}

#[test]
fn scheduler_sixty_fps_period() {
    let scheduler = Scheduler::new(60).unwrap();
    assert_eq!(scheduler.frame_period_nanos(), 1_000_000_000 / 60);
}
