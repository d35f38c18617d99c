use autoclicker::actions::{Action, DelayAction, KeyButton, LoopAction, MoveAction, PressAction};
use autoclicker::codec::DecodeError;
use autoclicker::controller::ExecutionController;
use autoclicker::engine::delay_duration;
use autoclicker::errors::AppError;
use autoclicker::interp::interp_step;

#[test]
fn keybutton_equality_is_structural() {
    assert_eq!(KeyButton::KeyboardKey(65), KeyButton::KeyboardKey(65));
    assert_ne!(KeyButton::KeyboardKey(65), KeyButton::KeyboardKey(66));
    assert_ne!(KeyButton::KeyboardKey(1), KeyButton::MouseButton(1));
}

#[test]
fn action_from_wraps_each_variant() {
    let p = PressAction { keybutton: KeyButton::KeyboardKey(65), down: true, up: true, hold_time_ms: 1, delay_after_ms: 2 };
    let m = MoveAction { x: 1, y: 2, relative: false, move_time_ms: 3, delay_after_ms: 4 };
    let d = DelayAction { random: false, delay_ms_min: 5, delay_ms_max: 6 };
    let l = LoopAction { infinite: false, iterations: 7, actions: vec![] };
    assert!(matches!(Action::from(p), Action::Press(_)));
    assert!(matches!(Action::from(m), Action::Move(_)));
    assert!(matches!(Action::from(d), Action::Delay(_)));
    assert!(matches!(Action::from(l), Action::Loop(_)));
}

#[test]
fn clone_is_a_deep_structural_copy() {
    let inner = LoopAction {
        infinite: true,
        iterations: 9,
        actions: vec![Action::Delay(DelayAction { random: true, delay_ms_min: 1, delay_ms_max: 4 })],
    };
    let tree = LoopAction { infinite: false, iterations: 2, actions: vec![Action::Loop(inner)] };
    let copy = tree.clone();
    assert!(copy.structurally_equal(&tree));
    // the copy is independent storage: growing it leaves the original alone
    let mut copy2 = copy.clone();
    copy2.actions.push(Action::Delay(DelayAction { random: false, delay_ms_min: 0, delay_ms_max: 0 }));
    assert!(!copy2.structurally_equal(&tree));
    assert!(copy.structurally_equal(&tree));
}

#[test]
fn structural_equality_sees_every_field() {
    let base = LoopAction { infinite: false, iterations: 2, actions: vec![] };
    let mut other = base.clone();
    other.iterations = 3;
    assert!(!other.structurally_equal(&base));
    let mut other = base.clone();
    other.infinite = true;
    assert!(!other.structurally_equal(&base));
}

#[test]
fn fixed_delay_sleeps_exactly_the_minimum() {
    // not random: exactly the minimum
    let d = DelayAction { random: false, delay_ms_min: 25, delay_ms_max: 90 };
    for _ in 0..100 {
        assert_eq!(delay_duration(&d), 25);
    }
    // random but with min >= max: still exactly the minimum
    let d = DelayAction { random: true, delay_ms_min: 25, delay_ms_max: 25 };
    for _ in 0..100 {
        assert_eq!(delay_duration(&d), 25);
    }
    let d = DelayAction { random: true, delay_ms_min: 25, delay_ms_max: 7 };
    for _ in 0..100 {
        assert_eq!(delay_duration(&d), 25);
    }
}

#[test]
fn random_delay_stays_in_range_and_never_hits_the_maximum() {
    let d = DelayAction { random: true, delay_ms_min: 10, delay_ms_max: 13 };
    let mut seen = [false; 3];
    for _ in 0..3000 {
        let dur = delay_duration(&d);
        assert!((10..13).contains(&dur), "duration {dur} out of [10, 13)");
        seen[(dur - 10) as usize] = true;
    }
    // every value of the small range shows up over repeated draws
    assert!(seen.iter().all(|&b| b));
}

#[test]
fn interpolation_uses_exact_floor_arithmetic() {
    // floor(-7 * 1 / 3) = -3, not the truncation -2
    assert_eq!(interp_step(-7, 1, 3), -3);
    assert_eq!(interp_step(7, 1, 3), 2);
    assert_eq!(interp_step(10, 0, 300), 0);
    assert_eq!(interp_step(10, 300, 300), 10);
    assert_eq!(interp_step(i32::MIN, u64::MAX, u64::MAX), i32::MIN);
    assert_eq!(interp_step(i32::MAX, u64::MAX - 1, u64::MAX), i32::MAX - 1);
}

#[test]
fn controller_keeps_at_most_one_run() {
    let mut c = ExecutionController::new();
    assert!(!c.is_running());
    let first = c.start();
    assert!(c.is_running());
    // a second start rotates the flag: the first run's epoch is stale
    let second = c.start();
    assert!(c.is_running());
    assert_ne!(first, second);
    // the stale worker exiting does not disturb the current run
    c.worker_finished(first);
    assert!(c.is_running());
    c.worker_finished(second);
    assert!(!c.is_running());
}

#[test]
fn stop_is_idempotent_and_clears_running() {
    let mut c = ExecutionController::new();
    let run = c.start();
    let cancelled = c.stop();
    assert_eq!(cancelled, run);
    assert!(!c.is_running());
    c.stop();
    assert!(!c.is_running());
    // the worker's own flip-to-false afterward is redundant but harmless
    c.worker_finished(run);
    assert!(!c.is_running());
}

#[test]
fn decode_errors_map_to_corrupt_never_io() {
    assert_eq!(AppError::from_decode(DecodeError::Malformed), AppError::Corrupt);
    assert_eq!(AppError::from_decode(DecodeError::UnsupportedVersion), AppError::Corrupt);
    assert_ne!(AppError::Corrupt, AppError::Io);
    assert_ne!(AppError::Input, AppError::Io);
}
