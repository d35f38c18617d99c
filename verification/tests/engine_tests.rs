use autoclicker::actions::{Action, DelayAction, KeyButton, LoopAction, MoveAction, PressAction};
use autoclicker::controller::ExecutionController;
use autoclicker::engine::{Command, Engine, Event, RunOutcome};

/// How the fake input port answers the engine's commands.
struct Script {
    /// The n-th `PressDown` (1-based) reports a failure.
    fail_press_down_at: Option<usize>,
    /// The flag reads true from the n-th `PollCancel` (1-based) onward.
    cancel_from_poll: Option<usize>,
    /// Answer to `QueryPosition`.
    position: (i32, i32),
    /// Abort the drive after this many steps (for runs that never end).
    max_steps: usize,
}

impl Script {
    fn plain() -> Script {
        Script { fail_press_down_at: None, cancel_from_poll: None, position: (0, 0), max_steps: 100_000 }
    }
}

#[derive(Default)]
struct Trace {
    downs: Vec<KeyButton>,
    ups: Vec<KeyButton>,
    moves_to: Vec<(i32, i32)>,
    moves_by: Vec<(i32, i32)>,
    sleeps: Vec<u64>,
    polls: usize,
    queries: usize,
    outcome: Option<RunOutcome>,
    steps: usize,
}

/// Runs the engine against a scripted port, recording every effect.
fn drive(root: LoopAction, script: Script) -> Trace {
    let mut engine = Engine::new(root);
    let mut trace = Trace::default();
    let mut ev = Event::Go;
    let mut downs_seen: usize = 0;
    loop {
        trace.steps += 1;
        if trace.steps > script.max_steps {
            return trace;
        }
        let cmd = engine.step(ev);
        ev = match cmd {
            Command::PressDown(k) => {
                downs_seen += 1;
                if script.fail_press_down_at == Some(downs_seen) {
                    Event::Fail
                } else {
                    trace.downs.push(k);
                    Event::Ack
                }
            }
            Command::PressUp(k) => {
                trace.ups.push(k);
                Event::Ack
            }
            Command::MoveTo(x, y) => {
                trace.moves_to.push((x, y));
                Event::Ack
            }
            Command::MoveBy(dx, dy) => {
                trace.moves_by.push((dx, dy));
                Event::Ack
            }
            Command::QueryPosition => {
                trace.queries += 1;
                Event::Position(script.position.0, script.position.1)
            }
            Command::Sleep(ms) => {
                trace.sleeps.push(ms);
                Event::Ack
            }
            Command::PollCancel => {
                trace.polls += 1;
                let cancelled = script.cancel_from_poll.map_or(false, |n| trace.polls >= n);
                Event::Flag(cancelled)
            }
            Command::Proceed => Event::Go,
            Command::Done(outcome) => {
                trace.outcome = Some(outcome);
                return trace;
            }
        };
    }
}

fn key_a() -> KeyButton {
    KeyButton::KeyboardKey(65)
}

fn press(key: KeyButton, hold: u64, delay: u64) -> Action {
    Action::Press(PressAction { keybutton: key, down: true, up: true, hold_time_ms: hold, delay_after_ms: delay })
}

#[test]
fn finite_loop_runs_body_exactly_iterations_times() {
    let root = LoopAction { infinite: false, iterations: 3, actions: vec![press(key_a(), 5, 1)] };
    let trace = drive(root, Script::plain());
    assert_eq!(trace.outcome, Some(RunOutcome::Completed));
    assert_eq!(trace.downs.len(), 3);
    assert_eq!(trace.ups.len(), 3);
    // each press: hold sleep then trailing delay sleep
    assert_eq!(trace.sleeps, vec![5, 1, 5, 1, 5, 1]);
}

#[test]
fn zero_iterations_is_a_legal_no_op() {
    let root = LoopAction { infinite: false, iterations: 0, actions: vec![press(key_a(), 5, 1)] };
    let trace = drive(root, Script::plain());
    assert_eq!(trace.outcome, Some(RunOutcome::Completed));
    assert_eq!(trace.downs.len(), 0);
    assert_eq!(trace.polls, 0);
    assert_eq!(trace.sleeps.len(), 0);
}

#[test]
fn infinite_loop_with_empty_body_terminates_without_polling() {
    let root = LoopAction { infinite: true, iterations: 1, actions: vec![] };
    let trace = drive(root, Script::plain());
    assert_eq!(trace.outcome, Some(RunOutcome::Completed));
    assert_eq!(trace.polls, 0);
    assert!(trace.steps < 10);
}

#[test]
fn infinite_loop_does_not_terminate_on_its_own() {
    let root = LoopAction { infinite: true, iterations: 0, actions: vec![press(key_a(), 0, 0)] };
    let mut script = Script::plain();
    script.max_steps = 5_000;
    let trace = drive(root, script);
    // the step budget ran out before any Done command appeared
    assert_eq!(trace.outcome, None);
    assert!(trace.downs.len() > 100);
}

#[test]
fn cancellation_stops_an_infinite_loop_within_one_pass() {
    // the root loop: [Press{A, down, up, hold 50, delayAfter 10}], infinite
    let root = LoopAction { infinite: true, iterations: 1, actions: vec![press(key_a(), 50, 10)] };
    let mut script = Script::plain();
    script.cancel_from_poll = Some(4);
    let trace = drive(root, script);
    // pressed and released several times before the flag was seen
    assert_eq!(trace.outcome, Some(RunOutcome::Completed));
    assert_eq!(trace.downs.len(), 4);
    assert_eq!(trace.ups.len(), 4);
    assert_eq!(trace.polls, 4);
    // the flag was observed at the first poll after it was set: no further
    // press happened after the fourth pass
    assert_eq!(trace.downs.last(), Some(&key_a()));
}

#[test]
fn port_failure_aborts_before_later_actions() {
    // three sequential presses; the second press-down fails
    let body = vec![press(key_a(), 0, 0), press(key_a(), 0, 0), press(key_a(), 0, 0)];
    let root = LoopAction { infinite: false, iterations: 1, actions: body };
    let mut script = Script::plain();
    script.fail_press_down_at = Some(2);
    let trace = drive(root, script);
    assert_eq!(trace.outcome, Some(RunOutcome::PortFailed));
    // only the first press completed; the third was never started
    assert_eq!(trace.downs.len(), 1);
    assert_eq!(trace.ups.len(), 1);
    // the error is surfaced and the running flag goes false
    let mut controller = ExecutionController::new();
    let epoch = controller.start();
    assert!(controller.is_running());
    controller.worker_finished(epoch);
    assert!(!controller.is_running());
}

#[test]
fn press_down_only_and_up_only() {
    let down_only = Action::Press(PressAction {
        keybutton: key_a(),
        down: true,
        up: false,
        hold_time_ms: 99,
        delay_after_ms: 2,
    });
    let up_only = Action::Press(PressAction {
        keybutton: key_a(),
        down: false,
        up: true,
        hold_time_ms: 99,
        delay_after_ms: 3,
    });
    let neither = Action::Press(PressAction {
        keybutton: key_a(),
        down: false,
        up: false,
        hold_time_ms: 99,
        delay_after_ms: 4,
    });
    let root = LoopAction { infinite: false, iterations: 1, actions: vec![down_only, up_only, neither] };
    let trace = drive(root, Script::plain());
    assert_eq!(trace.outcome, Some(RunOutcome::Completed));
    assert_eq!(trace.downs.len(), 1);
    assert_eq!(trace.ups.len(), 1);
    // no hold sleeps: only the three trailing delays
    assert_eq!(trace.sleeps, vec![2, 3, 4]);
}

#[test]
fn instant_move_issues_one_call() {
    let abs = Action::Move(MoveAction { x: 10, y: 20, relative: false, move_time_ms: 0, delay_after_ms: 7 });
    let rel = Action::Move(MoveAction { x: -4, y: 5, relative: true, move_time_ms: 0, delay_after_ms: 8 });
    let root = LoopAction { infinite: false, iterations: 1, actions: vec![abs, rel] };
    let trace = drive(root, Script::plain());
    assert_eq!(trace.outcome, Some(RunOutcome::Completed));
    assert_eq!(trace.moves_to, vec![(10, 20)]);
    assert_eq!(trace.moves_by, vec![(-4, 5)]);
    assert_eq!(trace.sleeps, vec![7, 8]);
    assert_eq!(trace.queries, 0);
}

#[test]
fn interpolated_relative_move_sums_exactly_to_displacement() {
    let mv = Action::Move(MoveAction { x: 10, y: -7, relative: true, move_time_ms: 9, delay_after_ms: 0 });
    let root = LoopAction { infinite: false, iterations: 1, actions: vec![mv] };
    let trace = drive(root, Script::plain());
    assert_eq!(trace.outcome, Some(RunOutcome::Completed));
    let sum_x: i64 = trace.moves_by.iter().map(|d| d.0 as i64).sum();
    let sum_y: i64 = trace.moves_by.iter().map(|d| d.1 as i64).sum();
    assert_eq!((sum_x, sum_y), (10, -7));
    // tick sleeps cover the move time exactly: 3 + 3 + 3, plus delay 0
    assert_eq!(trace.sleeps, vec![3, 3, 3, 0]);
    // ticks at t = 0, 3, 6, 9: four relative moves
    assert_eq!(trace.moves_by.len(), 4);
}

#[test]
fn interpolated_move_clamps_last_tick_to_move_time() {
    let mv = Action::Move(MoveAction { x: 5, y: 5, relative: true, move_time_ms: 7, delay_after_ms: 0 });
    let root = LoopAction { infinite: false, iterations: 1, actions: vec![mv] };
    let trace = drive(root, Script::plain());
    assert_eq!(trace.outcome, Some(RunOutcome::Completed));
    // ticks at t = 0, 3, 6, 7: the last sleep is clamped to 1 ms
    assert_eq!(trace.sleeps, vec![3, 3, 1, 0]);
    let sum_x: i64 = trace.moves_by.iter().map(|d| d.0 as i64).sum();
    assert_eq!(sum_x, 5);
}

#[test]
fn interpolated_absolute_move_resolves_position_once() {
    let mv = Action::Move(MoveAction { x: 100, y: 50, relative: false, move_time_ms: 300, delay_after_ms: 0 });
    let root = LoopAction { infinite: false, iterations: 1, actions: vec![mv] };
    let mut script = Script::plain();
    script.position = (3, 4);
    let trace = drive(root, script);
    assert_eq!(trace.outcome, Some(RunOutcome::Completed));
    assert_eq!(trace.queries, 1);
    let sum_x: i64 = trace.moves_by.iter().map(|d| d.0 as i64).sum();
    let sum_y: i64 = trace.moves_by.iter().map(|d| d.1 as i64).sum();
    assert_eq!((sum_x, sum_y), (97, 46));
}

#[test]
fn moves_never_overshoot_or_back_up() {
    let mv = Action::Move(MoveAction { x: 17, y: -23, relative: true, move_time_ms: 50, delay_after_ms: 0 });
    let root = LoopAction { infinite: false, iterations: 1, actions: vec![mv] };
    let trace = drive(root, Script::plain());
    for d in &trace.moves_by {
        assert!(d.0 >= 0, "x ticks move only toward the target");
        assert!(d.1 <= 0, "y ticks move only toward the target");
    }
    let sum_x: i64 = trace.moves_by.iter().map(|d| d.0 as i64).sum();
    let sum_y: i64 = trace.moves_by.iter().map(|d| d.1 as i64).sum();
    assert_eq!((sum_x, sum_y), (17, -23));
}

#[test]
fn nested_loops_run_depth_first_in_order() {
    let inner = LoopAction {
        infinite: false,
        iterations: 2,
        actions: vec![press(KeyButton::MouseButton(1), 0, 0)],
    };
    let root = LoopAction {
        infinite: false,
        iterations: 2,
        actions: vec![press(key_a(), 0, 0), Action::Loop(inner)],
    };
    let trace = drive(root, Script::plain());
    assert_eq!(trace.outcome, Some(RunOutcome::Completed));
    let expected = vec![
        key_a(),
        KeyButton::MouseButton(1),
        KeyButton::MouseButton(1),
        key_a(),
        KeyButton::MouseButton(1),
        KeyButton::MouseButton(1),
    ];
    assert_eq!(trace.downs, expected);
}

#[test]
fn delay_action_sleeps_through_the_port() {
    let d = Action::Delay(DelayAction { random: false, delay_ms_min: 42, delay_ms_max: 0 });
    let root = LoopAction { infinite: false, iterations: 1, actions: vec![d] };
    let trace = drive(root, Script::plain());
    assert_eq!(trace.sleeps, vec![42]);
}
