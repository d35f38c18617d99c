//! The execution engine: a step machine that walks an action tree.
//!
//! The engine owns no clock and no input device. Each call to [`Engine::step`]
//! consumes the outcome of the previous command and returns the next command:
//! press or release a key, move the pointer, sleep, poll the cancellation
//! flag, or report that the run is over. The caller performs the command
//! against the real world and feeds the outcome back in. Everything the
//! engine decides — ordering, loop counts, hold and delay times, interpolated
//! motion, reaction to cancellation and to failures — is verified here.
use vstd::prelude::*;

verus! {

use crate::actions::{Action, DelayAction, KeyButton, LoopAction, MoveAction, PressAction};
use crate::interp::{interp_at, interp_step, lemma_interp_bounds, lemma_interp_monotonic,
    lemma_interp_zero};

/// Milliseconds between two ticks of an interpolated move.
pub const TICK_MS: u64 = 3;

/// What the engine asks its caller to do next.
#[derive(Debug, Copy, Clone, PartialEq, Eq, Structural)]
pub enum Command {
    /// Press the key or button.
    PressDown(KeyButton),
    /// Release the key or button.
    PressUp(KeyButton),
    /// Move the pointer to this absolute position.
    MoveTo(i32, i32),
    /// Move the pointer by this displacement.
    MoveBy(i32, i32),
    /// Report the current pointer position.
    QueryPosition,
    /// Sleep this many milliseconds.
    Sleep(u64),
    /// Report the cancellation flag.
    PollCancel,
    /// Nothing to do; call `step` again with `Event::Go`.
    Proceed,
    /// The run is over.
    Done(RunOutcome),
}

/// How a run ended. Cancellation is not an error: a cancelled run completes.
#[derive(Debug, Copy, Clone, PartialEq, Eq, Structural)]
pub enum RunOutcome {
    Completed,
    PortFailed,
}

/// What the caller reports back about the previous command.
#[derive(Debug, Copy, Clone, PartialEq, Eq, Structural)]
pub enum Event {
    /// Nothing was asked for (first call, or after `Proceed`).
    Go,
    /// The press, move, or sleep was carried out.
    Ack,
    /// The input layer refused or failed the press, move, or query.
    Fail,
    /// The pointer position, answering `QueryPosition`.
    Position(i32, i32),
    /// The cancellation flag, answering `PollCancel`.
    Flag(bool),
}

/// Where a loop frame stands within one pass over its body.
#[derive(Debug, Copy, Clone, PartialEq, Eq, Structural)]
pub enum LoopPhase {
    /// About to decide on, or dispatch, the action at `pos`.
    Ready,
    /// The action at `pos` has finished; the flag must be polled next.
    Returned,
    /// `PollCancel` was emitted; awaiting the flag.
    Polled,
}

/// One entry of the engine's explicit execution stack.
#[derive(Debug)]
pub enum Task {
    /// Execute this action next.
    Run(Action),
    /// Emit `PressDown`.
    EmitDown(KeyButton),
    /// Emit `PressUp`.
    EmitUp(KeyButton),
    /// Emit `MoveTo`.
    EmitMoveTo(i32, i32),
    /// Emit `MoveBy`.
    EmitMoveBy(i32, i32),
    /// Emit `Sleep`.
    EmitSleep(u64),
    /// A press, move, or sleep command is outstanding.
    AwaitAck,
    /// Emit `QueryPosition` to resolve an absolute timed move.
    QueryPos { x: i32, y: i32, move_time_ms: u64 },
    /// `QueryPosition` is outstanding.
    AwaitPos { x: i32, y: i32, move_time_ms: u64 },
    /// Timed move in progress: emit the tick at elapsed time `t`.
    MoveTick { xr: i32, yr: i32, total: u64, t: u64, xl: i32, yl: i32 },
    /// The tick's `MoveBy` is outstanding; `xc`/`yc` are its cumulative goal.
    MoveTickAck { xr: i32, yr: i32, total: u64, t: u64, xl: i32, yl: i32, xc: i32, yc: i32 },
    /// The tick's `Sleep` of `st` ms is outstanding.
    MoveSleep { xr: i32, yr: i32, total: u64, t: u64, st: u64, xc: i32, yc: i32 },
    /// A loop being executed.
    LoopFrame {
        infinite: bool,
        iterations: u64,
        body: Vec<Action>,
        done: u64,
        pos: usize,
        phase: LoopPhase,
    },
}

/// The applied displacement `l` lags the cumulative goal at elapsed time `t`
/// without ever having overshot it, on the axis whose total is `r`.
pub open spec fn axis_wf(r: i32, total: u64, t: u64, l: i32) -> bool {
    &&& (r >= 0 ==> 0 <= l <= interp_at(r as int, t as int, total as int))
    &&& (r < 0 ==> interp_at(r as int, t as int, total as int) <= l <= 0)
}

pub open spec fn move_state_wf(xr: i32, yr: i32, total: u64, t: u64, xl: i32, yl: i32) -> bool {
    &&& total > 0
    &&& t <= total
    &&& axis_wf(xr, total, t, xl)
    &&& axis_wf(yr, total, t, yl)
}

pub open spec fn task_wf(task: Task) -> bool {
    match task {
        Task::QueryPos { move_time_ms, .. } => move_time_ms > 0,
        Task::AwaitPos { move_time_ms, .. } => move_time_ms > 0,
        Task::MoveTick { xr, yr, total, t, xl, yl } => move_state_wf(xr, yr, total, t, xl, yl),
        Task::MoveTickAck { xr, yr, total, t, xl, yl, xc, yc } => move_state_wf(
            xr,
            yr,
            total,
            t,
            xl,
            yl,
        ) && xc == interp_at(xr as int, t as int, total as int) && yc == interp_at(
            yr as int,
            t as int,
            total as int,
        ),
        Task::MoveSleep { xr, yr, total, t, st, xc, yc } => {
            &&& total > 0
            &&& st >= 1
            &&& t + st <= total
            &&& xc == interp_at(xr as int, t as int, total as int)
            &&& yc == interp_at(yr as int, t as int, total as int)
        },
        Task::LoopFrame { infinite, iterations, body, done, pos, phase } => {
            &&& pos == 0 || pos < body@.len()
            &&& (phase != LoopPhase::Ready ==> pos < body@.len() && (infinite || done
                < iterations))
            &&& (pos > 0 ==> infinite || done < iterations)
            &&& (!infinite ==> done <= iterations)
        },
        _ => true,
    }
}

/// The engine: an explicit stack of pending work, and whether the run ended.
pub struct Engine {
    pub stack: Vec<Task>,
    pub done: bool,
}

impl Engine {
    pub open spec fn wf(self) -> bool {
        forall|i: int| 0 <= i < self.stack@.len() ==> #[trigger] task_wf(self.stack@[i])
    }

    /// The task the next `step` acts on.
    pub open spec fn top_task(self) -> Task
        recommends
            self.stack@.len() > 0,
    {
        self.stack@.last()
    }

    /// The stack below the top task.
    pub open spec fn below(self) -> Seq<Task> {
        self.stack@.drop_last()
    }

    /// The event kind the next `step` expects, fixed by the last command.
    pub open spec fn expects(self, ev: Event) -> bool {
        if self.stack@.len() == 0 {
            ev == Event::Go
        } else {
            match self.stack@.last() {
                Task::AwaitAck => ev == Event::Ack || ev == Event::Fail,
                Task::MoveTickAck { .. } => ev == Event::Ack || ev == Event::Fail,
                Task::MoveSleep { .. } => ev == Event::Ack || ev == Event::Fail,
                Task::AwaitPos { .. } => ev matches Event::Position(_, _) || ev == Event::Fail,
                Task::LoopFrame { phase, .. } => if phase == LoopPhase::Polled {
                    ev matches Event::Flag(_)
                } else {
                    ev == Event::Go
                },
                _ => ev == Event::Go,
            }
        }
    }

    /// A fresh engine, ready to execute `root`.
    pub fn new(root: LoopAction) -> (e: Engine)
        ensures
            e.wf(),
            !e.done,
            e.stack@ =~= seq![
                Task::LoopFrame {
                    infinite: root.infinite,
                    iterations: root.iterations,
                    body: root.actions,
                    done: 0,
                    pos: 0,
                    phase: LoopPhase::Ready,
                },
            ],
    {
        let mut stack: Vec<Task> = Vec::new();
        stack.push(
            Task::LoopFrame {
                infinite: root.infinite,
                iterations: root.iterations,
                body: root.actions,
                done: 0,
                pos: 0,
                phase: LoopPhase::Ready,
            },
        );
        Engine { stack, done: false }
    }

    /// Whether the run has ended (a `Done` command was returned).
    pub fn is_done(&self) -> (r: bool)
        ensures
            r == self.done,
    {
        self.done
    }
}

/// How long a delay action sleeps: exactly `delay_ms_min` unless the delay is
/// randomized over a non-empty range, in which case the duration lies in
/// `[delay_ms_min, delay_ms_max)` — the upper bound is never reached.
pub open spec fn delay_duration_ok(d: DelayAction, dur: u64) -> bool {
    if !d.random || d.delay_ms_min >= d.delay_ms_max {
        dur == d.delay_ms_min
    } else {
        d.delay_ms_min <= dur < d.delay_ms_max
    }
}

/// Relies on `fastrand::u64`: a value drawn from the given range, which the
/// range makes at least `min` and strictly less than `max`.
#[verifier::external_body]
fn rand_u64_in(min: u64, max: u64) -> (r: u64)
    requires
        min < max,
    ensures
        min <= r < max,
{
    fastrand::u64(min..max)
}

/// Picks the sleep duration for one delay action.
pub fn delay_duration(d: &DelayAction) -> (dur: u64)
    ensures
        delay_duration_ok(*d, dur),
{
    if !d.random || d.delay_ms_min >= d.delay_ms_max {
        d.delay_ms_min
    } else {
        rand_u64_in(d.delay_ms_min, d.delay_ms_max)
    }
}

/// The displacement from `current` to `target`, clamped into `i32`.
pub open spec fn spec_clamp_delta(target: i32, current: i32) -> i32 {
    let d = target - current;
    if d < i32::MIN {
        i32::MIN
    } else if d > i32::MAX {
        i32::MAX
    } else {
        d as i32
    }
}

/// Computes the clamped displacement from `current` to `target`.
pub fn clamp_delta(target: i32, current: i32) -> (r: i32)
    ensures
        r == spec_clamp_delta(target, current),
{
    let wide: i64 = (target as i64) - (current as i64);
    if wide < i32::MIN as i64 {
        i32::MIN
    } else if wide > i32::MAX as i64 {
        i32::MAX
    } else {
        wide as i32
    }
}

/// The tasks that executing one press pushes, bottom first: the optional
/// press, the optional hold and release, then the trailing delay.
pub open spec fn press_tasks(p: PressAction) -> Seq<Task> {
    let after = seq![Task::EmitSleep(p.delay_after_ms)];
    let with_up = if p.down && p.up {
        after + seq![Task::EmitUp(p.keybutton), Task::EmitSleep(p.hold_time_ms)]
    } else if p.up && !p.down {
        after + seq![Task::EmitUp(p.keybutton)]
    } else {
        after
    };
    if p.down {
        with_up + seq![Task::EmitDown(p.keybutton)]
    } else {
        with_up
    }
}

impl Engine {
    /// One transition of the machine. `ev` answers the previous command; the
    /// returned command is the next thing the caller must do. The clauses
    /// below pin down every transition: what is pushed for each action kind,
    /// that a finite loop stops after exactly `iterations` passes and an
    /// infinite loop never stops on its own, that an infinite loop with an
    /// empty body is left at once without polling the flag, that a reported
    /// failure or a raised cancellation flag ends the run immediately, and
    /// that ticked motion follows `interp_at` with a final tick at exactly
    /// the move time.
    pub fn step(&mut self, ev: Event) -> (cmd: Command)
        requires
            old(self).wf(),
            !old(self).done,
            old(self).expects(ev),
        ensures
            final(self).wf(),
            final(self).done ==> final(self).stack@.len() == 0,
            (cmd matches Command::Done(_)) <==> final(self).done,
            // an empty stack means the whole run completed
            old(self).stack@.len() == 0 ==> final(self).done && cmd == Command::Done(
                RunOutcome::Completed,
            ),
            // a reported failure ends the run at once, as a failure
            old(self).stack@.len() > 0 && ev == Event::Fail ==> final(self).done && cmd
                == Command::Done(RunOutcome::PortFailed),
            // a raised cancellation flag ends the run at once, not as an error
            old(self).stack@.len() > 0 && ev == Event::Flag(true) ==> final(self).done && cmd
                == Command::Done(RunOutcome::Completed),
            // dispatching an action pushes exactly its task expansion
            old(self).stack@.len() > 0 ==> (old(self).top_task() matches Task::Run(a) ==> {
                &&& a matches Action::Press(p) ==> final(self).stack@ == old(self).below()
                    + press_tasks(p) && cmd == Command::Proceed
                &&& a matches Action::Move(m) ==> final(self).stack@ == old(self).below()
                    + move_tasks(m) && cmd == Command::Proceed
                &&& a matches Action::Delay(d) ==> final(self).stack@.len() == old(self).stack@.len() && final(self).stack@.drop_last() == old(self).below() && (final(self).top_task() matches Task::EmitSleep(dur) && delay_duration_ok(d, dur)) && cmd
                    == Command::Proceed
                &&& a matches Action::Loop(l) ==> final(self).stack@ == old(self).below().push(
                    Task::LoopFrame {
                        infinite: l.infinite,
                        iterations: l.iterations,
                        body: l.actions,
                        done: 0,
                        pos: 0,
                        phase: LoopPhase::Ready,
                    },
                ) && cmd == Command::Proceed
            }),
            // each pending primitive emits its command and awaits the answer
            old(self).stack@.len() > 0 ==> (old(self).top_task() matches Task::EmitDown(k) ==>
                final(self).stack@ == old(self).below().push(Task::AwaitAck) && cmd
                == Command::PressDown(k)),
            old(self).stack@.len() > 0 ==> (old(self).top_task() matches Task::EmitUp(k) ==>
                final(self).stack@ == old(self).below().push(Task::AwaitAck) && cmd
                == Command::PressUp(k)),
            old(self).stack@.len() > 0 ==> (old(self).top_task() matches Task::EmitMoveTo(x, y)
                ==> final(self).stack@ == old(self).below().push(Task::AwaitAck) && cmd
                == Command::MoveTo(x, y)),
            old(self).stack@.len() > 0 ==> (old(self).top_task() matches Task::EmitMoveBy(x, y)
                ==> final(self).stack@ == old(self).below().push(Task::AwaitAck) && cmd
                == Command::MoveBy(x, y)),
            old(self).stack@.len() > 0 ==> (old(self).top_task() matches Task::EmitSleep(ms) ==>
                final(self).stack@ == old(self).below().push(Task::AwaitAck) && cmd
                == Command::Sleep(ms)),
            // an acknowledged primitive is simply finished
            old(self).stack@.len() > 0 && old(self).top_task() is AwaitAck && ev == Event::Ack
                ==> final(self).stack@ == old(self).below() && cmd == Command::Proceed,
            // an absolute timed move first asks where the pointer is
            old(self).stack@.len() > 0 ==> (old(self).top_task() matches Task::QueryPos {
                x,
                y,
                move_time_ms,
            } ==> final(self).stack@ == old(self).below().push(
                Task::AwaitPos { x, y, move_time_ms },
            ) && cmd == Command::QueryPosition),
            // ...and resolves the clamped displacement from the answer
            old(self).stack@.len() > 0 ==> (old(self).top_task() matches Task::AwaitPos {
                x,
                y,
                move_time_ms,
            } ==> (ev matches Event::Position(px, py) ==> final(self).stack@ == old(self).below().push(
                Task::MoveTick {
                    xr: spec_clamp_delta(x, px),
                    yr: spec_clamp_delta(y, py),
                    total: move_time_ms,
                    t: 0,
                    xl: 0,
                    yl: 0,
                },
            ) && cmd == Command::Proceed)),
            // each tick issues the difference between the cumulative goal and
            // what was already applied, so applied motion never drifts
            old(self).stack@.len() > 0 ==> (old(self).top_task() matches Task::MoveTick {
                xr,
                yr,
                total,
                t,
                xl,
                yl,
            } ==> final(self).stack@ == old(self).below().push(
                Task::MoveTickAck {
                    xr,
                    yr,
                    total,
                    t,
                    xl,
                    yl,
                    xc: interp_at(xr as int, t as int, total as int) as i32,
                    yc: interp_at(yr as int, t as int, total as int) as i32,
                },
            ) && (cmd matches Command::MoveBy(dx, dy) && dx as int == interp_at(
                xr as int,
                t as int,
                total as int,
            ) - xl && dy as int == interp_at(yr as int, t as int, total as int) - yl)),
            // after a tick: stop exactly at the move time, else sleep the
            // tick granularity, clamped so the last tick lands on it exactly
            old(self).stack@.len() > 0 ==> (old(self).top_task() matches Task::MoveTickAck {
                xr,
                yr,
                total,
                t,
                xl,
                yl,
                xc,
                yc,
            } ==> (ev == Event::Ack ==> {
                &&& t == total ==> final(self).stack@ == old(self).below() && cmd
                    == Command::Proceed
                &&& t < total ==> {
                    let st = if total - t > TICK_MS {
                        TICK_MS as u64
                    } else {
                        (total - t) as u64
                    };
                    final(self).stack@ == old(self).below().push(
                        Task::MoveSleep { xr, yr, total, t, st, xc, yc },
                    ) && cmd == Command::Sleep(st)
                }
            })),
            old(self).stack@.len() > 0 ==> (old(self).top_task() matches Task::MoveSleep {
                xr,
                yr,
                total,
                t,
                st,
                xc,
                yc,
            } ==> (ev == Event::Ack ==> final(self).stack@ == old(self).below().push(
                Task::MoveTick { xr, yr, total, t: (t + st) as u64, xl: xc, yl: yc },
            ) && cmd == Command::Proceed)),
            // a loop ready at the start of a pass: stop after exactly
            // `iterations` passes; a loop with an empty body is left at once,
            // without polling the flag, even an infinite one
            old(self).stack@.len() > 0 ==> (old(self).top_task() matches Task::LoopFrame {
                infinite,
                iterations,
                body,
                done,
                pos,
                phase,
            } ==> (phase == LoopPhase::Ready ==> {
                &&& pos == 0 && !(infinite || done < iterations) ==> final(self).stack@ == old(self).below() && cmd == Command::Proceed
                &&& pos == 0 && (infinite || done < iterations) && body@.len() == 0 ==> final(self).stack@ == old(self).below() && cmd == Command::Proceed
                &&& (pos > 0 || ((infinite || done < iterations) && body@.len() > 0)) ==> final(self).stack@.len() == old(self).stack@.len() + 1 && final(self).stack@.drop_last().drop_last() == old(self).below() && final(self).stack@[old(self).stack@.len() - 1] == (Task::LoopFrame {
                    infinite,
                    iterations,
                    body,
                    done,
                    pos,
                    phase: LoopPhase::Returned,
                }) && (final(self).top_task() matches Task::Run(a2) && a2@ == body@[pos as int]@)
                    && cmd == Command::Proceed
            })),
            // after each body action the flag is polled
            old(self).stack@.len() > 0 ==> (old(self).top_task() matches Task::LoopFrame {
                infinite,
                iterations,
                body,
                done,
                pos,
                phase,
            } ==> (phase == LoopPhase::Returned ==> final(self).stack@ == old(self).below().push(
                Task::LoopFrame { infinite, iterations, body, done, pos, phase: LoopPhase::Polled },
            ) && cmd == Command::PollCancel)),
            // an unraised flag: move to the next action; at the end of the
            // body, count the completed pass and start over
            old(self).stack@.len() > 0 ==> (old(self).top_task() matches Task::LoopFrame {
                infinite,
                iterations,
                body,
                done,
                pos,
                phase,
            } ==> (phase == LoopPhase::Polled && ev == Event::Flag(false) ==> final(self).stack@
                == old(self).below().push(
                Task::LoopFrame {
                    infinite,
                    iterations,
                    body,
                    done: if pos + 1 == body@.len() && !infinite {
                        (done + 1) as u64
                    } else {
                        done
                    },
                    pos: if pos + 1 == body@.len() {
                        0
                    } else {
                        (pos + 1) as usize
                    },
                    phase: LoopPhase::Ready,
                },
            ) && cmd == Command::Proceed)),
    {
        let ghost pre = *old(self);
        match self.stack.pop() {
            None => {
                self.done = true;
                Command::Done(RunOutcome::Completed)
            },
            Some(top) => {
                proof {
                    assert(task_wf(pre.stack@[pre.stack@.len() - 1]));
                    assert(pre.stack@.last() == pre.stack@[pre.stack@.len() - 1]);
                }
                match top {
                Task::Run(a) => {
                    match a {
                        Action::Press(p) => {
                            self.stack.push(Task::EmitSleep(p.delay_after_ms));
                            if p.down && p.up {
                                self.stack.push(Task::EmitUp(p.keybutton));
                                self.stack.push(Task::EmitSleep(p.hold_time_ms));
                            } else if p.up {
                                self.stack.push(Task::EmitUp(p.keybutton));
                            }
                            if p.down {
                                self.stack.push(Task::EmitDown(p.keybutton));
                            }
                            proof {
                                assert(self.stack@ =~= pre.below() + press_tasks(p));
                            }
                            Command::Proceed
                        },
                        Action::Move(m) => {
                            self.stack.push(Task::EmitSleep(m.delay_after_ms));
                            if m.move_time_ms == 0 {
                                if m.relative {
                                    self.stack.push(Task::EmitMoveBy(m.x, m.y));
                                } else {
                                    self.stack.push(Task::EmitMoveTo(m.x, m.y));
                                }
                            } else if m.relative {
                                self.stack.push(
                                    Task::MoveTick {
                                        xr: m.x,
                                        yr: m.y,
                                        total: m.move_time_ms,
                                        t: 0,
                                        xl: 0,
                                        yl: 0,
                                    },
                                );
                                proof {
                                    lemma_interp_zero(m.x as int, m.move_time_ms as int);
                                    lemma_interp_zero(m.y as int, m.move_time_ms as int);
                                }
                            } else {
                                self.stack.push(
                                    Task::QueryPos {
                                        x: m.x,
                                        y: m.y,
                                        move_time_ms: m.move_time_ms,
                                    },
                                );
                            }
                            proof {
                                assert(self.stack@ =~= pre.below() + move_tasks(m));
                            }
                            Command::Proceed
                        },
                        Action::Delay(d) => {
                            let dur = delay_duration(&d);
                            self.stack.push(Task::EmitSleep(dur));
                            Command::Proceed
                        },
                        Action::Loop(l) => {
                            self.stack.push(
                                Task::LoopFrame {
                                    infinite: l.infinite,
                                    iterations: l.iterations,
                                    body: l.actions,
                                    done: 0,
                                    pos: 0,
                                    phase: LoopPhase::Ready,
                                },
                            );
                            Command::Proceed
                        },
                    }
                },
                Task::EmitDown(k) => {
                    self.stack.push(Task::AwaitAck);
                    Command::PressDown(k)
                },
                Task::EmitUp(k) => {
                    self.stack.push(Task::AwaitAck);
                    Command::PressUp(k)
                },
                Task::EmitMoveTo(x, y) => {
                    self.stack.push(Task::AwaitAck);
                    Command::MoveTo(x, y)
                },
                Task::EmitMoveBy(x, y) => {
                    self.stack.push(Task::AwaitAck);
                    Command::MoveBy(x, y)
                },
                Task::EmitSleep(ms) => {
                    self.stack.push(Task::AwaitAck);
                    Command::Sleep(ms)
                },
                Task::AwaitAck => {
                    match ev {
                        Event::Ack => Command::Proceed,
                        Event::Fail => {
                            self.stack.clear();
                            self.done = true;
                            Command::Done(RunOutcome::PortFailed)
                        },
                        _ => vstd::pervasive::unreached(),
                    }
                },
                Task::QueryPos { x, y, move_time_ms } => {
                    self.stack.push(Task::AwaitPos { x, y, move_time_ms });
                    Command::QueryPosition
                },
                Task::AwaitPos { x, y, move_time_ms } => {
                    match ev {
                        Event::Position(px, py) => {
                            let xr = clamp_delta(x, px);
                            let yr = clamp_delta(y, py);
                            self.stack.push(
                                Task::MoveTick { xr, yr, total: move_time_ms, t: 0, xl: 0, yl: 0 },
                            );
                            proof {
                                lemma_interp_zero(xr as int, move_time_ms as int);
                                lemma_interp_zero(yr as int, move_time_ms as int);
                            }
                            Command::Proceed
                        },
                        Event::Fail => {
                            self.stack.clear();
                            self.done = true;
                            Command::Done(RunOutcome::PortFailed)
                        },
                        _ => vstd::pervasive::unreached(),
                    }
                },
                Task::MoveTick { xr, yr, total, t, xl, yl } => {
                    proof {
                        lemma_interp_bounds(xr as int, t as int, total as int);
                        lemma_interp_bounds(yr as int, t as int, total as int);
                    }
                    let xc = interp_step(xr, t, total);
                    let yc = interp_step(yr, t, total);
                    let dx = xc - xl;
                    let dy = yc - yl;
                    self.stack.push(Task::MoveTickAck { xr, yr, total, t, xl, yl, xc, yc });
                    Command::MoveBy(dx, dy)
                },
                Task::MoveTickAck { xr, yr, total, t, xl, yl, xc, yc } => {
                    match ev {
                        Event::Ack => {
                            if t >= total {
                                Command::Proceed
                            } else {
                                let st = if total - t > TICK_MS {
                                    TICK_MS
                                } else {
                                    total - t
                                };
                                self.stack.push(Task::MoveSleep { xr, yr, total, t, st, xc, yc });
                                Command::Sleep(st)
                            }
                        },
                        Event::Fail => {
                            self.stack.clear();
                            self.done = true;
                            Command::Done(RunOutcome::PortFailed)
                        },
                        _ => vstd::pervasive::unreached(),
                    }
                },
                Task::MoveSleep { xr, yr, total, t, st, xc, yc } => {
                    match ev {
                        Event::Ack => {
                            self.stack.push(
                                Task::MoveTick { xr, yr, total, t: t + st, xl: xc, yl: yc },
                            );
                            proof {
                                lemma_interp_bounds(xr as int, t as int, total as int);
                                lemma_interp_bounds(yr as int, t as int, total as int);
                                lemma_interp_monotonic(
                                    xr as int,
                                    t as int,
                                    t + st,
                                    total as int,
                                );
                                lemma_interp_monotonic(
                                    yr as int,
                                    t as int,
                                    t + st,
                                    total as int,
                                );
                            }
                            Command::Proceed
                        },
                        Event::Fail => {
                            self.stack.clear();
                            self.done = true;
                            Command::Done(RunOutcome::PortFailed)
                        },
                        _ => vstd::pervasive::unreached(),
                    }
                },
                Task::LoopFrame { infinite, iterations, body, done, pos, phase } => {
                    match phase {
                        LoopPhase::Ready => {
                            let should = infinite || done < iterations;
                            if pos == 0 && (!should || body.len() == 0) {
                                Command::Proceed
                            } else {
                                let a = body[pos].clone();
                                self.stack.push(
                                    Task::LoopFrame {
                                        infinite,
                                        iterations,
                                        body,
                                        done,
                                        pos,
                                        phase: LoopPhase::Returned,
                                    },
                                );
                                self.stack.push(Task::Run(a));
                                Command::Proceed
                            }
                        },
                        LoopPhase::Returned => {
                            self.stack.push(
                                Task::LoopFrame {
                                    infinite,
                                    iterations,
                                    body,
                                    done,
                                    pos,
                                    phase: LoopPhase::Polled,
                                },
                            );
                            Command::PollCancel
                        },
                        LoopPhase::Polled => {
                            match ev {
                                Event::Flag(flag) => {
                                    if flag {
                                        self.stack.clear();
                                        self.done = true;
                                        Command::Done(RunOutcome::Completed)
                                    } else {
                                        let blen = body.len();
                                        let new_pos = pos + 1;
                                        if new_pos == blen {
                                            let new_done = if !infinite {
                                                done + 1
                                            } else {
                                                done
                                            };
                                            self.stack.push(
                                                Task::LoopFrame {
                                                    infinite,
                                                    iterations,
                                                    body,
                                                    done: new_done,
                                                    pos: 0,
                                                    phase: LoopPhase::Ready,
                                                },
                                            );
                                        } else {
                                            self.stack.push(
                                                Task::LoopFrame {
                                                    infinite,
                                                    iterations,
                                                    body,
                                                    done,
                                                    pos: new_pos,
                                                    phase: LoopPhase::Ready,
                                                },
                                            );
                                        }
                                        Command::Proceed
                                    }
                                },
                                _ => vstd::pervasive::unreached(),
                            }
                        },
                    }
                },
            }
            },
        }
    }
}

/// The tasks that executing one move pushes, bottom first: the trailing
/// delay, then the move itself — immediate, ticking, or position query.
pub open spec fn move_tasks(m: MoveAction) -> Seq<Task> {
    let after = seq![Task::EmitSleep(m.delay_after_ms)];
    if m.move_time_ms == 0 {
        if m.relative {
            after + seq![Task::EmitMoveBy(m.x, m.y)]
        } else {
            after + seq![Task::EmitMoveTo(m.x, m.y)]
        }
    } else {
        if m.relative {
            after + seq![
                Task::MoveTick { xr: m.x, yr: m.y, total: m.move_time_ms, t: 0, xl: 0, yl: 0 },
            ]
        } else {
            after + seq![Task::QueryPos { x: m.x, y: m.y, move_time_ms: m.move_time_ms }]
        }
    }
}

} // verus!
