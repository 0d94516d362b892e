//! The game loop as a state machine.
//!
//! A game loop repeats four things at a fixed rate: it polls the input,
//! advances the game by the time that has passed, draws it, and sleeps for
//! what is left of the frame. All four are the caller's to do. The machine
//! here only decides: it is told what happened, as an [`Event`], and
//! answers with what to do next, as an [`Action`].
//!
//! One iteration runs through the phases in this order:
//!
//! | the machine waits in | for the event         | and then asks to        |
//! |----------------------|-----------------------|-------------------------|
//! | `Starting`           | `Clock`               | poll                    |
//! | `Polling`            | `Polled`              | advance                 |
//! | `Advancing`          | `Advanced`            | draw                    |
//! | `Drawing`            | `Drawn`               | read the clock, or stop |
//! | `Ending`             | `Clock`               | sleep, go on or stop    |
//! | `Sleeping`           | `Slept`               | go on or stop           |
//!
//! A drawing that fails stops the loop at once. Otherwise the iteration is
//! brought to its end, sleep included, and the loop stops then if the game
//! asked for it while it was polled.
//!
//! Times are readings of one monotonic clock, in nanoseconds.

use vstd::pervasive::unreached;
use vstd::prelude::*;

verus! {

/// Nanoseconds in a millisecond.
pub const NANOS_PER_MILLI: u64 = 1_000_000;

/// The time that one iteration should take at `fps` frames per second, in
/// nanoseconds: a whole number of milliseconds, rounded down.
pub open spec fn target_interval(fps: u8) -> nat {
    ((1000int / (fps as int)) * 1_000_000) as nat
}

/// What the machine waits for.
#[derive(Clone, Copy, Debug, PartialEq, Eq, Structural)]
pub enum Phase {
    /// The clock reading that starts an iteration.
    Starting,
    /// The outcome of polling the input. `elapsed` is the time since the
    /// start of the iteration before.
    Polling { elapsed: u128 },
    /// The end of the update. `proceed` is false once the game asked to stop.
    Advancing { proceed: bool },
    /// The outcome of drawing.
    Drawing { proceed: bool },
    /// The clock reading that ends the work of an iteration.
    Ending { proceed: bool },
    /// The end of the sleep that fills the frame.
    Sleeping { proceed: bool },
    /// Nothing: the loop is over.
    Stopped,
}

/// What happened since the last action.
#[derive(Clone, Copy, Debug, PartialEq, Eq, Structural)]
pub enum Event {
    /// The clock was read.
    Clock { now: u128 },
    /// The input was polled. `proceed` is false if the game asked to stop.
    Polled { proceed: bool },
    /// The game was advanced.
    Advanced,
    /// The game was drawn, or could not be.
    Drawn { ok: bool },
    /// The sleep is over.
    Slept,
}

/// How a loop ended.
#[derive(Clone, Copy, Debug, PartialEq, Eq, Structural)]
pub enum Outcome {
    /// The game asked to stop.
    Finished,
    /// The game could not be drawn.
    DrawFailed,
}

/// What to do next.
#[derive(Clone, Copy, Debug, PartialEq, Eq, Structural)]
pub enum Action {
    /// Read the clock and report [`Event::Clock`].
    ReadClock,
    /// Hand the pending input to the game and report [`Event::Polled`].
    Poll,
    /// Advance the game by `elapsed` nanoseconds and report [`Event::Advanced`].
    Advance { elapsed: u128 },
    /// Draw the game and report [`Event::Drawn`].
    Draw,
    /// Sleep for `nanos` nanoseconds and report [`Event::Slept`].
    Sleep { nanos: u64 },
    /// Leave the loop.
    Stop { outcome: Outcome },
}

/// The state of a loop as a mathematical value.
pub struct LoopView {
    /// The time that one iteration should take, in nanoseconds.
    pub interval: nat,
    /// When the current iteration started, or the loop if none has.
    pub iteration_start: nat,
    /// What the machine waits for.
    pub phase: Phase,
}

impl LoopView {
    /// A loop at `fps` frames per second, made when the clock read `start`.
    pub open spec fn fresh(fps: u8, start: nat) -> LoopView {
        LoopView { interval: target_interval(fps), iteration_start: start, phase: Phase::Starting }
    }

    /// The time that the current iteration has taken when the clock reads `now`.
    pub open spec fn cost(self, now: u128) -> int {
        now - self.iteration_start
    }

    /// Where a loop goes once an iteration is over and has lasted long
    /// enough: around again, or out if the game asked to stop.
    pub open spec fn after_iteration(self, proceed: bool) -> (LoopView, Action) {
        if proceed {
            (LoopView { phase: Phase::Starting, ..self }, Action::ReadClock)
        } else {
            (LoopView { phase: Phase::Stopped, ..self }, Action::Stop { outcome: Outcome::Finished })
        }
    }

    /// The state after `event` and what to do next, or `None` if `event` is
    /// not what the machine waits for: the wrong kind of event, any event
    /// once the loop has stopped, or a clock reading that lies before the
    /// start of the current iteration.
    pub open spec fn step(self, event: Event) -> Option<(LoopView, Action)> {
        match (self.phase, event) {
            (Phase::Starting, Event::Clock { now }) => if now >= self.iteration_start {
                Some(
                    (
                        LoopView {
                            iteration_start: now as nat,
                            phase: Phase::Polling { elapsed: self.cost(now) as u128 },
                            ..self
                        },
                        Action::Poll,
                    ),
                )
            } else {
                None
            },
            (Phase::Polling { elapsed }, Event::Polled { proceed }) => Some(
                (LoopView { phase: Phase::Advancing { proceed }, ..self }, Action::Advance { elapsed }),
            ),
            (Phase::Advancing { proceed }, Event::Advanced) => Some(
                (LoopView { phase: Phase::Drawing { proceed }, ..self }, Action::Draw),
            ),
            (Phase::Drawing { proceed }, Event::Drawn { ok }) => if ok {
                Some((LoopView { phase: Phase::Ending { proceed }, ..self }, Action::ReadClock))
            } else {
                Some(
                    (
                        LoopView { phase: Phase::Stopped, ..self },
                        Action::Stop { outcome: Outcome::DrawFailed },
                    ),
                )
            },
            (Phase::Ending { proceed }, Event::Clock { now }) => if now < self.iteration_start {
                None
            } else if self.cost(now) < self.interval {
                Some(
                    (
                        LoopView { phase: Phase::Sleeping { proceed }, ..self },
                        Action::Sleep { nanos: (self.interval - self.cost(now)) as u64 },
                    ),
                )
            } else {
                Some(self.after_iteration(proceed))
            },
            (Phase::Sleeping { proceed }, Event::Slept) => Some(self.after_iteration(proceed)),
            _ => None,
        }
    }

    /// `event` is what the machine waits for.
    pub open spec fn expects(self, event: Event) -> bool {
        self.step(event) is Some
    }
}

/// The pace of a game loop: it is told what happened and says what to do
/// next.
#[derive(Debug)]
pub struct GameLoop {
    interval: u64,
    iteration_start: u128,
    phase: Phase,
}

impl View for GameLoop {
    type V = LoopView;

    closed spec fn view(&self) -> LoopView {
        LoopView {
            interval: self.interval as nat,
            iteration_start: self.iteration_start as nat,
            phase: self.phase,
        }
    }
}

impl GameLoop {
    /// A loop that runs at `fps` frames per second. `start` is the reading
    /// of the clock now; the first thing to do is to read it again, for the
    /// start of the first iteration.
    pub fn new(fps: u8, start: u128) -> (game_loop: GameLoop)
        requires
            fps > 0,
        ensures
            game_loop@ == LoopView::fresh(fps, start as nat),
    {
        let millis: u64 = 1000 / (fps as u64);
        GameLoop { interval: millis * NANOS_PER_MILLI, iteration_start: start, phase: Phase::Starting }
    }

    /// What the machine waits for.
    pub fn phase(&self) -> (phase: Phase)
        ensures
            phase == self@.phase,
    {
        self.phase
    }

    /// The time that one iteration should take, in nanoseconds.
    pub fn interval(&self) -> (nanos: u64)
        ensures
            nanos == self@.interval,
    {
        self.interval
    }

    /// Whether `event` is what the machine waits for.
    pub fn expects(&self, event: Event) -> (yes: bool)
        ensures
            yes == self@.expects(event),
    {
        match (self.phase, event) {
            (Phase::Starting, Event::Clock { now }) => now >= self.iteration_start,
            (Phase::Polling { .. }, Event::Polled { .. }) => true,
            (Phase::Advancing { .. }, Event::Advanced) => true,
            (Phase::Drawing { .. }, Event::Drawn { .. }) => true,
            (Phase::Ending { .. }, Event::Clock { now }) => now >= self.iteration_start,
            (Phase::Sleeping { .. }, Event::Slept) => true,
            _ => false,
        }
    }

    /// Takes in what happened and says what to do next.
    pub fn step(&mut self, event: Event) -> (action: Action)
        requires
            old(self)@.expects(event),
        ensures
            old(self)@.step(event) == Some((final(self)@, action)),
    {
        match (self.phase, event) {
            (Phase::Starting, Event::Clock { now }) => {
                let elapsed = now - self.iteration_start;
                self.iteration_start = now;
                self.phase = Phase::Polling { elapsed };
                Action::Poll
            },
            (Phase::Polling { elapsed }, Event::Polled { proceed }) => {
                self.phase = Phase::Advancing { proceed };
                Action::Advance { elapsed }
            },
            (Phase::Advancing { proceed }, Event::Advanced) => {
                self.phase = Phase::Drawing { proceed };
                Action::Draw
            },
            (Phase::Drawing { proceed }, Event::Drawn { ok }) => {
                if ok {
                    self.phase = Phase::Ending { proceed };
                    Action::ReadClock
                } else {
                    self.phase = Phase::Stopped;
                    Action::Stop { outcome: Outcome::DrawFailed }
                }
            },
            (Phase::Ending { proceed }, Event::Clock { now }) => {
                let cost = now - self.iteration_start;
                if cost < self.interval as u128 {
                    self.phase = Phase::Sleeping { proceed };
                    Action::Sleep { nanos: self.interval - cost as u64 }
                } else {
                    self.go_on(proceed)
                }
            },
            (Phase::Sleeping { proceed }, Event::Slept) => self.go_on(proceed),
            _ => unreached(),
        }
    }

    /// Starts the next iteration, or stops if the game asked to.
    fn go_on(&mut self, proceed: bool) -> (action: Action)
        ensures
            (final(self)@, action) == old(self)@.after_iteration(proceed),
    {
        if proceed {
            self.phase = Phase::Starting;
            Action::ReadClock
        } else {
            self.phase = Phase::Stopped;
            Action::Stop { outcome: Outcome::Finished }
        }
    }
}

/// A game that asks to stop at its first poll is advanced once and drawn
/// once. Then the loop sleeps for what is left of the frame, if anything
/// is, and ends.
pub proof fn lemma_stop_at_first_poll(fps: u8, start: u128, begun: u128, drawn: u128)
    requires
        fps > 0,
        start <= begun <= drawn,
    ensures
        ({
            let fresh = LoopView::fresh(fps, start as nat);
            let stopped = LoopView {
                interval: target_interval(fps),
                iteration_start: begun as nat,
                phase: Phase::Stopped,
            };
            let finished = Action::Stop { outcome: Outcome::Finished };
            &&& fresh.step(Event::Clock { now: begun }) matches Some((polling, first))
            &&& first == Action::Poll
            &&& polling.step(Event::Polled { proceed: false }) matches Some((advancing, second))
            &&& second == Action::Advance { elapsed: (begun - start) as u128 }
            &&& advancing.step(Event::Advanced) matches Some((drawing, third))
            &&& third == Action::Draw
            &&& drawing.step(Event::Drawn { ok: true }) matches Some((ending, fourth))
            &&& fourth == Action::ReadClock
            &&& ending.step(Event::Clock { now: drawn }) matches Some((pacing, fifth))
            &&& if drawn - begun < target_interval(fps) {
                &&& fifth == Action::Sleep { nanos: (target_interval(fps) - (drawn - begun)) as u64 }
                &&& pacing.step(Event::Slept) == Some((stopped, finished))
            } else {
                (pacing, fifth) == (stopped, finished)
            }
        }),
{
}

/// An iteration is never cut short, and never stretched when it is late:
/// once its work is done, the loop sleeps for exactly what is left of the
/// interval, and does not sleep at all if nothing is left.
pub proof fn lemma_sleep_fills_interval(state: LoopView, proceed: bool, now: u128)
    requires
        state.phase == (Phase::Ending { proceed }),
        state.interval <= u64::MAX,
        now >= state.iteration_start,
    ensures
        match state.step(Event::Clock { now }) {
            Some((_, Action::Sleep { nanos })) => nanos > 0 && state.cost(now) + nanos == state.interval,
            Some((next, action)) => state.cost(now) >= state.interval && (next, action)
                == state.after_iteration(proceed),
            None => false,
        },
{
}

/// At ten frames per second an iteration takes a tenth of a second.
pub proof fn lemma_interval_at_ten_fps()
    ensures
        target_interval(10) == 100 * NANOS_PER_MILLI,
{
}

/// A drawing that fails ends the loop at once.
pub proof fn lemma_failed_draw_stops(state: LoopView, proceed: bool)
    requires
        state.phase == (Phase::Drawing { proceed }),
    ensures
        state.step(Event::Drawn { ok: false }) == Some(
            (
                LoopView { phase: Phase::Stopped, ..state },
                Action::Stop { outcome: Outcome::DrawFailed },
            ),
        ),
{
}

/// A loop that has stopped takes no more events.
pub proof fn lemma_stopped_is_final(state: LoopView, event: Event)
    requires
        state.phase == Phase::Stopped,
    ensures
        !state.expects(event),
{
}

} // verus!
