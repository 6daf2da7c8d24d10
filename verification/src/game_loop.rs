//! The pace of the game loop. The loop itself waits, reads the clock and
//! polls the keyboard, which this library does not do; what it decides is
//! here: how long to wait so that frames do not follow each other faster
//! than the terminal can show them, which time a frame is handed, and when
//! the loop is over.

use vstd::prelude::*;

verus! {

/// The least time between the starts of two frames, in microseconds.
/// Drawing faster than this makes the terminal flicker.
pub const MIN_FRAME_MICROS: u64 = 40_000;

/// What the loop is waiting for.
#[derive(Clone, Copy, Debug, PartialEq, Eq, Structural)]
pub enum LoopPhase {
    /// For the time since the last frame started.
    Measuring,
    /// For the time since the last frame started, after a wait.
    Remeasuring,
    /// For the outcome of a frame.
    Framing,
    /// For nothing: the loop is over.
    Finished,
}

/// What the loop has learned.
#[derive(Clone, Copy, Debug, PartialEq, Eq, Structural)]
pub enum LoopEvent {
    /// The time since the last frame started, in microseconds, or nothing
    /// if the clock could not tell.
    Elapsed(Option<u64>),
    /// A frame is done; `running` is what it answered.
    FrameDone { running: bool },
}

/// What the loop is to do next.
#[derive(Clone, Copy, Debug, PartialEq, Eq, Structural)]
pub enum LoopAction {
    /// Read the time since the last frame started.
    Measure,
    /// Wait for this many microseconds, then read the time again.
    Sleep(u64),
    /// Restart the clock, sample the keyboard and run a frame with this
    /// many microseconds as the time since the last one.
    Frame(u64),
    /// Give the terminal back and leave the loop.
    Restore,
    /// Nothing: the event did not fit what the loop was waiting for, or the
    /// loop is over.
    Nothing,
}

/// The time that a measurement stands for. A clock that could not tell
/// counts as no time at all, so that the frame makes no progress.
pub open spec fn measured(elapsed: Option<u64>) -> u64 {
    match elapsed {
        Some(e) => e,
        None => 0,
    }
}

/// How long to wait when `elapsed` microseconds have passed since the last
/// frame started: what is missing to the least frame time.
pub open spec fn spec_pause(elapsed: u64) -> u64 {
    if elapsed < MIN_FRAME_MICROS {
        (MIN_FRAME_MICROS - elapsed) as u64
    } else {
        0
    }
}

/// How long to wait when `elapsed` microseconds have passed since the last
/// frame started: what is missing to the least frame time. After the wait
/// the least frame time has passed.
#[verifier::when_used_as_spec(spec_pause)]
pub fn pause(elapsed: u64) -> (wait: u64)
    ensures
        wait == spec_pause(elapsed),
        elapsed + wait >= MIN_FRAME_MICROS,
        wait > 0 <==> elapsed < MIN_FRAME_MICROS,
{
    if elapsed < MIN_FRAME_MICROS {
        MIN_FRAME_MICROS - elapsed
    } else {
        0
    }
}

/// The phase that follows when an event arrives in a phase.
pub open spec fn next_phase(phase: LoopPhase, event: LoopEvent) -> LoopPhase {
    match (phase, event) {
        (LoopPhase::Measuring, LoopEvent::Elapsed(e)) => if measured(e) < MIN_FRAME_MICROS {
            LoopPhase::Remeasuring
        } else {
            LoopPhase::Framing
        },
        (LoopPhase::Remeasuring, LoopEvent::Elapsed(_)) => LoopPhase::Framing,
        (LoopPhase::Framing, LoopEvent::FrameDone { running }) => if running {
            LoopPhase::Measuring
        } else {
            LoopPhase::Finished
        },
        _ => phase,
    }
}

/// What is to be done when an event arrives in a phase.
pub open spec fn next_action(phase: LoopPhase, event: LoopEvent) -> LoopAction {
    match (phase, event) {
        (LoopPhase::Measuring, LoopEvent::Elapsed(e)) => if measured(e) < MIN_FRAME_MICROS {
            LoopAction::Sleep(spec_pause(measured(e)))
        } else {
            LoopAction::Frame(measured(e))
        },
        (LoopPhase::Remeasuring, LoopEvent::Elapsed(e)) => LoopAction::Frame(measured(e)),
        (LoopPhase::Framing, LoopEvent::FrameDone { running }) => if running {
            LoopAction::Measure
        } else {
            LoopAction::Restore
        },
        _ => LoopAction::Nothing,
    }
}

/// The game loop's own state.
pub struct GameLoop {
    phase: LoopPhase,
}

impl View for GameLoop {
    type V = LoopPhase;

    closed spec fn view(&self) -> LoopPhase {
        self.phase
    }
}

impl GameLoop {
    /// A loop that is about to read the clock for its first frame.
    pub fn new() -> (game_loop: GameLoop)
        ensures
            game_loop@ == LoopPhase::Measuring,
    {
        GameLoop { phase: LoopPhase::Measuring }
    }

    /// What the loop is waiting for.
    pub fn phase(&self) -> (phase: LoopPhase)
        ensures
            phase == self@,
    {
        self.phase
    }

    /// Whether the loop is over.
    pub fn is_finished(&self) -> (finished: bool)
        ensures
            finished == (self@ == LoopPhase::Finished),
    {
        self.phase == LoopPhase::Finished
    }

    /// Takes an event and says what to do next. A first measurement under
    /// the least frame time asks for a wait and a second measurement; the
    /// frame is then handed what the second measurement says, whatever it
    /// is. A frame that answers `false` ends the loop. An event that does
    /// not fit the phase changes nothing.
    pub fn step(&mut self, event: LoopEvent) -> (action: LoopAction)
        ensures
            final(self)@ == next_phase(old(self)@, event),
            action == next_action(old(self)@, event),
    {
        match (self.phase, event) {
            (LoopPhase::Measuring, LoopEvent::Elapsed(e)) => {
                let elapsed: u64 = match e {
                    Some(t) => t,
                    None => 0,
                };
                if elapsed < MIN_FRAME_MICROS {
                    self.phase = LoopPhase::Remeasuring;
                    LoopAction::Sleep(pause(elapsed))
                } else {
                    self.phase = LoopPhase::Framing;
                    LoopAction::Frame(elapsed)
                }
            },
            (LoopPhase::Remeasuring, LoopEvent::Elapsed(e)) => {
                let elapsed: u64 = match e {
                    Some(t) => t,
                    None => 0,
                };
                self.phase = LoopPhase::Framing;
                LoopAction::Frame(elapsed)
            },
            (LoopPhase::Framing, LoopEvent::FrameDone { running }) => {
                if running {
                    self.phase = LoopPhase::Measuring;
                    LoopAction::Measure
                } else {
                    self.phase = LoopPhase::Finished;
                    LoopAction::Restore
                }
            },
            _ => LoopAction::Nothing,
        }
    }
}

/// A wait fills the frame up to the least frame time: if the clock, read
/// again after the wait, has moved on by at least the time waited, the frame
/// is handed at least the least frame time.
pub proof fn lemma_pause_reaches_floor(elapsed: u64, after: u64)
    requires
        elapsed < MIN_FRAME_MICROS,
        after >= elapsed + spec_pause(elapsed),
    ensures
        next_action(LoopPhase::Measuring, LoopEvent::Elapsed(Some(elapsed))) == LoopAction::Sleep(
            spec_pause(elapsed),
        ),
        next_action(
            next_phase(LoopPhase::Measuring, LoopEvent::Elapsed(Some(elapsed))),
            LoopEvent::Elapsed(Some(after)),
        ) == LoopAction::Frame(after),
        after >= MIN_FRAME_MICROS,
{
}

/// Once over, always over: a finished loop stays finished and asks for
/// nothing more, whatever it is told.
pub proof fn lemma_finished_is_final(event: LoopEvent)
    ensures
        next_phase(LoopPhase::Finished, event) == LoopPhase::Finished,
        next_action(LoopPhase::Finished, event) == LoopAction::Nothing,
{
}

} // verus!
