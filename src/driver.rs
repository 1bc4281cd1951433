//! The decisions of the tick driver: which grid operation a key or the timer
//! asks for, and when generations advance on their own. Reading keys, timing
//! and drawing are left to the caller, which performs the returned command.
use vstd::prelude::*;

verus! {

/// Default time between automatic generations, in milliseconds.
pub const TICK_PERIOD_MS: u64 = 200;

/// What the caller is to do after an event.
#[derive(Debug, Clone, Copy, PartialEq, Eq, Structural)]
pub enum Command {
    /// Leave the loop.
    Quit,
    /// Seed the grid at random.
    Randomize,
    /// Advance the grid one generation.
    Step,
    /// Nothing to do on the grid.
    Idle,
}

/// The driver's own state: whether generations advance automatically.
#[derive(Debug, Clone, Copy, PartialEq, Eq, Structural)]
pub struct Driver {
    pub auto: bool,
}

/// What the timer asks for once a period may have run out.
#[derive(Debug, Clone, Copy, PartialEq, Eq, Structural)]
pub struct TimerAction {
    /// Advance the grid one generation.
    pub step: bool,
    /// Restart the period from now.
    pub restart: bool,
}

impl Driver {
    /// A driver that waits for keys: automatic advance is off.
    pub fn new() -> (d: Driver)
        ensures
            !d.auto,
    {
        Driver { auto: false }
    }

    /// Handles a key: `q` quits, `r` seeds at random and pauses, `s` steps once,
    /// `a` turns automatic advance on and `e` turns it off; any other key does
    /// nothing.
    pub fn on_key(&mut self, key: char) -> (c: Command)
        ensures
            key == 'q' ==> c == Command::Quit && final(self).auto == old(self).auto,
            key == 'r' ==> c == Command::Randomize && !final(self).auto,
            key == 's' ==> c == Command::Step && final(self).auto == old(self).auto,
            key == 'a' ==> c == Command::Idle && final(self).auto,
            key == 'e' ==> c == Command::Idle && !final(self).auto,
            !(key == 'q' || key == 'r' || key == 's' || key == 'a' || key == 'e') ==> c
                == Command::Idle && final(self).auto == old(self).auto,
    {
        if key == 'q' {
            Command::Quit
        } else if key == 'r' {
            self.auto = false;
            Command::Randomize
        } else if key == 's' {
            Command::Step
        } else if key == 'a' {
            self.auto = true;
            Command::Idle
        } else if key == 'e' {
            self.auto = false;
            Command::Idle
        } else {
            Command::Idle
        }
    }

    /// Once `elapsed_ms` since the last tick reaches `period_ms`, the period
    /// restarts, and the grid advances when automatic advance is on.
    pub fn on_timer(&self, elapsed_ms: u64, period_ms: u64) -> (t: TimerAction)
        ensures
            t.restart == (elapsed_ms >= period_ms),
            t.step == (elapsed_ms >= period_ms && self.auto),
    {
        let due = elapsed_ms >= period_ms;
        TimerAction { step: due && self.auto, restart: due }
    }
}

/// How long to wait for a key: what is left of the period, or zero once it has
/// run out.
pub fn poll_timeout(period_ms: u64, elapsed_ms: u64) -> (r: u64)
    ensures
        elapsed_ms <= period_ms ==> r == period_ms - elapsed_ms,
        elapsed_ms > period_ms ==> r == 0,
{
    if elapsed_ms <= period_ms {
        period_ms - elapsed_ms
    } else {
        0
    }
}

} // verus!
