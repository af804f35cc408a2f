//! The decisions of a front end's main loop: when the timers tick and
//! whether the engine runs a cycle. The front end reads its clock and its
//! keys, asks here what to do, and does it.

use vstd::prelude::*;

verus! {

/// Milliseconds between two decrements of the delay timer, which counts at
/// 60 Hz. The engine has no clock: its caller keeps the pace.
pub const DELAY_INCREMENT: u32 = 16;

/// Milliseconds between two decrements of the sound timer.
pub const SOUND_DELAY_INCREMENT: u32 = 16;

/// What a front end saw in one pass of its loop.
#[derive(Debug, Clone, Copy, PartialEq, Eq, Structural)]
pub struct Tick {
    /// Milliseconds since the delay timer was last decremented.
    pub since_delay_tick: i64,
    /// Milliseconds since the sound timer was last decremented.
    pub since_sound_tick: i64,
    /// The key that runs a single cycle while the engine is stopped.
    pub step_pressed: bool,
    /// The key that stops the engine.
    pub stop_pressed: bool,
    /// The key that lets the engine run again.
    pub continue_pressed: bool,
}

/// What a front end is to do in one pass of its loop.
#[derive(Debug, Clone, Copy, PartialEq, Eq, Structural)]
pub struct Actions {
    /// Decrement the delay timer.
    pub decrement_delay: bool,
    /// Decrement the sound timer.
    pub decrement_sound: bool,
    /// Run one cycle of the engine.
    pub run_cycle: bool,
}

/// Whether the engine runs freely or waits to be stepped.
#[derive(Debug, Clone, Copy, PartialEq, Eq, Structural)]
pub struct Control {
    pub should_run: bool,
}

impl Control {
    /// A control that lets the engine run.
    pub fn initialise() -> (control: Self)
        ensures
            control.should_run,
    {
        Control { should_run: true }
    }

    /// Decides one pass of the loop. A timer is decremented once more than
    /// its period has gone by. The engine runs a cycle if it was running
    /// when the pass began, or if it is stepped. The stop and continue keys
    /// take effect from the next pass on; where both are pressed, the
    /// engine runs.
    pub fn advance(&mut self, tick: &Tick) -> (actions: Actions)
        ensures
            actions.decrement_delay == (tick.since_delay_tick > DELAY_INCREMENT),
            actions.decrement_sound == (tick.since_sound_tick > SOUND_DELAY_INCREMENT),
            actions.run_cycle == (old(self).should_run || tick.step_pressed),
            final(self).should_run == (tick.continue_pressed || (old(self).should_run
                && !tick.stop_pressed)),
    {
        let actions = Actions {
            decrement_delay: tick.since_delay_tick > DELAY_INCREMENT as i64,
            decrement_sound: tick.since_sound_tick > SOUND_DELAY_INCREMENT as i64,
            run_cycle: self.should_run || tick.step_pressed,
        };
        if tick.stop_pressed {
            self.should_run = false;
        }
        if tick.continue_pressed {
            self.should_run = true;
        }
        actions
    }
}

} // verus!
