//! Countdown timer devices. A device holds the count left and the address of
//! the handler routine to call on expiry. The machine owns at most one device
//! per slot (delay, sound); the 60 Hz scheduling context that drives the
//! countdown lives outside the library and advances it through `tick`.

use vstd::prelude::*;

verus! {

/// Control signals a timer's scheduling context accepts.
#[derive(Debug, Clone, Copy, PartialEq, Eq, Structural)]
pub enum Signals {
    /// Terminate the countdown and drop the device.
    KILL,
    /// Suspend the countdown until a matching `RES`.
    STP,
    /// Resume a suspended countdown.
    RES,
}

/// Countdown state of one timer device.
#[derive(Debug, Clone, Copy, PartialEq, Eq, Structural)]
pub struct TimerThread {
    /// Ticks left before the handler fires.
    pub timer: u8,
    /// Address of the routine that handles the end of the countdown.
    pub rti: u16,
    /// Whether the countdown is suspended by an `STP` signal.
    pub paused: bool,
}

/// The device state after one 1/60 s tick.
pub open spec fn spec_tick(t: TimerThread) -> TimerThread {
    if t.paused || t.timer == 0 {
        t
    } else {
        TimerThread { timer: (t.timer - 1) as u8, ..t }
    }
}

/// The slot state after a control signal: `KILL` empties the slot, `STP`
/// suspends the countdown, `RES` resumes it.
pub open spec fn spec_signal(t: TimerThread, sig: Signals) -> Option<TimerThread> {
    match sig {
        Signals::KILL => None,
        Signals::STP => Some(TimerThread { paused: true, ..t }),
        Signals::RES => Some(TimerThread { paused: false, ..t }),
    }
}

impl TimerThread {
    /// A fresh running device with `count` ticks and handler address `rti`.
    pub fn new(count: u8, rti: u16) -> (t: TimerThread)
        ensures
            t == (TimerThread { timer: count, rti, paused: false }),
    {
        TimerThread { timer: count, rti, paused: false }
    }

    /// One 1/60 s step of the countdown; a suspended or expired device keeps
    /// its count.
    pub fn tick(&mut self)
        ensures
            *final(self) == spec_tick(*old(self)),
    {
        if !self.paused && self.timer > 0 {
            self.timer = self.timer - 1;
        }
    }
}

} // verus!
