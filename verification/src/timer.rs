//! Counters that run down to zero, one step per tick of an outside clock.
//! The clock is not kept here: whoever owns a timer calls `tick` at 60 Hz.

use vstd::prelude::*;

verus! {

/// A count of ticks left. Its view is that count.
pub struct Timer {
    ticks: u8,
}

impl View for Timer {
    type V = u8;

    closed spec fn view(&self) -> u8 {
        self.ticks
    }
}

/// The count one tick after `ticks`: one less, and zero stays zero.
pub open spec fn ticked(ticks: u8) -> u8 {
    if ticks > 0 {
        (ticks - 1) as u8
    } else {
        0
    }
}

impl Timer {
    /// A timer that has run down.
    pub fn new() -> (timer: Self)
        ensures
            timer@ == 0,
    {
        Self { ticks: 0 }
    }

    /// One tick of the clock. Says whether the count changed.
    pub fn tick(&mut self) -> (changed: bool)
        ensures
            final(self)@ == ticked(old(self)@),
            changed == (old(self)@ > 0),
    {
        if self.ticks > 0 {
            self.ticks = self.ticks - 1;
            true
        } else {
            false
        }
    }

    pub fn set(&mut self, ticks: u8)
        ensures
            final(self)@ == ticks,
    {
        self.ticks = ticks;
    }

    pub fn get(&self) -> (ticks: u8)
        ensures
            ticks == self@,
    {
        self.ticks
    }
}

/// The timer that programs use to measure time. Its view is its count.
pub struct DelayTimer {
    timer: Timer,
}

impl View for DelayTimer {
    type V = u8;

    closed spec fn view(&self) -> u8 {
        self.timer@
    }
}

impl DelayTimer {
    /// A delay timer that has run down.
    pub fn start_new() -> (delay: Self)
        ensures
            delay@ == 0,
    {
        Self { timer: Timer::new() }
    }

    pub fn get(&mut self) -> (ticks: u8)
        ensures
            ticks == old(self)@,
            final(self)@ == old(self)@,
    {
        self.timer.get()
    }

    pub fn set(&mut self, value: u8)
        ensures
            final(self)@ == value,
    {
        self.timer.set(value);
    }

    /// One tick of the clock.
    pub fn tick(&mut self)
        ensures
            final(self)@ == ticked(old(self)@),
    {
        let _ = self.timer.tick();
    }
}

} // verus!
