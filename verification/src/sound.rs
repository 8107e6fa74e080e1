//! The sound timer and the tone it governs: the tone is to sound exactly
//! while the timer is not zero. The tone itself is made elsewhere; this
//! module decides when it starts and stops.

use vstd::prelude::*;
use crate::timer::{ticked, Timer};

verus! {

/// What is to be done with the tone.
#[derive(Clone, Copy, Debug, PartialEq, Eq, Structural)]
pub enum Tone {
    /// Start the tone: the timer left zero.
    Start,
    /// Stop the tone: the timer reached zero.
    Stop,
}

/// What a [`SoundSystem`] holds.
pub struct SoundState {
    /// Ticks for which the tone is still to sound.
    pub ticks: u8,
    /// Whether the tone was last told to sound.
    pub playing: bool,
}

/// What [`SoundSystem::tone_change`] answers in a given state.
pub open spec fn tone_due(state: SoundState) -> Option<Tone> {
    if state.ticks == 0 && state.playing {
        Some(Tone::Stop)
    } else if state.ticks != 0 && !state.playing {
        Some(Tone::Start)
    } else {
        None
    }
}

/// The sound timer together with the state of the tone.
pub struct SoundSystem {
    timer: Timer,
    playing: bool,
}

impl View for SoundSystem {
    type V = SoundState;

    closed spec fn view(&self) -> SoundState {
        SoundState { ticks: self.timer@, playing: self.playing }
    }
}

impl SoundSystem {
    /// A silent sound system whose timer has run down.
    pub fn start_new() -> (sound: Self)
        ensures
            sound@ == (SoundState { ticks: 0, playing: false }),
    {
        Self { timer: Timer::new(), playing: false }
    }

    pub fn set_timer(&mut self, value: u8)
        ensures
            final(self)@ == (SoundState { ticks: value, playing: old(self)@.playing }),
    {
        self.timer.set(value);
    }

    pub fn get_timer(&self) -> (ticks: u8)
        ensures
            ticks == self@.ticks,
    {
        self.timer.get()
    }

    /// One tick of the clock.
    pub fn tick(&mut self)
        ensures
            final(self)@ == (SoundState {
                ticks: ticked(old(self)@.ticks),
                playing: old(self)@.playing,
            }),
    {
        let _ = self.timer.tick();
    }

    /// Whether the tone was last told to sound.
    pub fn is_playing(&self) -> (playing: bool)
        ensures
            playing == self@.playing,
    {
        self.playing
    }

    /// Brings the tone in line with the timer: answers `Start` where the
    /// timer is running and the tone is off, `Stop` where the timer has run
    /// down and the tone is on, and nothing where they agree. The answer is
    /// taken as carried out.
    pub fn tone_change(&mut self) -> (change: Option<Tone>)
        ensures
            change == tone_due(old(self)@),
            final(self)@ == (SoundState {
                ticks: old(self)@.ticks,
                playing: old(self)@.ticks != 0,
            }),
    {
        let change: u8 = self.timer.get();
        if change == 0 {
            if self.playing {
                self.playing = false;
                Some(Tone::Stop)
            } else {
                None
            }
        } else {
            if !self.playing {
                self.playing = true;
                Some(Tone::Start)
            } else {
                None
            }
        }
    }
}

} // verus!
