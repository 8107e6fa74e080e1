//! The whole machine in one value: processor, memory, display, keyboard and
//! the two timers.

use vstd::prelude::*;
use crate::cpu::Cpu;
use crate::display::{blank_frame, Display};
use crate::keyboard::KeyBoard;
use crate::memory::{Memory, MEMORY_SIZE};
use crate::semantics::{run_spec, CpuError, CpuState, Machine, Signal};
use crate::sound::{tone_due, SoundState, SoundSystem, Tone};
use crate::timer::{ticked, DelayTimer};

verus! {

/// The machine. Its view is the [`Machine`] that the semantics speak of.
pub struct System {
    cpu: Cpu,
    mem: Memory,
    delay: DelayTimer,
    sound: SoundSystem,
    display: Display,
    keyboard: KeyBoard,
}

impl View for System {
    type V = Machine;

    closed spec fn view(&self) -> Machine {
        Machine {
            cpu: self.cpu@,
            memory: self.mem@,
            delay: self.delay@,
            display: self.display@,
            keyboard: self.keyboard@,
            sound: self.sound@,
        }
    }
}

/// The machine as it is switched on: processor and memory at zero, the
/// display blank, both timers run down, no tone, and `q` pressed.
pub open spec fn initial_machine() -> Machine {
    Machine {
        cpu: CpuState::initial(),
        memory: Seq::new(MEMORY_SIZE as nat, |i: int| 0u8),
        delay: 0,
        display: blank_frame(),
        keyboard: Some(0x71u8),
        sound: SoundState { ticks: 0, playing: false },
    }
}

impl System {
    /// The machine as it is switched on.
    pub fn new() -> (system: Self)
        ensures
            system@ == initial_machine(),
    {
        Self {
            cpu: Cpu::new(),
            mem: Memory::new(),
            delay: DelayTimer::start_new(),
            sound: SoundSystem::start_new(),
            display: Display::new(),
            keyboard: KeyBoard::new(),
        }
    }

    /// Runs the processor on this machine; see [`Cpu::run`].
    pub fn run(&mut self, max_steps: usize) -> (res: Result<Signal, CpuError>)
        ensures
            exists|randoms: Seq<u8>|
                {
                    &&& randoms.len() <= max_steps
                    &&& res == Ok::<Signal, CpuError>(Signal::Continue) ==> randoms.len()
                        == max_steps
                    &&& #[trigger] run_spec(old(self)@, randoms) == (final(self)@, res)
                },
    {
        let ghost before = self@;
        let res = self.cpu.run(
            &mut self.mem,
            &mut self.delay,
            &mut self.display,
            &mut self.keyboard,
            &mut self.sound,
            max_steps,
        );
        proof {
            let randoms = choose|randoms: Seq<u8>|
                {
                    &&& randoms.len() <= max_steps
                    &&& res == Ok::<Signal, CpuError>(Signal::Continue) ==> randoms.len()
                        == max_steps
                    &&& #[trigger] run_spec(before, randoms) == (self@, res)
                };
            assert(run_spec(before, randoms) == (self@, res));
        }
        res
    }

    /// One tick of the 60 Hz clock: both timers count down by one.
    pub fn tick(&mut self)
        ensures
            final(self)@ == (Machine {
                delay: ticked(old(self)@.delay),
                sound: SoundState { ticks: ticked(old(self)@.sound.ticks), ..old(self)@.sound },
                ..old(self)@
            }),
    {
        self.delay.tick();
        self.sound.tick();
    }

    /// Brings the tone in line with the sound timer; see
    /// [`SoundSystem::tone_change`].
    pub fn tone_change(&mut self) -> (change: Option<Tone>)
        ensures
            change == tone_due(old(self)@.sound),
            final(self)@ == (Machine {
                sound: SoundState {
                    ticks: old(self)@.sound.ticks,
                    playing: old(self)@.sound.ticks != 0,
                },
                ..old(self)@
            }),
    {
        self.sound.tone_change()
    }

    /// Records a key press.
    pub fn press(&mut self, key: u8)
        ensures
            final(self)@ == (Machine { keyboard: Some(key), ..old(self)@ }),
    {
        self.keyboard.press(key);
    }

    pub fn memory(&mut self) -> (mem: &Memory)
        ensures
            mem@ == old(self)@.memory,
            final(self)@ == old(self)@,
    {
        &self.mem
    }

    pub fn memory_mut(&mut self) -> (mem: &mut Memory)
        ensures
            mem@ == old(self)@.memory,
            final(self)@ == (Machine { memory: final(mem)@, ..old(self)@ }),
    {
        &mut self.mem
    }

    pub fn cpu(&self) -> (cpu: &Cpu)
        ensures
            cpu@ == self@.cpu,
    {
        &self.cpu
    }

    pub fn display(&self) -> (display: &Display)
        ensures
            display@ == self@.display,
    {
        &self.display
    }
}

} // verus!
