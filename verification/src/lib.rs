//! A virtual machine for the CHIP-8 instruction set: a bounds-checked memory,
//! a monochrome framebuffer, an instruction decoder and the processor that
//! ties them together. Every function carries a contract over the
//! mathematical view of the state it touches.

pub mod cpu;
pub mod display;
pub mod instructions;
pub mod keyboard;
pub mod memory;
pub mod progloader;
pub mod semantics;
pub mod sound;
pub mod system;
pub mod text;
pub mod timer;

pub use crate::cpu::Cpu;
pub use crate::display::Display;
pub use crate::instructions::Instruction;
pub use crate::keyboard::KeyBoard;
pub use crate::memory::{Memory, MemoryError};
pub use crate::semantics::{CpuError, Signal};
pub use crate::sound::{SoundSystem, Tone};
pub use crate::system::System;
pub use crate::timer::DelayTimer;
