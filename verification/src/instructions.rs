//! The instruction set and its decoder.
//!
//! In the descriptions below `VX` and `VY` are the registers named by the
//! instruction, `VF` is the flag register, `I` the index register, `[I]` the
//! memory at the address in `I`, and `N`, `NN`, `NNN` are immediates of 4, 8
//! and 12 bits.

use vstd::prelude::*;

verus! {

/// An address in memory.
pub type MemAddr = usize;

/// The number of a register, `0x0` to `0xF`.
pub type RegId = usize;

/// A decoded instruction with the operands its kind carries.
#[derive(Debug, Copy, Clone, PartialEq, Eq, Structural)]
pub enum Instruction {
    /// `LD VX NN`: `VX <- NN`
    AssignXImm(RegId, u8),
    /// `ADD VX NN`: `VX <- VX + NN`, wrapping, `VF` untouched
    AddXImm(RegId, u8),
    /// `LD VX VY`: `VX <- VY`
    AssignXY(RegId, RegId),
    /// `OR VX VY`: `VX <- VX | VY`
    OrXY(RegId, RegId),
    /// `AND VX VY`: `VX <- VX & VY`
    AndXY(RegId, RegId),
    /// `XOR VX VY`: `VX <- VX ^ VY`
    XorXY(RegId, RegId),
    /// `ADD VX VY`: `VX <- VX + VY`, wrapping; `VF <- 1` on overflow, else `0`
    AddXY(RegId, RegId),
    /// `SUB VX VY`: `VX <- VX - VY`, wrapping; `VF <- 0` on borrow, else `1`
    SubXY(RegId, RegId),
    /// `SHR VX`: `VF <-` lowest bit of `VX`, then `VX <- VX >> 1`
    Shr1X(RegId),
    /// `SUBN VX VY`: `VX <- VY - VX`, wrapping; `VF <- 0` on borrow, else `1`
    SubYX(RegId, RegId),
    /// `SHL VX`: `VF <-` highest bit of `VX`, then `VX <- VX << 1`
    Shl1X(RegId),
    /// `CLS`: blank the display
    DispClear,
    /// `DRW VX VY N`: draw the `N`-row sprite at `[I]` to column `VX`, row
    /// `VY`; `VF <- 1` if a pixel flipped, else `0`
    DispDraw(RegId, RegId, u8),
    /// `SE VX NN`: skip the next instruction if `VX == NN`
    SkipIfEqX(RegId, u8),
    /// `SNE VX NN`: skip the next instruction if `VX != NN`
    SkipIfNeX(RegId, u8),
    /// `SE VX VY`: skip the next instruction if `VX == VY`
    SkipIfEqXY(RegId, RegId),
    /// `SNE VX VY`: skip the next instruction if `VX != VY`
    SkipIfNeXY(RegId, RegId),
    /// `JP NNN`: `PC <- NNN`
    Jump(MemAddr),
    /// `JP V0 NNN`: `PC <- V0 + NNN`
    JumpV0(MemAddr),
    /// `CALL NNN`: push `PC`, then `PC <- NNN`
    Call(MemAddr),
    /// `RET`: pop the stack into `PC`
    Ret,
    /// `SYS NNN` and other words that are accepted and ignored
    NoOp(u16),
    /// `SKP VX`: skip the next instruction if the key held is `VX`
    SkipIfKeyEqX(RegId),
    /// `SKNP VX`: skip the next instruction if the key held is not `VX`
    SkipIfKeyNeX(RegId),
    /// `LD VX DT`: `VX <-` delay timer
    GetDelayX(RegId),
    /// `LD VX K`: wait for a key press, then `VX <-` that key
    AwaitKeyX(RegId),
    /// `LD DT VX`: delay timer `<- VX`
    SetDelayX(RegId),
    /// `LD ST VX`: sound timer `<- VX`
    SetSoundX(RegId),
    /// `LD I NNN`: `I <- NNN`
    SetI(MemAddr),
    /// `ADD I VX`: `I <- I + VX`
    AddIX(RegId),
    /// `LD F VX`: `I <-` address of the built-in sprite for the digit `VX`
    SpriteAddrIX(RegId),
    /// `LD B VX`: `[I], [I+1], [I+2] <-` the three decimal digits of `VX`
    DumpBcdIX(RegId),
    /// `LD [I] VX`: `[I], .. <- V0 ..= VX`
    RegDumpIX(RegId),
    /// `LD VX [I]`: `V0 ..= VX <- [I], ..`
    RegLoadIX(RegId),
    /// `RND VX NN`: `VX <-` random byte `& NN`
    RandX(RegId, u8),
    /// Stops the processor.
    Halt,
    /// A word that is no instruction; carries the word.
    Unsupported(u16),
}

/// Bits 12 to 15: the class of the instruction.
pub open spec fn op_class(opcode: u16) -> int {
    opcode as int / 0x1000
}

/// Bits 8 to 11: the first register operand.
pub open spec fn op_x(opcode: u16) -> RegId {
    ((opcode as int / 0x100) % 0x10) as usize
}

/// Bits 4 to 7: the second register operand.
pub open spec fn op_y(opcode: u16) -> RegId {
    ((opcode as int / 0x10) % 0x10) as usize
}

/// Bits 0 to 3.
pub open spec fn op_n(opcode: u16) -> u8 {
    (opcode as int % 0x10) as u8
}

/// Bits 0 to 7.
pub open spec fn op_nn(opcode: u16) -> u8 {
    (opcode as int % 0x100) as u8
}

/// Bits 0 to 11.
pub open spec fn op_nnn(opcode: u16) -> MemAddr {
    (opcode as int % 0x1000) as usize
}

/// Class `0x8`: arithmetic and logic on two registers, told apart by the
/// lowest nibble.
pub open spec fn decode_alu(opcode: u16) -> Instruction {
    let x = op_x(opcode);
    let y = op_y(opcode);
    let n = op_n(opcode);
    if n == 0x0 {
        Instruction::AssignXY(x, y)
    } else if n == 0x1 {
        Instruction::OrXY(x, y)
    } else if n == 0x2 {
        Instruction::AndXY(x, y)
    } else if n == 0x3 {
        Instruction::XorXY(x, y)
    } else if n == 0x4 {
        Instruction::AddXY(x, y)
    } else if n == 0x5 {
        Instruction::SubXY(x, y)
    } else if n == 0x6 {
        Instruction::Shr1X(x)
    } else if n == 0x7 {
        Instruction::SubYX(x, y)
    } else if n == 0xE {
        Instruction::Shl1X(x)
    } else {
        Instruction::Unsupported(opcode)
    }
}

/// Class `0xF`: timers, keys and memory blocks, told apart by the low byte.
pub open spec fn decode_misc(opcode: u16) -> Instruction {
    let x = op_x(opcode);
    let nn = op_nn(opcode);
    if nn == 0x07 {
        Instruction::GetDelayX(x)
    } else if nn == 0x0A {
        Instruction::AwaitKeyX(x)
    } else if nn == 0x15 {
        Instruction::SetDelayX(x)
    } else if nn == 0x18 {
        Instruction::SetSoundX(x)
    } else if nn == 0x1E {
        Instruction::AddIX(x)
    } else if nn == 0x29 {
        Instruction::SpriteAddrIX(x)
    } else if nn == 0x33 {
        Instruction::DumpBcdIX(x)
    } else if nn == 0x55 {
        Instruction::RegDumpIX(x)
    } else if nn == 0x65 {
        Instruction::RegLoadIX(x)
    } else if nn == 0x17 {
        Instruction::NoOp(opcode)
    } else if opcode == 0xF000 {
        Instruction::Halt
    } else {
        Instruction::Unsupported(opcode)
    }
}

/// The instruction that a 16-bit word stands for. Every word stands for
/// exactly one; a word outside the instruction set is `Unsupported`.
pub open spec fn decode_spec(opcode: u16) -> Instruction {
    let class = op_class(opcode);
    let x = op_x(opcode);
    let y = op_y(opcode);
    let n = op_n(opcode);
    let nn = op_nn(opcode);
    let nnn = op_nnn(opcode);
    if class == 0x0 {
        if opcode == 0x0000 {
            Instruction::Halt
        } else if opcode == 0x00E0 {
            Instruction::DispClear
        } else if opcode == 0x00EE {
            Instruction::Ret
        } else {
            Instruction::NoOp(opcode)
        }
    } else if class == 0x1 {
        Instruction::Jump(nnn)
    } else if class == 0x2 {
        Instruction::Call(nnn)
    } else if class == 0x3 {
        Instruction::SkipIfEqX(x, nn)
    } else if class == 0x4 {
        Instruction::SkipIfNeX(x, nn)
    } else if class == 0x5 {
        if n == 0 {
            Instruction::SkipIfEqXY(x, y)
        } else {
            Instruction::Unsupported(opcode)
        }
    } else if class == 0x6 {
        Instruction::AssignXImm(x, nn)
    } else if class == 0x7 {
        Instruction::AddXImm(x, nn)
    } else if class == 0x8 {
        decode_alu(opcode)
    } else if class == 0x9 {
        if n == 0 {
            Instruction::SkipIfNeXY(x, y)
        } else {
            Instruction::Unsupported(opcode)
        }
    } else if class == 0xA {
        Instruction::SetI(nnn)
    } else if class == 0xB {
        Instruction::JumpV0(nnn)
    } else if class == 0xC {
        Instruction::RandX(x, nn)
    } else if class == 0xD {
        Instruction::DispDraw(x, y, n)
    } else if class == 0xE {
        if nn == 0x9E {
            Instruction::SkipIfKeyEqX(x)
        } else if nn == 0xA1 {
            Instruction::SkipIfKeyNeX(x)
        } else {
            Instruction::Unsupported(opcode)
        }
    } else {
        decode_misc(opcode)
    }
}

impl Instruction {
    /// Every register operand names one of the 16 registers.
    pub open spec fn wf(self) -> bool {
        match self {
            Instruction::AssignXImm(x, _)
            | Instruction::AddXImm(x, _)
            | Instruction::SkipIfEqX(x, _)
            | Instruction::SkipIfNeX(x, _)
            | Instruction::RandX(x, _)
            | Instruction::Shr1X(x)
            | Instruction::Shl1X(x)
            | Instruction::SkipIfKeyEqX(x)
            | Instruction::SkipIfKeyNeX(x)
            | Instruction::GetDelayX(x)
            | Instruction::AwaitKeyX(x)
            | Instruction::SetDelayX(x)
            | Instruction::SetSoundX(x)
            | Instruction::AddIX(x)
            | Instruction::SpriteAddrIX(x)
            | Instruction::DumpBcdIX(x)
            | Instruction::RegDumpIX(x)
            | Instruction::RegLoadIX(x) => x < 16,
            Instruction::AssignXY(x, y)
            | Instruction::OrXY(x, y)
            | Instruction::AndXY(x, y)
            | Instruction::XorXY(x, y)
            | Instruction::AddXY(x, y)
            | Instruction::SubXY(x, y)
            | Instruction::SubYX(x, y)
            | Instruction::SkipIfEqXY(x, y)
            | Instruction::SkipIfNeXY(x, y)
            | Instruction::DispDraw(x, y, _) => x < 16 && y < 16,
            Instruction::DispClear
            | Instruction::Jump(_)
            | Instruction::JumpV0(_)
            | Instruction::Call(_)
            | Instruction::Ret
            | Instruction::NoOp(_)
            | Instruction::SetI(_)
            | Instruction::Halt
            | Instruction::Unsupported(_) => true,
        }
    }

    /// Maps a word to its instruction. Total: no word is refused.
    pub fn decode(opcode: u16) -> (instr: Self)
        ensures
            instr == decode_spec(opcode),
            instr.wf(),
    {
        let op_cls: u16 = (opcode & 0xF000) >> 12;
        let x: RegId = ((opcode & 0x0F00) >> 8) as RegId;
        let y: RegId = ((opcode & 0x00F0) >> 4) as RegId;
        let n: u8 = (opcode & 0x000F) as u8;
        let nn: u8 = (opcode & 0x00FF) as u8;
        let nnn: MemAddr = (opcode & 0x0FFF) as MemAddr;
        proof {
            assert((opcode & 0xF000) >> 12 == opcode / 0x1000) by (bit_vector);
            assert((opcode & 0x0F00) >> 8 == (opcode / 0x100) % 0x10) by (bit_vector);
            assert((opcode & 0x00F0) >> 4 == (opcode / 0x10) % 0x10) by (bit_vector);
            assert(opcode & 0x000F == opcode % 0x10) by (bit_vector);
            assert(opcode & 0x00FF == opcode % 0x100) by (bit_vector);
            assert(opcode & 0x0FFF == opcode % 0x1000) by (bit_vector);
        }
        match op_cls {
            0x0 => {
                if opcode == 0x0000 {
                    Instruction::Halt
                } else if opcode == 0x00E0 {
                    Instruction::DispClear
                } else if opcode == 0x00EE {
                    Instruction::Ret
                } else {
                    Instruction::NoOp(opcode)
                }
            },
            0x1 => Instruction::Jump(nnn),
            0x2 => Instruction::Call(nnn),
            0x3 => Instruction::SkipIfEqX(x, nn),
            0x4 => Instruction::SkipIfNeX(x, nn),
            0x5 => match n {
                0 => Instruction::SkipIfEqXY(x, y),
                _ => Instruction::Unsupported(opcode),
            },
            0x6 => Instruction::AssignXImm(x, nn),
            0x7 => Instruction::AddXImm(x, nn),
            0x8 => match n {
                0x0 => Instruction::AssignXY(x, y),
                0x1 => Instruction::OrXY(x, y),
                0x2 => Instruction::AndXY(x, y),
                0x3 => Instruction::XorXY(x, y),
                0x4 => Instruction::AddXY(x, y),
                0x5 => Instruction::SubXY(x, y),
                0x6 => Instruction::Shr1X(x),
                0x7 => Instruction::SubYX(x, y),
                0xE => Instruction::Shl1X(x),
                _ => Instruction::Unsupported(opcode),
            },
            0x9 => match n {
                0 => Instruction::SkipIfNeXY(x, y),
                _ => Instruction::Unsupported(opcode),
            },
            0xA => Instruction::SetI(nnn),
            0xB => Instruction::JumpV0(nnn),
            0xC => Instruction::RandX(x, nn),
            0xD => Instruction::DispDraw(x, y, n),
            0xE => match nn {
                0x9E => Instruction::SkipIfKeyEqX(x),
                0xA1 => Instruction::SkipIfKeyNeX(x),
                _ => Instruction::Unsupported(opcode),
            },
            _ => match nn {
                0x07 => Instruction::GetDelayX(x),
                0x0A => Instruction::AwaitKeyX(x),
                0x15 => Instruction::SetDelayX(x),
                0x18 => Instruction::SetSoundX(x),
                0x1E => Instruction::AddIX(x),
                0x29 => Instruction::SpriteAddrIX(x),
                0x33 => Instruction::DumpBcdIX(x),
                0x55 => Instruction::RegDumpIX(x),
                0x65 => Instruction::RegLoadIX(x),
                0x17 => Instruction::NoOp(opcode),
                _ => if opcode == 0xF000 {
                    Instruction::Halt
                } else {
                    Instruction::Unsupported(opcode)
                },
            },
        }
    }
}

/// Whatever the word, the operands of its instruction are in range:
/// registers below 16, addresses below 4096, sprite heights below 16; and
/// an ignored or unsupported word is carried as it is.
pub proof fn lemma_decode_operands(opcode: u16)
    ensures
        decode_spec(opcode).wf(),
        match decode_spec(opcode) {
            Instruction::Jump(addr)
            | Instruction::JumpV0(addr)
            | Instruction::Call(addr)
            | Instruction::SetI(addr) => addr < 0x1000,
            Instruction::DispDraw(_, _, height) => height < 0x10,
            Instruction::NoOp(word) | Instruction::Unsupported(word) => word == opcode,
            _ => true,
        },
{
}

} // verus!
