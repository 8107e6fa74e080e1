//! What the machine does, as mathematics: the state of the processor and of
//! everything it touches, and for each instruction the state that follows.
//! The executable processor is proved against these functions.

use vstd::prelude::*;
use crate::display::{
    blank_frame, draw_spec, frame_wf, lemma_draw_keeps_shape, sprite_at, Frame,
};
use crate::instructions::{decode_spec, lemma_decode_operands, Instruction, MemAddr, RegId};
use crate::keyboard::key_held;
use crate::memory::{overwrite, span_in_reach, word_at, MemoryError, MEMORY_SIZE};
use crate::sound::SoundState;

verus! {

/// The register that arithmetic, shifts and draws use as their flag.
pub const COND_REG: RegId = 0xF;

/// Where the built-in sprites of the sixteen hexadecimal digits start.
pub const HEX_SPRITE_BASE: MemAddr = 0x0100;

/// Rows of one built-in digit sprite.
pub const HEX_SPRITE_HEIGHT: MemAddr = 5;

/// Return addresses that the call stack can hold.
pub const STACK_DEPTH: usize = 16;

/// Why an instruction could not be carried out.
#[derive(Clone, Copy, Debug, PartialEq, Eq, Structural)]
pub enum CpuError {
    /// A call with the stack full.
    StackOverflow,
    /// A return with the stack empty.
    StackUnderflow,
    /// An address computed past the largest address there is.
    MemoryAddressOverflow,
    /// A word that is no instruction; carries the word.
    IllegalInstruction(u16),
    /// A read or write outside memory.
    MemoryError(MemoryError),
    /// No failure: the halt instruction was reached.
    Halt,
}

impl From<MemoryError> for CpuError {
    fn from(err: MemoryError) -> (res: CpuError)
        ensures
            res == CpuError::MemoryError(err),
    {
        CpuError::MemoryError(err)
    }
}

impl vstd::std_specs::convert::FromSpecImpl<MemoryError> for CpuError {
    open spec fn obeys_from_spec() -> bool {
        true
    }

    open spec fn from_spec(err: MemoryError) -> CpuError {
        CpuError::MemoryError(err)
    }
}

/// What the processor asks of its surroundings when it hands control back.
#[derive(Clone, Copy, Debug, PartialEq, Eq, Structural)]
pub enum Signal {
    /// Nothing: it can go on.
    Continue,
    /// The display changed and is to be shown.
    Redraw,
    /// It waits for a key press; nothing was executed.
    AwaitKey,
    /// It executed a halt instruction.
    Halt,
}

/// The registers of the processor.
pub struct CpuState {
    /// `V0` to `VF`.
    pub registers: Seq<u8>,
    /// Address of the next instruction.
    pub pc: MemAddr,
    /// Number of return addresses on the stack.
    pub sp: usize,
    /// The index register `I`.
    pub index: MemAddr,
    /// The call stack; its first `sp` entries are in use.
    pub stack: Seq<MemAddr>,
}

/// The processor and what it works on.
pub struct Machine {
    pub cpu: CpuState,
    pub memory: Seq<u8>,
    pub delay: u8,
    pub display: Frame,
    pub keyboard: Option<u8>,
    pub sound: SoundState,
}

/// `value` reduced to a byte, as 8-bit arithmetic does.
pub open spec fn wrap_byte(value: int) -> u8 {
    (value % 0x100) as u8
}

/// `value` as an address, where arithmetic on addresses makes no overflow
/// check: past the largest address it starts again at zero.
pub open spec fn wrap_addr(value: int) -> MemAddr {
    if value > usize::MAX {
        (value - usize::MAX - 1) as usize
    } else {
        value as usize
    }
}

/// A condition as the flag register holds it.
pub open spec fn flag(condition: bool) -> u8 {
    if condition {
        1
    } else {
        0
    }
}

/// The hundreds, tens and units of `value`.
pub open spec fn bcd_digits(value: u8) -> Seq<u8> {
    seq![value / 100, (value / 10) % 10, value % 10]
}

/// Writing `data` to memory byte by byte from `base` on: the bytes that lie
/// inside memory are written, and the first one that does not fails the
/// instruction.
pub open spec fn store_block(memory: Seq<u8>, base: int, data: Seq<u8>) -> (
    Seq<u8>,
    Result<(), CpuError>,
) {
    let stored = span_in_reach(base, data.len() as int);
    (
        overwrite(memory, base, data.take(stored)),
        if stored == data.len() {
            Ok(())
        } else {
            Err(CpuError::MemoryError(MemoryError::OutOfBounds))
        },
    )
}

/// Reading `count` registers from memory byte by byte from `base` on: the
/// registers whose byte lies inside memory are loaded, and the first byte
/// that does not fails the instruction.
pub open spec fn load_block(registers: Seq<u8>, memory: Seq<u8>, base: int, count: int) -> (
    Seq<u8>,
    Result<(), CpuError>,
) {
    let loaded = span_in_reach(base, count);
    (
        Seq::new(
            registers.len(),
            |r: int|
                if r < loaded {
                    memory[base + r]
                } else {
                    registers[r]
                },
        ),
        if loaded == count {
            Ok(())
        } else {
            Err(CpuError::MemoryError(MemoryError::OutOfBounds))
        },
    )
}

impl CpuState {
    /// Sixteen registers, sixteen stack slots, and a stack pointer within.
    pub open spec fn wf(self) -> bool {
        &&& self.registers.len() == 16
        &&& self.stack.len() == STACK_DEPTH
        &&& self.sp <= STACK_DEPTH
    }

    /// Everything zero.
    pub open spec fn initial() -> CpuState {
        CpuState {
            registers: Seq::new(16, |i: int| 0u8),
            pc: 0,
            sp: 0,
            index: 0,
            stack: Seq::new(STACK_DEPTH as nat, |i: int| 0usize),
        }
    }

    pub open spec fn reg(self, x: RegId) -> u8 {
        self.registers[x as int]
    }

    pub open spec fn with_reg(self, x: RegId, value: u8) -> CpuState {
        CpuState { registers: self.registers.update(x as int, value), ..self }
    }

    pub open spec fn with_flag(self, value: u8) -> CpuState {
        self.with_reg(COND_REG, value)
    }

    pub open spec fn with_pc(self, pc: MemAddr) -> CpuState {
        CpuState { pc, ..self }
    }

    pub open spec fn with_index(self, index: MemAddr) -> CpuState {
        CpuState { index, ..self }
    }

    /// `VX <- VX + NN`, wrapping. The flag stays.
    pub open spec fn add_x_imm(self, x: RegId, imm: u8) -> CpuState {
        self.with_reg(x, wrap_byte(self.reg(x) + imm))
    }

    /// `VX <- VX + VY`, wrapping, then `VF <- 1` if the sum passed 255.
    pub open spec fn add_xy(self, x: RegId, y: RegId) -> CpuState {
        let sum = self.reg(x) + self.reg(y);
        self.with_reg(x, wrap_byte(sum)).with_flag(flag(sum > 0xFF))
    }

    /// `VX <- VX - VY`, wrapping, then `VF <- 0` if that borrowed, else `1`.
    pub open spec fn sub_xy(self, x: RegId, y: RegId) -> CpuState {
        let difference = self.reg(x) - self.reg(y);
        self.with_reg(x, wrap_byte(difference)).with_flag(flag(difference >= 0))
    }

    /// `VX <- VY - VX`, wrapping, then `VF <- 0` if that borrowed, else `1`.
    pub open spec fn sub_yx(self, x: RegId, y: RegId) -> CpuState {
        let difference = self.reg(y) - self.reg(x);
        self.with_reg(x, wrap_byte(difference)).with_flag(flag(difference >= 0))
    }

    /// `VX <- VX / 2`, then `VF <-` the bit that fell out on the right.
    pub open spec fn shr1_x(self, x: RegId) -> CpuState {
        let value = self.reg(x);
        self.with_reg(x, value / 2).with_flag(value % 2)
    }

    /// `VX <- VX * 2`, wrapping, then `VF <-` the bit that fell out on the
    /// left.
    pub open spec fn shl1_x(self, x: RegId) -> CpuState {
        let value = self.reg(x);
        self.with_reg(x, wrap_byte(value * 2)).with_flag(value / 0x80)
    }

    /// `PC <- PC + 2`; fails where that is past the largest address.
    pub open spec fn next_instruction(self) -> (CpuState, Result<(), CpuError>) {
        if self.pc + 2 > usize::MAX {
            (self, Err(CpuError::MemoryAddressOverflow))
        } else {
            (self.with_pc((self.pc + 2) as usize), Ok(()))
        }
    }

    /// Passes over the next instruction if `condition` holds.
    pub open spec fn skip_if(self, condition: bool) -> (CpuState, Result<(), CpuError>) {
        if condition {
            self.next_instruction()
        } else {
            (self, Ok(()))
        }
    }

    /// Puts `addr` on the stack; fails where the stack is full.
    pub open spec fn push(self, addr: MemAddr) -> (CpuState, Result<(), CpuError>) {
        if self.sp >= STACK_DEPTH {
            (self, Err(CpuError::StackOverflow))
        } else {
            (
                CpuState {
                    stack: self.stack.update(self.sp as int, addr),
                    sp: (self.sp + 1) as usize,
                    ..self
                },
                Ok(()),
            )
        }
    }

    /// Takes the newest address off the stack; fails where the stack is
    /// empty.
    pub open spec fn pop(self) -> (CpuState, Result<MemAddr, CpuError>) {
        if self.sp == 0 {
            (self, Err(CpuError::StackUnderflow))
        } else {
            (CpuState { sp: (self.sp - 1) as usize, ..self }, Ok(self.stack[self.sp - 1]))
        }
    }

    /// Pushes `PC`, then `PC <- addr`.
    pub open spec fn call(self, addr: MemAddr) -> (CpuState, Result<(), CpuError>) {
        let (pushed, res) = self.push(self.pc);
        if res is Ok {
            (pushed.with_pc(addr), Ok(()))
        } else {
            (self, res)
        }
    }

    /// Pops the stack into `PC`.
    pub open spec fn ret(self) -> (CpuState, Result<(), CpuError>) {
        match self.pop() {
            (popped, Ok(addr)) => (popped.with_pc(addr), Ok(())),
            (_, Err(err)) => (self, Err(err)),
        }
    }

    /// `PC <- V0 + offset`; fails where that is past the largest address.
    pub open spec fn jump_v0(self, offset: MemAddr) -> (CpuState, Result<(), CpuError>) {
        let target = self.reg(0) + offset;
        if target > usize::MAX {
            (self, Err(CpuError::MemoryAddressOverflow))
        } else {
            (self.with_pc(target as usize), Ok(()))
        }
    }

    /// `I <- I + VX`, without overflow check.
    pub open spec fn add_i_x(self, x: RegId) -> CpuState {
        self.with_index(wrap_addr(self.index + self.reg(x)))
    }

    /// `I <-` where the built-in sprite of the digit `VX` starts.
    pub open spec fn sprite_addr_i_x(self, x: RegId) -> CpuState {
        self.with_index((HEX_SPRITE_BASE + self.reg(x) * HEX_SPRITE_HEIGHT) as usize)
    }

    /// The processor and the display after a draw of the `height` rows at
    /// `[I]` to column `VX`, row `VY`: on success `VF` says whether a pixel
    /// flipped; on failure the rows drawn so far stay and `VF` is untouched.
    pub open spec fn display_draw(
        self,
        display: Frame,
        memory: Seq<u8>,
        x: RegId,
        y: RegId,
        height: u8,
    ) -> (CpuState, Frame, Result<(), CpuError>) {
        let (frame, drawn) = draw_spec(
            display,
            self.reg(x),
            self.reg(y),
            height,
            self.index as int,
            memory,
        );
        match drawn {
            Ok(collision) => (self.with_flag(flag(collision)), frame, Ok(())),
            Err(err) => (self, frame, Err(CpuError::MemoryError(err))),
        }
    }

    /// Fetching an instruction: the word at `PC`, and `PC` two further.
    /// Fails, with `PC` as it was, where the word does not lie in memory.
    pub open spec fn fetch(self, memory: Seq<u8>) -> (CpuState, Result<u16, CpuError>) {
        if self.pc + 1 < MEMORY_SIZE {
            (self.with_pc((self.pc + 2) as usize), Ok(word_at(memory, self.pc as int)))
        } else {
            (self, Err(CpuError::MemoryError(MemoryError::OutOfBounds)))
        }
    }
}

impl Machine {
    /// The processor is well formed, memory has its 4096 bytes and the
    /// display its 32 rows of 64 pixels.
    pub open spec fn wf(self) -> bool {
        &&& self.cpu.wf()
        &&& self.memory.len() == MEMORY_SIZE
        &&& frame_wf(self.display)
    }

    /// The machine made of these parts.
    pub open spec fn of(
        cpu: CpuState,
        memory: Seq<u8>,
        delay: u8,
        display: Frame,
        keyboard: Option<u8>,
        sound: SoundState,
    ) -> Machine {
        Machine { cpu, memory, delay, display, keyboard, sound }
    }

    pub open spec fn with_cpu(self, cpu: CpuState) -> Machine {
        Machine { cpu, ..self }
    }

    /// The machine after an instruction that touched the processor alone.
    pub open spec fn with_cpu_result(self, outcome: (CpuState, Result<(), CpuError>)) -> (
        Machine,
        Result<(), CpuError>,
    ) {
        (self.with_cpu(outcome.0), outcome.1)
    }

    /// The machine after a draw of `height` rows at column `VX`, row `VY`.
    pub open spec fn display_draw(self, x: RegId, y: RegId, height: u8) -> (
        Machine,
        Result<(), CpuError>,
    ) {
        let (cpu, display, res) = self.cpu.display_draw(self.display, self.memory, x, y, height);
        (Machine { cpu, display, ..self }, res)
    }

    /// The machine after `[I], [I+1], [I+2] <-` the decimal digits of `VX`.
    pub open spec fn dump_bcd_i_x(self, x: RegId) -> (Machine, Result<(), CpuError>) {
        let (memory, res) = store_block(
            self.memory,
            self.cpu.index as int,
            bcd_digits(self.cpu.reg(x)),
        );
        (Machine { memory, ..self }, res)
    }

    /// The machine after `[I], .. <- V0 ..= VX`.
    pub open spec fn reg_dump_i_x(self, x: RegId) -> (Machine, Result<(), CpuError>) {
        let (memory, res) = store_block(
            self.memory,
            self.cpu.index as int,
            self.cpu.registers.take(x + 1),
        );
        (Machine { memory, ..self }, res)
    }

    /// The machine after `V0 ..= VX <- [I], ..`.
    pub open spec fn reg_load_i_x(self, x: RegId) -> (Machine, Result<(), CpuError>) {
        let (registers, res) = load_block(
            self.cpu.registers,
            self.memory,
            self.cpu.index as int,
            x + 1,
        );
        (self.with_cpu(CpuState { registers, ..self.cpu }), res)
    }
}

/// The machine after `instr`, and whether the instruction succeeded.
/// `random` is the byte that the random source gives if it is asked; only
/// `RandX` asks. `AwaitKeyX` is defined here with a key press waiting: the
/// processor does not execute it without one (see [`step_spec`]).
pub open spec fn execute_spec(m: Machine, instr: Instruction, random: u8) -> (
    Machine,
    Result<(), CpuError>,
) {
    let cpu = m.cpu;
    match instr {
        Instruction::AssignXImm(x, imm) => (m.with_cpu(cpu.with_reg(x, imm)), Ok(())),
        Instruction::AddXImm(x, imm) => (m.with_cpu(cpu.add_x_imm(x, imm)), Ok(())),
        Instruction::AssignXY(x, y) => (m.with_cpu(cpu.with_reg(x, cpu.reg(y))), Ok(())),
        Instruction::OrXY(x, y) => (m.with_cpu(cpu.with_reg(x, cpu.reg(x) | cpu.reg(y))), Ok(())),
        Instruction::AndXY(x, y) => (m.with_cpu(cpu.with_reg(x, cpu.reg(x) & cpu.reg(y))), Ok(())),
        Instruction::XorXY(x, y) => (m.with_cpu(cpu.with_reg(x, cpu.reg(x) ^ cpu.reg(y))), Ok(())),
        Instruction::AddXY(x, y) => (m.with_cpu(cpu.add_xy(x, y)), Ok(())),
        Instruction::SubXY(x, y) => (m.with_cpu(cpu.sub_xy(x, y)), Ok(())),
        Instruction::Shr1X(x) => (m.with_cpu(cpu.shr1_x(x)), Ok(())),
        Instruction::SubYX(x, y) => (m.with_cpu(cpu.sub_yx(x, y)), Ok(())),
        Instruction::Shl1X(x) => (m.with_cpu(cpu.shl1_x(x)), Ok(())),
        Instruction::SkipIfEqX(x, imm) => m.with_cpu_result(cpu.skip_if(cpu.reg(x) == imm)),
        Instruction::SkipIfNeX(x, imm) => m.with_cpu_result(cpu.skip_if(cpu.reg(x) != imm)),
        Instruction::SkipIfEqXY(x, y) => m.with_cpu_result(cpu.skip_if(cpu.reg(x) == cpu.reg(y))),
        Instruction::SkipIfNeXY(x, y) => m.with_cpu_result(cpu.skip_if(cpu.reg(x) != cpu.reg(y))),
        Instruction::Jump(addr) => (m.with_cpu(cpu.with_pc(addr)), Ok(())),
        Instruction::JumpV0(offset) => m.with_cpu_result(cpu.jump_v0(offset)),
        Instruction::Call(addr) => m.with_cpu_result(cpu.call(addr)),
        Instruction::SkipIfKeyEqX(x) => m.with_cpu_result(
            cpu.skip_if(cpu.reg(x) == key_held(m.keyboard)),
        ),
        Instruction::SkipIfKeyNeX(x) => m.with_cpu_result(
            cpu.skip_if(cpu.reg(x) != key_held(m.keyboard)),
        ),
        Instruction::GetDelayX(x) => (m.with_cpu(cpu.with_reg(x, m.delay)), Ok(())),
        Instruction::SetDelayX(x) => (Machine { delay: cpu.reg(x), ..m }, Ok(())),
        Instruction::SetSoundX(x) => (
            Machine { sound: SoundState { ticks: cpu.reg(x), ..m.sound }, ..m },
            Ok(()),
        ),
        Instruction::AwaitKeyX(x) => (
            Machine { cpu: cpu.with_reg(x, key_held(m.keyboard)), keyboard: None, ..m },
            Ok(()),
        ),
        Instruction::RandX(x, imm) => (m.with_cpu(cpu.with_reg(x, random & imm)), Ok(())),
        Instruction::AddIX(x) => (m.with_cpu(cpu.add_i_x(x)), Ok(())),
        Instruction::SetI(addr) => (m.with_cpu(cpu.with_index(addr)), Ok(())),
        Instruction::SpriteAddrIX(x) => (m.with_cpu(cpu.sprite_addr_i_x(x)), Ok(())),
        Instruction::DumpBcdIX(x) => m.dump_bcd_i_x(x),
        Instruction::RegDumpIX(x) => m.reg_dump_i_x(x),
        Instruction::RegLoadIX(x) => m.reg_load_i_x(x),
        Instruction::Ret => m.with_cpu_result(cpu.ret()),
        Instruction::Halt => (m, Err(CpuError::Halt)),
        Instruction::DispClear => (Machine { display: blank_frame(), ..m }, Ok(())),
        Instruction::DispDraw(x, y, height) => m.display_draw(x, y, height),
        Instruction::NoOp(_) => (m, Ok(())),
        Instruction::Unsupported(opcode) => (m, Err(CpuError::IllegalInstruction(opcode))),
    }
}

/// What the processor reports after an instruction that ended with `res`.
pub open spec fn signal_of(instr: Instruction, res: Result<(), CpuError>) -> Result<
    Signal,
    CpuError,
> {
    match res {
        Ok(()) => Ok(
            if instr is DispClear || instr is DispDraw {
                Signal::Redraw
            } else {
                Signal::Continue
            },
        ),
        Err(CpuError::Halt) => Ok(Signal::Halt),
        Err(err) => Err(err),
    }
}

/// One cycle of the processor: fetch the word at `PC`, advance `PC` by two,
/// decode, execute. A fetch outside memory fails and changes nothing. An
/// `AwaitKeyX` with no key press waiting is not executed: the machine stays
/// as it is, `PC` on that instruction, and reports that it waits.
#[verifier::opaque]
pub open spec fn step_spec(m: Machine, random: u8) -> (Machine, Result<Signal, CpuError>) {
    match m.cpu.fetch(m.memory) {
        (fetched, Ok(opcode)) => {
            let instr = decode_spec(opcode);
            if instr is AwaitKeyX && m.keyboard is None {
                (m, Ok(Signal::AwaitKey))
            } else {
                let (after, res) = execute_spec(m.with_cpu(fetched), instr, random);
                (after, signal_of(instr, res))
            }
        },
        (_, Err(err)) => (m, Err(err)),
    }
}

/// The processor running for as many cycles as `randoms` has entries, or
/// until a cycle ends with anything but `Continue`: then it stops there.
/// Cycle `i` is given `randoms[i]` as the byte of the random source.
pub open spec fn run_spec(m: Machine, randoms: Seq<u8>) -> (Machine, Result<Signal, CpuError>)
    decreases randoms.len(),
{
    if randoms.len() == 0 {
        (m, Ok(Signal::Continue))
    } else {
        let (before, res) = run_spec(m, randoms.drop_last());
        if res == Ok::<Signal, CpuError>(Signal::Continue) {
            step_spec(before, randoms.last())
        } else {
            (before, res)
        }
    }
}

/// For a skip instruction, whether its condition holds in `m`; `None` for
/// every other instruction.
pub open spec fn skip_condition(m: Machine, instr: Instruction) -> Option<bool> {
    match instr {
        Instruction::SkipIfEqX(x, imm) => Some(m.cpu.reg(x) == imm),
        Instruction::SkipIfNeX(x, imm) => Some(m.cpu.reg(x) != imm),
        Instruction::SkipIfEqXY(x, y) => Some(m.cpu.reg(x) == m.cpu.reg(y)),
        Instruction::SkipIfNeXY(x, y) => Some(m.cpu.reg(x) != m.cpu.reg(y)),
        Instruction::SkipIfKeyEqX(x) => Some(m.cpu.reg(x) == key_held(m.keyboard)),
        Instruction::SkipIfKeyNeX(x) => Some(m.cpu.reg(x) != key_held(m.keyboard)),
        _ => None,
    }
}

/// `calls` in a row, each to the next address in `addrs`, stopping at the
/// first that fails.
pub open spec fn call_all(s: CpuState, addrs: Seq<MemAddr>) -> (CpuState, Result<(), CpuError>)
    decreases addrs.len(),
{
    if addrs.len() == 0 {
        (s, Ok(()))
    } else {
        let (before, res) = call_all(s, addrs.drop_last());
        if res is Ok {
            before.call(addrs.last())
        } else {
            (before, res)
        }
    }
}

/// Adding `VY` to `VX` and then subtracting it again restores `VX`, as long
/// as the addition left `VY` as it was. `VX` must not be the flag register,
/// which both instructions overwrite; every register but the flag register
/// is then as before, and so is the rest of the processor.
pub proof fn lemma_add_then_sub(s: CpuState, x: RegId, y: RegId)
    requires
        s.wf(),
        x < 16,
        y < 16,
        x != COND_REG,
        s.add_xy(x, y).reg(y) == s.reg(y),
    ensures
        s.add_xy(x, y).sub_xy(x, y).reg(x) == s.reg(x),
        forall|r: RegId|
            r < 16 && r != COND_REG ==> #[trigger] s.add_xy(x, y).sub_xy(x, y).reg(r) == s.reg(r),
        s.add_xy(x, y).sub_xy(x, y).with_flag(0) == s.with_flag(0),
{
    let added = s.add_xy(x, y);
    let back = added.sub_xy(x, y);
    assert(back.with_flag(0).registers =~= s.with_flag(0).registers);
}

/// A skip instruction moves `PC` by exactly 4 from where it was fetched if
/// its condition holds and by exactly 2 if not, and changes nothing else.
pub proof fn lemma_skip_advances(m: Machine, random: u8, taken: bool)
    requires
        m.cpu.pc + 1 < MEMORY_SIZE,
        skip_condition(m, decode_spec(word_at(m.memory, m.cpu.pc as int))) == Some(taken),
    ensures
        step_spec(m, random) == (
            m.with_cpu(
                m.cpu.with_pc(
                    (m.cpu.pc + if taken {
                        4int
                    } else {
                        2int
                    }) as usize,
                ),
            ),
            Ok::<Signal, CpuError>(Signal::Continue),
        ),
{
    reveal(step_spec);
}

/// A call succeeds exactly where the stack holds fewer than 16 return
/// addresses; it then holds one more, the old `PC` on top, and `PC` is the
/// address called. Otherwise it fails with a stack overflow and changes
/// nothing.
pub proof fn lemma_call(s: CpuState, addr: MemAddr)
    ensures
        s.call(addr).1 is Ok <==> s.sp < STACK_DEPTH,
        s.sp < STACK_DEPTH ==> {
            &&& s.call(addr).0.sp == s.sp + 1
            &&& s.call(addr).0.pc == addr
            &&& s.call(addr).0.stack == s.stack.update(s.sp as int, s.pc)
        },
        s.sp >= STACK_DEPTH ==> s.call(addr) == (
            s,
            Err::<(), CpuError>(CpuError::StackOverflow),
        ),
{
}

/// From an empty stack, calls without a return in between succeed up to
/// the sixteenth; from the seventeenth on the answer is a stack overflow.
pub proof fn lemma_calls_fill_stack(s: CpuState, addrs: Seq<MemAddr>)
    requires
        s.sp == 0,
    ensures
        addrs.len() <= STACK_DEPTH ==> call_all(s, addrs).1 is Ok && call_all(s, addrs).0.sp
            == addrs.len(),
        addrs.len() > STACK_DEPTH ==> call_all(s, addrs).1 == Err::<(), CpuError>(
            CpuError::StackOverflow,
        ),
    decreases addrs.len(),
{
    if addrs.len() > 0 {
        lemma_calls_fill_stack(s, addrs.drop_last());
    }
}

/// A return undoes the call before it: the processor is where it was before
/// the call, but for the stack slot that held the return address.
pub proof fn lemma_call_then_ret(s: CpuState, addr: MemAddr)
    requires
        s.wf(),
        s.sp < STACK_DEPTH,
    ensures
        s.call(addr).0.ret() == (
            CpuState { stack: s.stack.update(s.sp as int, s.pc), ..s },
            Ok::<(), CpuError>(()),
        ),
{
}

/// The three digits that `DumpBcdIX` writes are decimal digits, and read as
/// hundreds, tens and units they give the value back.
pub proof fn lemma_bcd_digits(value: u8)
    ensures
        bcd_digits(value).len() == 3,
        forall|i: int| 0 <= i < 3 ==> #[trigger] bcd_digits(value)[i] <= 9,
        bcd_digits(value)[0] * 100 + bcd_digits(value)[1] * 10 + bcd_digits(value)[2] == value,
{
}

/// Only `RandX` looks at the random byte: every other instruction does the
/// same whatever byte is at hand.
pub proof fn lemma_random_only_for_rand(m: Machine, instr: Instruction, one: u8, other: u8)
    requires
        !(instr is RandX),
    ensures
        execute_spec(m, instr, one) == execute_spec(m, instr, other),
{
}

/// `RandX` leaves in `VX` a byte within the mask, whatever the random byte
/// was, and touches nothing else.
pub proof fn lemma_rand_is_masked(m: Machine, x: RegId, mask: u8, random: u8)
    requires
        m.cpu.wf(),
        x < 16,
    ensures
        execute_spec(m, Instruction::RandX(x, mask), random).1 is Ok,
        execute_spec(m, Instruction::RandX(x, mask), random).0.cpu.reg(x) & !mask == 0,
        execute_spec(m, Instruction::RandX(x, mask), random).0 == m.with_cpu(
            m.cpu.with_reg(x, execute_spec(m, Instruction::RandX(x, mask), random).0.cpu.reg(x)),
        ),
{
    assert((random & mask) & !mask == 0) by (bit_vector);
}

/// No instruction takes the machine out of shape: the stack pointer stays
/// within the stack, and registers, stack, memory and display keep their
/// sizes.
pub proof fn lemma_execute_keeps_wf(m: Machine, instr: Instruction, random: u8)
    requires
        m.wf(),
        instr.wf(),
    ensures
        execute_spec(m, instr, random).0.wf(),
{
    match instr {
        Instruction::DispDraw(x, y, height) => {
            let sprite = sprite_at(
                m.memory,
                m.cpu.index as int,
                span_in_reach(m.cpu.index as int, height as int),
            );
            lemma_draw_keeps_shape(
                m.display,
                m.cpu.reg(x) as int % 64,
                m.cpu.reg(y) as int % 32,
                sprite,
            );
        },
        _ => {},
    }
}

/// No cycle takes the machine out of shape.
pub proof fn lemma_step_keeps_wf(m: Machine, random: u8)
    requires
        m.wf(),
    ensures
        step_spec(m, random).0.wf(),
{
    reveal(step_spec);
    if m.cpu.pc + 1 < MEMORY_SIZE {
        lemma_decode_operands(word_at(m.memory, m.cpu.pc as int));
        lemma_execute_keeps_wf(
            m.with_cpu(m.cpu.fetch(m.memory).0),
            decode_spec(word_at(m.memory, m.cpu.pc as int)),
            random,
        );
    }
}

/// No run takes the machine out of shape.
pub proof fn lemma_run_keeps_wf(m: Machine, randoms: Seq<u8>)
    requires
        m.wf(),
    ensures
        run_spec(m, randoms).0.wf(),
    decreases randoms.len(),
{
    if randoms.len() > 0 {
        lemma_run_keeps_wf(m, randoms.drop_last());
        lemma_step_keeps_wf(run_spec(m, randoms.drop_last()).0, randoms.last());
    }
}

/// A run that has stopped stays stopped: cycles asked for beyond the one
/// that ended with anything but `Continue` change nothing.
pub proof fn lemma_run_stays_stopped(m: Machine, randoms: Seq<u8>, more: Seq<u8>)
    requires
        run_spec(m, randoms).1 != Ok::<Signal, CpuError>(Signal::Continue),
    ensures
        run_spec(m, randoms + more) == run_spec(m, randoms),
    decreases more.len(),
{
    if more.len() == 0 {
        assert(randoms + more =~= randoms);
    } else {
        lemma_run_stays_stopped(m, randoms, more.drop_last());
        assert((randoms + more).drop_last() =~= randoms + more.drop_last());
    }
}

/// One more cycle after a run that can go on is a run with one more byte.
pub proof fn lemma_run_one_more(
    start: Machine,
    randoms: Seq<u8>,
    random: u8,
    before: Machine,
    after: Machine,
    res: Result<Signal, CpuError>,
)
    requires
        run_spec(start, randoms) == (before, Ok::<Signal, CpuError>(Signal::Continue)),
        step_spec(before, random) == (after, res),
    ensures
        run_spec(start, randoms.push(random)) == (after, res),
{
    assert(randoms.push(random).drop_last() =~= randoms);
}

} // verus!
