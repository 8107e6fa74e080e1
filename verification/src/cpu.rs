//! The processor: sixteen registers, an index register, a program counter
//! and a call stack, and the fetch, decode and execute cycle that drives
//! them.

use rand::Rng;
use vstd::prelude::*;
use crate::display::Display;
use crate::instructions::{Instruction, MemAddr, RegId};
use crate::keyboard::{key_held, KeyBoard};
use crate::memory::{overwrite, span_in_reach, Memory, MEMORY_SIZE};
use crate::semantics::{
    bcd_digits, execute_spec, lemma_run_one_more, load_block, run_spec, signal_of, step_spec,
    store_block, CpuError, CpuState, Machine, Signal, COND_REG, HEX_SPRITE_BASE,
    HEX_SPRITE_HEIGHT, STACK_DEPTH,
};
use crate::sound::{SoundState, SoundSystem};
use crate::text::{
    dec_byte, hex_addr, hex_byte, hex_char, push_dec_byte, push_hex_addr, push_hex_byte,
    push_hex_char,
};
use crate::timer::DelayTimer;
use vstd::string::StringExecFns;

verus! {

/// The call stack: sixteen slots, of which the first `sp` hold return
/// addresses. `sp` never passes the number of slots.
struct CallStack {
    slots: [MemAddr; 16],
    sp: usize,
}

impl CallStack {
    #[verifier::type_invariant]
    spec fn pointer_in_range(self) -> bool {
        self.sp <= STACK_DEPTH
    }

    fn new() -> (stack: Self)
        ensures
            stack.sp == 0,
            stack.slots@ == Seq::new(STACK_DEPTH as nat, |i: int| 0usize),
    {
        let stack = Self { slots: [0usize; 16], sp: 0 };
        assert(stack.slots@ =~= Seq::new(STACK_DEPTH as nat, |i: int| 0usize));
        stack
    }

    fn push(&mut self, addr: MemAddr) -> (pushed: bool)
        ensures
            pushed == (old(self).sp < STACK_DEPTH),
            pushed ==> final(self).sp == old(self).sp + 1 && final(self).slots@ == old(
                self,
            ).slots@.update(old(self).sp as int, addr),
            !pushed ==> *final(self) == *old(self),
    {
        if self.sp >= STACK_DEPTH {
            return false;
        }
        self.slots[self.sp] = addr;
        self.sp += 1;
        true
    }

    fn pop(&mut self) -> (popped: Option<MemAddr>)
        ensures
            popped is Some <==> old(self).sp > 0,
            final(self).slots == old(self).slots,
            popped matches Some(addr) ==> final(self).sp == old(self).sp - 1 && addr == old(
                self,
            ).slots@[old(self).sp - 1],
            popped is None ==> final(self).sp == old(self).sp,
    {
        proof {
            use_type_invariant(&*self);
        }
        if self.sp == 0 {
            return None;
        }
        self.sp -= 1;
        Some(self.slots[self.sp])
    }
}

/// The processor. Its view is the [`CpuState`] it is in.
pub struct Cpu {
    registers: [u8; 16],
    pc: MemAddr,
    index: MemAddr,
    stack: CallStack,
}

impl View for Cpu {
    type V = CpuState;

    closed spec fn view(&self) -> CpuState {
        CpuState {
            registers: self.registers@,
            pc: self.pc,
            sp: self.stack.sp,
            index: self.index,
            stack: self.stack.slots@,
        }
    }
}

/// `base + offset`, or the error of an address past the largest one.
pub fn mem_addr_add(base: MemAddr, offset: MemAddr) -> (res: Result<MemAddr, CpuError>)
    ensures
        res == if base + offset > usize::MAX {
            Err::<MemAddr, CpuError>(CpuError::MemoryAddressOverflow)
        } else {
            Ok((base + offset) as usize)
        },
{
    match base.checked_add(offset) {
        Some(addr) => Ok(addr),
        None => Err(CpuError::MemoryAddressOverflow),
    }
}

/// A byte from `rand::thread_rng()`, drawn with `Rng::gen`. Nothing is
/// claimed of it: every byte can come. The generator seeds itself from the
/// operating system on a thread's first draw and panics if that fails.
#[verifier::external_body]
fn rand_byte() -> (byte: u8) {
    rand::thread_rng().gen()
}

/// Writes `data` byte by byte from `base` on, stopping at the first address
/// outside memory.
fn store_bytes(mem: &mut Memory, base: MemAddr, data: &[u8]) -> (res: Result<(), CpuError>)
    ensures
        (final(mem)@, res) == store_block(old(mem)@, base as int, data@),
{
    let mut offset: usize = 0;
    proof {
        mem.lemma_size();
        assert(mem@ =~= overwrite(mem@, base as int, data@.take(0)));
    }
    while offset < data.len()
        invariant
            offset <= data@.len(),
            offset <= span_in_reach(base as int, data@.len() as int),
            mem@.len() == MEMORY_SIZE,
            old(mem)@.len() == MEMORY_SIZE,
            mem@ == overwrite(old(mem)@, base as int, data@.take(offset as int)),
        decreases data@.len() - offset,
    {
        let addr: MemAddr = match mem_addr_add(base, offset) {
            Ok(addr) => addr,
            Err(err) => {
                return Err(err);
            },
        };
        match mem.store_byte(addr, data[offset]) {
            Ok(()) => {},
            Err(err) => {
                return Err(CpuError::from(err));
            },
        }
        proof {
            assert(mem@ =~= overwrite(old(mem)@, base as int, data@.take(offset + 1)));
        }
        offset += 1;
    }
    proof {
        assert(data@.take(data@.len() as int) =~= data@);
    }
    Ok(())
}

impl Cpu {
    /// A processor with every register, the program counter and the stack
    /// at zero.
    pub fn new() -> (cpu: Self)
        ensures
            cpu@ == CpuState::initial(),
    {
        let cpu = Self { registers: [0u8; 16], pc: 0, index: 0, stack: CallStack::new() };
        proof {
            assert(cpu@.registers =~= CpuState::initial().registers);
        }
        cpu
    }

    /// The value of register `idx`.
    pub fn get_register(&self, idx: usize) -> (value: u8)
        requires
            idx < 16,
        ensures
            value == self@.reg(idx),
    {
        self.registers[idx]
    }

    pub fn set_register(&mut self, idx: usize, value: u8)
        requires
            idx < 16,
        ensures
            final(self)@ == old(self)@.with_reg(idx, value),
    {
        self.registers[idx] = value;
    }

    /// The address of the next instruction.
    pub fn pc(&self) -> (pc: MemAddr)
        ensures
            pc == self@.pc,
    {
        self.pc
    }

    /// The index register.
    pub fn index(&self) -> (index: MemAddr)
        ensures
            index == self@.index,
    {
        self.index
    }

    /// How many return addresses the stack holds; never more than
    /// [`STACK_DEPTH`].
    pub fn stack_depth(&self) -> (depth: usize)
        ensures
            depth == self@.sp,
            self@.wf(),
    {
        proof {
            use_type_invariant(&self.stack);
        }
        self.stack.sp
    }

    /// Runs the processor until it has something to report, for at most
    /// `max_steps` cycles. `Ok(Signal::Continue)` says that the cycles are
    /// used up; any other answer comes from the last cycle executed. Each
    /// cycle that executes `RandX` draws its own byte from the random
    /// source: `randoms` below stands for the bytes that came.
    pub fn run(
        &mut self,
        mem: &mut Memory,
        delay: &mut DelayTimer,
        display: &mut Display,
        keyboard: &mut KeyBoard,
        sound_timer: &mut SoundSystem,
        max_steps: usize,
    ) -> (res: Result<Signal, CpuError>)
        ensures
            exists|randoms: Seq<u8>|
                {
                    &&& randoms.len() <= max_steps
                    &&& res == Ok::<Signal, CpuError>(Signal::Continue) ==> randoms.len()
                        == max_steps
                    &&& #[trigger] run_spec(
                        Machine::of(
                            old(self)@,
                            old(mem)@,
                            old(delay)@,
                            old(display)@,
                            old(keyboard)@,
                            old(sound_timer)@,
                        ),
                        randoms,
                    ) == (
                        Machine::of(
                            final(self)@,
                            final(mem)@,
                            final(delay)@,
                            final(display)@,
                            final(keyboard)@,
                            final(sound_timer)@,
                        ),
                        res,
                    )
                },
    {
        let ghost start = Machine::of(self@, mem@, delay@, display@, keyboard@, sound_timer@);
        let ghost mut randoms: Seq<u8> = Seq::empty();
        let mut steps: usize = 0;
        while steps < max_steps
            invariant
                steps <= max_steps,
                randoms.len() == steps,
                start == Machine::of(
                    old(self)@,
                    old(mem)@,
                    old(delay)@,
                    old(display)@,
                    old(keyboard)@,
                    old(sound_timer)@,
                ),
                run_spec(start, randoms) == (
                    Machine::of(self@, mem@, delay@, display@, keyboard@, sound_timer@),
                    Ok::<Signal, CpuError>(Signal::Continue),
                ),
            decreases max_steps - steps,
        {
            let ghost before = Machine::of(self@, mem@, delay@, display@, keyboard@, sound_timer@);
            let res = self.step(mem, delay, display, keyboard, sound_timer);
            proof {
                let after = Machine::of(self@, mem@, delay@, display@, keyboard@, sound_timer@);
                let random = choose|random: u8|
                    #[trigger] step_spec(before, random) == (after, res);
                lemma_run_one_more(start, randoms, random, before, after, res);
                randoms = randoms.push(random);
            }
            steps += 1;
            match res {
                Ok(Signal::Continue) => {},
                _ => {
                    proof {
                        let after = Machine::of(
                            self@,
                            mem@,
                            delay@,
                            display@,
                            keyboard@,
                            sound_timer@,
                        );
                        assert(run_spec(start, randoms) == (after, res));
                    }
                    return res;
                },
            }
        }
        Ok(Signal::Continue)
    }

    /// One cycle: fetches, decodes and executes the instruction at the
    /// program counter. An `AwaitKeyX` with no key press waiting is left
    /// for later: nothing changes and the answer is `Signal::AwaitKey`.
    /// `random` below stands for the byte that the random source gave if the
    /// instruction asked for one.
    pub fn step(
        &mut self,
        mem: &mut Memory,
        delay: &mut DelayTimer,
        display: &mut Display,
        keyboard: &mut KeyBoard,
        sound_timer: &mut SoundSystem,
    ) -> (res: Result<Signal, CpuError>)
        ensures
            exists|random: u8|
                #[trigger] step_spec(
                    Machine::of(
                        old(self)@,
                        old(mem)@,
                        old(delay)@,
                        old(display)@,
                        old(keyboard)@,
                        old(sound_timer)@,
                    ),
                    random,
                ) == (
                    Machine::of(
                        final(self)@,
                        final(mem)@,
                        final(delay)@,
                        final(display)@,
                        final(keyboard)@,
                        final(sound_timer)@,
                    ),
                    res,
                ),
    {
        let ghost before = Machine::of(self@, mem@, delay@, display@, keyboard@, sound_timer@);
        proof {
            reveal(step_spec);
        }
        let pc: MemAddr = self.pc;
        let opcode: u16 = match self.fetch(mem) {
            Ok(opcode) => opcode,
            Err(err) => {
                proof {
                    assert(step_spec(before, 0) == (before, Err::<Signal, CpuError>(err)));
                }
                return Err(err);
            },
        };
        let instr = Instruction::decode(opcode);
        let ghost fetched = before.with_cpu(self@);
        match instr {
            Instruction::AwaitKeyX(_) => {
                if !keyboard.has_key_press() {
                    self.pc = pc;
                    proof {
                        assert(self@ == before.cpu);
                        assert(step_spec(before, 0) == (
                            before,
                            Ok::<Signal, CpuError>(Signal::AwaitKey),
                        ));
                    }
                    return Ok(Signal::AwaitKey);
                }
            },
            _ => {},
        }
        let redraw: bool = match instr {
            Instruction::DispClear => true,
            Instruction::DispDraw(_, _, _) => true,
            _ => false,
        };
        let res = self.execute(instr, mem, delay, display, keyboard, sound_timer);
        let signal = match res {
            Ok(()) => Ok(
                if redraw {
                    Signal::Redraw
                } else {
                    Signal::Continue
                },
            ),
            Err(CpuError::Halt) => Ok(Signal::Halt),
            Err(err) => Err(err),
        };
        proof {
            let after = Machine::of(self@, mem@, delay@, display@, keyboard@, sound_timer@);
            let random = choose|random: u8|
                #[trigger] execute_spec(fetched, instr, random) == (after, res);
            assert(signal == signal_of(instr, res));
            assert(step_spec(before, random) == (after, signal));
        }
        signal
    }

    /// Reads the word at the program counter and moves the counter past it.
    pub fn fetch(&mut self, mem: &Memory) -> (res: Result<u16, CpuError>)
        ensures
            (final(self)@, res) == old(self)@.fetch(mem@),
    {
        let opcode: u16 = match mem.load_u16(self.pc) {
            Ok(opcode) => opcode,
            Err(err) => {
                return Err(CpuError::from(err));
            },
        };
        match self.inc_pc() {
            Ok(()) => {},
            Err(err) => {
                return Err(err);
            },
        }
        Ok(opcode)
    }

    /// Carries out one decoded instruction. The program counter is taken to
    /// stand behind the instruction already. `random` below stands for the
    /// byte that the random source gave if the instruction asked for one.
    ///
    /// The register operands of `instr` must name registers (what
    /// [`Instruction::decode`] returns always does), and `AwaitKeyX` needs a
    /// key press that waits: [`Cpu::step`] looks before it executes.
    pub fn execute(
        &mut self,
        instr: Instruction,
        mem: &mut Memory,
        delay: &mut DelayTimer,
        display: &mut Display,
        keyboard: &mut KeyBoard,
        sound_timer: &mut SoundSystem,
    ) -> (res: Result<(), CpuError>)
        requires
            instr.wf(),
            instr is AwaitKeyX ==> old(keyboard)@ is Some,
        ensures
            exists|random: u8|
                #[trigger] execute_spec(
                    Machine::of(
                        old(self)@,
                        old(mem)@,
                        old(delay)@,
                        old(display)@,
                        old(keyboard)@,
                        old(sound_timer)@,
                    ),
                    instr,
                    random,
                ) == (
                    Machine::of(
                        final(self)@,
                        final(mem)@,
                        final(delay)@,
                        final(display)@,
                        final(keyboard)@,
                        final(sound_timer)@,
                    ),
                    res,
                ),
    {
        let ghost before = Machine::of(self@, mem@, delay@, display@, keyboard@, sound_timer@);
        let res = match instr {
            Instruction::AssignXImm(x, imm) => self.assign_x_imm(x, imm),
            Instruction::AddXImm(x, imm) => self.add_x_imm(x, imm),
            Instruction::AssignXY(x, y) => self.assign_xy(x, y),
            Instruction::OrXY(x, y) => self.or_xy(x, y),
            Instruction::AndXY(x, y) => self.and_xy(x, y),
            Instruction::XorXY(x, y) => self.xor_xy(x, y),
            Instruction::AddXY(x, y) => self.add_xy(x, y),
            Instruction::SubXY(x, y) => self.sub_xy(x, y),
            Instruction::Shr1X(x) => self.shr1_x(x),
            Instruction::SubYX(x, y) => self.sub_yx(x, y),
            Instruction::Shl1X(x) => self.shl1_x(x),
            Instruction::SkipIfEqX(x, imm) => self.skip_if_eq_x(x, imm),
            Instruction::SkipIfNeX(x, imm) => self.skip_if_ne_x(x, imm),
            Instruction::SkipIfEqXY(x, y) => self.skip_if_eq_xy(x, y),
            Instruction::SkipIfNeXY(x, y) => self.skip_if_ne_xy(x, y),
            Instruction::Jump(addr) => self.jump(addr),
            Instruction::JumpV0(addr) => self.jump_v0(addr),
            Instruction::Call(addr) => self.call(addr),
            Instruction::SkipIfKeyEqX(x) => self.skip_if_key_eq_x(x, keyboard),
            Instruction::SkipIfKeyNeX(x) => self.skip_if_key_ne_x(x, keyboard),
            Instruction::GetDelayX(x) => self.get_delay_x(x, delay),
            Instruction::SetDelayX(x) => self.set_delay_x(x, delay),
            Instruction::SetSoundX(x) => self.set_sound_x(x, sound_timer),
            Instruction::AwaitKeyX(x) => self.await_key_x(x, keyboard),
            Instruction::RandX(x, imm) => self.rand_x(x, imm),
            Instruction::AddIX(x) => self.add_i_x(x),
            Instruction::SetI(addr) => self.set_i(addr),
            Instruction::SpriteAddrIX(x) => self.sprite_addr_i_x(x),
            Instruction::DumpBcdIX(x) => self.dump_bcd_i_x(x, mem),
            Instruction::RegDumpIX(x) => self.reg_dump_i_x(x, mem),
            Instruction::RegLoadIX(x) => self.reg_load_i_x(x, mem),
            Instruction::Ret => self.ret(),
            Instruction::Halt => Err(CpuError::Halt),
            Instruction::DispClear => self.display_clear(display),
            Instruction::DispDraw(x, y, imm) => self.display_draw(x, y, imm, display, mem),
            Instruction::NoOp(_) => Ok(()),
            Instruction::Unsupported(opcode) => Err(CpuError::IllegalInstruction(opcode)),
        };
        proof {
            let after = Machine::of(self@, mem@, delay@, display@, keyboard@, sound_timer@);
            let random = match instr {
                Instruction::RandX(x, imm) => choose|byte: u8|
                    after.cpu == #[trigger] before.cpu.with_reg(x, byte & imm),
                _ => 0u8,
            };
            assert(execute_spec(before, instr, random) == (after, res));
        }
        res
    }

    fn push_stack(&mut self, addr: MemAddr) -> (res: Result<(), CpuError>)
        ensures
            (final(self)@, res) == old(self)@.push(addr),
    {
        if self.stack.push(addr) {
            Ok(())
        } else {
            Err(CpuError::StackOverflow)
        }
    }

    fn pop_stack(&mut self) -> (res: Result<MemAddr, CpuError>)
        ensures
            (final(self)@, res) == old(self)@.pop(),
    {
        match self.stack.pop() {
            Some(addr) => Ok(addr),
            None => Err(CpuError::StackUnderflow),
        }
    }

    fn set_condition(&mut self, condition: u8)
        ensures
            final(self)@ == old(self)@.with_flag(condition),
    {
        self.registers[COND_REG] = condition;
    }

    fn skip_instruction(&mut self) -> (res: Result<(), CpuError>)
        ensures
            (final(self)@, res) == old(self)@.next_instruction(),
    {
        self.inc_pc()
    }

    fn inc_pc(&mut self) -> (res: Result<(), CpuError>)
        ensures
            (final(self)@, res) == old(self)@.next_instruction(),
    {
        match mem_addr_add(self.pc, 2) {
            Ok(pc) => {
                self.pc = pc;
                Ok(())
            },
            Err(err) => Err(err),
        }
    }

    fn call(&mut self, addr: MemAddr) -> (res: Result<(), CpuError>)
        ensures
            (final(self)@, res) == old(self)@.call(addr),
    {
        let pc: MemAddr = self.pc;
        match self.push_stack(pc) {
            Ok(()) => self.jump(addr),
            Err(err) => Err(err),
        }
    }

    fn jump(&mut self, addr: MemAddr) -> (res: Result<(), CpuError>)
        ensures
            res == Ok::<(), CpuError>(()),
            final(self)@ == old(self)@.with_pc(addr),
    {
        self.pc = addr;
        Ok(())
    }

    fn jump_v0(&mut self, offset: MemAddr) -> (res: Result<(), CpuError>)
        ensures
            (final(self)@, res) == old(self)@.jump_v0(offset),
    {
        let v0: u8 = self.registers[0];
        match mem_addr_add(v0 as MemAddr, offset) {
            Ok(pc) => {
                self.pc = pc;
                Ok(())
            },
            Err(err) => Err(err),
        }
    }

    fn ret(&mut self) -> (res: Result<(), CpuError>)
        ensures
            (final(self)@, res) == old(self)@.ret(),
    {
        match self.pop_stack() {
            Ok(addr) => {
                self.pc = addr;
                Ok(())
            },
            Err(err) => Err(err),
        }
    }

    fn display_clear(&mut self, display: &mut Display) -> (res: Result<(), CpuError>)
        ensures
            res == Ok::<(), CpuError>(()),
            final(self)@ == old(self)@,
            final(display)@ == crate::display::blank_frame(),
    {
        display.clear();
        Ok(())
    }

    fn add_xy(&mut self, x: RegId, y: RegId) -> (res: Result<(), CpuError>)
        requires
            x < 16,
            y < 16,
        ensures
            res == Ok::<(), CpuError>(()),
            final(self)@ == old(self)@.add_xy(x, y),
    {
        let xv: u8 = self.registers[x];
        let yv: u8 = self.registers[y];
        let sum: u8 = xv.wrapping_add(yv);
        let overflowed: bool = sum < xv;
        self.registers[x] = sum;
        self.set_condition(if overflowed { 1 } else { 0 });
        Ok(())
    }

    fn sub_xy(&mut self, x: RegId, y: RegId) -> (res: Result<(), CpuError>)
        requires
            x < 16,
            y < 16,
        ensures
            res == Ok::<(), CpuError>(()),
            final(self)@ == old(self)@.sub_xy(x, y),
    {
        let xv: u8 = self.registers[x];
        let yv: u8 = self.registers[y];
        let borrowed: bool = xv < yv;
        self.registers[x] = xv.wrapping_sub(yv);
        self.set_condition(if borrowed { 0 } else { 1 });
        Ok(())
    }

    fn sub_yx(&mut self, x: RegId, y: RegId) -> (res: Result<(), CpuError>)
        requires
            x < 16,
            y < 16,
        ensures
            res == Ok::<(), CpuError>(()),
            final(self)@ == old(self)@.sub_yx(x, y),
    {
        let xv: u8 = self.registers[x];
        let yv: u8 = self.registers[y];
        let borrowed: bool = yv < xv;
        self.registers[x] = yv.wrapping_sub(xv);
        self.set_condition(if borrowed { 0 } else { 1 });
        Ok(())
    }

    fn and_xy(&mut self, x: RegId, y: RegId) -> (res: Result<(), CpuError>)
        requires
            x < 16,
            y < 16,
        ensures
            res == Ok::<(), CpuError>(()),
            final(self)@ == old(self)@.with_reg(x, old(self)@.reg(x) & old(self)@.reg(y)),
    {
        let xv: u8 = self.registers[x];
        let yv: u8 = self.registers[y];
        self.registers[x] = xv & yv;
        Ok(())
    }

    fn or_xy(&mut self, x: RegId, y: RegId) -> (res: Result<(), CpuError>)
        requires
            x < 16,
            y < 16,
        ensures
            res == Ok::<(), CpuError>(()),
            final(self)@ == old(self)@.with_reg(x, old(self)@.reg(x) | old(self)@.reg(y)),
    {
        let xv: u8 = self.registers[x];
        let yv: u8 = self.registers[y];
        self.registers[x] = xv | yv;
        Ok(())
    }

    fn xor_xy(&mut self, x: RegId, y: RegId) -> (res: Result<(), CpuError>)
        requires
            x < 16,
            y < 16,
        ensures
            res == Ok::<(), CpuError>(()),
            final(self)@ == old(self)@.with_reg(x, old(self)@.reg(x) ^ old(self)@.reg(y)),
    {
        let xv: u8 = self.registers[x];
        let yv: u8 = self.registers[y];
        self.registers[x] = xv ^ yv;
        Ok(())
    }

    fn assign_xy(&mut self, x: RegId, y: RegId) -> (res: Result<(), CpuError>)
        requires
            x < 16,
            y < 16,
        ensures
            res == Ok::<(), CpuError>(()),
            final(self)@ == old(self)@.with_reg(x, old(self)@.reg(y)),
    {
        self.registers[x] = self.registers[y];
        Ok(())
    }

    fn shr1_x(&mut self, x: RegId) -> (res: Result<(), CpuError>)
        requires
            x < 16,
        ensures
            res == Ok::<(), CpuError>(()),
            final(self)@ == old(self)@.shr1_x(x),
    {
        let xv: u8 = self.registers[x];
        let lsb: u8 = xv & 0x01;
        proof {
            assert(xv & 0x01 == xv % 2) by (bit_vector);
            assert(xv >> 1 == xv / 2) by (bit_vector);
        }
        self.registers[x] = xv >> 1;
        self.set_condition(lsb);
        Ok(())
    }

    fn shl1_x(&mut self, x: RegId) -> (res: Result<(), CpuError>)
        requires
            x < 16,
        ensures
            res == Ok::<(), CpuError>(()),
            final(self)@ == old(self)@.shl1_x(x),
    {
        let xv: u8 = self.registers[x];
        let msb: u8 = (xv & 0x80) >> 7;
        proof {
            assert((xv & 0x80) >> 7 == xv / 0x80) by (bit_vector);
            assert(xv << 1 == (xv * 2) % 0x100) by (bit_vector);
        }
        self.registers[x] = xv << 1;
        self.set_condition(msb);
        Ok(())
    }

    fn add_x_imm(&mut self, x: RegId, imm: u8) -> (res: Result<(), CpuError>)
        requires
            x < 16,
        ensures
            res == Ok::<(), CpuError>(()),
            final(self)@ == old(self)@.add_x_imm(x, imm),
    {
        let xv: u8 = self.registers[x];
        self.registers[x] = xv.wrapping_add(imm);
        Ok(())
    }

    fn assign_x_imm(&mut self, x: RegId, imm: u8) -> (res: Result<(), CpuError>)
        requires
            x < 16,
        ensures
            res == Ok::<(), CpuError>(()),
            final(self)@ == old(self)@.with_reg(x, imm),
    {
        self.registers[x] = imm;
        Ok(())
    }

    fn skip_if_ne_x(&mut self, x: RegId, imm: u8) -> (res: Result<(), CpuError>)
        requires
            x < 16,
        ensures
            (final(self)@, res) == old(self)@.skip_if(old(self)@.reg(x) != imm),
    {
        let xv: u8 = self.registers[x];
        if xv != imm {
            return self.skip_instruction();
        }
        Ok(())
    }

    fn skip_if_eq_x(&mut self, x: RegId, imm: u8) -> (res: Result<(), CpuError>)
        requires
            x < 16,
        ensures
            (final(self)@, res) == old(self)@.skip_if(old(self)@.reg(x) == imm),
    {
        let xv: u8 = self.registers[x];
        if xv == imm {
            return self.skip_instruction();
        }
        Ok(())
    }

    fn skip_if_eq_xy(&mut self, x: RegId, y: RegId) -> (res: Result<(), CpuError>)
        requires
            x < 16,
            y < 16,
        ensures
            (final(self)@, res) == old(self)@.skip_if(old(self)@.reg(x) == old(self)@.reg(y)),
    {
        let xv: u8 = self.registers[x];
        let yv: u8 = self.registers[y];
        if xv == yv {
            return self.skip_instruction();
        }
        Ok(())
    }

    fn skip_if_ne_xy(&mut self, x: RegId, y: RegId) -> (res: Result<(), CpuError>)
        requires
            x < 16,
            y < 16,
        ensures
            (final(self)@, res) == old(self)@.skip_if(old(self)@.reg(x) != old(self)@.reg(y)),
    {
        let xv: u8 = self.registers[x];
        let yv: u8 = self.registers[y];
        if xv != yv {
            return self.skip_instruction();
        }
        Ok(())
    }

    fn skip_if_key_eq_x(&mut self, x: RegId, keyboard: &mut KeyBoard) -> (res: Result<
        (),
        CpuError,
    >)
        requires
            x < 16,
        ensures
            final(keyboard)@ == old(keyboard)@,
            (final(self)@, res) == old(self)@.skip_if(
                old(self)@.reg(x) == key_held(old(keyboard)@),
            ),
    {
        let xv: u8 = self.registers[x];
        let key: u8 = keyboard.get_key_pressed();
        if xv == key {
            return self.skip_instruction();
        }
        Ok(())
    }

    fn skip_if_key_ne_x(&mut self, x: RegId, keyboard: &mut KeyBoard) -> (res: Result<
        (),
        CpuError,
    >)
        requires
            x < 16,
        ensures
            final(keyboard)@ == old(keyboard)@,
            (final(self)@, res) == old(self)@.skip_if(
                old(self)@.reg(x) != key_held(old(keyboard)@),
            ),
    {
        let xv: u8 = self.registers[x];
        let key: u8 = keyboard.get_key_pressed();
        if xv != key {
            return self.skip_instruction();
        }
        Ok(())
    }

    fn await_key_x(&mut self, x: RegId, keyboard: &mut KeyBoard) -> (res: Result<(), CpuError>)
        requires
            x < 16,
            old(keyboard)@ is Some,
        ensures
            res == Ok::<(), CpuError>(()),
            final(keyboard)@ is None,
            final(self)@ == old(self)@.with_reg(x, key_held(old(keyboard)@)),
    {
        self.registers[x] = keyboard.await_key_press();
        Ok(())
    }

    /// `VX <-` a random byte `& imm`: some byte of which only the bits of
    /// `imm` are kept.
    fn rand_x(&mut self, x: RegId, imm: u8) -> (res: Result<(), CpuError>)
        requires
            x < 16,
        ensures
            res == Ok::<(), CpuError>(()),
            exists|byte: u8| final(self)@ == #[trigger] old(self)@.with_reg(x, byte & imm),
    {
        let byte: u8 = rand_byte();
        self.rand_x_with(x, imm, byte)
    }

    /// `VX <- byte & imm`, for the byte that the random source gave.
    pub fn rand_x_with(&mut self, x: RegId, imm: u8, byte: u8) -> (res: Result<(), CpuError>)
        requires
            x < 16,
        ensures
            res == Ok::<(), CpuError>(()),
            final(self)@ == old(self)@.with_reg(x, byte & imm),
    {
        self.registers[x] = byte & imm;
        Ok(())
    }

    fn get_delay_x(&mut self, x: RegId, delay: &mut DelayTimer) -> (res: Result<(), CpuError>)
        requires
            x < 16,
        ensures
            res == Ok::<(), CpuError>(()),
            final(delay)@ == old(delay)@,
            final(self)@ == old(self)@.with_reg(x, old(delay)@),
    {
        self.registers[x] = delay.get();
        Ok(())
    }

    fn set_delay_x(&mut self, x: RegId, delay: &mut DelayTimer) -> (res: Result<(), CpuError>)
        requires
            x < 16,
        ensures
            res == Ok::<(), CpuError>(()),
            final(delay)@ == old(self)@.reg(x),
            final(self)@ == old(self)@,
    {
        delay.set(self.registers[x]);
        Ok(())
    }

    fn set_sound_x(&mut self, x: RegId, sound_timer: &mut SoundSystem) -> (res: Result<
        (),
        CpuError,
    >)
        requires
            x < 16,
        ensures
            res == Ok::<(), CpuError>(()),
            final(sound_timer)@ == (SoundState {
                ticks: old(self)@.reg(x),
                playing: old(sound_timer)@.playing,
            }),
            final(self)@ == old(self)@,
    {
        sound_timer.set_timer(self.registers[x]);
        Ok(())
    }

    fn add_i_x(&mut self, x: RegId) -> (res: Result<(), CpuError>)
        requires
            x < 16,
        ensures
            res == Ok::<(), CpuError>(()),
            final(self)@ == old(self)@.add_i_x(x),
    {
        let xv: u8 = self.registers[x];
        self.index = self.index.wrapping_add(xv as MemAddr);
        Ok(())
    }

    fn sprite_addr_i_x(&mut self, x: RegId) -> (res: Result<(), CpuError>)
        requires
            x < 16,
        ensures
            res == Ok::<(), CpuError>(()),
            final(self)@ == old(self)@.sprite_addr_i_x(x),
    {
        let xv: u8 = self.registers[x];
        self.index = HEX_SPRITE_BASE + (xv as MemAddr) * HEX_SPRITE_HEIGHT;
        Ok(())
    }

    fn dump_bcd_i_x(&mut self, x: RegId, mem: &mut Memory) -> (res: Result<(), CpuError>)
        requires
            x < 16,
        ensures
            final(self)@ == old(self)@,
            (final(mem)@, res) == store_block(
                old(mem)@,
                old(self)@.index as int,
                bcd_digits(old(self)@.reg(x)),
            ),
    {
        let base: MemAddr = self.index;
        let xv: u8 = self.registers[x];
        let digits: [u8; 3] = [xv / 100, (xv / 10) % 10, xv % 10];
        proof {
            assert(digits@ =~= bcd_digits(xv));
        }
        store_bytes(mem, base, digits.as_slice())
    }

    fn reg_dump_i_x(&mut self, x: RegId, mem: &mut Memory) -> (res: Result<(), CpuError>)
        requires
            x < 16,
        ensures
            final(self)@ == old(self)@,
            (final(mem)@, res) == store_block(
                old(mem)@,
                old(self)@.index as int,
                old(self)@.registers.take(x + 1),
            ),
    {
        let base: MemAddr = self.index;
        store_bytes(mem, base, vstd::slice::slice_subrange(self.registers.as_slice(), 0, x + 1))
    }

    fn reg_load_i_x(&mut self, x: RegId, mem: &mut Memory) -> (res: Result<(), CpuError>)
        requires
            x < 16,
        ensures
            final(mem)@ == old(mem)@,
            final(self)@ == (CpuState {
                registers: load_block(
                    old(self)@.registers,
                    old(mem)@,
                    old(self)@.index as int,
                    x + 1,
                ).0,
                ..old(self)@
            }),
            res == load_block(old(self)@.registers, old(mem)@, old(self)@.index as int, x + 1).1,
    {
        let base: MemAddr = self.index;
        let mut r: usize = 0;
        proof {
            mem.lemma_size();
        }
        while r <= x
            invariant
                x < 16,
                r <= x + 1,
                r <= span_in_reach(base as int, x + 1),
                mem@.len() == MEMORY_SIZE,
                mem@ == old(mem)@,
                self@.pc == old(self)@.pc,
                self@.sp == old(self)@.sp,
                self@.index == old(self)@.index,
                self@.stack == old(self)@.stack,
                base == self@.index,
                self@.registers.len() == 16,
                forall|i: int|
                    0 <= i < 16 ==> #[trigger] self@.registers[i] == if i < r {
                        mem@[base + i]
                    } else {
                        old(self)@.registers[i]
                    },
            decreases x + 1 - r,
        {
            let addr: MemAddr = match mem_addr_add(base, r) {
                Ok(addr) => addr,
                Err(err) => {
                    proof {
                        assert(self@.registers =~= load_block(
                            old(self)@.registers,
                            mem@,
                            base as int,
                            x + 1,
                        ).0);
                    }
                    return Err(err);
                },
            };
            match mem.load_byte(addr) {
                Ok(byte) => {
                    self.registers[r] = byte;
                },
                Err(err) => {
                    proof {
                        assert(self@.registers =~= load_block(
                            old(self)@.registers,
                            mem@,
                            base as int,
                            x + 1,
                        ).0);
                    }
                    return Err(CpuError::from(err));
                },
            }
            r += 1;
        }
        proof {
            assert(self@.registers =~= load_block(
                old(self)@.registers,
                mem@,
                base as int,
                x + 1,
            ).0);
        }
        Ok(())
    }

    fn set_i(&mut self, addr: MemAddr) -> (res: Result<(), CpuError>)
        ensures
            res == Ok::<(), CpuError>(()),
            final(self)@ == old(self)@.with_index(addr),
    {
        self.index = addr;
        Ok(())
    }

    fn display_draw(
        &mut self,
        x: RegId,
        y: RegId,
        imm: u8,
        display: &mut Display,
        mem: &Memory,
    ) -> (res: Result<(), CpuError>)
        requires
            x < 16,
            y < 16,
        ensures
            (final(self)@, final(display)@, res) == old(self)@.display_draw(
                old(display)@,
                mem@,
                x,
                y,
                imm,
            ),
    {
        let xv: u8 = self.registers[x];
        let yv: u8 = self.registers[y];
        match display.draw(xv, yv, imm, self.index, mem) {
            Ok(collision) => {
                self.set_condition(if collision { 0x01 } else { 0x00 });
                Ok(())
            },
            Err(err) => Err(CpuError::from(err)),
        }
    }
}

/// One register in the dump: its number, its value in hexadecimal and in
/// decimal. Every fourth register ends a line.
pub open spec fn reg_text(id: int, value: u8) -> Seq<char> {
    "   "@ + seq![hex_char(id)] + ": "@ + hex_byte(value) + " ("@ + dec_byte(value) + ")"@ + if (id
        + 1) % 4 == 0 {
        "\n"@
    } else {
        Seq::empty()
    }
}

/// The first `count` registers in the dump.
pub open spec fn regs_text(registers: Seq<u8>, count: int) -> Seq<char>
    decreases count,
{
    if count <= 0 {
        Seq::empty()
    } else {
        regs_text(registers, count - 1) + reg_text(count - 1, registers[count - 1])
    }
}

/// One stack slot in the dump: a mark where the stack pointer stands, the
/// number of the slot and the address in it. Every eighth slot ends a line.
pub open spec fn slot_text(id: int, addr: MemAddr, sp: usize) -> Seq<char> {
    " "@ + (if sp == id {
        ">>"@
    } else {
        "  "@
    }) + seq![hex_char(id)] + ": "@ + hex_addr(addr as nat) + if (id + 1) % 8 == 0 {
        "\n"@
    } else {
        Seq::empty()
    }
}

/// The first `count` stack slots in the dump.
pub open spec fn slots_text(stack: Seq<MemAddr>, sp: usize, count: int) -> Seq<char>
    decreases count,
{
    if count <= 0 {
        Seq::empty()
    } else {
        slots_text(stack, sp, count - 1) + slot_text(count - 1, stack[count - 1], sp)
    }
}

/// The dump of a processor: program counter and index register, the
/// registers four to a line, the stack eight slots to a line.
pub open spec fn cpu_text(s: CpuState) -> Seq<char> {
    "PC: "@ + hex_addr(s.pc as nat) + "    I: "@ + hex_addr(s.index as nat) + "\n"@ + "Regs: \n"@
        + regs_text(s.registers, 16) + "Stack: \n"@ + slots_text(s.stack, s.sp, 16)
}

fn push_reg(out: &mut String, id: usize, value: u8)
    requires
        id < 16,
    ensures
        final(out)@ == old(out)@ + reg_text(id as int, value),
{
    out.append("   ");
    push_hex_char(out, id as u8);
    out.append(": ");
    push_hex_byte(out, value);
    out.append(" (");
    push_dec_byte(out, value);
    out.append(")");
    if (id + 1) % 4 == 0 {
        out.append("\n");
    }
    proof {
        assert(out@ =~= old(out)@ + reg_text(id as int, value));
    }
}

fn push_slot(out: &mut String, id: usize, addr: MemAddr, sp: usize)
    requires
        id < 16,
    ensures
        final(out)@ == old(out)@ + slot_text(id as int, addr, sp),
{
    out.append(" ");
    if sp == id {
        out.append(">>");
    } else {
        out.append("  ");
    }
    push_hex_char(out, id as u8);
    out.append(": ");
    push_hex_addr(out, addr);
    if (id + 1) % 8 == 0 {
        out.append("\n");
    }
    proof {
        assert(out@ =~= old(out)@ + slot_text(id as int, addr, sp));
    }
}

impl Cpu {
    /// The state of the processor as text, for diagnosis.
    pub fn dump(&self) -> (text: String)
        ensures
            text@ == cpu_text(self@),
    {
        let mut text = String::new();
        text.append("PC: ");
        push_hex_addr(&mut text, self.pc);
        text.append("    I: ");
        push_hex_addr(&mut text, self.index);
        text.append("\n");
        text.append("Regs: \n");
        let ghost head = text@;
        let mut id: usize = 0;
        proof {
            assert(text@ =~= head + regs_text(self@.registers, 0));
        }
        while id < 16
            invariant
                id <= 16,
                text@ == head + regs_text(self@.registers, id as int),
            decreases 16 - id,
        {
            push_reg(&mut text, id, self.registers[id]);
            proof {
                assert(text@ =~= head + regs_text(self@.registers, id + 1));
            }
            id += 1;
        }
        text.append("Stack: \n");
        let ghost middle = text@;
        let mut id: usize = 0;
        proof {
            assert(text@ =~= middle + slots_text(self@.stack, self@.sp, 0));
        }
        while id < 16
            invariant
                id <= 16,
                text@ == middle + slots_text(self@.stack, self@.sp, id as int),
            decreases 16 - id,
        {
            push_slot(&mut text, id, self.stack.slots[id], self.stack.sp);
            proof {
                assert(text@ =~= middle + slots_text(self@.stack, self@.sp, id + 1));
            }
            id += 1;
        }
        proof {
            assert(text@ =~= cpu_text(self@));
        }
        text
    }
}

} // verus!
