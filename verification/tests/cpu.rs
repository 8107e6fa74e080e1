use cassowary::cpu::Cpu;
use cassowary::display::Display;
use cassowary::instructions::Instruction;
use cassowary::keyboard::KeyBoard;
use cassowary::memory::{Memory, MemoryError};
use cassowary::semantics::{CpuError, Signal};
use cassowary::sound::SoundSystem;
use cassowary::timer::DelayTimer;

struct Rig {
    cpu: Cpu,
    mem: Memory,
    delay: DelayTimer,
    display: Display,
    keyboard: KeyBoard,
    sound: SoundSystem,
}

impl Rig {
    fn new() -> Self {
        Rig {
            cpu: Cpu::new(),
            mem: Memory::new(),
            delay: DelayTimer::start_new(),
            display: Display::new(),
            keyboard: KeyBoard::new(),
            sound: SoundSystem::start_new(),
        }
    }

    fn with_program(start: usize, words: &[u16]) -> Self {
        let mut rig = Rig::new();
        let mut bytes = Vec::new();
        for word in words {
            bytes.push((word >> 8) as u8);
            bytes.push((word & 0xFF) as u8);
        }
        rig.mem.set_mem_from(start, &bytes).unwrap();
        rig.exec(Instruction::Jump(start)).unwrap();
        rig
    }

    fn exec(&mut self, instr: Instruction) -> Result<(), CpuError> {
        self.cpu.execute(
            instr,
            &mut self.mem,
            &mut self.delay,
            &mut self.display,
            &mut self.keyboard,
            &mut self.sound,
        )
    }

    fn step(&mut self) -> Result<Signal, CpuError> {
        self.cpu.step(
            &mut self.mem,
            &mut self.delay,
            &mut self.display,
            &mut self.keyboard,
            &mut self.sound,
        )
    }

    fn run(&mut self, max_steps: usize) -> Result<Signal, CpuError> {
        self.cpu.run(
            &mut self.mem,
            &mut self.delay,
            &mut self.display,
            &mut self.keyboard,
            &mut self.sound,
            max_steps,
        )
    }

    fn regs(&self) -> Vec<u8> {
        (0..16).map(|r| self.cpu.get_register(r)).collect()
    }
}

#[test]
fn new_cpu_is_zero() {
    let cpu = Cpu::new();
    for r in 0..16 {
        assert_eq!(cpu.get_register(r), 0);
    }
    assert_eq!(cpu.pc(), 0);
    assert_eq!(cpu.index(), 0);
    assert_eq!(cpu.stack_depth(), 0);
}

#[test]
fn set_and_get_register() {
    let mut cpu = Cpu::new();
    cpu.set_register(0, 1);
    cpu.set_register(15, 255);
    assert_eq!(cpu.get_register(0), 1);
    assert_eq!(cpu.get_register(15), 255);
    assert_eq!(cpu.get_register(7), 0);
}

#[test]
fn assign_and_add_immediate() {
    let mut rig = Rig::new();
    rig.exec(Instruction::AssignXImm(3, 0xF0)).unwrap();
    assert_eq!(rig.cpu.get_register(3), 0xF0);
    rig.cpu.set_register(0xF, 7);
    rig.exec(Instruction::AddXImm(3, 0x20)).unwrap();
    assert_eq!(rig.cpu.get_register(3), 0x10);
    assert_eq!(rig.cpu.get_register(0xF), 7);
}

#[test]
fn bitwise_instructions_leave_the_flag() {
    let mut rig = Rig::new();
    rig.cpu.set_register(0xF, 9);
    rig.cpu.set_register(1, 0b1100);
    rig.cpu.set_register(2, 0b1010);
    rig.exec(Instruction::OrXY(1, 2)).unwrap();
    assert_eq!(rig.cpu.get_register(1), 0b1110);
    rig.cpu.set_register(1, 0b1100);
    rig.exec(Instruction::AndXY(1, 2)).unwrap();
    assert_eq!(rig.cpu.get_register(1), 0b1000);
    rig.cpu.set_register(1, 0b1100);
    rig.exec(Instruction::XorXY(1, 2)).unwrap();
    assert_eq!(rig.cpu.get_register(1), 0b0110);
    rig.exec(Instruction::AssignXY(4, 2)).unwrap();
    assert_eq!(rig.cpu.get_register(4), 0b1010);
    assert_eq!(rig.cpu.get_register(2), 0b1010);
    assert_eq!(rig.cpu.get_register(0xF), 9);
}

#[test]
fn add_sets_the_flag_on_overflow() {
    let mut rig = Rig::new();
    rig.cpu.set_register(1, 200);
    rig.cpu.set_register(2, 100);
    rig.exec(Instruction::AddXY(1, 2)).unwrap();
    assert_eq!(rig.cpu.get_register(1), 44);
    assert_eq!(rig.cpu.get_register(0xF), 1);
    rig.exec(Instruction::AddXY(1, 2)).unwrap();
    assert_eq!(rig.cpu.get_register(1), 144);
    assert_eq!(rig.cpu.get_register(0xF), 0);
    rig.cpu.set_register(3, 255);
    rig.cpu.set_register(4, 1);
    rig.exec(Instruction::AddXY(3, 4)).unwrap();
    assert_eq!(rig.cpu.get_register(3), 0);
    assert_eq!(rig.cpu.get_register(0xF), 1);
}

#[test]
fn sub_clears_the_flag_on_borrow() {
    let mut rig = Rig::new();
    rig.cpu.set_register(1, 5);
    rig.cpu.set_register(2, 7);
    rig.exec(Instruction::SubXY(1, 2)).unwrap();
    assert_eq!(rig.cpu.get_register(1), 254);
    assert_eq!(rig.cpu.get_register(0xF), 0);
    rig.cpu.set_register(1, 7);
    rig.exec(Instruction::SubXY(1, 2)).unwrap();
    assert_eq!(rig.cpu.get_register(1), 0);
    assert_eq!(rig.cpu.get_register(0xF), 1);
    rig.cpu.set_register(1, 9);
    rig.exec(Instruction::SubXY(1, 2)).unwrap();
    assert_eq!(rig.cpu.get_register(1), 2);
    assert_eq!(rig.cpu.get_register(0xF), 1);
}

#[test]
fn sub_reversed() {
    let mut rig = Rig::new();
    rig.cpu.set_register(1, 5);
    rig.cpu.set_register(2, 7);
    rig.exec(Instruction::SubYX(1, 2)).unwrap();
    assert_eq!(rig.cpu.get_register(1), 2);
    assert_eq!(rig.cpu.get_register(2), 7);
    assert_eq!(rig.cpu.get_register(0xF), 1);
    rig.cpu.set_register(1, 8);
    rig.exec(Instruction::SubYX(1, 2)).unwrap();
    assert_eq!(rig.cpu.get_register(1), 255);
    assert_eq!(rig.cpu.get_register(0xF), 0);
}

#[test]
fn shifts_put_the_lost_bit_in_the_flag() {
    let mut rig = Rig::new();
    rig.cpu.set_register(1, 0b1000_0101);
    rig.exec(Instruction::Shr1X(1)).unwrap();
    assert_eq!(rig.cpu.get_register(1), 0b0100_0010);
    assert_eq!(rig.cpu.get_register(0xF), 1);
    rig.exec(Instruction::Shr1X(1)).unwrap();
    assert_eq!(rig.cpu.get_register(1), 0b0010_0001);
    assert_eq!(rig.cpu.get_register(0xF), 0);
    rig.cpu.set_register(2, 0b1100_0001);
    rig.exec(Instruction::Shl1X(2)).unwrap();
    assert_eq!(rig.cpu.get_register(2), 0b1000_0010);
    assert_eq!(rig.cpu.get_register(0xF), 1);
    rig.cpu.set_register(2, 0b0100_0001);
    rig.exec(Instruction::Shl1X(2)).unwrap();
    assert_eq!(rig.cpu.get_register(2), 0b1000_0010);
    assert_eq!(rig.cpu.get_register(0xF), 0);
}

#[test]
fn flag_register_as_operand_ends_as_the_flag() {
    let mut rig = Rig::new();
    rig.cpu.set_register(0xF, 200);
    rig.cpu.set_register(1, 100);
    rig.exec(Instruction::AddXY(0xF, 1)).unwrap();
    assert_eq!(rig.cpu.get_register(0xF), 1);
    rig.cpu.set_register(0xF, 0b11);
    rig.exec(Instruction::Shr1X(0xF)).unwrap();
    assert_eq!(rig.cpu.get_register(0xF), 1);
}

#[test]
fn add_then_sub_restores_the_register() {
    for (xv, yv) in [(0u8, 0u8), (1, 255), (200, 100), (255, 255), (17, 4), (128, 128)] {
        let mut rig = Rig::new();
        rig.cpu.set_register(3, xv);
        rig.cpu.set_register(8, yv);
        rig.cpu.set_register(5, 0x5A);
        rig.exec(Instruction::AddXY(3, 8)).unwrap();
        rig.exec(Instruction::SubXY(3, 8)).unwrap();
        assert_eq!(rig.cpu.get_register(3), xv);
        assert_eq!(rig.cpu.get_register(8), yv);
        assert_eq!(rig.cpu.get_register(5), 0x5A);
    }
}

#[test]
fn skips_move_the_program_counter_by_two() {
    let mut rig = Rig::new();
    rig.cpu.set_register(1, 5);
    rig.cpu.set_register(2, 5);
    rig.cpu.set_register(3, 6);
    rig.exec(Instruction::Jump(0x200)).unwrap();
    rig.exec(Instruction::SkipIfEqX(1, 5)).unwrap();
    assert_eq!(rig.cpu.pc(), 0x202);
    rig.exec(Instruction::SkipIfEqX(1, 6)).unwrap();
    assert_eq!(rig.cpu.pc(), 0x202);
    rig.exec(Instruction::SkipIfNeX(1, 6)).unwrap();
    assert_eq!(rig.cpu.pc(), 0x204);
    rig.exec(Instruction::SkipIfNeX(1, 5)).unwrap();
    assert_eq!(rig.cpu.pc(), 0x204);
    rig.exec(Instruction::SkipIfEqXY(1, 2)).unwrap();
    assert_eq!(rig.cpu.pc(), 0x206);
    rig.exec(Instruction::SkipIfEqXY(1, 3)).unwrap();
    assert_eq!(rig.cpu.pc(), 0x206);
    rig.exec(Instruction::SkipIfNeXY(1, 3)).unwrap();
    assert_eq!(rig.cpu.pc(), 0x208);
    rig.exec(Instruction::SkipIfNeXY(1, 2)).unwrap();
    assert_eq!(rig.cpu.pc(), 0x208);
}

#[test]
fn skip_advances_four_or_two_from_the_fetch() {
    let mut rig = Rig::with_program(0x200, &[0x3105, 0x0000, 0x3106, 0x4106, 0x0000, 0x4105]);
    rig.cpu.set_register(1, 5);
    assert_eq!(rig.step(), Ok(Signal::Continue));
    assert_eq!(rig.cpu.pc(), 0x204);
    assert_eq!(rig.step(), Ok(Signal::Continue));
    assert_eq!(rig.cpu.pc(), 0x206);
    assert_eq!(rig.step(), Ok(Signal::Continue));
    assert_eq!(rig.cpu.pc(), 0x20A);
    assert_eq!(rig.step(), Ok(Signal::Continue));
    assert_eq!(rig.cpu.pc(), 0x20C);
}

#[test]
fn key_skips_compare_with_the_key_held() {
    let mut rig = Rig::with_program(0x200, &[0xE19E, 0x0000, 0xE1A1, 0xE2A1, 0x0000, 0xE29E]);
    rig.keyboard.press(7);
    rig.cpu.set_register(1, 7);
    rig.cpu.set_register(2, 8);
    rig.step().unwrap();
    assert_eq!(rig.cpu.pc(), 0x204);
    rig.step().unwrap();
    assert_eq!(rig.cpu.pc(), 0x206);
    rig.step().unwrap();
    assert_eq!(rig.cpu.pc(), 0x20A);
    rig.step().unwrap();
    assert_eq!(rig.cpu.pc(), 0x20C);
    assert_eq!(rig.keyboard.get_key_pressed(), 7);
}

#[test]
fn key_skips_see_zero_without_a_key() {
    let mut rig = Rig::new();
    assert_eq!(rig.keyboard.await_key_press(), b'q');
    rig.exec(Instruction::Jump(0x200)).unwrap();
    rig.exec(Instruction::SkipIfKeyEqX(1)).unwrap();
    assert_eq!(rig.cpu.pc(), 0x202);
    rig.cpu.set_register(1, 1);
    rig.exec(Instruction::SkipIfKeyNeX(1)).unwrap();
    assert_eq!(rig.cpu.pc(), 0x204);
}

#[test]
fn skip_at_the_last_address_overflows() {
    let mut rig = Rig::new();
    rig.exec(Instruction::Jump(usize::MAX - 1)).unwrap();
    assert_eq!(rig.exec(Instruction::SkipIfEqX(0, 0)), Err(CpuError::MemoryAddressOverflow));
    assert_eq!(rig.cpu.pc(), usize::MAX - 1);
    assert_eq!(rig.exec(Instruction::SkipIfEqX(0, 1)), Ok(()));
}

#[test]
fn jump_and_jump_with_offset() {
    let mut rig = Rig::new();
    rig.exec(Instruction::Jump(0x345)).unwrap();
    assert_eq!(rig.cpu.pc(), 0x345);
    rig.cpu.set_register(0, 0x10);
    rig.exec(Instruction::JumpV0(0x300)).unwrap();
    assert_eq!(rig.cpu.pc(), 0x310);
    assert_eq!(rig.exec(Instruction::JumpV0(usize::MAX)), Err(CpuError::MemoryAddressOverflow));
    assert_eq!(rig.cpu.pc(), 0x310);
    rig.cpu.set_register(0, 0);
    assert_eq!(rig.exec(Instruction::JumpV0(usize::MAX)), Ok(()));
    assert_eq!(rig.cpu.pc(), usize::MAX);
}

#[test]
fn call_and_return() {
    let mut rig = Rig::new();
    rig.exec(Instruction::Jump(0x202)).unwrap();
    rig.exec(Instruction::Call(0x300)).unwrap();
    assert_eq!(rig.cpu.pc(), 0x300);
    assert_eq!(rig.cpu.stack_depth(), 1);
    rig.exec(Instruction::Call(0x400)).unwrap();
    assert_eq!(rig.cpu.stack_depth(), 2);
    rig.exec(Instruction::Ret).unwrap();
    assert_eq!(rig.cpu.pc(), 0x300);
    rig.exec(Instruction::Ret).unwrap();
    assert_eq!(rig.cpu.pc(), 0x202);
    assert_eq!(rig.cpu.stack_depth(), 0);
}

#[test]
fn return_on_an_empty_stack_underflows() {
    let mut rig = Rig::new();
    rig.exec(Instruction::Jump(0x200)).unwrap();
    assert_eq!(rig.exec(Instruction::Ret), Err(CpuError::StackUnderflow));
    assert_eq!(rig.cpu.pc(), 0x200);
    assert_eq!(rig.cpu.stack_depth(), 0);
}

#[test]
fn seventeenth_call_overflows_the_stack() {
    let mut rig = Rig::new();
    for depth in 0..16 {
        assert_eq!(rig.exec(Instruction::Call(0x200 + 2 * depth)), Ok(()));
        assert_eq!(rig.cpu.stack_depth(), depth + 1);
    }
    assert_eq!(rig.exec(Instruction::Call(0x300)), Err(CpuError::StackOverflow));
    assert_eq!(rig.cpu.stack_depth(), 16);
    assert_eq!(rig.cpu.pc(), 0x200 + 2 * 15);
    assert_eq!(rig.exec(Instruction::Ret), Ok(()));
    assert_eq!(rig.cpu.pc(), 0x200 + 2 * 14);
}

#[test]
fn seventeen_calls_in_a_program() {
    // Each call goes to the next word, so the program is seventeen calls in a row.
    let words: Vec<u16> = (0..17).map(|i| 0x2000 | (0x202 + 2 * i)).collect();
    let mut rig = Rig::with_program(0x200, &words);
    assert_eq!(rig.run(16), Ok(Signal::Continue));
    assert_eq!(rig.cpu.stack_depth(), 16);
    assert_eq!(rig.run(5), Err(CpuError::StackOverflow));
}

#[test]
fn index_instructions() {
    let mut rig = Rig::new();
    rig.exec(Instruction::SetI(0x123)).unwrap();
    assert_eq!(rig.cpu.index(), 0x123);
    rig.cpu.set_register(4, 0xFF);
    rig.exec(Instruction::AddIX(4)).unwrap();
    assert_eq!(rig.cpu.index(), 0x222);
    rig.cpu.set_register(5, 0xA);
    rig.exec(Instruction::SpriteAddrIX(5)).unwrap();
    assert_eq!(rig.cpu.index(), 0x100 + 50);
    rig.cpu.set_register(5, 0xFF);
    rig.exec(Instruction::SpriteAddrIX(5)).unwrap();
    assert_eq!(rig.cpu.index(), 0x100 + 5 * 255);
}

#[test]
fn index_addition_wraps_at_the_last_address() {
    let mut rig = Rig::new();
    rig.exec(Instruction::SetI(usize::MAX)).unwrap();
    rig.cpu.set_register(1, 3);
    rig.exec(Instruction::AddIX(1)).unwrap();
    assert_eq!(rig.cpu.index(), 2);
}

#[test]
fn decimal_digits_of_205() {
    let mut rig = Rig::new();
    rig.cpu.set_register(3, 205);
    rig.exec(Instruction::SetI(0x500)).unwrap();
    rig.exec(Instruction::DumpBcdIX(3)).unwrap();
    assert_eq!(rig.mem.load_byte(0x500), Ok(2));
    assert_eq!(rig.mem.load_byte(0x501), Ok(0));
    assert_eq!(rig.mem.load_byte(0x502), Ok(5));
    assert_eq!(rig.mem.load_byte(0x503), Ok(0));
    assert_eq!(rig.mem.load_byte(0x4FF), Ok(0));
}

#[test]
fn decimal_digits_of_small_values() {
    let mut rig = Rig::new();
    rig.mem.set_mem_from(0x500, &[9, 9, 9]).unwrap();
    rig.exec(Instruction::SetI(0x500)).unwrap();
    rig.cpu.set_register(3, 7);
    rig.exec(Instruction::DumpBcdIX(3)).unwrap();
    assert_eq!(rig.mem.load_byte(0x500), Ok(0));
    assert_eq!(rig.mem.load_byte(0x501), Ok(0));
    assert_eq!(rig.mem.load_byte(0x502), Ok(7));
    rig.cpu.set_register(3, 99);
    rig.exec(Instruction::DumpBcdIX(3)).unwrap();
    assert_eq!(rig.mem.load_byte(0x500), Ok(0));
    assert_eq!(rig.mem.load_byte(0x501), Ok(9));
    assert_eq!(rig.mem.load_byte(0x502), Ok(9));
    rig.cpu.set_register(3, 255);
    rig.exec(Instruction::DumpBcdIX(3)).unwrap();
    assert_eq!(rig.mem.load_byte(0x500), Ok(2));
    assert_eq!(rig.mem.load_byte(0x501), Ok(5));
    assert_eq!(rig.mem.load_byte(0x502), Ok(5));
}

#[test]
fn decimal_digits_past_the_end_of_memory() {
    let mut rig = Rig::new();
    rig.cpu.set_register(3, 123);
    rig.exec(Instruction::SetI(4094)).unwrap();
    assert_eq!(
        rig.exec(Instruction::DumpBcdIX(3)),
        Err(CpuError::MemoryError(MemoryError::OutOfBounds))
    );
    assert_eq!(rig.mem.load_byte(4094), Ok(1));
    assert_eq!(rig.mem.load_byte(4095), Ok(2));
}

#[test]
fn register_dump_and_load() {
    let mut rig = Rig::new();
    for r in 0..16 {
        rig.cpu.set_register(r, 0x10 + r as u8);
    }
    rig.exec(Instruction::SetI(0x600)).unwrap();
    rig.exec(Instruction::RegDumpIX(3)).unwrap();
    assert_eq!(rig.mem.load_byte(0x600), Ok(0x10));
    assert_eq!(rig.mem.load_byte(0x603), Ok(0x13));
    assert_eq!(rig.mem.load_byte(0x604), Ok(0));
    assert_eq!(rig.cpu.index(), 0x600);

    rig.mem.set_mem_from(0x700, &[1, 2, 3, 4, 5]).unwrap();
    rig.exec(Instruction::SetI(0x700)).unwrap();
    rig.exec(Instruction::RegLoadIX(2)).unwrap();
    assert_eq!(&rig.regs()[0..5], &[1, 2, 3, 0x13, 0x14]);
    rig.exec(Instruction::RegLoadIX(0)).unwrap();
    rig.exec(Instruction::RegDumpIX(0xF)).unwrap();
    assert_eq!(rig.mem.load_byte(0x70F), Ok(0x1F));
}

#[test]
fn register_blocks_past_the_end_of_memory() {
    let mut rig = Rig::new();
    for r in 0..16 {
        rig.cpu.set_register(r, 0x20 + r as u8);
    }
    rig.exec(Instruction::SetI(4094)).unwrap();
    assert_eq!(
        rig.exec(Instruction::RegDumpIX(4)),
        Err(CpuError::MemoryError(MemoryError::OutOfBounds))
    );
    assert_eq!(rig.mem.load_byte(4094), Ok(0x20));
    assert_eq!(rig.mem.load_byte(4095), Ok(0x21));
    rig.mem.set_mem_from(4094, &[0xAA, 0xBB]).unwrap();
    assert_eq!(
        rig.exec(Instruction::RegLoadIX(4)),
        Err(CpuError::MemoryError(MemoryError::OutOfBounds))
    );
    assert_eq!(&rig.regs()[0..3], &[0xAA, 0xBB, 0x22]);
    rig.exec(Instruction::SetI(usize::MAX)).unwrap();
    assert_eq!(
        rig.exec(Instruction::RegLoadIX(1)),
        Err(CpuError::MemoryError(MemoryError::OutOfBounds))
    );
    assert_eq!(
        rig.exec(Instruction::RegDumpIX(1)),
        Err(CpuError::MemoryError(MemoryError::OutOfBounds))
    );
}

#[test]
fn random_byte_is_masked() {
    let mut rig = Rig::new();
    let mut seen = [false; 16];
    for _ in 0..2000 {
        rig.exec(Instruction::RandX(2, 0x0F)).unwrap();
        let value = rig.cpu.get_register(2);
        assert!(value < 16);
        seen[value as usize] = true;
    }
    assert!(seen.iter().filter(|s| **s).count() > 1);
    rig.exec(Instruction::RandX(2, 0x00)).unwrap();
    assert_eq!(rig.cpu.get_register(2), 0);
}

#[test]
fn random_byte_keeps_only_the_masked_bits() {
    let mut cpu = Cpu::new();
    assert_eq!(cpu.rand_x_with(2, 0x0F, 0xAB), Ok(()));
    assert_eq!(cpu.get_register(2), 0x0B);
    assert_eq!(cpu.rand_x_with(3, 0xF0, 0xAB), Ok(()));
    assert_eq!(cpu.get_register(3), 0xA0);
    assert_eq!(cpu.rand_x_with(4, 0xFF, 0xAB), Ok(()));
    assert_eq!(cpu.get_register(4), 0xAB);
}

#[test]
fn timers_pass_through() {
    let mut rig = Rig::new();
    rig.cpu.set_register(1, 30);
    rig.exec(Instruction::SetDelayX(1)).unwrap();
    assert_eq!(rig.delay.get(), 30);
    rig.delay.tick();
    rig.exec(Instruction::GetDelayX(2)).unwrap();
    assert_eq!(rig.cpu.get_register(2), 29);
    rig.cpu.set_register(3, 60);
    rig.exec(Instruction::SetSoundX(3)).unwrap();
    assert_eq!(rig.sound.get_timer(), 60);
    assert_eq!(rig.delay.get(), 29);
}

#[test]
fn await_key_takes_the_key() {
    let mut rig = Rig::new();
    rig.keyboard.press(0xC);
    rig.exec(Instruction::AwaitKeyX(6)).unwrap();
    assert_eq!(rig.cpu.get_register(6), 0xC);
    assert!(!rig.keyboard.has_key_press());
}

#[test]
fn await_key_parks_until_a_key_comes() {
    let mut rig = Rig::with_program(0x200, &[0xF10A, 0xF20A, 0xF000]);
    assert_eq!(rig.step(), Ok(Signal::Continue));
    assert_eq!(rig.cpu.get_register(1), b'q');
    assert_eq!(rig.cpu.pc(), 0x202);
    assert_eq!(rig.step(), Ok(Signal::AwaitKey));
    assert_eq!(rig.cpu.pc(), 0x202);
    assert_eq!(rig.run(100), Ok(Signal::AwaitKey));
    assert_eq!(rig.cpu.pc(), 0x202);
    assert_eq!(rig.cpu.get_register(2), 0);
    rig.keyboard.press(3);
    assert_eq!(rig.run(100), Ok(Signal::Halt));
    assert_eq!(rig.cpu.get_register(2), 3);
    assert_eq!(rig.cpu.pc(), 0x206);
}

#[test]
fn draw_sets_the_flag_on_collision() {
    let mut rig = Rig::new();
    rig.mem.set_mem_from(0x300, &[0xF0, 0x00]).unwrap();
    rig.cpu.set_register(1, 4);
    rig.cpu.set_register(2, 6);
    rig.cpu.set_register(0xF, 9);
    rig.exec(Instruction::SetI(0x300)).unwrap();
    rig.exec(Instruction::DispDraw(1, 2, 1)).unwrap();
    assert_eq!(rig.cpu.get_register(0xF), 1);
    assert!(rig.display.pixel(4, 6));
    assert!(rig.display.pixel(7, 6));
    assert!(!rig.display.pixel(8, 6));
    rig.exec(Instruction::SetI(0x301)).unwrap();
    rig.exec(Instruction::DispDraw(1, 2, 1)).unwrap();
    assert_eq!(rig.cpu.get_register(0xF), 0);
    assert!(rig.display.pixel(4, 6));
    rig.exec(Instruction::DispClear).unwrap();
    assert!(!rig.display.pixel(4, 6));
    assert_eq!(rig.cpu.get_register(0xF), 0);
}

#[test]
fn draw_outside_memory_leaves_the_flag() {
    let mut rig = Rig::new();
    rig.cpu.set_register(0xF, 9);
    rig.exec(Instruction::SetI(4096)).unwrap();
    assert_eq!(
        rig.exec(Instruction::DispDraw(0, 0, 1)),
        Err(CpuError::MemoryError(MemoryError::OutOfBounds))
    );
    assert_eq!(rig.cpu.get_register(0xF), 9);
}

#[test]
fn halt_noop_and_unsupported() {
    let mut rig = Rig::new();
    assert_eq!(rig.exec(Instruction::Halt), Err(CpuError::Halt));
    assert_eq!(rig.exec(Instruction::NoOp(0x0123)), Ok(()));
    assert_eq!(
        rig.exec(Instruction::Unsupported(0x5AB1)),
        Err(CpuError::IllegalInstruction(0x5AB1))
    );
    assert_eq!(rig.regs(), vec![0; 16]);
    assert_eq!(rig.cpu.pc(), 0);
}

#[test]
fn fetch_reads_the_word_and_advances() {
    let mut rig = Rig::with_program(0x200, &[0x6105]);
    assert_eq!(rig.cpu.fetch(&rig.mem), Ok(0x6105));
    assert_eq!(rig.cpu.pc(), 0x202);
}

#[test]
fn fetch_outside_memory_fails_in_place() {
    let mut rig = Rig::new();
    rig.exec(Instruction::Jump(4095)).unwrap();
    assert_eq!(rig.cpu.fetch(&rig.mem), Err(CpuError::MemoryError(MemoryError::OutOfBounds)));
    assert_eq!(rig.cpu.pc(), 4095);
    assert_eq!(rig.step(), Err(CpuError::MemoryError(MemoryError::OutOfBounds)));
    assert_eq!(rig.run(3), Err(CpuError::MemoryError(MemoryError::OutOfBounds)));
}

#[test]
fn example_run_leaves_eight_in_v1() {
    let mut rig = Rig::with_program(0x200, &[0x6105, 0x7103, 0xF000]);
    assert_eq!(rig.run(1000), Ok(Signal::Halt));
    assert_eq!(rig.cpu.get_register(1), 8);
    assert_eq!(rig.cpu.pc(), 0x206);
}

#[test]
fn run_stops_when_the_steps_are_used_up() {
    let mut rig = Rig::with_program(0x200, &[0x7101, 0x1200]);
    assert_eq!(rig.run(0), Ok(Signal::Continue));
    assert_eq!(rig.cpu.get_register(1), 0);
    assert_eq!(rig.run(10), Ok(Signal::Continue));
    assert_eq!(rig.cpu.get_register(1), 5);
    assert_eq!(rig.cpu.pc(), 0x200);
    assert_eq!(rig.run(1), Ok(Signal::Continue));
    assert_eq!(rig.cpu.get_register(1), 6);
    assert_eq!(rig.cpu.pc(), 0x202);
}

#[test]
fn run_reports_a_redraw_after_each_draw() {
    let mut rig = Rig::with_program(0x200, &[0x00E0, 0x6103, 0xA300, 0xD111, 0x0000]);
    rig.mem.set_mem_from(0x300, &[0x80]).unwrap();
    assert_eq!(rig.run(100), Ok(Signal::Redraw));
    assert_eq!(rig.cpu.pc(), 0x202);
    assert_eq!(rig.run(100), Ok(Signal::Redraw));
    assert_eq!(rig.cpu.pc(), 0x208);
    assert!(rig.display.pixel(3, 3));
    assert_eq!(rig.run(100), Ok(Signal::Halt));
}

#[test]
fn run_surfaces_an_illegal_instruction() {
    let mut rig = Rig::with_program(0x200, &[0x6105, 0x5AB1, 0x6106]);
    assert_eq!(rig.run(100), Err(CpuError::IllegalInstruction(0x5AB1)));
    assert_eq!(rig.cpu.get_register(1), 5);
    assert_eq!(rig.cpu.pc(), 0x204);
}

#[test]
fn double_sum_program() {
    let mut rig = Rig::with_program(0x200, &[0x2100, 0x2100, 0x0000]);
    rig.mem.set_mem_from(0x100, &[0x80, 0x14, 0x80, 0x14, 0x00, 0xEE]).unwrap();
    rig.cpu.set_register(0, 5);
    rig.cpu.set_register(1, 10);
    assert_eq!(rig.run(1000), Ok(Signal::Halt));
    assert_eq!(rig.cpu.get_register(0), 45);
    assert_eq!(rig.cpu.stack_depth(), 0);
}
