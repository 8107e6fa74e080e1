use cassowary::instructions::Instruction;

#[test]
fn decode_load_immediate() {
    assert_eq!(Instruction::decode(0x6105), Instruction::AssignXImm(1, 5));
}

#[test]
fn decode_class_zero() {
    assert_eq!(Instruction::decode(0x0000), Instruction::Halt);
    assert_eq!(Instruction::decode(0x00E0), Instruction::DispClear);
    assert_eq!(Instruction::decode(0x00EE), Instruction::Ret);
    assert_eq!(Instruction::decode(0x0123), Instruction::NoOp(0x0123));
    assert_eq!(Instruction::decode(0x00E1), Instruction::NoOp(0x00E1));
    assert_eq!(Instruction::decode(0x0FFF), Instruction::NoOp(0x0FFF));
}

#[test]
fn decode_address_instructions() {
    assert_eq!(Instruction::decode(0x1200), Instruction::Jump(0x200));
    assert_eq!(Instruction::decode(0x2FFF), Instruction::Call(0xFFF));
    assert_eq!(Instruction::decode(0xA500), Instruction::SetI(0x500));
    assert_eq!(Instruction::decode(0xB00A), Instruction::JumpV0(0x00A));
}

#[test]
fn decode_register_and_immediate() {
    assert_eq!(Instruction::decode(0x3A42), Instruction::SkipIfEqX(0xA, 0x42));
    assert_eq!(Instruction::decode(0x4B00), Instruction::SkipIfNeX(0xB, 0x00));
    assert_eq!(Instruction::decode(0x6FFF), Instruction::AssignXImm(0xF, 0xFF));
    assert_eq!(Instruction::decode(0x7103), Instruction::AddXImm(1, 3));
    assert_eq!(Instruction::decode(0xC30F), Instruction::RandX(3, 0x0F));
}

#[test]
fn decode_register_pair_compare() {
    assert_eq!(Instruction::decode(0x5120), Instruction::SkipIfEqXY(1, 2));
    assert_eq!(Instruction::decode(0x9340), Instruction::SkipIfNeXY(3, 4));
    for low in 1..16u16 {
        assert_eq!(Instruction::decode(0x5120 | low), Instruction::Unsupported(0x5120 | low));
        assert_eq!(Instruction::decode(0x9340 | low), Instruction::Unsupported(0x9340 | low));
    }
}

#[test]
fn decode_alu() {
    assert_eq!(Instruction::decode(0x8120), Instruction::AssignXY(1, 2));
    assert_eq!(Instruction::decode(0x8121), Instruction::OrXY(1, 2));
    assert_eq!(Instruction::decode(0x8122), Instruction::AndXY(1, 2));
    assert_eq!(Instruction::decode(0x8123), Instruction::XorXY(1, 2));
    assert_eq!(Instruction::decode(0x8014), Instruction::AddXY(0, 1));
    assert_eq!(Instruction::decode(0x8AB5), Instruction::SubXY(0xA, 0xB));
    assert_eq!(Instruction::decode(0x8C06), Instruction::Shr1X(0xC));
    assert_eq!(Instruction::decode(0x8DE7), Instruction::SubYX(0xD, 0xE));
    assert_eq!(Instruction::decode(0x8F0E), Instruction::Shl1X(0xF));
    for low in [0x8u16, 0x9, 0xA, 0xB, 0xC, 0xD, 0xF] {
        assert_eq!(Instruction::decode(0x8120 | low), Instruction::Unsupported(0x8120 | low));
    }
}

#[test]
fn decode_draw() {
    assert_eq!(Instruction::decode(0xD125), Instruction::DispDraw(1, 2, 5));
    assert_eq!(Instruction::decode(0xDFE0), Instruction::DispDraw(0xF, 0xE, 0));
}

#[test]
fn decode_keys() {
    assert_eq!(Instruction::decode(0xE39E), Instruction::SkipIfKeyEqX(3));
    assert_eq!(Instruction::decode(0xE4A1), Instruction::SkipIfKeyNeX(4));
    assert_eq!(Instruction::decode(0xE400), Instruction::Unsupported(0xE400));
    assert_eq!(Instruction::decode(0xE49F), Instruction::Unsupported(0xE49F));
}

#[test]
fn decode_class_f() {
    assert_eq!(Instruction::decode(0xF407), Instruction::GetDelayX(4));
    assert_eq!(Instruction::decode(0xF50A), Instruction::AwaitKeyX(5));
    assert_eq!(Instruction::decode(0xF415), Instruction::SetDelayX(4));
    assert_eq!(Instruction::decode(0xF318), Instruction::SetSoundX(3));
    assert_eq!(Instruction::decode(0xF21E), Instruction::AddIX(2));
    assert_eq!(Instruction::decode(0xF329), Instruction::SpriteAddrIX(3));
    assert_eq!(Instruction::decode(0xF333), Instruction::DumpBcdIX(3));
    assert_eq!(Instruction::decode(0xF255), Instruction::RegDumpIX(2));
    assert_eq!(Instruction::decode(0xF265), Instruction::RegLoadIX(2));
    assert_eq!(Instruction::decode(0xF517), Instruction::NoOp(0xF517));
    assert_eq!(Instruction::decode(0xF000), Instruction::Halt);
    assert_eq!(Instruction::decode(0xF100), Instruction::Unsupported(0xF100));
    assert_eq!(Instruction::decode(0xF0FF), Instruction::Unsupported(0xF0FF));
}

#[test]
fn decode_is_total() {
    let mut unsupported = 0u32;
    let mut halts = 0u32;
    for opcode in 0..=0xFFFFu16 {
        match Instruction::decode(opcode) {
            Instruction::Unsupported(word) | Instruction::NoOp(word) => {
                assert_eq!(word, opcode);
                if let Instruction::Unsupported(_) = Instruction::decode(opcode) {
                    unsupported += 1;
                }
            }
            Instruction::Halt => halts += 1,
            Instruction::Jump(addr)
            | Instruction::JumpV0(addr)
            | Instruction::Call(addr)
            | Instruction::SetI(addr) => assert_eq!(addr, (opcode & 0x0FFF) as usize),
            Instruction::DispDraw(x, y, n) => {
                assert!(x < 16 && y < 16 && n < 16);
            }
            _ => {}
        }
    }
    assert_eq!(halts, 2);
    // 15 low nibbles in each of the classes 5 and 9, 7 in class 8, 254 low
    // bytes in class E, and the low bytes of class F that name nothing
    // (256 less 10 instructions, less 0xF000 itself once).
    let class_f = 16 * (256 - 10) - 1;
    assert_eq!(unsupported, 2 * 256 * 15 + 256 * 7 + 16 * 254 + class_f);
}
