use cassowary::memory::{Memory, MemoryError};

#[test]
fn new_memory_is_zero() {
    let mem = Memory::new();
    for addr in 0..4096 {
        assert_eq!(mem.load_byte(addr), Ok(0));
    }
}

#[test]
fn store_and_load_byte() {
    let mut mem = Memory::new();
    assert_eq!(mem.store_byte(0, 0xAB), Ok(()));
    assert_eq!(mem.store_byte(4095, 0xCD), Ok(()));
    assert_eq!(mem.load_byte(0), Ok(0xAB));
    assert_eq!(mem.load_byte(4095), Ok(0xCD));
    assert_eq!(mem.load_byte(1), Ok(0));
}

#[test]
fn byte_access_out_of_bounds() {
    let mut mem = Memory::new();
    assert_eq!(mem.store_byte(4096, 1), Err(MemoryError::OutOfBounds));
    assert_eq!(mem.load_byte(4096), Err(MemoryError::OutOfBounds));
    assert_eq!(mem.load_byte(usize::MAX), Err(MemoryError::OutOfBounds));
}

#[test]
fn load_u16_is_big_endian() {
    let mut mem = Memory::new();
    mem.set_mem_from(0x200, &[0x61, 0x05]).unwrap();
    assert_eq!(mem.load_u16(0x200), Ok(0x6105));
    assert_eq!(mem.load_u16(0x201), Ok(0x0500));
    mem.set_mem_from(4094, &[0xFF, 0xFE]).unwrap();
    assert_eq!(mem.load_u16(4094), Ok(0xFFFE));
}

#[test]
fn load_u16_needs_both_bytes() {
    let mem = Memory::new();
    assert_eq!(mem.load_u16(4095), Err(MemoryError::OutOfBounds));
    assert_eq!(mem.load_u16(4096), Err(MemoryError::OutOfBounds));
    assert_eq!(mem.load_u16(usize::MAX), Err(MemoryError::OutOfBounds));
}

#[test]
fn set_mem_from_writes_the_span() {
    let mut mem = Memory::new();
    assert_eq!(mem.set_mem_from(10, &[1, 2, 3]), Ok(()));
    assert_eq!(mem.load_byte(9), Ok(0));
    assert_eq!(mem.load_byte(10), Ok(1));
    assert_eq!(mem.load_byte(11), Ok(2));
    assert_eq!(mem.load_byte(12), Ok(3));
    assert_eq!(mem.load_byte(13), Ok(0));
}

#[test]
fn set_mem_from_up_to_the_end() {
    let mut mem = Memory::new();
    assert_eq!(mem.set_mem_from(4093, &[7, 8, 9]), Ok(()));
    assert_eq!(mem.load_byte(4095), Ok(9));
    assert_eq!(mem.set_mem_from(0, &[0x55; 4096]), Ok(()));
    assert_eq!(mem.load_byte(0), Ok(0x55));
    assert_eq!(mem.load_byte(4095), Ok(0x55));
}

#[test]
fn set_mem_from_refuses_without_writing() {
    let mut mem = Memory::new();
    assert_eq!(mem.set_mem_from(4094, &[1, 2, 3]), Err(MemoryError::OutOfBounds));
    assert_eq!(mem.load_byte(4094), Ok(0));
    assert_eq!(mem.load_byte(4095), Ok(0));
    assert_eq!(mem.set_mem_from(4096, &[]), Err(MemoryError::OutOfBounds));
    assert_eq!(mem.set_mem_from(usize::MAX, &[1, 2]), Err(MemoryError::OutOfBounds));
    assert_eq!(mem.set_mem_from(4095, &[]), Ok(()));
}
