//! The flat, byte-addressable store of the machine.

use vstd::prelude::*;
use vstd::string::StringExecFns;
use crate::text::{hex_addr, hex_byte, push_hex_addr, push_hex_byte};

verus! {

/// Number of addressable bytes.
pub const MEMORY_SIZE: usize = 4096;

/// The one way a memory access can fail.
#[derive(Clone, Copy, Debug, PartialEq, Eq, Structural)]
pub enum MemoryError {
    /// The access touches an address at or past [`MEMORY_SIZE`].
    OutOfBounds,
}

/// The big-endian 16-bit word whose high byte is at `addr`.
pub open spec fn word_at(bytes: Seq<u8>, addr: int) -> u16 {
    (bytes[addr] * 256 + bytes[addr + 1]) as u16
}

/// Of `len` consecutive addresses from `start` on, how many lie inside
/// memory: all of them, or those before the first one that does not.
pub open spec fn span_in_reach(start: int, len: int) -> int {
    if start >= MEMORY_SIZE {
        0
    } else if start + len <= MEMORY_SIZE {
        len
    } else {
        MEMORY_SIZE - start
    }
}

/// `bytes` with the span starting at `start` replaced by `data`.
pub open spec fn overwrite(bytes: Seq<u8>, start: int, data: Seq<u8>) -> Seq<u8> {
    Seq::new(
        bytes.len(),
        |i: int|
            if start <= i < start + data.len() {
                data[i - start]
            } else {
                bytes[i]
            },
    )
}

/// Bytes on one line of the dump.
pub const DUMP_BLOCK: usize = 16;

/// Whether the 16 bytes from `addr` on are all zero.
pub open spec fn zero_block(bytes: Seq<u8>, addr: int) -> bool {
    forall|i: int| 0 <= i < DUMP_BLOCK ==> #[trigger] bytes[addr + i] == 0
}

/// One byte in the dump. A blank goes before every second byte, and before
/// every fourth, but for the first of the line, the address of that byte.
pub open spec fn dump_byte_text(bytes: Seq<u8>, addr: int, i: int) -> Seq<char> {
    (if i % 2 == 0 {
        " "@
    } else {
        Seq::empty()
    }) + (if i % 4 == 0 && i != 0 {
        "  "@ + hex_addr((addr + i) as nat) + ": "@
    } else {
        Seq::empty()
    }) + hex_byte(bytes[addr + i])
}

/// The first `count` bytes of the line for the block at `addr`.
pub open spec fn dump_bytes_text(bytes: Seq<u8>, addr: int, count: int) -> Seq<char>
    decreases count,
{
    if count <= 0 {
        Seq::empty()
    } else {
        dump_bytes_text(bytes, addr, count - 1) + dump_byte_text(bytes, addr, count - 1)
    }
}

/// What the dump shows for the block at `addr`: nothing if it is all zero;
/// else its line, after a line of dots if the block before it was left out.
pub open spec fn dump_block_text(bytes: Seq<u8>, addr: int) -> Seq<char> {
    if zero_block(bytes, addr) {
        Seq::empty()
    } else {
        (if addr >= DUMP_BLOCK && zero_block(bytes, addr - DUMP_BLOCK) {
            "   ...\n"@
        } else {
            Seq::empty()
        }) + " "@ + hex_addr(addr as nat) + ":"@ + dump_bytes_text(bytes, addr, DUMP_BLOCK as int)
            + "\n"@
    }
}

/// What the dump shows for the first `blocks` blocks.
pub open spec fn dump_blocks_text(bytes: Seq<u8>, blocks: int) -> Seq<char>
    decreases blocks,
{
    if blocks <= 0 {
        Seq::empty()
    } else {
        dump_blocks_text(bytes, blocks - 1) + dump_block_text(bytes, (blocks - 1) * DUMP_BLOCK)
    }
}

/// The dump of memory: a heading, then the blocks that are not all zero.
pub open spec fn memory_text(bytes: Seq<u8>) -> Seq<char> {
    "Memory:\n"@ + dump_blocks_text(bytes, (MEMORY_SIZE / DUMP_BLOCK) as int)
}

/// 4096 bytes, zero at start. Its view is the sequence of those bytes.
pub struct Memory {
    bytes: [u8; 4096],
}

impl View for Memory {
    type V = Seq<u8>;

    closed spec fn view(&self) -> Seq<u8> {
        self.bytes@
    }
}

impl Memory {
    /// The view always has exactly [`MEMORY_SIZE`] entries.
    pub proof fn lemma_size(&self)
        ensures
            self@.len() == MEMORY_SIZE,
    {
    }

    /// Memory with every byte zero.
    pub fn new() -> (mem: Self)
        ensures
            mem@ == Seq::new(MEMORY_SIZE as nat, |i: int| 0u8),
    {
        let mem = Self { bytes: [0u8; 4096] };
        assert(mem@ =~= Seq::new(MEMORY_SIZE as nat, |i: int| 0u8));
        mem
    }

    /// The contents of memory as text, 16 bytes to a line, for diagnosis.
    /// Runs of blocks that hold only zeros are left out.
    pub fn dump(&self) -> (text: String)
        ensures
            text@ == memory_text(self@),
    {
        let mut text = String::new();
        text.append("Memory:\n");
        let ghost head = text@;
        let mut skipped: bool = false;
        let mut block: usize = 0;
        proof {
            assert(text@ =~= head + dump_blocks_text(self@, 0));
        }
        while block < MEMORY_SIZE / DUMP_BLOCK
            invariant
                block <= MEMORY_SIZE / DUMP_BLOCK,
                self@.len() == MEMORY_SIZE,
                text@ == head + dump_blocks_text(self@, block as int),
                skipped == (block > 0 && zero_block(self@, (block - 1) * DUMP_BLOCK)),
            decreases MEMORY_SIZE / DUMP_BLOCK - block,
        {
            let addr: usize = block * DUMP_BLOCK;
            let ghost before = text@;
            if self.is_zero_block(addr) {
                skipped = true;
            } else {
                if skipped {
                    text.append("   ...\n");
                }
                text.append(" ");
                push_hex_addr(&mut text, addr);
                text.append(":");
                let ghost line = text@;
                let mut i: usize = 0;
                proof {
                    assert(text@ =~= line + dump_bytes_text(self@, addr as int, 0));
                }
                while i < DUMP_BLOCK
                    invariant
                        i <= DUMP_BLOCK,
                        addr + DUMP_BLOCK <= MEMORY_SIZE,
                        self@.len() == MEMORY_SIZE,
                        text@ == line + dump_bytes_text(self@, addr as int, i as int),
                    decreases DUMP_BLOCK - i,
                {
                    let ghost so_far = text@;
                    if i % 2 == 0 {
                        text.append(" ");
                    }
                    if i % 4 == 0 && i != 0 {
                        text.append("  ");
                        push_hex_addr(&mut text, addr + (i / 4) * 4);
                        text.append(": ");
                    }
                    push_hex_byte(&mut text, self.bytes[addr + i]);
                    proof {
                        assert(text@ =~= so_far + dump_byte_text(self@, addr as int, i as int));
                        assert(text@ =~= line + dump_bytes_text(self@, addr as int, i + 1));
                    }
                    i += 1;
                }
                text.append("\n");
                skipped = false;
            }
            proof {
                assert(text@ =~= before + dump_block_text(self@, addr as int));
                assert(text@ =~= head + dump_blocks_text(self@, block + 1));
            }
            block += 1;
        }
        text
    }

    /// Whether the 16 bytes from `addr` on are all zero.
    fn is_zero_block(&self, addr: usize) -> (zero: bool)
        requires
            addr + DUMP_BLOCK <= MEMORY_SIZE,
        ensures
            zero == zero_block(self@, addr as int),
    {
        let mut i: usize = 0;
        while i < DUMP_BLOCK
            invariant
                i <= DUMP_BLOCK,
                addr + DUMP_BLOCK <= MEMORY_SIZE,
                forall|j: int| 0 <= j < i ==> #[trigger] self@[addr + j] == 0,
            decreases DUMP_BLOCK - i,
        {
            if self.bytes[addr + i] != 0 {
                return false;
            }
            i += 1;
        }
        true
    }

    /// Copies `data` to `start..start + data.len()`. The whole span is
    /// checked first: on failure nothing is written.
    pub fn set_mem_from(&mut self, start: usize, data: &[u8]) -> (res: Result<(), MemoryError>)
        ensures
            res is Ok <==> start < MEMORY_SIZE && start + data@.len() <= MEMORY_SIZE,
            res is Ok ==> final(self)@ == overwrite(old(self)@, start as int, data@),
            res is Err ==> final(self)@ == old(self)@,
    {
        if start >= MEMORY_SIZE || data.len() > MEMORY_SIZE - start {
            return Err(MemoryError::OutOfBounds);
        }
        let mut i: usize = 0;
        while i < data.len()
            invariant
                i <= data@.len(),
                start + data@.len() <= MEMORY_SIZE,
                self@.len() == MEMORY_SIZE,
                forall|j: int|
                    0 <= j < MEMORY_SIZE ==> self@[j] == if start <= j < start + i {
                        data@[j - start]
                    } else {
                        old(self)@[j]
                    },
            decreases data@.len() - i,
        {
            self.bytes[start + i] = data[i];
            i += 1;
        }
        assert(self@ =~= overwrite(old(self)@, start as int, data@));
        Ok(())
    }

    /// The big-endian word at `addr` and `addr + 1`; both must be in bounds.
    pub fn load_u16(&self, addr: usize) -> (res: Result<u16, MemoryError>)
        ensures
            res is Ok <==> addr + 1 < MEMORY_SIZE,
            res matches Ok(word) ==> word == word_at(self@, addr as int),
    {
        if addr >= MEMORY_SIZE - 1 {
            return Err(MemoryError::OutOfBounds);
        }
        let high_byte: u16 = self.bytes[addr] as u16;
        let low_byte: u16 = self.bytes[addr + 1] as u16;
        assert((high_byte << 8) | low_byte == high_byte * 256 + low_byte) by (bit_vector)
            requires
                high_byte < 256,
                low_byte < 256,
        ;
        Ok((high_byte << 8) | low_byte)
    }

    /// Writes one byte, if `addr` lies in memory.
    pub fn store_byte(&mut self, addr: usize, value: u8) -> (res: Result<(), MemoryError>)
        ensures
            res is Ok <==> addr < MEMORY_SIZE,
            res is Ok ==> final(self)@ == old(self)@.update(addr as int, value),
            res is Err ==> final(self)@ == old(self)@,
    {
        if addr >= MEMORY_SIZE {
            return Err(MemoryError::OutOfBounds);
        }
        self.bytes[addr] = value;
        Ok(())
    }

    /// Reads one byte, if `addr` lies in memory.
    pub fn load_byte(&self, addr: usize) -> (res: Result<u8, MemoryError>)
        ensures
            res is Ok <==> addr < MEMORY_SIZE,
            res matches Ok(byte) ==> byte == self@[addr as int],
    {
        if addr >= MEMORY_SIZE {
            return Err(MemoryError::OutOfBounds);
        }
        Ok(self.bytes[addr])
    }
}

} // verus!
