//! Loading programs written as text.
//!
//! Each line names an address with four hexadecimal digits and, after white
//! space, the bytes to put there, two hexadecimal digits each; white space
//! between the digits of the bytes is ignored. Blank lines, lines that start
//! with `#` and lines that do not fit this form are passed over.
//!
//! The text is read as the bytes of its UTF-8 encoding, and the format is
//! defined on those bytes.

use vstd::prelude::*;
use vstd::string::StringSliceAdditionalSpecFns;
use crate::memory::{overwrite, Memory, MemoryError, MEMORY_SIZE};

verus! {

/// One line that was understood: an address and the bytes for it.
pub type Record = (u16, Seq<u8>);

/// The value of a hexadecimal digit, or 16 for any other byte.
pub open spec fn hex_digit(c: u8) -> u8 {
    if 0x30 <= c <= 0x39 {
        (c - 0x30) as u8
    } else if 0x41 <= c <= 0x46 {
        (c - 0x41 + 10) as u8
    } else if 0x61 <= c <= 0x66 {
        (c - 0x61 + 10) as u8
    } else {
        16
    }
}

/// Whether three bytes encode one of the white-space characters that take
/// three bytes: U+1680, U+2000 to U+200A, U+2028, U+2029, U+202F, U+205F
/// and U+3000.
pub open spec fn wide_space(a: u8, b: u8, c: u8) -> bool {
    ||| a == 0xE1 && b == 0x9A && c == 0x80
    ||| a == 0xE2 && b == 0x80 && (0x80 <= c <= 0x8A || c == 0xA8 || c == 0xA9 || c == 0xAF)
    ||| a == 0xE2 && b == 0x81 && c == 0x9F
    ||| a == 0xE3 && b == 0x80 && c == 0x80
}

/// The length in bytes of the white-space character that starts at `i` and
/// ends before `end`, or 0 if none does. White space is what Unicode calls
/// so: the ASCII blanks, U+0085, U+00A0 and those of [`wide_space`].
pub open spec fn space_len(text: Seq<u8>, i: int, end: int) -> int {
    if i < end && (text[i] == 0x20 || 0x09 <= text[i] <= 0x0D) {
        1
    } else if i + 1 < end && text[i] == 0xC2 && (text[i + 1] == 0x85 || text[i + 1] == 0xA0) {
        2
    } else if i + 2 < end && wide_space(text[i], text[i + 1], text[i + 2]) {
        3
    } else {
        0
    }
}

/// How many bytes from `pos` on come before the next line feed.
pub open spec fn line_len(text: Seq<u8>, pos: int) -> nat
    decreases text.len() - pos,
{
    if pos >= text.len() || text[pos] == 0x0A {
        0
    } else {
        1 + line_len(text, pos + 1)
    }
}

/// The first place at or after `i` where no white space starts.
pub open spec fn skip_spaces(text: Seq<u8>, i: int, end: int) -> int
    decreases end - i,
{
    if space_len(text, i, end) > 0 {
        skip_spaces(text, i + space_len(text, i, end), end)
    } else {
        i
    }
}

/// How many bytes from `i` on come before the next white space or `end`.
pub open spec fn word_len(text: Seq<u8>, i: int, end: int) -> nat
    decreases end - i,
{
    if i >= end || space_len(text, i, end) > 0 {
        0
    } else {
        1 + word_len(text, i + 1, end)
    }
}

/// The bytes from `i` to `end` without the white space among them.
pub open spec fn strip_spaces(text: Seq<u8>, i: int, end: int) -> Seq<u8>
    decreases end - i,
{
    if i >= end {
        Seq::empty()
    } else if space_len(text, i, end) > 0 {
        strip_spaces(text, i + space_len(text, i, end), end)
    } else {
        seq![text[i]] + strip_spaces(text, i + 1, end)
    }
}

/// Whether every byte is a hexadecimal digit.
pub open spec fn all_hex(digits: Seq<u8>) -> bool {
    forall|i: int| 0 <= i < digits.len() ==> hex_digit(#[trigger] digits[i]) < 16
}

/// The address that exactly four hexadecimal digits spell.
pub open spec fn parse_word(digits: Seq<u8>) -> Option<u16> {
    if digits.len() == 4 && all_hex(digits) {
        Some(
            (hex_digit(digits[0]) * 0x1000 + hex_digit(digits[1]) * 0x100 + hex_digit(digits[2])
                * 0x10 + hex_digit(digits[3])) as u16,
        )
    } else {
        None
    }
}

/// The bytes that an even number of hexadecimal digits spell, two digits
/// each, the high one first.
pub open spec fn parse_bytes(digits: Seq<u8>) -> Option<Seq<u8>> {
    if digits.len() % 2 == 0 && all_hex(digits) {
        Some(
            Seq::new(
                digits.len() / 2,
                |k: int| (hex_digit(digits[2 * k]) * 0x10 + hex_digit(digits[2 * k + 1])) as u8,
            ),
        )
    } else {
        None
    }
}

/// What the line from `pos` to `end` says, if it says anything.
pub open spec fn parse_line(text: Seq<u8>, pos: int, end: int) -> Option<Record> {
    let start = skip_spaces(text, pos, end);
    if start >= end || text[start] == 0x23 {
        None
    } else {
        let word_end = start + word_len(text, start, end);
        let digits = strip_spaces(text, word_end, end);
        match (parse_word(text.subrange(start, word_end)), parse_bytes(digits)) {
            (Some(addr), Some(data)) => if digits.len() > 0 {
                Some((addr, data))
            } else {
                None
            },
            _ => None,
        }
    }
}

/// The records of the lines from `pos` on, in the order of the lines.
pub open spec fn parse_hex_from(text: Seq<u8>, pos: int) -> Seq<Record>
    decreases text.len() - pos,
{
    if pos >= text.len() {
        Seq::empty()
    } else {
        let end = pos + line_len(text, pos);
        let rest = if end >= text.len() {
            Seq::empty()
        } else {
            parse_hex_from(text, end + 1)
        };
        match parse_line(text, pos, end) {
            Some(record) => seq![record] + rest,
            None => rest,
        }
    }
}

/// The records of a whole text.
pub open spec fn parse_hex(text: Seq<u8>) -> Seq<Record> {
    parse_hex_from(text, 0)
}

/// Memory after the records were written to it one after the other, up to
/// the first that does not fit: that one fails the load, and what was
/// written before it stays.
pub open spec fn load_records(memory: Seq<u8>, records: Seq<Record>) -> (
    Seq<u8>,
    Result<(), MemoryError>,
)
    decreases records.len(),
{
    if records.len() == 0 {
        (memory, Ok(()))
    } else {
        let (addr, data) = records[0];
        if addr < MEMORY_SIZE && addr + data.len() <= MEMORY_SIZE {
            load_records(overwrite(memory, addr as int, data), records.drop_first())
        } else {
            (memory, Err(MemoryError::OutOfBounds))
        }
    }
}

/// What a vector of records stands for.
pub open spec fn records_view(records: Seq<(u16, Vec<u8>)>) -> Seq<Record> {
    Seq::new(records.len(), |i: int| (records[i].0, records[i].1@))
}

/// Writes the records of `hex_def` to `mem`, line by line.
pub fn load_from_hex(hex_def: &str, mem: &mut Memory) -> (res: Result<(), MemoryError>)
    ensures
        (final(mem)@, res) == load_records(old(mem)@, parse_hex(hex_def.spec_bytes())),
{
    let records = hex_to_bin(hex_def);
    let ghost all = records_view(records@);
    let mut k: usize = 0;
    proof {
        assert(all.skip(0) =~= all);
    }
    while k < records.len()
        invariant
            k <= records@.len(),
            all == records_view(records@),
            all == parse_hex(hex_def.spec_bytes()),
            load_records(mem@, all.skip(k as int)) == load_records(old(mem)@, all),
        decreases records@.len() - k,
    {
        let ghost before = mem@;
        let addr: usize = records[k].0 as usize;
        proof {
            assert(all.skip(k as int)[0] == all[k as int]);
            assert(all.skip(k as int).drop_first() =~= all.skip(k + 1));
        }
        match mem.set_mem_from(addr, records[k].1.as_slice()) {
            Ok(()) => {},
            Err(err) => {
                proof {
                    assert(load_records(before, all.skip(k as int)) == (
                        before,
                        Err::<(), MemoryError>(MemoryError::OutOfBounds),
                    ));
                }
                return Err(err);
            },
        }
        proof {
            assert(load_records(before, all.skip(k as int)) == load_records(
                mem@,
                all.skip(k + 1),
            ));
        }
        k += 1;
    }
    Ok(())
}

/// The records of a text.
pub fn hex_to_bin(hex_def: &str) -> (records: Vec<(u16, Vec<u8>)>)
    ensures
        records_view(records@) == parse_hex(hex_def.spec_bytes()),
{
    let text = hex_def.as_bytes();
    let mut records: Vec<(u16, Vec<u8>)> = Vec::new();
    let mut pos: usize = 0;
    proof {
        assert(records_view(records@) + parse_hex_from(text@, 0) =~= parse_hex(text@));
    }
    while pos < text.len()
        invariant
            pos <= text@.len(),
            text@ == hex_def.spec_bytes(),
            records_view(records@) + parse_hex_from(text@, pos as int) == parse_hex(text@),
        decreases text@.len() - pos,
    {
        let end: usize = find_line_end(text, pos);
        let ghost rest = if end >= text@.len() {
            Seq::<Record>::empty()
        } else {
            parse_hex_from(text@, end + 1)
        };
        let ghost found = records_view(records@);
        match parse_line_at(text, pos, end) {
            Some(record) => {
                let ghost record_view = (record.0, record.1@);
                records.push(record);
                proof {
                    assert(records_view(records@) =~= found.push(record_view));
                    assert(found.push(record_view) + rest =~= found + (seq![record_view] + rest));
                }
            },
            None => {},
        }
        proof {
            assert(records_view(records@) + rest =~= parse_hex(text@));
        }
        if end >= text.len() {
            proof {
                assert(records_view(records@) + rest =~= records_view(records@));
            }
            return records;
        }
        pos = end + 1;
    }
    proof {
        assert(records_view(records@) + Seq::<Record>::empty() =~= records_view(records@));
    }
    records
}

/// Where the line that starts at `pos` ends: at the next line feed, or at
/// the end of the text.
fn find_line_end(text: &[u8], pos: usize) -> (end: usize)
    requires
        pos <= text@.len(),
    ensures
        end == pos + line_len(text@, pos as int),
        end <= text@.len(),
{
    let mut end: usize = pos;
    while end < text.len() && text[end] != 0x0A
        invariant
            pos <= end <= text@.len(),
            end + line_len(text@, end as int) == pos + line_len(text@, pos as int),
        decreases text@.len() - end,
    {
        end += 1;
    }
    end
}

/// The length of the white-space character at `i`, or 0.
fn space_len_at(text: &[u8], i: usize, end: usize) -> (n: usize)
    requires
        i <= end <= text@.len(),
    ensures
        n == space_len(text@, i as int, end as int),
        i + n <= end,
{
    if i < end && (text[i] == 0x20 || (0x09 <= text[i] && text[i] <= 0x0D)) {
        1
    } else if end - i > 1 && text[i] == 0xC2 && (text[i + 1] == 0x85 || text[i + 1] == 0xA0) {
        2
    } else if end - i > 2 && is_wide_space(text[i], text[i + 1], text[i + 2]) {
        3
    } else {
        0
    }
}

fn is_wide_space(a: u8, b: u8, c: u8) -> (wide: bool)
    ensures
        wide == wide_space(a, b, c),
{
    (a == 0xE1 && b == 0x9A && c == 0x80) || (a == 0xE2 && b == 0x80 && ((0x80 <= c && c <= 0x8A)
        || c == 0xA8 || c == 0xA9 || c == 0xAF)) || (a == 0xE2 && b == 0x81 && c == 0x9F) || (a
        == 0xE3 && b == 0x80 && c == 0x80)
}

/// One line of the text.
fn parse_line_at(text: &[u8], pos: usize, end: usize) -> (record: Option<(u16, Vec<u8>)>)
    requires
        pos <= end <= text@.len(),
    ensures
        match record {
            Some(found) => parse_line(text@, pos as int, end as int) == Some((found.0, found.1@)),
            None => parse_line(text@, pos as int, end as int) is None,
        },
{
    let mut start: usize = pos;
    loop
        invariant
            pos <= start <= end <= text@.len(),
            skip_spaces(text@, start as int, end as int) == skip_spaces(
                text@,
                pos as int,
                end as int,
            ),
        ensures
            pos <= start <= end,
            start == skip_spaces(text@, pos as int, end as int),
        decreases end - start,
    {
        let n: usize = space_len_at(text, start, end);
        if n == 0 {
            break ;
        }
        start += n;
    }
    if start >= end || text[start] == 0x23 {
        return None;
    }
    let mut word_end: usize = start;
    while word_end < end && space_len_at(text, word_end, end) == 0
        invariant
            start <= word_end <= end <= text@.len(),
            word_end + word_len(text@, word_end as int, end as int) == start + word_len(
                text@,
                start as int,
                end as int,
            ),
        decreases end - word_end,
    {
        word_end += 1;
    }
    let addr = hex_to_u16(text, start, word_end);
    let mut digits: Vec<u8> = Vec::new();
    let mut i: usize = word_end;
    proof {
        assert(digits@ + strip_spaces(text@, i as int, end as int) =~= strip_spaces(
            text@,
            word_end as int,
            end as int,
        ));
    }
    while i < end
        invariant
            word_end <= i <= end <= text@.len(),
            digits@ + strip_spaces(text@, i as int, end as int) == strip_spaces(
                text@,
                word_end as int,
                end as int,
            ),
        decreases end - i,
    {
        let n: usize = space_len_at(text, i, end);
        let ghost so_far = digits@;
        if n > 0 {
            i += n;
        } else {
            digits.push(text[i]);
            proof {
                assert(so_far.push(text@[i as int]) + strip_spaces(text@, i + 1, end as int)
                    =~= so_far + (seq![text@[i as int]] + strip_spaces(text@, i + 1, end as int)));
            }
            i += 1;
        }
    }
    proof {
        assert(digits@ + Seq::<u8>::empty() =~= digits@);
    }
    let data = hex_to_bytes(&digits);
    match (addr, data) {
        (Some(addr), Some(data)) => if digits.len() > 0 {
            Some((addr, data))
        } else {
            None
        },
        _ => None,
    }
}

/// The address that the bytes from `start` to `end` spell.
fn hex_to_u16(text: &[u8], start: usize, end: usize) -> (word: Option<u16>)
    requires
        start <= end <= text@.len(),
    ensures
        word == parse_word(text@.subrange(start as int, end as int)),
{
    let ghost digits = text@.subrange(start as int, end as int);
    if end - start != 4 {
        return None;
    }
    let mut value: u16 = 0;
    let mut i: usize = 0;
    while i < 4
        invariant
            i <= 4,
            end - start == 4,
            end <= text@.len(),
            digits == text@.subrange(start as int, end as int),
            forall|j: int| 0 <= j < i ==> hex_digit(#[trigger] digits[j]) < 16,
            i == 0 ==> value == 0,
            i == 1 ==> value == hex_digit(digits[0]),
            i == 2 ==> value == hex_digit(digits[0]) * 0x10 + hex_digit(digits[1]),
            i == 3 ==> value == hex_digit(digits[0]) * 0x100 + hex_digit(digits[1]) * 0x10
                + hex_digit(digits[2]),
            i == 4 ==> value == hex_digit(digits[0]) * 0x1000 + hex_digit(digits[1]) * 0x100
                + hex_digit(digits[2]) * 0x10 + hex_digit(digits[3]),
        decreases 4 - i,
    {
        let nibble: u8 = hex_to_u8(text[start + i]);
        if nibble > 15 {
            proof {
                assert(hex_digit(digits[i as int]) == 16);
            }
            return None;
        }
        value = value * 16 + nibble as u16;
        i += 1;
    }
    Some(value)
}

/// The bytes that `digits` spell.
fn hex_to_bytes(digits: &Vec<u8>) -> (bytes: Option<Vec<u8>>)
    ensures
        match bytes {
            Some(found) => parse_bytes(digits@) == Some(found@),
            None => parse_bytes(digits@) is None,
        },
{
    if digits.len() % 2 != 0 {
        return None;
    }
    let mut bytes: Vec<u8> = Vec::new();
    let mut k: usize = 0;
    while k < digits.len() / 2
        invariant
            digits@.len() % 2 == 0,
            k <= digits@.len() / 2,
            bytes@.len() == k,
            forall|j: int| 0 <= j < 2 * k ==> hex_digit(#[trigger] digits@[j]) < 16,
            forall|j: int|
                0 <= j < k ==> #[trigger] bytes@[j] == hex_digit(digits@[2 * j]) * 0x10
                    + hex_digit(digits@[2 * j + 1]),
        decreases digits@.len() / 2 - k,
    {
        let msn: u8 = hex_to_u8(digits[2 * k]);
        let lsn: u8 = hex_to_u8(digits[2 * k + 1]);
        if msn > 15 || lsn > 15 {
            proof {
                assert(hex_digit(digits@[2 * k]) == 16 || hex_digit(digits@[2 * k + 1]) == 16);
            }
            return None;
        }
        proof {
            assert((msn << 4) | lsn == msn * 16 + lsn) by (bit_vector)
                requires
                    msn < 16,
                    lsn < 16,
            ;
        }
        bytes.push((msn << 4) | lsn);
        k += 1;
    }
    proof {
        assert(bytes@ =~= parse_bytes(digits@).unwrap());
    }
    Some(bytes)
}

/// The value of a hexadecimal digit; 16 for a byte that is none.
pub fn hex_to_u8(c: u8) -> (value: u8)
    ensures
        value == hex_digit(c),
{
    if 0x30 <= c && c <= 0x39 {
        c - 0x30
    } else if 0x41 <= c && c <= 0x46 {
        10 + c - 0x41
    } else if 0x61 <= c && c <= 0x66 {
        10 + c - 0x61
    } else {
        16
    }
}

} // verus!
