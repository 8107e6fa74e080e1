//! Writing numbers as text, for the dumps of processor and memory.

use vstd::prelude::*;

verus! {

/// `String::push` appends the character to the end of the string.
pub assume_specification[ String::push ](text: &mut String, ch: char)
    ensures
        final(text)@ == old(text)@.push(ch),
;

/// The upper-case hexadecimal digit for a value below 16.
pub open spec fn hex_char(value: int) -> char {
    if value < 10 {
        (0x30 + value) as char
    } else {
        (0x41 + value - 10) as char
    }
}

/// The decimal digit for a value below 10.
pub open spec fn dec_char(value: int) -> char {
    (0x30 + value) as char
}

/// A byte as two hexadecimal digits.
pub open spec fn hex_byte(value: u8) -> Seq<char> {
    seq![hex_char(value as int / 16), hex_char(value as int % 16)]
}

/// A byte in decimal, set to the right in three columns.
pub open spec fn dec_byte(value: u8) -> Seq<char> {
    seq![
        if value >= 100 {
            dec_char(value as int / 100)
        } else {
            ' '
        },
        if value >= 10 {
            dec_char((value as int / 10) % 10)
        } else {
            ' '
        },
        dec_char(value as int % 10),
    ]
}

/// The hexadecimal digits of a number, without leading zeros.
pub open spec fn hex_digits(value: nat) -> Seq<char>
    decreases value,
{
    if value < 16 {
        seq![hex_char(value as int)]
    } else {
        hex_digits(value / 16).push(hex_char((value % 16) as int))
    }
}

/// A number in hexadecimal with at least three digits, zeros in front where
/// it has fewer.
pub open spec fn hex_addr(value: nat) -> Seq<char> {
    if value < 0x10 {
        seq!['0', '0'] + hex_digits(value)
    } else if value < 0x100 {
        seq!['0'] + hex_digits(value)
    } else {
        hex_digits(value)
    }
}

/// Appends the hexadecimal digit for `value`.
pub fn push_hex_char(out: &mut String, value: u8)
    requires
        value < 16,
    ensures
        final(out)@ == old(out)@.push(hex_char(value as int)),
{
    let ch: char = if value < 10 {
        (0x30 + value) as char
    } else {
        (0x41 + value - 10) as char
    };
    out.push(ch);
}

/// Appends `value` as two hexadecimal digits.
pub fn push_hex_byte(out: &mut String, value: u8)
    ensures
        final(out)@ == old(out)@ + hex_byte(value),
{
    push_hex_char(out, value / 16);
    push_hex_char(out, value % 16);
    assert(out@ =~= old(out)@ + hex_byte(value));
}

/// Appends `value` in decimal, set to the right in three columns.
pub fn push_dec_byte(out: &mut String, value: u8)
    ensures
        final(out)@ == old(out)@ + dec_byte(value),
{
    if value >= 100 {
        out.push((0x30 + value / 100) as char);
    } else {
        out.push(' ');
    }
    if value >= 10 {
        out.push((0x30 + (value / 10) % 10) as char);
    } else {
        out.push(' ');
    }
    out.push((0x30 + value % 10) as char);
    assert(out@ =~= old(out)@ + dec_byte(value));
}

/// Appends `value` in hexadecimal, with at least three digits.
pub fn push_hex_addr(out: &mut String, value: usize)
    ensures
        final(out)@ == old(out)@ + hex_addr(value as nat),
{
    let mut low_first: Vec<u8> = Vec::new();
    let mut rest: usize = value;
    while rest >= 16
        invariant
            forall|i: int| 0 <= i < low_first@.len() ==> #[trigger] low_first@[i] < 16,
            hex_digits(value as nat) == hex_digits(rest as nat) + Seq::new(
                low_first@.len(),
                |i: int| hex_char(low_first@[low_first@.len() - 1 - i] as int),
            ),
        decreases rest,
    {
        let ghost before = low_first@;
        low_first.push((rest % 16) as u8);
        proof {
            let tail = Seq::new(
                before.len(),
                |i: int| hex_char(before[before.len() - 1 - i] as int),
            );
            let longer = Seq::new(
                low_first@.len(),
                |i: int| hex_char(low_first@[low_first@.len() - 1 - i] as int),
            );
            assert(longer =~= seq![hex_char((rest % 16) as int)] + tail);
            assert(hex_digits(rest as nat) == hex_digits((rest / 16) as nat).push(
                hex_char((rest % 16) as int),
            ));
            assert(hex_digits((rest / 16) as nat).push(hex_char((rest % 16) as int)) + tail
                =~= hex_digits((rest / 16) as nat) + longer);
        }
        rest = rest / 16;
    }
    let ghost start = out@;
    if value < 0x10 {
        out.push('0');
        out.push('0');
    } else if value < 0x100 {
        out.push('0');
    }
    let ghost padded = out@;
    push_hex_char(out, rest as u8);
    let mut left: usize = low_first.len();
    while left > 0
        invariant
            left <= low_first@.len(),
            forall|i: int| 0 <= i < low_first@.len() ==> #[trigger] low_first@[i] < 16,
            out@ == padded + hex_digits(rest as nat) + Seq::new(
                (low_first@.len() - left) as nat,
                |i: int| hex_char(low_first@[low_first@.len() - 1 - i] as int),
            ),
        decreases left,
    {
        left -= 1;
        push_hex_char(out, low_first[left]);
        proof {
            assert(out@ =~= padded + hex_digits(rest as nat) + Seq::new(
                (low_first@.len() - left) as nat,
                |i: int| hex_char(low_first@[low_first@.len() - 1 - i] as int),
            ));
        }
    }
    proof {
        assert(out@ =~= padded + hex_digits(value as nat));
        assert(out@ =~= start + hex_addr(value as nat));
    }
}

} // verus!
