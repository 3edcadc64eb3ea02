//! Decoding of opcodes into instructions.

use vstd::prelude::*;
use crate::errors::Error;
use crate::instruction::{valid_instruction, Instruction};

verus! {

/// 16 to the power `n`, for the exponents that occur within a 16-bit word.
pub open spec fn pow16(n: int) -> int {
    if n <= 0 {
        1
    } else if n == 1 {
        0x10
    } else if n == 2 {
        0x100
    } else if n == 3 {
        0x1000
    } else {
        0x10000
    }
}

/// The 4-bit fields `start` through `end` of `num`, field 0 being the most
/// significant, read as one number and cut to its low 8 bits.
pub open spec fn nibbles_of(num: u16, start: int, end: int) -> int {
    (num as int / pow16(3 - end)) % pow16(end - start + 1) % 0x100
}

/// The 4-bit field `index` of `num`, field 0 being the most significant.
pub open spec fn nibble_of(num: u16, index: int) -> int {
    nibbles_of(num, index, index)
}

/// The upper-case hexadecimal digit for a value below 16.
pub open spec fn hex_char(digit: int) -> char {
    seq!['0', '1', '2', '3', '4', '5', '6', '7', '8', '9', 'A', 'B', 'C', 'D', 'E', 'F'][digit]
}

/// The text `0x` followed by the four upper-case hexadecimal digits of `opcode`.
pub open spec fn opcode_text(opcode: u16) -> Seq<char> {
    seq![
        '0',
        'x',
        hex_char(nibble_of(opcode, 0)),
        hex_char(nibble_of(opcode, 1)),
        hex_char(nibble_of(opcode, 2)),
        hex_char(nibble_of(opcode, 3)),
    ]
}

/// The instruction that an opcode encodes, if it encodes one.
///
/// `x` and `y` are the second and third 4-bit fields, `n` the last one, `kk` the
/// low byte and `addr` the low 12 bits.
pub open spec fn decode(opcode: u16) -> Option<Instruction> {
    let family = opcode as int / 0x1000;
    let x = ((opcode as int / 0x100) % 0x10) as u8;
    let y = ((opcode as int / 0x10) % 0x10) as u8;
    let n = (opcode as int % 0x10) as u8;
    let kk = (opcode as int % 0x100) as u8;
    let addr = (opcode as int % 0x1000) as u16;
    if opcode == 0x00E0 {
        Some(Instruction::ClearScreen)
    } else if opcode == 0x00EE {
        Some(Instruction::Return)
    } else if family == 0x1 {
        Some(Instruction::Goto(addr))
    } else if family == 0x2 {
        Some(Instruction::Call(addr))
    } else if family == 0x3 {
        Some(Instruction::SkipEqConst(x, kk))
    } else if family == 0x4 {
        Some(Instruction::SkipNeqConst(x, kk))
    } else if family == 0x5 && n == 0x0 {
        Some(Instruction::SkipEq(x, y))
    } else if family == 0x6 {
        Some(Instruction::SetConst(x, kk))
    } else if family == 0x7 {
        Some(Instruction::AddConst(x, kk))
    } else if family == 0x8 && n == 0x0 {
        Some(Instruction::Move(x, y))
    } else if family == 0x8 && n == 0x1 {
        Some(Instruction::BitOr(x, y))
    } else if family == 0x8 && n == 0x2 {
        Some(Instruction::BitAnd(x, y))
    } else if family == 0x8 && n == 0x3 {
        Some(Instruction::BitXor(x, y))
    } else if family == 0x8 && n == 0x4 {
        Some(Instruction::Add(x, y))
    } else if family == 0x8 && n == 0x5 {
        Some(Instruction::Sub(x, y))
    } else if family == 0x8 && n == 0x6 {
        Some(Instruction::Shr(x))
    } else if family == 0x8 && n == 0x7 {
        Some(Instruction::InverseSub(x, y))
    } else if family == 0x8 && n == 0xE {
        Some(Instruction::Shl(x))
    } else if family == 0x9 && n == 0x0 {
        Some(Instruction::SkipNeq(x, y))
    } else if family == 0xA {
        Some(Instruction::SetIndex(addr))
    } else if family == 0xB {
        Some(Instruction::OffsetGoto(addr))
    } else if family == 0xC {
        Some(Instruction::Rand(x, kk))
    } else if family == 0xD {
        Some(Instruction::Draw(x, y, n))
    } else if family == 0xE && kk == 0x9E {
        Some(Instruction::SkipKey(x))
    } else if family == 0xE && kk == 0xA1 {
        Some(Instruction::SkipNotKey(x))
    } else if family == 0xF && kk == 0x07 {
        Some(Instruction::GetDelay(x))
    } else if family == 0xF && kk == 0x0A {
        Some(Instruction::WaitKey(x))
    } else if family == 0xF && kk == 0x15 {
        Some(Instruction::SetDelay(x))
    } else if family == 0xF && kk == 0x18 {
        Some(Instruction::SetSound(x))
    } else if family == 0xF && kk == 0x1E {
        Some(Instruction::AddIndex(x))
    } else if family == 0xF && kk == 0x29 {
        Some(Instruction::SetIndexChar(x))
    } else if family == 0xF && kk == 0x33 {
        Some(Instruction::BCD(x))
    } else if family == 0xF && kk == 0x55 {
        Some(Instruction::RegDump(x))
    } else if family == 0xF && kk == 0x65 {
        Some(Instruction::RegLoad(x))
    } else {
        None
    }
}

/// Selects the 4-bit fields `start` through `end` (inclusive) of `num` by
/// masking and shifting, and returns the low byte of what they hold.
pub fn nibbles(num: u16, start: u8, end: u8) -> (field: u8)
    requires
        start <= end <= 3,
    ensures
        field == nibbles_of(num, start as int, end as int),
{
    let width: u8 = end + 1 - start;
    let initial: u16 = 0xFFFFu16 << (4 * (4 - width));
    let masked: u16 = num & (initial >> (start * 4));
    let shifted: u16 = masked >> (4 * (3 - end));
    let field: u8 = #[verifier::truncate] (shifted as u8);
    proof {
        lemma_nibbles(num, start, end);
    }
    field
}

/// Equivalent to `nibbles(num, index, index)`.
pub fn nibble(num: u16, index: u8) -> (field: u8)
    requires
        index <= 3,
    ensures
        field == nibble_of(num, index as int),
        field < 16,
{
    nibbles(num, index, index)
}

/// The upper-case hexadecimal digit for `digit`, as text.
fn hex_digit(digit: u8) -> (text: &'static str)
    requires
        digit < 16,
    ensures
        text@ == seq![hex_char(digit as int)],
{
    proof {
        reveal_strlit("0");
        reveal_strlit("1");
        reveal_strlit("2");
        reveal_strlit("3");
        reveal_strlit("4");
        reveal_strlit("5");
        reveal_strlit("6");
        reveal_strlit("7");
        reveal_strlit("8");
        reveal_strlit("9");
        reveal_strlit("A");
        reveal_strlit("B");
        reveal_strlit("C");
        reveal_strlit("D");
        reveal_strlit("E");
        reveal_strlit("F");
    }
    let text = match digit {
        0 => "0",
        1 => "1",
        2 => "2",
        3 => "3",
        4 => "4",
        5 => "5",
        6 => "6",
        7 => "7",
        8 => "8",
        9 => "9",
        10 => "A",
        11 => "B",
        12 => "C",
        13 => "D",
        14 => "E",
        _ => "F",
    };
    assert(text@ =~= seq![hex_char(digit as int)]);
    text
}

/// Writes an opcode as `0x` and four upper-case hexadecimal digits.
pub fn format_opcode(opcode: u16) -> (text: String)
    ensures
        text@ == opcode_text(opcode),
{
    let mut text = String::new();
    text.append("0x");
    proof {
        reveal_strlit("0x");
    }
    text.append(hex_digit(nibble(opcode, 0)));
    text.append(hex_digit(nibble(opcode, 1)));
    text.append(hex_digit(nibble(opcode, 2)));
    text.append(hex_digit(nibble(opcode, 3)));
    assert(text@ =~= opcode_text(opcode));
    text
}

/// Decodes an opcode. Every opcode either encodes exactly one instruction or is
/// rejected with its hexadecimal text.
pub fn interpret_instruction(opcode: u16) -> (result: Result<Instruction, Error>)
    ensures
        match decode(opcode) {
            Some(instruction) => result == Ok::<Instruction, Error>(instruction),
            None => result matches Err(Error::InvalidOpcode(text)) && text@ == opcode_text(opcode),
        },
{
    let n0 = nibble(opcode, 0);
    let n1 = nibble(opcode, 1);
    let n2 = nibble(opcode, 2);
    let n3 = nibble(opcode, 3);
    let low = nibbles(opcode, 2, 3);
    let addr: u16 = opcode & 0x0FFF;
    proof {
        lemma_fields(opcode);
    }
    let instruction = match (n0, n1, n2, n3) {
        (0x0, 0x0, 0xE, 0xE) => Instruction::Return,
        (0x0, 0x0, 0xE, 0x0) => Instruction::ClearScreen,
        (0x1, _, _, _) => Instruction::Goto(addr),
        (0x2, _, _, _) => Instruction::Call(addr),
        (0xB, _, _, _) => Instruction::OffsetGoto(addr),
        (0x6, _, _, _) => Instruction::SetConst(n1, low),
        (0x7, _, _, _) => Instruction::AddConst(n1, low),
        (0x8, _, _, 0x0) => Instruction::Move(n1, n2),
        (0x8, _, _, 0x1) => Instruction::BitOr(n1, n2),
        (0x8, _, _, 0x2) => Instruction::BitAnd(n1, n2),
        (0x8, _, _, 0x3) => Instruction::BitXor(n1, n2),
        (0x8, _, _, 0x6) => Instruction::Shr(n1),
        (0x8, _, _, 0xE) => Instruction::Shl(n1),
        (0x8, _, _, 0x4) => Instruction::Add(n1, n2),
        (0x8, _, _, 0x5) => Instruction::Sub(n1, n2),
        (0x8, _, _, 0x7) => Instruction::InverseSub(n1, n2),
        (0xC, _, _, _) => Instruction::Rand(n1, low),
        (0xF, _, 0x3, 0x3) => Instruction::BCD(n1),
        (0x3, _, _, _) => Instruction::SkipEqConst(n1, low),
        (0x4, _, _, _) => Instruction::SkipNeqConst(n1, low),
        (0x5, _, _, 0x0) => Instruction::SkipEq(n1, n2),
        (0x9, _, _, 0x0) => Instruction::SkipNeq(n1, n2),
        (0xF, _, 0x5, 0x5) => Instruction::RegDump(n1),
        (0xF, _, 0x6, 0x5) => Instruction::RegLoad(n1),
        (0xA, _, _, _) => Instruction::SetIndex(addr),
        (0xF, _, 0x1, 0xE) => Instruction::AddIndex(n1),
        (0xF, _, 0x2, 0x9) => Instruction::SetIndexChar(n1),
        (0xF, _, 0x0, 0x7) => Instruction::GetDelay(n1),
        (0xF, _, 0x1, 0x5) => Instruction::SetDelay(n1),
        (0xF, _, 0x0, 0xA) => Instruction::WaitKey(n1),
        (0xE, _, 0x9, 0xE) => Instruction::SkipKey(n1),
        (0xE, _, 0xA, 0x1) => Instruction::SkipNotKey(n1),
        (0xF, _, 0x1, 0x8) => Instruction::SetSound(n1),
        (0xD, _, _, _) => Instruction::Draw(n1, n2, n3),
        _ => {
            return Err(Error::InvalidOpcode(format_opcode(opcode)));
        },
    };
    Ok(instruction)
}

/// How the fields that the decoder extracts relate to each other and to the opcode.
proof fn lemma_fields(opcode: u16)
    ensures
        nibble_of(opcode, 0) == opcode as int / 0x1000,
        nibble_of(opcode, 1) == (opcode as int / 0x100) % 0x10,
        nibble_of(opcode, 2) == (opcode as int / 0x10) % 0x10,
        nibble_of(opcode, 3) == opcode as int % 0x10,
        nibbles_of(opcode, 2, 3) == opcode as int % 0x100,
        nibbles_of(opcode, 2, 3) == 0x10 * nibble_of(opcode, 2) + nibble_of(opcode, 3),
        (opcode & 0x0FFF) as int == opcode as int % 0x1000,
        opcode as int == 0x1000 * nibble_of(opcode, 0) + 0x100 * nibble_of(opcode, 1)
            + 0x10 * nibble_of(opcode, 2) + nibble_of(opcode, 3),
{
    assert(opcode & 0x0FFF == opcode % 0x1000) by (bit_vector);
    assert(opcode / 0x1000 < 0x10) by (bit_vector);
    assert(opcode == 0x1000 * (opcode / 0x1000) + 0x100 * ((opcode / 0x100) % 0x10) + 0x10 * ((opcode
        / 0x10) % 0x10) + opcode % 0x10) by (bit_vector);
    assert(opcode % 0x100 == 0x10 * ((opcode / 0x10) % 0x10) + opcode % 0x10) by (bit_vector);
}

/// Masking and shifting select the same number as dividing and taking the remainder.
proof fn lemma_nibbles(num: u16, start: u8, end: u8)
    requires
        start <= end <= 3,
    ensures
        (((num & ((0xFFFFu16 << ((4 * (4 - ((end + 1 - start) as u8))) as u8)) >> ((start * 4) as u8)))
            >> ((4 * (3 - end)) as u8)) as u8) as int == nibbles_of(num, start as int, end as int),
{
    if end == 0 {
        assert(((num & ((0xFFFFu16 << 12u8) >> 0u8)) >> 12u8) as u8 == (num / 0x1000) % 0x10 % 0x100)
            by (bit_vector);
    } else if end == 1 {
        if start == 0 {
            assert(((num & ((0xFFFFu16 << 8u8) >> 0u8)) >> 8u8) as u8 == (num / 0x100) % 0x100 % 0x100)
                by (bit_vector);
        } else {
            assert(((num & ((0xFFFFu16 << 12u8) >> 4u8)) >> 8u8) as u8 == (num / 0x100) % 0x10 % 0x100)
                by (bit_vector);
        }
    } else if end == 2 {
        if start == 0 {
            assert(((num & ((0xFFFFu16 << 4u8) >> 0u8)) >> 4u8) as u8 == (num / 0x10) % 0x1000 % 0x100)
                by (bit_vector);
        } else if start == 1 {
            assert(((num & ((0xFFFFu16 << 8u8) >> 4u8)) >> 4u8) as u8 == (num / 0x10) % 0x100 % 0x100)
                by (bit_vector);
        } else {
            assert(((num & ((0xFFFFu16 << 12u8) >> 8u8)) >> 4u8) as u8 == (num / 0x10) % 0x10 % 0x100)
                by (bit_vector);
        }
    } else {
        if start == 0 {
            assert(((num & ((0xFFFFu16 << 0u8) >> 0u8)) >> 0u8) as u8 == (num as u32 / 1) % 0x10000 % 0x100)
                by (bit_vector);
        } else if start == 1 {
            assert(((num & ((0xFFFFu16 << 4u8) >> 4u8)) >> 0u8) as u8 == (num / 1) % 0x1000 % 0x100)
                by (bit_vector);
        } else if start == 2 {
            assert(((num & ((0xFFFFu16 << 8u8) >> 8u8)) >> 0u8) as u8 == (num / 1) % 0x100 % 0x100)
                by (bit_vector);
        } else {
            assert(((num & ((0xFFFFu16 << 12u8) >> 12u8)) >> 0u8) as u8 == (num / 1) % 0x10 % 0x100)
                by (bit_vector);
        }
    }
}

/// A decoded instruction names only registers that exist.
pub proof fn lemma_decode_valid(opcode: u16)
    ensures
        decode(opcode) matches Some(instruction) ==> valid_instruction(instruction),
{
}

} // verus!
