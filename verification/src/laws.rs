//! Laws of the instruction set, proved of the model in `model`.

use vstd::prelude::*;
use crate::errors::Error;
use crate::instruction::{valid_instruction, Instruction};
use crate::interpreter::{decode, lemma_decode_valid};
use crate::io::PIXELS;
use crate::model::{sprite_covers, Machine};
use crate::utils::bcd_digits;
use crate::MEMORY;

verus! {

/// `Add` sets VF to 1 if the sum of the two registers exceeds 255 and to 0 if
/// it does not, and leaves the sum modulo 256 in VX, unless VX is VF itself.
pub proof fn law_add_carry(m: Machine, x: u8, y: u8, random: u8)
    requires
        m.wf(),
        x < 16,
        y < 16,
    ensures
        m.execute(Instruction::Add(x, y), random) matches Ok(after) && {
            &&& after.vx(0xF) == 1 <==> m.vx(x) + m.vx(y) > 255
            &&& after.vx(0xF) == 0 <==> m.vx(x) + m.vx(y) <= 255
            &&& x != 0xF ==> after.vx(x) == (m.vx(x) + m.vx(y)) % 256
        },
{
}

/// `Sub` sets VF to 1 if VX is less than VY, so that the subtraction
/// borrows, and to 0 if it is not, and leaves the difference modulo 256 in
/// VX, unless VX is VF itself.
pub proof fn law_sub_borrow(m: Machine, x: u8, y: u8, random: u8)
    requires
        m.wf(),
        x < 16,
        y < 16,
    ensures
        m.execute(Instruction::Sub(x, y), random) matches Ok(after) && {
            &&& after.vx(0xF) == 1 <==> m.vx(x) < m.vx(y)
            &&& after.vx(0xF) == 0 <==> m.vx(x) >= m.vx(y)
            &&& x != 0xF ==> after.vx(x) == (m.vx(x) - m.vx(y)) % 256
        },
{
}

/// `InverseSub` sets VF to 1 if VY is less than VX and to 0 if it is not,
/// and leaves VY - VX modulo 256 in VX, unless VX is VF itself.
pub proof fn law_inverse_sub_borrow(m: Machine, x: u8, y: u8, random: u8)
    requires
        m.wf(),
        x < 16,
        y < 16,
    ensures
        m.execute(Instruction::InverseSub(x, y), random) matches Ok(after) && {
            &&& after.vx(0xF) == 1 <==> m.vx(y) < m.vx(x)
            &&& after.vx(0xF) == 0 <==> m.vx(y) >= m.vx(x)
            &&& x != 0xF ==> after.vx(x) == (m.vx(y) - m.vx(x)) % 256
        },
{
}

/// `Shr` leaves in VF the least significant bit that VX had before the
/// shift, whatever the shift leaves in VX.
pub proof fn law_shr_flag(m: Machine, x: u8, random: u8)
    requires
        m.wf(),
        x < 16,
    ensures
        m.execute(Instruction::Shr(x), random) matches Ok(after) && {
            &&& after.vx(0xF) == m.vx(x) & 1
            &&& x != 0xF ==> after.vx(x) == m.vx(x) >> 1
        },
{
    let a = m.vx(x);
    assert(a >> 1 == a / 2 && a & 1 == a % 2) by (bit_vector);
}

/// `Shl` leaves in VF the most significant bit that VX had before the
/// shift, whatever the shift leaves in VX.
pub proof fn law_shl_flag(m: Machine, x: u8, random: u8)
    requires
        m.wf(),
        x < 16,
    ensures
        m.execute(Instruction::Shl(x), random) matches Ok(after) && {
            &&& after.vx(0xF) == m.vx(x) >> 7
            &&& x != 0xF ==> after.vx(x) == m.vx(x) << 1
        },
{
    let a = m.vx(x);
    assert(a << 1 == (a * 2) % 0x100 && a >> 7 == a / 0x80) by (bit_vector);
}

/// The three digits of a byte are decimal digits and recombine to the byte.
pub proof fn law_bcd_recombines(a: u8)
    ensures
        bcd_digits(a).len() == 3,
        forall|i: int| 0 <= i < 3 ==> bcd_digits(a)[i] < 10,
        bcd_digits(a)[0] * 100 + bcd_digits(a)[1] * 10 + bcd_digits(a)[2] == a,
{
}

/// `BCD` writes digits to memory at I, I + 1 and I + 2 that recombine to VX,
/// and touches no other byte.
pub proof fn law_bcd_in_memory(m: Machine, x: u8, random: u8)
    requires
        m.wf(),
        x < 16,
        m.index + 2 < MEMORY,
    ensures
        m.execute(Instruction::BCD(x), random) matches Ok(after) && {
            &&& after.memory[m.index as int] * 100 + after.memory[m.index + 1] * 10
                + after.memory[m.index + 2] == m.vx(x)
            &&& forall|i: int|
                0 <= i < MEMORY && !(m.index <= i < m.index + 3) ==> after.memory[i] == m.memory[i]
        },
{
    let after = m.op_bcd(x);
    law_bcd_recombines(m.vx(x));
    assert(after.memory[m.index as int] == bcd_digits(m.vx(x))[0]);
    assert(after.memory[m.index + 1] == bcd_digits(m.vx(x))[1]);
    assert(after.memory[m.index + 2] == bcd_digits(m.vx(x))[2]);
}

/// `RegDump` followed by `RegLoad` of the same registers at the same address
/// leaves all sixteen registers as they were.
pub proof fn law_dump_load_round_trip(m: Machine, x: u8, random: u8)
    requires
        m.wf(),
        x < 16,
        m.index + x < MEMORY,
    ensures
        m.execute(Instruction::RegDump(x), random) matches Ok(dumped) && (dumped.execute(
            Instruction::RegLoad(x),
            random,
        ) matches Ok(loaded) && loaded.v == m.v),
{
    let dumped = m.op_reg_dump(x);
    let loaded = dumped.op_reg_load(x);
    assert(loaded.v =~= m.v);
}

/// Drawing the same sprite twice at the same place leaves the display as it
/// was, and the second drawing sets VF to 1 exactly if the sprite has a set
/// bit over a pixel that was dark at first.
pub proof fn law_draw_twice_restores(m: Machine, x: u8, y: u8, height: u8, random: u8)
    requires
        m.wf(),
        x < 15,
        y < 15,
        m.execute(Instruction::Draw(x, y, height), random) is Ok,
    ensures
        m.execute(Instruction::Draw(x, y, height), random) matches Ok(once) && (once.execute(
            Instruction::Draw(x, y, height),
            random,
        ) matches Ok(twice) && {
            &&& twice.pixels == m.pixels
            &&& twice.vx(0xF) == 1 <==> exists|p: int|
                0 <= p < PIXELS && sprite_covers(m.vx(x), m.vx(y), height, p) && !m.pixels[p]
                    && #[trigger] m.sprite_pixel(m.vx(x), m.vx(y), p)
            &&& twice.vx(0xF) == 0 || twice.vx(0xF) == 1
        }),
{
    let once = m.op_draw(x, y, height);
    lemma_draw_fault_same(m, once, m.vx(x), m.vx(y), height as int);
    let twice = once.op_draw(x, y, height);
    let vx = m.vx(x);
    let vy = m.vx(y);
    assert forall|p: int| 0 <= p < PIXELS implies once.sprite_pixel(vx, vy, p) == m.sprite_pixel(
        vx,
        vy,
        p,
    ) by {}
    assert(twice.pixels =~= m.pixels);
    if once.draw_collides(vx, vy, height) {
        let w = choose|p: int|
            0 <= p < PIXELS && sprite_covers(vx, vy, height, p) && once.pixels[p]
                && #[trigger] once.sprite_pixel(vx, vy, p);
        assert(m.sprite_pixel(vx, vy, w));
    }
    if exists|p: int|
        0 <= p < PIXELS && sprite_covers(vx, vy, height, p) && !m.pixels[p]
            && #[trigger] m.sprite_pixel(vx, vy, p) {
        let w = choose|p: int|
            0 <= p < PIXELS && sprite_covers(vx, vy, height, p) && !m.pixels[p]
                && #[trigger] m.sprite_pixel(vx, vy, p);
        assert(once.sprite_pixel(vx, vy, w));
    }
}

/// Drawing a sprite that has a set bit twice at the same place, on a display
/// that is dark under the set bits of the sprite, leaves every pixel under a
/// set bit dark, and the second drawing sets VF to 1.
pub proof fn law_draw_twice_clears(m: Machine, x: u8, y: u8, height: u8, random: u8)
    requires
        m.wf(),
        x < 15,
        y < 15,
        m.execute(Instruction::Draw(x, y, height), random) is Ok,
        forall|p: int|
            0 <= p < PIXELS && sprite_covers(m.vx(x), m.vx(y), height, p) && #[trigger] m.sprite_pixel(
                m.vx(x),
                m.vx(y),
                p,
            ) ==> !m.pixels[p],
        exists|p: int|
            0 <= p < PIXELS && sprite_covers(m.vx(x), m.vx(y), height, p) && #[trigger] m.sprite_pixel(
                m.vx(x),
                m.vx(y),
                p,
            ),
    ensures
        m.execute(Instruction::Draw(x, y, height), random) matches Ok(once) && (once.execute(
            Instruction::Draw(x, y, height),
            random,
        ) matches Ok(twice) && {
            &&& twice.vx(0xF) == 1
            &&& forall|p: int|
                0 <= p < PIXELS && sprite_covers(m.vx(x), m.vx(y), height, p) && #[trigger] m.sprite_pixel(
                    m.vx(x),
                    m.vx(y),
                    p,
                ) ==> once.pixels[p] && !twice.pixels[p]
        }),
{
    law_draw_twice_restores(m, x, y, height, random);
    let w = choose|p: int|
        0 <= p < PIXELS && sprite_covers(m.vx(x), m.vx(y), height, p) && #[trigger] m.sprite_pixel(
            m.vx(x),
            m.vx(y),
            p,
        );
    assert(!m.pixels[w]);
}

/// Whether a sprite can be drawn depends on the index register alone, not
/// on what memory or the display hold.
pub proof fn lemma_draw_fault_same(m: Machine, n: Machine, x: u8, y: u8, height: int)
    requires
        m.index == n.index,
    ensures
        m.draw_fault(x, y, height) == n.draw_fault(x, y, height),
    decreases height,
{
    if height > 0 {
        lemma_draw_fault_same(m, n, x, y, height - 1);
    }
}

/// Every opcode `8XY6` decodes to `Shr(X)`, whatever `Y` is.
pub proof fn law_decode_shr(x: u8, y: u8)
    requires
        x < 16,
        y < 16,
    ensures
        decode((0x8006 + 0x100 * x + 0x10 * y) as u16) == Some(Instruction::Shr(x)),
{
}

/// An opcode whose first digit is `F` and whose low byte is none of the
/// known suffixes decodes to nothing.
pub proof fn law_decode_unknown_f(opcode: u16)
    requires
        opcode / 0x1000 == 0xF,
        opcode % 0x100 != 0x07,
        opcode % 0x100 != 0x0A,
        opcode % 0x100 != 0x15,
        opcode % 0x100 != 0x18,
        opcode % 0x100 != 0x1E,
        opcode % 0x100 != 0x29,
        opcode % 0x100 != 0x33,
        opcode % 0x100 != 0x55,
        opcode % 0x100 != 0x65,
    ensures
        decode(opcode) is None,
{
}

/// The conditional skips move the program counter by 4 if their condition
/// holds and by 2 if it does not, and change nothing else.
pub proof fn law_skip(m: Machine, instruction: Instruction, random: u8)
    requires
        m.wf(),
        m.pc + 1 < MEMORY,
        match instruction {
            Instruction::SkipEqConst(x, _) | Instruction::SkipNeqConst(x, _) => x < 16,
            Instruction::SkipEq(x, y) | Instruction::SkipNeq(x, y) => x < 16 && y < 16,
            _ => false,
        },
    ensures
        m.execute(instruction, random) matches Ok(after) && {
            let skips = match instruction {
                Instruction::SkipEqConst(x, n) => m.vx(x) == n,
                Instruction::SkipNeqConst(x, n) => m.vx(x) != n,
                Instruction::SkipEq(x, y) => m.vx(x) == m.vx(y),
                Instruction::SkipNeq(x, y) => m.vx(x) != m.vx(y),
                _ => false,
            };
            &&& after == (Machine { pc: after.pc, ..m })
            &&& skips ==> after.pc == m.pc + 4
            &&& !skips ==> after.pc == m.pc + 2
        },
{
}

/// Every instruction but the jumps, the call and the return leaves the
/// program counter where it is (the start of a key wait), moves it to the
/// next instruction, or moves it past the next instruction: the program
/// counter stays even if it was even.
pub proof fn law_counter_steps(m: Machine, instruction: Instruction, random: u8)
    requires
        m.wf(),
        m.pc + 1 < MEMORY,
        valid_instruction(instruction),
        !(instruction is Return),
        !(instruction is Goto),
        !(instruction is Call),
        !(instruction is OffsetGoto),
    ensures
        m.execute(instruction, random) matches Ok(after) ==> {
            &&& after.pc == m.pc || after.pc == m.pc + 2 || after.pc == m.pc + 4
            &&& after.pc == m.pc <==> instruction is WaitKey
            &&& after.pc % 2 == m.pc % 2
        },
{
}

/// `Return` without an open call is no error: the machine goes on with the
/// next instruction, and nothing else changes.
pub proof fn law_return_without_call(m: Machine, random: u8)
    requires
        m.wf(),
        m.stack.len() == 0,
    ensures
        m.execute(Instruction::Return, random) == Ok::<Machine, Error>(m.next()),
{
}

/// `Call` followed by `Return` continues after the call, with the stack as
/// it was before.
pub proof fn law_call_return(m: Machine, addr: u16, random: u8)
    requires
        m.wf(),
        m.pc + 1 < MEMORY,
        addr < MEMORY,
    ensures
        m.execute(Instruction::Call(addr), random) matches Ok(called) && called.pc == addr && (
        called.execute(Instruction::Return, random) matches Ok(returned) && returned == m.next()),
{
    let called = m.op_call(addr);
    let returned = called.op_return();
    assert(returned.stack =~= m.stack);
}

/// An instruction executed on a well-formed machine leaves a well-formed
/// machine.
pub proof fn law_execute_keeps_wf(m: Machine, instruction: Instruction, random: u8)
    requires
        m.wf(),
        m.waiting is None,
        m.pc + 1 < MEMORY,
        valid_instruction(instruction),
    ensures
        m.execute(instruction, random) matches Ok(after) ==> after.wf(),
{
}

/// A cycle of a well-formed machine leaves a well-formed machine, whatever
/// the keypad shows.
pub proof fn law_cycle_keeps_wf(m: Machine, keys: Seq<bool>, random: u8)
    requires
        m.wf(),
        keys.len() == 16,
        !m.rejects(),
    ensures
        m.cycle(keys, random).wf(),
{
    if m.waiting is None && m.opcode() is Some {
        let opcode = m.opcode().unwrap();
        lemma_decode_valid(opcode);
        let fetched = Machine { keys, ..m };
        law_execute_keeps_wf(fetched, decode(opcode).unwrap(), random);
    }
}

/// A tick of the timers asks for the sound exactly if it takes the sound
/// timer from 1 to 0; a timer that is already 0 stays 0 in silence.
pub proof fn law_tick(m: Machine)
    ensures
        m.tick_sounds() <==> m.sound_timer > 0 && m.tick().sound_timer == 0,
        m.sound_timer == 0 ==> m.tick().sound_timer == 0 && !m.tick_sounds(),
        m.delay_timer == 0 ==> m.tick().delay_timer == 0,
        m.sound_timer > 0 ==> m.tick().sound_timer == m.sound_timer - 1,
        m.delay_timer > 0 ==> m.tick().delay_timer == m.delay_timer - 1,
{
}

} // verus!
