//! The instruction set.

use vstd::prelude::*;

verus! {

/// An address in memory (12 bits when decoded from an opcode).
pub type Address = u16;

/// An immediate value.
pub type Number = u8;

/// The number of a general-purpose register (4 bits when decoded from an opcode).
pub type Register = u8;

/// A decoded instruction. `VX` and `VY` stand for the registers selected by the
/// first and second operand, `I` for the index register.
#[derive(Debug, Clone, Copy, PartialEq, Eq)]
pub enum Instruction {
    /// Return from a subroutine.
    Return,
    /// Jump to the address.
    Goto(Address),
    /// Call the subroutine at the address.
    Call(Address),
    /// Jump to the address plus V0.
    OffsetGoto(Address),
    /// Set VX to N.
    SetConst(Register, Number),
    /// Add N to VX, without touching the flag register.
    AddConst(Register, Number),
    /// Set VX to VY.
    Move(Register, Register),
    /// Set VX to VX | VY.
    BitOr(Register, Register),
    /// Set VX to VX & VY.
    BitAnd(Register, Register),
    /// Set VX to VX ^ VY.
    BitXor(Register, Register),
    /// Shift VX right by one bit.
    Shr(Register),
    /// Shift VX left by one bit.
    Shl(Register),
    /// Add VY to VX.
    Add(Register, Register),
    /// Subtract VY from VX.
    Sub(Register, Register),
    /// Set VX to VY - VX.
    InverseSub(Register, Register),
    /// Set VX to a random byte masked with N.
    Rand(Register, Number),
    /// Write the decimal digits of VX to memory at I, I + 1 and I + 2.
    BCD(Register),
    /// Skip the next instruction if VX == N.
    SkipEqConst(Register, Number),
    /// Skip the next instruction if VX != N.
    SkipNeqConst(Register, Number),
    /// Skip the next instruction if VX == VY.
    SkipEq(Register, Register),
    /// Skip the next instruction if VX != VY.
    SkipNeq(Register, Register),
    /// Write registers V0 through VX to memory starting at I.
    RegDump(Register),
    /// Load registers V0 through VX from memory starting at I.
    RegLoad(Register),
    /// Set I to the address.
    SetIndex(Address),
    /// Add VX to I.
    AddIndex(Register),
    /// Set I to the address of the font sprite for the character in VX.
    SetIndexChar(Register),
    /// Set VX to the delay timer.
    GetDelay(Register),
    /// Set the delay timer to VX.
    SetDelay(Register),
    /// Block until a key is pressed, then store its number in VX.
    WaitKey(Register),
    /// Skip the next instruction if the key in VX is pressed.
    SkipKey(Register),
    /// Skip the next instruction if the key in VX is not pressed.
    SkipNotKey(Register),
    /// Set the sound timer to VX.
    SetSound(Register),
    /// Draw the sprite of 8 by N pixels stored at I at the coordinates (VX, VY).
    Draw(Register, Register, Number),
    /// Clear the screen.
    ClearScreen,
}

/// Whether an instruction names only registers that exist.
pub open spec fn valid_instruction(instruction: Instruction) -> bool {
    match instruction {
        Instruction::Return
        | Instruction::ClearScreen
        | Instruction::Goto(_)
        | Instruction::Call(_)
        | Instruction::OffsetGoto(_)
        | Instruction::SetIndex(_) => true,
        Instruction::SetConst(x, _)
        | Instruction::AddConst(x, _)
        | Instruction::Rand(x, _)
        | Instruction::SkipEqConst(x, _)
        | Instruction::SkipNeqConst(x, _) => x < 16,
        Instruction::Shr(x)
        | Instruction::Shl(x)
        | Instruction::BCD(x)
        | Instruction::RegDump(x)
        | Instruction::RegLoad(x)
        | Instruction::AddIndex(x)
        | Instruction::SetIndexChar(x)
        | Instruction::GetDelay(x)
        | Instruction::SetDelay(x)
        | Instruction::WaitKey(x)
        | Instruction::SkipKey(x)
        | Instruction::SkipNotKey(x)
        | Instruction::SetSound(x) => x < 16,
        Instruction::Move(x, y)
        | Instruction::BitOr(x, y)
        | Instruction::BitAnd(x, y)
        | Instruction::BitXor(x, y)
        | Instruction::Add(x, y)
        | Instruction::Sub(x, y)
        | Instruction::InverseSub(x, y)
        | Instruction::SkipEq(x, y)
        | Instruction::SkipNeq(x, y) => x < 16 && y < 16,
        Instruction::Draw(x, y, _) => x < 16 && y < 16,
    }
}

impl Instruction {
    /// Returns whether the instruction names only registers that exist.
    /// Every decoded instruction does.
    pub fn is_valid(&self) -> (valid: bool)
        ensures
            valid == valid_instruction(*self),
    {
        match *self {
            Instruction::Return
            | Instruction::ClearScreen
            | Instruction::Goto(_)
            | Instruction::Call(_)
            | Instruction::OffsetGoto(_)
            | Instruction::SetIndex(_) => true,
            Instruction::SetConst(x, _)
            | Instruction::AddConst(x, _)
            | Instruction::Rand(x, _)
            | Instruction::SkipEqConst(x, _)
            | Instruction::SkipNeqConst(x, _) => x < 16,
            Instruction::Shr(x)
            | Instruction::Shl(x)
            | Instruction::BCD(x)
            | Instruction::RegDump(x)
            | Instruction::RegLoad(x)
            | Instruction::AddIndex(x)
            | Instruction::SetIndexChar(x)
            | Instruction::GetDelay(x)
            | Instruction::SetDelay(x)
            | Instruction::WaitKey(x)
            | Instruction::SkipKey(x)
            | Instruction::SkipNotKey(x)
            | Instruction::SetSound(x) => x < 16,
            Instruction::Move(x, y)
            | Instruction::BitOr(x, y)
            | Instruction::BitAnd(x, y)
            | Instruction::BitXor(x, y)
            | Instruction::Add(x, y)
            | Instruction::Sub(x, y)
            | Instruction::InverseSub(x, y)
            | Instruction::SkipEq(x, y)
            | Instruction::SkipNeq(x, y) => x < 16 && y < 16,
            Instruction::Draw(x, y, _) => x < 16 && y < 16,
        }
    }
}

} // verus!
