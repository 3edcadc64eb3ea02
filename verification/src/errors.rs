//! The ways in which building or running a machine can fail.

use vstd::prelude::*;

verus! {

/// A fatal condition. None of them is retried: the run ends with it.
#[derive(Debug, PartialEq, Eq)]
pub enum Error {
    /// The program does not fit into program memory: its size, then the limit.
    ProgramTooLarge(usize, usize),
    /// The opcode, given as hexadecimal text, matches no instruction.
    InvalidOpcode(String),
    /// The named instruction would reach the given address outside memory.
    InvalidAddress(usize, &'static str),
    /// No font sprite exists for the value.
    UnknownCharacter(u8),
    /// The named instruction asked for a key that the keypad does not have.
    UnknownKey(u8, &'static str),
    /// A sprite pixel would land at these coordinates, outside the display.
    PixelOutOfBounds(usize, usize),
}

} // verus!
