//! A CHIP-8 virtual machine core: opcode decoder, register file, memory,
//! display and keypad state, and the fetch-decode-execute cycle.
//!
//! The core performs no input or output of its own. A cycle takes the keypad
//! snapshot from a [`Chip8IO`] and draws through it, or is handed the snapshot
//! and returns the [`Action`] for its caller to carry out.

pub mod config;
pub mod cpu;
pub mod errors;
pub mod fontset;
pub mod instruction;
pub mod interpreter;
pub mod io;
pub mod keyboard;
pub mod laws;
pub mod model;
pub mod random;
pub mod register;
pub mod utils;

use vstd::prelude::*;

pub use crate::cpu::Chip8;
pub use crate::errors::Error;
pub use crate::io::Keys;
pub use crate::model::Action;

verus! {

/// The width of the display, in pixels.
pub const SCREEN_WIDTH: usize = 128;

/// The height of the display, in pixels.
pub const SCREEN_HEIGHT: usize = 64;

/// The size of memory, in bytes.
pub const MEMORY: usize = 4096;

/// Where the program starts in memory.
pub const PROGRAM_START: usize = 0x200;

/// How many times per second the timers count down.
pub const TIMER_SPEED: u64 = 60;

/// What a front end offers to the machine: a display, a keypad and a sound.
/// The machine promises nothing of an implementation and relies on nothing
/// that one returns.
pub trait Chip8IO {
    /// Draws the pixels to the screen. They are a matrix of `SCREEN_WIDTH`
    /// by `SCREEN_HEIGHT` pixels in row-major order, the first being the top
    /// left corner; a pixel is `true` if it is lit.
    fn draw(&mut self, pixels: &[bool])
        requires
            pixels@.len() == SCREEN_WIDTH * SCREEN_HEIGHT,
    ;

    /// Returns the current state of the keypad.
    fn get_keys(&mut self) -> Keys;

    /// Plays a sound.
    fn play_sound(&mut self);

    /// Returns whether the emulator should exit.
    fn should_close(&self) -> bool;
}

} // verus!
