//! The keyboard of a front end: which of its keys stand for the sixteen keys
//! of the keypad, and the keypad state that key presses and releases make.
//!
//! A key of the keyboard is named by its code, which is the code of the
//! character on it: `0x31` for the key `1`, `0x71` for the key `Q`, `0x1B` for
//! Escape.

use vstd::prelude::*;
use crate::io::Keys;

verus! {

/// What a key of the keyboard is bound to.
#[derive(Debug, Clone, Copy, PartialEq, Eq)]
pub enum Binding {
    /// A key of the keypad.
    Key(u8),
    /// Closing the emulator.
    Close,
    /// Nothing.
    Unbound,
}

/// The binding of each key of the keyboard. The four rows `1234`, `QWER`,
/// `ASDF` and `ZXCV` stand for the keypad, and Escape closes the emulator.
pub open spec fn binding_of(code: u32) -> Binding {
    if code == 0x31 {
        Binding::Key(0x0)
    } else if code == 0x32 {
        Binding::Key(0x1)
    } else if code == 0x33 {
        Binding::Key(0x2)
    } else if code == 0x34 {
        Binding::Key(0xC)
    } else if code == 0x71 {
        Binding::Key(0x4)
    } else if code == 0x77 {
        Binding::Key(0x5)
    } else if code == 0x65 {
        Binding::Key(0x6)
    } else if code == 0x72 {
        Binding::Key(0xD)
    } else if code == 0x61 {
        Binding::Key(0x7)
    } else if code == 0x73 {
        Binding::Key(0x8)
    } else if code == 0x64 {
        Binding::Key(0x9)
    } else if code == 0x66 {
        Binding::Key(0xE)
    } else if code == 0x7A {
        Binding::Key(0xA)
    } else if code == 0x78 {
        Binding::Key(0x0)
    } else if code == 0x63 {
        Binding::Key(0xB)
    } else if code == 0x76 {
        Binding::Key(0xF)
    } else if code == 0x1B {
        Binding::Close
    } else {
        Binding::Unbound
    }
}

/// Returns what the key with the given code is bound to.
pub fn binding(code: u32) -> (bound: Binding)
    ensures
        bound == binding_of(code),
        bound matches Binding::Key(key) ==> key < 16,
{
    match code {
        0x31 => Binding::Key(0x0),
        0x32 => Binding::Key(0x1),
        0x33 => Binding::Key(0x2),
        0x34 => Binding::Key(0xC),
        0x71 => Binding::Key(0x4),
        0x77 => Binding::Key(0x5),
        0x65 => Binding::Key(0x6),
        0x72 => Binding::Key(0xD),
        0x61 => Binding::Key(0x7),
        0x73 => Binding::Key(0x8),
        0x64 => Binding::Key(0x9),
        0x66 => Binding::Key(0xE),
        0x7A => Binding::Key(0xA),
        0x78 => Binding::Key(0x0),
        0x63 => Binding::Key(0xB),
        0x76 => Binding::Key(0xF),
        0x1B => Binding::Close,
        _ => Binding::Unbound,
    }
}

/// The keypad as the keyboard events seen so far leave it, and whether one
/// of them asked to close the emulator.
#[derive(Debug)]
pub struct Keyboard {
    /// The keys of the keypad that are held down.
    pub keys: Keys,
    /// Whether the emulator should exit.
    pub should_close: bool,
}

impl Keyboard {
    /// No key held down, and no wish to close.
    pub fn new() -> (keyboard: Keyboard)
        ensures
            keyboard.keys@ == Seq::new(16, |i: int| false),
            !keyboard.should_close,
    {
        let keyboard = Keyboard { keys: [false; 16], should_close: false };
        assert(keyboard.keys@ =~= Seq::new(16, |i: int| false));
        keyboard
    }

    /// Takes note that the key with the given code went down (`state` true)
    /// or up: a key of the keypad changes its state, Escape asks to close,
    /// and any other key changes nothing.
    pub fn set_key(&mut self, code: u32, state: bool)
        ensures
            match binding_of(code) {
                Binding::Key(key) => final(self).keys@ == old(self).keys@.update(key as int, state)
                    && final(self).should_close == old(self).should_close,
                Binding::Close => final(self).keys == old(self).keys && final(self).should_close,
                Binding::Unbound => *final(self) == *old(self),
            },
    {
        match binding(code) {
            Binding::Key(key) => {
                self.keys[key as usize] = state;
            },
            Binding::Close => {
                self.should_close = true;
            },
            Binding::Unbound => {},
        }
    }
}

} // verus!
