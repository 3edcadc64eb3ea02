//! Display and keypad state.

use vstd::prelude::*;
use crate::Chip8IO;

verus! {

/// The number of pixels of the display: its width times its height.
pub const PIXELS: usize = 8192;

/// The state of the keypad: for each of the sixteen keys, whether it is pressed.
pub type Keys = [bool; 16];

/// What the display and keypad state holds.
#[verifier::ext_equal]
pub struct IoView {
    /// The pixels in row-major order from the top left corner; `true` is lit.
    pub pixels: Seq<bool>,
    /// Whether the display should be redrawn.
    pub draw_flag: bool,
    /// The keypad snapshot.
    pub keys: Seq<bool>,
}

/// The first key, if any, that `keys` holds down and `before` did not.
pub open spec fn first_new_key(before: Seq<bool>, keys: Seq<bool>) -> Option<u8> {
    if exists|k: int| is_new_key(before, keys, k) {
        Some(
            (choose|k: int| is_new_key(before, keys, k) && no_new_key_below(before, keys, k)) as u8,
        )
    } else {
        None
    }
}

/// Key `k` is held down in `keys` and was not in `before`.
pub open spec fn is_new_key(before: Seq<bool>, keys: Seq<bool>, k: int) -> bool {
    0 <= k < 16 && !before[k] && keys[k]
}

/// No key below `k` is newly held down.
pub open spec fn no_new_key_below(before: Seq<bool>, keys: Seq<bool>, k: int) -> bool {
    forall|j: int| 0 <= j < k ==> !is_new_key(before, keys, j)
}

/// Display and keypad state of the machine.
#[derive(Debug)]
pub struct Io {
    /// The pixels of the display.
    pixels: [bool; PIXELS],
    /// Whether the pixels should be drawn.
    draw_flag: bool,
    /// Keys being pressed.
    keys: Keys,
}

impl View for Io {
    type V = IoView;

    closed spec fn view(&self) -> IoView {
        IoView { pixels: self.pixels@, draw_flag: self.draw_flag, keys: self.keys@ }
    }
}

impl Io {
    /// The display always has `PIXELS` pixels and the keypad sixteen keys.
    pub proof fn lemma_view_len(&self)
        ensures
            self@.pixels.len() == PIXELS,
            self@.keys.len() == 16,
    {
    }

    /// A dark screen that is due to be drawn, and no key pressed.
    pub fn new() -> (io: Io)
        ensures
            io@.pixels == Seq::new(PIXELS as nat, |i: int| false),
            io@.draw_flag,
            io@.keys == Seq::new(16, |i: int| false),
    {
        let io = Io { pixels: [false; PIXELS], draw_flag: true, keys: [false; 16] };
        assert(io.pixels@ =~= Seq::new(PIXELS as nat, |i: int| false));
        assert(io.keys@ =~= Seq::new(16, |i: int| false));
        io
    }

    /// Clears the screen and asks for a redraw.
    pub fn clear_screen(&mut self)
        ensures
            final(self)@.pixels == Seq::new(PIXELS as nat, |i: int| false),
            final(self)@.draw_flag,
            final(self)@.keys == old(self)@.keys,
    {
        self.pixels = [false; PIXELS];
        self.set_draw_flag();
        assert(self.pixels@ =~= Seq::new(PIXELS as nat, |i: int| false));
    }

    /// Returns whether the key is pressed in the current snapshot.
    pub fn is_key_pressed(&self, key: u8) -> (pressed: bool)
        requires
            key < 16,
        ensures
            pressed == self@.keys[key as int],
    {
        self.keys[key as usize]
    }

    /// Sets the draw flag, which asks for the screen to be redrawn.
    pub fn set_draw_flag(&mut self)
        ensures
            final(self)@ == (IoView { draw_flag: true, ..old(self)@ }),
    {
        self.draw_flag = true;
    }

    /// Returns the draw flag: whether the screen should be redrawn.
    pub fn draw_flag(&self) -> (flag: bool)
        ensures
            flag == self@.draw_flag,
    {
        self.draw_flag
    }

    /// Returns the pixel at the given index for writing.
    pub fn get_mut_pixel(&mut self, index: usize) -> (pixel: &mut bool)
        requires
            index < PIXELS,
        ensures
            *pixel == old(self)@.pixels[index as int],
            final(self)@ == (IoView {
                pixels: old(self)@.pixels.update(index as int, *final(pixel)),
                ..old(self)@
            }),
    {
        &mut self.pixels[index]
    }

    /// Returns the pixels of the screen, in row-major order.
    pub fn pixels(&self) -> (pixels: &[bool])
        ensures
            pixels@ == self@.pixels,
    {
        &self.pixels
    }

    /// Replaces the keypad snapshot.
    pub fn set_keys(&mut self, keys: Keys)
        ensures
            final(self)@ == (IoView { keys: keys@, ..old(self)@ }),
    {
        self.keys = keys;
    }

    /// One poll of a key wait: asks the front end for the keypad and returns
    /// the lowest key that is held down now but was not in the snapshot, or
    /// `None` if the wait goes on.
    pub fn wait_key<T: Chip8IO>(&self, io: &mut T) -> (key: Option<u8>)
        ensures
            exists|new_keys: Keys| key == #[trigger] first_new_key(self@.keys, new_keys@),
            key matches Some(k) ==> k < 16 && !self@.keys[k as int],
    {
        let new_keys = io.get_keys();
        self.new_key(&new_keys)
    }

    /// Returns the lowest key that is held down in `new_keys` but was not in
    /// the snapshot, or `None` if there is no such key.
    pub fn new_key(&self, new_keys: &Keys) -> (key: Option<u8>)
        ensures
            key == first_new_key(self@.keys, new_keys@),
            key matches Some(k) ==> k < 16 && !self@.keys[k as int] && new_keys@[k as int],
    {
        let mut i: u8 = 0;
        while i < 16
            invariant
                i <= 16,
                no_new_key_below(self@.keys, new_keys@, i as int),
            decreases 16 - i,
        {
            if !self.keys[i as usize] && new_keys[i as usize] {
                proof {
                    lemma_first_new_key(self@.keys, new_keys@, i as int);
                }
                return Some(i);
            }
            i += 1;
        }
        None
    }
}

/// The lowest newly pressed key is the one that `first_new_key` names.
pub proof fn lemma_first_new_key(before: Seq<bool>, keys: Seq<bool>, k: int)
    requires
        is_new_key(before, keys, k),
        no_new_key_below(before, keys, k),
    ensures
        first_new_key(before, keys) == Some(k as u8),
{
    let c = choose|c: int| is_new_key(before, keys, c) && no_new_key_below(before, keys, c);
    assert(!(c < k));
    assert(!(k < c));
}

} // verus!
