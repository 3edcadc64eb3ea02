//! The mathematical model of the machine: its state as sequences and numbers,
//! and what each instruction and each cycle does to it.

use vstd::prelude::*;
use crate::config::Log;
use crate::errors::Error;
use crate::fontset::{font_table, FONTSET_SIZE, FONTSET_START, SPRITE_HEIGHT};
use crate::instruction::Instruction;
use crate::interpreter::decode;
use crate::io::{first_new_key, PIXELS};
use crate::utils::bcd_digits;
use crate::{MEMORY, PROGRAM_START, SCREEN_HEIGHT, SCREEN_WIDTH};

verus! {

/// What the driver has to do after a cycle.
#[derive(Debug, Clone, Copy, PartialEq, Eq)]
pub enum Action {
    /// The program counter has left memory: the program has ended.
    Halt,
    /// The machine waits for a key press: poll the keypad and run the next
    /// cycle with what it shows, without ticking the timers in between.
    AwaitKey,
    /// An instruction was executed and the display needs no redraw.
    Continue,
    /// An instruction was executed and the display is to be drawn once.
    Redraw,
}

/// The state of a machine.
#[verifier::ext_equal]
pub struct Machine {
    /// Memory, `MEMORY` bytes.
    pub memory: Seq<u8>,
    /// Return addresses, the innermost call last.
    pub stack: Seq<u16>,
    /// General-purpose registers V0 to VF.
    pub v: Seq<u8>,
    /// Index register.
    pub index: u16,
    /// Program counter.
    pub pc: u16,
    /// Display, `PIXELS` pixels in row-major order.
    pub pixels: Seq<bool>,
    /// Whether the display should be redrawn.
    pub draw_flag: bool,
    /// Keypad snapshot, sixteen keys.
    pub keys: Seq<bool>,
    /// Delay timer.
    pub delay_timer: u8,
    /// Sound timer.
    pub sound_timer: u8,
    /// Whether the program has ended.
    pub program_ended: bool,
    /// The register that receives the key, while the machine waits for one.
    pub waiting: Option<u8>,
    /// Whether opcodes should be logged.
    pub log: Log,
}

/// The memory of a new machine: the font, then the program at
/// `PROGRAM_START`, and zero everywhere else.
pub open spec fn initial_memory(program: Seq<u8>) -> Seq<u8> {
    Seq::new(
        MEMORY as nat,
        |i: int|
            if FONTSET_START <= i < FONTSET_START + FONTSET_SIZE {
                font_table()[i - FONTSET_START]
            } else if PROGRAM_START <= i < PROGRAM_START + program.len() {
                program[i - PROGRAM_START]
            } else {
                0u8
            },
    )
}

/// The machine as it is built for a program.
pub open spec fn initial_machine(program: Seq<u8>, log: Log) -> Machine {
    Machine {
        memory: initial_memory(program),
        stack: Seq::empty(),
        v: Seq::new(16, |i: int| 0u8),
        index: 0,
        pc: PROGRAM_START as u16,
        pixels: Seq::new(PIXELS as nat, |i: int| false),
        draw_flag: true,
        keys: Seq::new(16, |i: int| false),
        delay_timer: 0,
        sound_timer: 0,
        program_ended: false,
        waiting: None,
        log,
    }
}

/// Whether the pixel `p` lies under a sprite of `height` rows drawn at (`x`, `y`).
pub open spec fn sprite_covers(x: u8, y: u8, height: u8, p: int) -> bool {
    &&& x <= p % (SCREEN_WIDTH as int) < x + 8
    &&& y <= p / (SCREEN_WIDTH as int) < y + height
}

impl Machine {
    /// The sizes are fixed, return addresses are addresses of instructions,
    /// and a machine waits for a key only at an instruction.
    pub open spec fn wf(self) -> bool {
        &&& self.memory.len() == MEMORY
        &&& self.v.len() == 16
        &&& self.pixels.len() == PIXELS
        &&& self.keys.len() == 16
        &&& forall|i: int| 0 <= i < self.stack.len() ==> #[trigger] self.stack[i] + 1 < MEMORY
        &&& self.waiting matches Some(x) ==> x < 16 && self.pc + 1 < MEMORY
    }

    /// The value of register `x`.
    pub open spec fn vx(self, x: u8) -> u8 {
        self.v[x as int]
    }

    /// Register `x` set to `value`.
    pub open spec fn set_v(self, x: u8, value: u8) -> Machine {
        Machine { v: self.v.update(x as int, value), ..self }
    }

    /// The flag register VF set to `value`.
    pub open spec fn set_flag(self, value: u8) -> Machine {
        self.set_v(0xF, value)
    }

    /// The program counter set to `pc`.
    pub open spec fn jump(self, pc: int) -> Machine {
        Machine { pc: pc as u16, ..self }
    }

    /// The program counter moved to the next instruction.
    pub open spec fn next(self) -> Machine {
        self.jump(self.pc + 2)
    }

    /// The program counter moved past the next instruction if `skip` holds,
    /// and to the next instruction otherwise.
    pub open spec fn skip_if(self, skip: bool) -> Machine {
        if skip {
            self.jump(self.pc + 4)
        } else {
            self.jump(self.pc + 2)
        }
    }

    /// The 16-bit opcode at the program counter, high byte first, if both of
    /// its bytes lie in memory.
    pub open spec fn opcode(self) -> Option<u16> {
        if self.pc + 1 < MEMORY {
            Some((self.memory[self.pc as int] * 0x100 + self.memory[self.pc + 1]) as u16)
        } else {
            None
        }
    }

    /// `Return`: continue after the innermost call; with no call open, go on
    /// with the next instruction.
    pub open spec fn op_return(self) -> Machine {
        if self.stack.len() > 0 {
            Machine { stack: self.stack.drop_last(), ..self }.jump(self.stack.last() + 2)
        } else {
            self.next()
        }
    }

    /// `Call`: jump to `addr` and remember where the call stands.
    pub open spec fn op_call(self, addr: u16) -> Machine {
        Machine { stack: self.stack.push(self.pc), ..self }.jump(addr as int)
    }

    /// `Shr`: VX halved, VF the bit that left on the right.
    pub open spec fn op_shr(self, x: u8) -> Machine {
        self.set_v(x, self.vx(x) / 2).set_flag(self.vx(x) % 2).next()
    }

    /// `Shl`: VX doubled and cut to 8 bits, VF the bit that left on the left.
    pub open spec fn op_shl(self, x: u8) -> Machine {
        self.set_v(x, ((self.vx(x) * 2) % 0x100) as u8).set_flag(self.vx(x) / 0x80).next()
    }

    /// `Add`: VX the sum cut to 8 bits, VF 1 if the sum did not fit.
    pub open spec fn op_add(self, x: u8, y: u8) -> Machine {
        let sum = self.vx(x) + self.vx(y);
        self.set_v(x, (sum % 0x100) as u8).set_flag(if sum > 0xFF { 1 } else { 0 }).next()
    }

    /// `Sub`: VX the difference VX - VY modulo 256, VF 1 if it had to borrow.
    pub open spec fn op_sub(self, x: u8, y: u8) -> Machine {
        let difference = self.vx(x) - self.vx(y);
        self.set_v(x, (difference % 0x100) as u8).set_flag(if difference < 0 { 1 } else { 0 }).next()
    }

    /// `InverseSub`: VX the difference VY - VX modulo 256, VF 1 if it had to borrow.
    pub open spec fn op_inverse_sub(self, x: u8, y: u8) -> Machine {
        let difference = self.vx(y) - self.vx(x);
        self.set_v(x, (difference % 0x100) as u8).set_flag(if difference < 0 { 1 } else { 0 }).next()
    }

    /// `BCD`: the decimal digits of VX at I, I + 1 and I + 2.
    pub open spec fn op_bcd(self, x: u8) -> Machine {
        let digits = bcd_digits(self.vx(x));
        Machine {
            memory: Seq::new(
                MEMORY as nat,
                |i: int|
                    if self.index <= i < self.index + 3 {
                        digits[i - self.index]
                    } else {
                        self.memory[i]
                    },
            ),
            ..self
        }.next()
    }

    /// `RegDump`: registers V0 to VX at I to I + X.
    pub open spec fn op_reg_dump(self, x: u8) -> Machine {
        Machine {
            memory: Seq::new(
                MEMORY as nat,
                |i: int|
                    if self.index <= i <= self.index + x {
                        self.v[i - self.index]
                    } else {
                        self.memory[i]
                    },
            ),
            ..self
        }.next()
    }

    /// `RegLoad`: registers V0 to VX from I to I + X.
    pub open spec fn op_reg_load(self, x: u8) -> Machine {
        Machine {
            v: Seq::new(
                16,
                |i: int|
                    if i <= x {
                        self.memory[self.index + i]
                    } else {
                        self.v[i]
                    },
            ),
            ..self
        }.next()
    }

    /// Whether bit `bit` of row `row` of the sprite at I is set, bit 0 being
    /// the leftmost.
    pub open spec fn sprite_bit(self, row: int, bit: int) -> bool {
        self.memory[self.index + row] & (0x80u8 >> (bit as u8)) != 0
    }

    /// Whether the sprite at I, drawn at (`x`, `y`), has a set bit over the pixel `p`.
    pub open spec fn sprite_pixel(self, x: u8, y: u8, p: int) -> bool {
        self.sprite_bit(p / (SCREEN_WIDTH as int) - y, p % (SCREEN_WIDTH as int) - x)
    }

    /// Why row `row` of a sprite drawn at (`x`, `y`) cannot be drawn, if it
    /// cannot: its byte lies outside memory, or one of its pixels outside the
    /// display. The leftmost such pixel is the one reported.
    pub open spec fn draw_row_fault(self, x: u8, y: u8, row: int) -> Option<Error> {
        if self.index + row >= MEMORY {
            Some(Error::InvalidAddress((self.index + row) as usize, "Draw"))
        } else if y + row >= SCREEN_HEIGHT || x >= SCREEN_WIDTH {
            Some(Error::PixelOutOfBounds(x as usize, (y + row) as usize))
        } else if x + 7 >= SCREEN_WIDTH {
            Some(Error::PixelOutOfBounds(SCREEN_WIDTH, (y + row) as usize))
        } else {
            None
        }
    }

    /// Why the first `height` rows of a sprite drawn at (`x`, `y`) cannot be
    /// drawn, if they cannot: the fault of the topmost row that has one.
    pub open spec fn draw_fault(self, x: u8, y: u8, height: int) -> Option<Error>
        decreases height,
    {
        if height <= 0 {
            None
        } else {
            match self.draw_fault(x, y, height - 1) {
                Some(fault) => Some(fault),
                None => self.draw_row_fault(x, y, height - 1),
            }
        }
    }

    /// The display after the sprite at I was drawn at (`x`, `y`): every pixel
    /// under a set bit of the sprite is flipped.
    pub open spec fn drawn_pixels(self, x: u8, y: u8, height: u8) -> Seq<bool> {
        Seq::new(
            PIXELS as nat,
            |p: int|
                if sprite_covers(x, y, height, p) {
                    self.pixels[p] != self.sprite_pixel(x, y, p)
                } else {
                    self.pixels[p]
                },
        )
    }

    /// Whether drawing the sprite at I at (`x`, `y`) turns a lit pixel off.
    pub open spec fn draw_collides(self, x: u8, y: u8, height: u8) -> bool {
        exists|p: int|
            0 <= p < PIXELS && sprite_covers(x, y, height, p) && self.pixels[p]
                && #[trigger] self.sprite_pixel(x, y, p)
    }

    /// `Draw`: the sprite is drawn, VF tells whether a lit pixel went off,
    /// and the display is due for a redraw.
    pub open spec fn op_draw(self, x: u8, y: u8, height: u8) -> Machine {
        Machine {
            pixels: self.drawn_pixels(self.vx(x), self.vx(y), height),
            draw_flag: true,
            ..self
        }.set_flag(if self.draw_collides(self.vx(x), self.vx(y), height) { 1 } else { 0 }).next()
    }

    /// `ClearScreen`: every pixel off, and the display due for a redraw.
    pub open spec fn op_clear_screen(self) -> Machine {
        Machine { pixels: Seq::new(PIXELS as nat, |i: int| false), draw_flag: true, ..self }.next()
    }

    /// What an instruction does to a machine, or why it fails. `random` is
    /// the byte that `Rand` draws; no other instruction looks at it.
    pub open spec fn execute(self, instruction: Instruction, random: u8) -> Result<Machine, Error> {
        match instruction {
            Instruction::Return => Ok(self.op_return()),
            Instruction::Goto(addr) => if addr >= MEMORY {
                Err(Error::InvalidAddress(addr as usize, "Goto"))
            } else {
                Ok(self.jump(addr as int))
            },
            Instruction::Call(addr) => if addr >= MEMORY {
                Err(Error::InvalidAddress(addr as usize, "Call"))
            } else {
                Ok(self.op_call(addr))
            },
            Instruction::OffsetGoto(addr) => if addr + self.vx(0) >= MEMORY {
                Err(Error::InvalidAddress(addr as usize, "OffsetGoto"))
            } else {
                Ok(self.jump(addr + self.vx(0)))
            },
            Instruction::SetConst(x, n) => Ok(self.set_v(x, n).next()),
            Instruction::AddConst(x, n) => Ok(self.set_v(x, ((self.vx(x) + n) % 0x100) as u8).next()),
            Instruction::Move(x, y) => Ok(self.set_v(x, self.vx(y)).next()),
            Instruction::BitOr(x, y) => Ok(self.set_v(x, self.vx(x) | self.vx(y)).next()),
            Instruction::BitAnd(x, y) => Ok(self.set_v(x, self.vx(x) & self.vx(y)).next()),
            Instruction::BitXor(x, y) => Ok(self.set_v(x, self.vx(x) ^ self.vx(y)).next()),
            Instruction::Shr(x) => Ok(self.op_shr(x)),
            Instruction::Shl(x) => Ok(self.op_shl(x)),
            Instruction::Add(x, y) => Ok(self.op_add(x, y)),
            Instruction::Sub(x, y) => Ok(self.op_sub(x, y)),
            Instruction::InverseSub(x, y) => Ok(self.op_inverse_sub(x, y)),
            Instruction::Rand(x, n) => Ok(self.set_v(x, random & n).next()),
            Instruction::BCD(x) => if self.index + 2 >= MEMORY {
                Err(Error::InvalidAddress(self.index as usize, "BCD"))
            } else {
                Ok(self.op_bcd(x))
            },
            Instruction::SkipEqConst(x, n) => Ok(self.skip_if(self.vx(x) == n)),
            Instruction::SkipNeqConst(x, n) => Ok(self.skip_if(self.vx(x) != n)),
            Instruction::SkipEq(x, y) => Ok(self.skip_if(self.vx(x) == self.vx(y))),
            Instruction::SkipNeq(x, y) => Ok(self.skip_if(self.vx(x) != self.vx(y))),
            Instruction::RegDump(x) => if self.index + x >= MEMORY {
                Err(Error::InvalidAddress(self.index as usize, "RegDump"))
            } else {
                Ok(self.op_reg_dump(x))
            },
            Instruction::RegLoad(x) => if self.index + x >= MEMORY {
                Err(Error::InvalidAddress(self.index as usize, "RegLoad"))
            } else {
                Ok(self.op_reg_load(x))
            },
            Instruction::SetIndex(addr) => Ok(Machine { index: addr, ..self }.next()),
            Instruction::AddIndex(x) => Ok(
                Machine { index: ((self.index + self.vx(x)) % 0x10000) as u16, ..self }.next(),
            ),
            Instruction::SetIndexChar(x) => if self.vx(x) > 15 {
                Err(Error::UnknownCharacter(self.vx(x)))
            } else {
                Ok(
                    Machine {
                        index: (FONTSET_START + SPRITE_HEIGHT * self.vx(x)) as u16,
                        ..self
                    }.next(),
                )
            },
            Instruction::GetDelay(x) => Ok(self.set_v(x, self.delay_timer).next()),
            Instruction::SetDelay(x) => Ok(Machine { delay_timer: self.vx(x), ..self }.next()),
            Instruction::WaitKey(x) => Ok(Machine { waiting: Some(x), ..self }),
            Instruction::SkipKey(x) => if self.vx(x) > 15 {
                Err(Error::UnknownKey(self.vx(x), "SkipKey"))
            } else {
                Ok(self.skip_if(self.keys[self.vx(x) as int]))
            },
            Instruction::SkipNotKey(x) => if self.vx(x) > 15 {
                Err(Error::UnknownKey(self.vx(x), "SkipNotKey"))
            } else {
                Ok(self.skip_if(!self.keys[self.vx(x) as int]))
            },
            Instruction::SetSound(x) => Ok(Machine { sound_timer: self.vx(x), ..self }.next()),
            Instruction::Draw(x, y, height) => match self.draw_fault(
                self.vx(x),
                self.vx(y),
                height as int,
            ) {
                Some(fault) => Err(fault),
                None => Ok(self.op_draw(x, y, height)),
            },
            Instruction::ClearScreen => Ok(self.op_clear_screen()),
        }
    }

    /// What the driver has to do once the machine has reached this state by
    /// executing an instruction.
    pub open spec fn action(self) -> Action {
        if self.waiting is Some {
            Action::AwaitKey
        } else if self.draw_flag {
            Action::Redraw
        } else {
            Action::Continue
        }
    }

    /// One poll of a key wait: with a newly pressed key in `keys`, the lowest
    /// such key goes to the waiting register and the instruction is over;
    /// with none, nothing changes. The snapshot stays the one taken when the
    /// wait began.
    pub open spec fn poll(self, keys: Seq<bool>) -> Machine {
        match first_new_key(self.keys, keys) {
            Some(key) => Machine { waiting: None, ..self }.set_v(self.waiting.unwrap(), key).next(),
            None => self,
        }
    }

    /// Whether the next cycle fetches an opcode that encodes no instruction.
    pub open spec fn rejects(self) -> bool {
        &&& self.waiting is None
        &&& self.opcode() matches Some(opcode)
        &&& decode(opcode) is None
    }

    /// Whether the next cycle executes a `Rand` instruction.
    pub open spec fn draws_random(self) -> bool {
        &&& self.waiting is None
        &&& self.opcode() matches Some(opcode)
        &&& decode(opcode) matches Some(Instruction::Rand(_, _))
    }

    /// The machine after one cycle that is handed the keypad snapshot `keys`,
    /// for a machine that does not reject its opcode.
    ///
    /// A waiting machine polls. Otherwise, with no opcode left, the program
    /// has ended; else the snapshot is taken and the instruction executed.
    /// A failing instruction leaves everything but the snapshot as it was.
    pub open spec fn cycle(self, keys: Seq<bool>, random: u8) -> Machine {
        if self.waiting is Some {
            self.poll(keys)
        } else if self.opcode() is None {
            Machine { program_ended: true, ..self }
        } else {
            let fetched = Machine { keys, ..self };
            match fetched.execute(decode(self.opcode().unwrap()).unwrap(), random) {
                Ok(machine) => machine,
                Err(_) => fetched,
            }
        }
    }

    /// What the cycle from this state returns, for a machine that does not
    /// reject its opcode.
    pub open spec fn cycle_result(self, keys: Seq<bool>, random: u8) -> Result<Action, Error> {
        if self.waiting is Some {
            Ok(self.poll(keys).action())
        } else if self.opcode() is None {
            Ok(Action::Halt)
        } else {
            let fetched = Machine { keys, ..self };
            match fetched.execute(decode(self.opcode().unwrap()).unwrap(), random) {
                Ok(machine) => Ok(machine.action()),
                Err(fault) => Err(fault),
            }
        }
    }

    /// The machine after one tick of the timers: each timer that is not yet
    /// zero is one less.
    pub open spec fn tick(self) -> Machine {
        Machine {
            delay_timer: if self.delay_timer > 0 {
                (self.delay_timer - 1) as u8
            } else {
                0
            },
            sound_timer: if self.sound_timer > 0 {
                (self.sound_timer - 1) as u8
            } else {
                0
            },
            ..self
        }
    }

    /// Whether a tick of the timers makes the sound timer reach zero.
    pub open spec fn tick_sounds(self) -> bool {
        self.sound_timer == 1
    }
}

/// Whether the pixel `p` has been reached by a drawing that has finished
/// `row` rows of a sprite at (`x`, `y`) and `bit` pixels of the row after them.
pub open spec fn sprite_reached(x: u8, y: u8, row: int, bit: int, p: int) -> bool {
    ||| (x <= p % (SCREEN_WIDTH as int) < x + 8 && y <= p / (SCREEN_WIDTH as int) < y + row)
    ||| (x <= p % (SCREEN_WIDTH as int) < x + bit && p / (SCREEN_WIDTH as int) == y + row)
}

impl Machine {
    /// Whether the part of a drawing that has reached `row` rows and `bit`
    /// pixels turns a lit pixel off.
    pub open spec fn collides_within(self, x: u8, y: u8, row: int, bit: int) -> bool {
        exists|p: int|
            0 <= p < PIXELS && sprite_reached(x, y, row, bit, p) && self.pixels[p]
                && #[trigger] self.sprite_pixel(x, y, p)
    }

    /// The display once a drawing has reached `row` rows and `bit` pixels.
    pub open spec fn drawn_within(self, x: u8, y: u8, row: int, bit: int) -> Seq<bool> {
        Seq::new(
            PIXELS as nat,
            |p: int|
                if sprite_reached(x, y, row, bit, p) {
                    self.pixels[p] != self.sprite_pixel(x, y, p)
                } else {
                    self.pixels[p]
                },
        )
    }

    /// The topmost faulty row decides the fault of the whole sprite.
    pub proof fn lemma_draw_fault_first(self, x: u8, y: u8, row: int, height: int)
        requires
            0 <= row < height,
            self.draw_fault(x, y, row) is None,
            self.draw_row_fault(x, y, row) is Some,
        ensures
            self.draw_fault(x, y, height) == self.draw_row_fault(x, y, row),
        decreases height,
    {
        if height - 1 > row {
            self.lemma_draw_fault_first(x, y, row, height - 1);
        }
    }

    /// A sprite without fault has no faulty row.
    pub proof fn lemma_draw_fault_none(self, x: u8, y: u8, row: int, height: int)
        requires
            0 <= row < height,
            self.draw_fault(x, y, height) is None,
        ensures
            self.draw_row_fault(x, y, row) is None,
        decreases height,
    {
        if height - 1 > row {
            self.lemma_draw_fault_none(x, y, row, height - 1);
        }
    }
}

} // verus!
