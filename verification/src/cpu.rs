//! The machine and its fetch-decode-execute cycle.

use vstd::prelude::*;
use crate::config::Log;
use crate::errors::Error;
use crate::fontset::{fontset, FONTSET_SIZE, FONTSET_START};
use crate::instruction::{valid_instruction, Instruction};
use crate::interpreter::{interpret_instruction, lemma_decode_valid, opcode_text};
use crate::io::{Io, Keys, PIXELS};
use crate::model::{initial_machine, sprite_covers, sprite_reached, Action, Machine};
use crate::random::random_byte;
use crate::register::Registers;
use crate::utils::bcd;
use crate::{Chip8IO, MEMORY, PROGRAM_START, SCREEN_HEIGHT, SCREEN_WIDTH};

verus! {

/// A CHIP-8 machine.
#[derive(Debug)]
pub struct Chip8 {
    /// RAM.
    memory: [u8; MEMORY],
    /// The stack: the addresses to return to from subroutines.
    stack: Vec<u16>,
    /// Register state.
    registers: Registers,
    /// Display and keypad state.
    io: Io,
    /// A general-purpose timer that counts down.
    delay_timer: u8,
    /// A timer that counts down; a sound is played when it reaches zero.
    sound_timer: u8,
    /// Whether the program has ended.
    program_ended: bool,
    /// The register that receives the key, while the machine waits for one.
    waiting: Option<u8>,
    /// Whether to log opcodes.
    log: Log,
}

impl View for Chip8 {
    type V = Machine;

    closed spec fn view(&self) -> Machine {
        Machine {
            memory: self.memory@,
            stack: self.stack@,
            v: self.registers.general@,
            index: self.registers.index,
            pc: self.registers.program_counter,
            pixels: self.io@.pixels,
            draw_flag: self.io@.draw_flag,
            keys: self.io@.keys,
            delay_timer: self.delay_timer,
            sound_timer: self.sound_timer,
            program_ended: self.program_ended,
            waiting: self.waiting,
            log: self.log,
        }
    }
}

/// Whether `after` and `result` are what executing the instruction on
/// `before` gives: the new state and the action, or the old state and the fault.
spec fn executed(
    before: Machine,
    instruction: Instruction,
    random: u8,
    after: Machine,
    result: Result<Action, Error>,
) -> bool {
    &&& after.wf()
    &&& match before.execute(instruction, random) {
        Ok(machine) => after == machine && result == Ok::<Action, Error>(machine.action()),
        Err(fault) => after == before && result == Err::<Action, Error>(fault),
    }
}

/// Whether the instruction belongs to those that `execute_flow` handles.
spec fn is_flow(instruction: Instruction) -> bool {
    match instruction {
        Instruction::Return
        | Instruction::Goto(_)
        | Instruction::Call(_)
        | Instruction::OffsetGoto(_)
        | Instruction::SkipEqConst(_, _)
        | Instruction::SkipNeqConst(_, _)
        | Instruction::SkipEq(_, _)
        | Instruction::SkipNeq(_, _) => true,
        _ => false,
    }
}

/// Whether the instruction belongs to those that `execute_arithmetic` handles.
spec fn is_arithmetic(instruction: Instruction) -> bool {
    match instruction {
        Instruction::SetConst(_, _)
        | Instruction::AddConst(_, _)
        | Instruction::Move(_, _)
        | Instruction::BitOr(_, _)
        | Instruction::BitAnd(_, _)
        | Instruction::BitXor(_, _)
        | Instruction::Shr(_)
        | Instruction::Shl(_)
        | Instruction::Add(_, _)
        | Instruction::Sub(_, _)
        | Instruction::InverseSub(_, _)
        | Instruction::Rand(_, _) => true,
        _ => false,
    }
}

/// Whether the instruction belongs to those that `execute_memory` handles.
spec fn is_memory(instruction: Instruction) -> bool {
    match instruction {
        Instruction::BCD(_)
        | Instruction::RegDump(_)
        | Instruction::RegLoad(_)
        | Instruction::SetIndex(_)
        | Instruction::AddIndex(_)
        | Instruction::SetIndexChar(_) => true,
        _ => false,
    }
}

/// Whether the instruction belongs to those that `execute_device` handles.
spec fn is_device(instruction: Instruction) -> bool {
    match instruction {
        Instruction::GetDelay(_)
        | Instruction::SetDelay(_)
        | Instruction::SetSound(_)
        | Instruction::WaitKey(_)
        | Instruction::SkipKey(_)
        | Instruction::SkipNotKey(_)
        | Instruction::Draw(_, _, _)
        | Instruction::ClearScreen => true,
        _ => false,
    }
}

/// Wrapping addition of a byte to a 16-bit number is addition modulo 65536.
proof fn lemma_wrapping_index(index: u16, value: u8)
    ensures
        vstd::wrapping::u16_specs::wrapping_add(index, value as u16) == ((index + value)
            % 0x10000) as u16,
{
}

/// Wrapping addition and subtraction of bytes are addition and subtraction
/// modulo 256.
proof fn lemma_wrapping(x: u8, y: u8)
    ensures
        vstd::wrapping::u8_specs::wrapping_add(x, y) == ((x + y) % 0x100) as u8,
        vstd::wrapping::u8_specs::wrapping_sub(x, y) == ((x - y) % 0x100) as u8,
{
}

impl Chip8 {
    /// The invariant of a machine: that of its state.
    pub open spec fn wf(&self) -> bool {
        self@.wf()
    }

    /// Builds a machine with the font and the program in memory. A program
    /// that does not leave at least one byte of program memory free is refused.
    pub fn new(program: &[u8], log: Log) -> (result: Result<Chip8, Error>)
        ensures
            program@.len() >= MEMORY - PROGRAM_START ==> result == Err::<Chip8, Error>(
                Error::ProgramTooLarge(program@.len() as usize, (MEMORY - PROGRAM_START) as usize),
            ),
            program@.len() < MEMORY - PROGRAM_START ==> (result matches Ok(chip8) && chip8.wf()
                && chip8@ == initial_machine(program@, log)),
    {
        let program_memory_size = MEMORY - PROGRAM_START;
        if program.len() >= program_memory_size {
            return Err(Error::ProgramTooLarge(program.len(), program_memory_size));
        }
        let mut memory = [0u8; MEMORY];
        let font = fontset();
        let mut i: usize = 0;
        while i < FONTSET_SIZE
            invariant
                i <= FONTSET_SIZE,
                font@ == crate::fontset::font_table(),
                forall|j: int| 0 <= j < MEMORY ==> memory@[j] == (if FONTSET_START <= j < FONTSET_START + i {
                    font@[j - FONTSET_START]
                } else {
                    0u8
                }),
            decreases FONTSET_SIZE - i,
        {
            memory[FONTSET_START + i] = font[i];
            i += 1;
        }
        let mut k: usize = 0;
        while k < program.len()
            invariant
                k <= program@.len() < MEMORY - PROGRAM_START,
                forall|j: int| 0 <= j < MEMORY ==> memory@[j] == (if FONTSET_START <= j < FONTSET_START + FONTSET_SIZE {
                    font@[j - FONTSET_START]
                } else if PROGRAM_START <= j < PROGRAM_START + k {
                    program@[j - PROGRAM_START]
                } else {
                    0u8
                }),
                font@ == crate::fontset::font_table(),
            decreases program@.len() - k,
        {
            memory[PROGRAM_START + k] = program[k];
            k += 1;
        }
        let chip8 = Chip8 {
            memory,
            stack: Vec::new(),
            registers: Registers::new(),
            io: Io::new(),
            delay_timer: 0,
            sound_timer: 0,
            program_ended: false,
            waiting: None,
            log,
        };
        proof {
            chip8.io.lemma_view_len();
            assert(chip8@.memory =~= initial_machine(program@, log).memory);
            assert(chip8@ =~= initial_machine(program@, log));
        }
        Ok(chip8)
    }

    /// Returns whether the machine keeps its invariant. A machine that `new`
    /// has built and that only the methods of this type have changed does.
    pub fn is_wf(&self) -> (wf: bool)
        ensures
            wf == self.wf(),
    {
        proof {
            self.io.lemma_view_len();
        }
        if let Some(x) = self.waiting {
            if x >= 16 || self.registers.program_counter as usize + 1 >= MEMORY {
                return false;
            }
        }
        let mut i: usize = 0;
        while i < self.stack.len()
            invariant
                i <= self.stack@.len(),
                forall|j: int| 0 <= j < i ==> #[trigger] self.stack@[j] + 1 < MEMORY,
            decreases self.stack@.len() - i,
        {
            if self.stack[i] as usize + 1 >= MEMORY {
                assert(!(self@.stack[i as int] + 1 < MEMORY));
                return false;
            }
            i += 1;
        }
        true
    }

    /// Returns whether the program has ended.
    pub fn program_ended(&self) -> (ended: bool)
        ensures
            ended == self@.program_ended,
    {
        self.program_ended
    }

    /// Returns the registers.
    pub fn registers(&self) -> (registers: &Registers)
        ensures
            registers.general@ == self@.v,
            registers.index == self@.index,
            registers.program_counter == self@.pc,
    {
        &self.registers
    }

    /// Returns memory.
    pub fn memory(&self) -> (memory: &[u8])
        ensures
            memory@ == self@.memory,
    {
        &self.memory
    }

    /// Returns the display and keypad state.
    pub fn io(&self) -> (io: &Io)
        ensures
            io@.pixels == self@.pixels,
            io@.draw_flag == self@.draw_flag,
            io@.keys == self@.keys,
    {
        &self.io
    }

    /// Returns the return addresses, the innermost call last.
    pub fn stack(&self) -> (stack: &[u16])
        ensures
            stack@ == self@.stack,
    {
        self.stack.as_slice()
    }

    /// Returns the delay timer.
    pub fn delay_timer(&self) -> (timer: u8)
        ensures
            timer == self@.delay_timer,
    {
        self.delay_timer
    }

    /// Returns the sound timer.
    pub fn sound_timer(&self) -> (timer: u8)
        ensures
            timer == self@.sound_timer,
    {
        self.sound_timer
    }

    /// Returns whether opcodes should be logged.
    pub fn log(&self) -> (log: Log)
        ensures
            log == self@.log,
    {
        self.log
    }

    /// Returns the register that waits for a key, if the machine waits for one.
    pub fn waiting(&self) -> (register: Option<u8>)
        ensures
            register == self@.waiting,
    {
        self.waiting
    }

    /// Counts the timers down by one tick, and returns whether a sound is to
    /// be played: whether the sound timer has just reached zero.
    pub fn tick(&mut self) -> (play_sound: bool)
        ensures
            final(self)@ == old(self)@.tick(),
            play_sound == old(self)@.tick_sounds(),
            old(self).wf() ==> final(self).wf(),
    {
        if self.delay_timer > 0 {
            self.delay_timer -= 1;
        }
        let mut play_sound = false;
        if self.sound_timer > 0 {
            self.sound_timer -= 1;
            if self.sound_timer == 0 {
                play_sound = true;
            }
        }
        assert(self@ =~= old(self)@.tick());
        play_sound
    }

    /// Returns the opcode at the program counter, high byte first, or `None`
    /// if the program counter has no two bytes of memory left.
    pub fn fetch(&self) -> (opcode: Option<u16>)
        ensures
            opcode == self@.opcode(),
    {
        let pc = self.registers.program_counter as usize;
        if pc + 1 >= MEMORY {
            return None;
        }
        let high = self.memory[pc] as u16;
        let low = self.memory[pc + 1] as u16;
        assert((high << 8) | low == high * 0x100 + low) by (bit_vector)
            requires
                high < 0x100,
                low < 0x100,
        ;
        Some((high << 8) | low)
    }

    /// What the driver has to do now that an instruction was executed.
    fn action(&self) -> (action: Action)
        ensures
            action == self@.action(),
    {
        if self.waiting.is_some() {
            Action::AwaitKey
        } else if self.io.draw_flag() {
            Action::Redraw
        } else {
            Action::Continue
        }
    }

    /// Sets the program counter.
    fn jump(&mut self, pc: u16)
        ensures
            final(self)@ == old(self)@.jump(pc as int),
    {
        self.registers.program_counter = pc;
        assert(self@ =~= old(self)@.jump(pc as int));
    }

    /// Moves the program counter to the next instruction, or past it.
    fn skip_if(&mut self, skip: bool)
        requires
            old(self)@.pc + 1 < MEMORY,
        ensures
            final(self)@ == old(self)@.skip_if(skip),
    {
        let pc = self.registers.program_counter;
        if skip {
            self.jump(pc + 4);
        } else {
            self.jump(pc + 2);
        }
    }

    /// Sets a register and moves on to the next instruction.
    fn set_register(&mut self, x: u8, value: u8)
        requires
            x < 16,
            old(self)@.pc + 1 < MEMORY,
        ensures
            final(self)@ == old(self)@.set_v(x, value).next(),
    {
        self.registers.set(x, value);
        self.registers.program_counter += 2;
        assert(self@ =~= old(self)@.set_v(x, value).next());
    }

    /// Sets a register, then the flag register, and moves on to the next
    /// instruction.
    fn set_register_and_flag(&mut self, x: u8, value: u8, flag: u8)
        requires
            x < 16,
            old(self)@.pc + 1 < MEMORY,
        ensures
            final(self)@ == old(self)@.set_v(x, value).set_flag(flag).next(),
    {
        self.registers.set(x, value);
        self.registers.set(0xF, flag);
        self.registers.program_counter += 2;
        assert(self@ =~= old(self)@.set_v(x, value).set_flag(flag).next());
    }

    /// Sets the index register and moves on to the next instruction.
    fn set_index(&mut self, index: u16)
        requires
            old(self)@.pc + 1 < MEMORY,
        ensures
            final(self)@ == (Machine { index, ..old(self)@ }).next(),
    {
        self.registers.index = index;
        self.registers.program_counter += 2;
        assert(self@ =~= (Machine { index, ..old(self)@ }).next());
    }

    /// Sets the delay timer and moves on to the next instruction.
    fn set_delay(&mut self, value: u8)
        requires
            old(self)@.pc + 1 < MEMORY,
        ensures
            final(self)@ == (Machine { delay_timer: value, ..old(self)@ }).next(),
    {
        self.delay_timer = value;
        self.registers.program_counter += 2;
        assert(self@ =~= (Machine { delay_timer: value, ..old(self)@ }).next());
    }

    /// Sets the sound timer and moves on to the next instruction.
    fn set_sound(&mut self, value: u8)
        requires
            old(self)@.pc + 1 < MEMORY,
        ensures
            final(self)@ == (Machine { sound_timer: value, ..old(self)@ }).next(),
    {
        self.sound_timer = value;
        self.registers.program_counter += 2;
        assert(self@ =~= (Machine { sound_timer: value, ..old(self)@ }).next());
    }

    /// `ClearScreen`.
    fn op_clear_screen(&mut self)
        requires
            old(self)@.pc + 1 < MEMORY,
        ensures
            final(self)@ == old(self)@.op_clear_screen(),
    {
        self.io.clear_screen();
        self.registers.program_counter += 2;
        assert(self@ =~= old(self)@.op_clear_screen());
    }

    /// `WaitKey`: the machine begins to wait for a key.
    fn op_wait_key(&mut self, x: u8)
        ensures
            final(self)@ == (Machine { waiting: Some(x), ..old(self)@ }),
    {
        self.waiting = Some(x);
        assert(self@ =~= (Machine { waiting: Some(x), ..old(self)@ }));
    }

    /// `Return`.
    fn op_return(&mut self)
        requires
            old(self).wf(),
            old(self)@.pc + 1 < MEMORY,
        ensures
            final(self)@ == old(self)@.op_return(),
    {
        let pc = self.registers.program_counter;
        match self.stack.pop() {
            Some(addr) => {
                assert(addr == old(self)@.stack[old(self)@.stack.len() - 1]);
                self.registers.program_counter = addr + 2;
            },
            None => {
                self.registers.program_counter = pc + 2;
            },
        }
        assert(self@ =~= old(self)@.op_return());
    }

    /// `Call`, for an address inside memory.
    fn op_call(&mut self, addr: u16)
        ensures
            final(self)@ == old(self)@.op_call(addr),
    {
        let pc = self.registers.program_counter;
        self.registers.program_counter = addr;
        self.stack.push(pc);
        assert(self@ =~= old(self)@.op_call(addr));
    }

    /// `BCD`, for an index register that leaves room for three digits.
    fn op_bcd(&mut self, x: u8)
        requires
            x < 16,
            old(self)@.index + 2 < MEMORY,
            old(self)@.pc + 1 < MEMORY,
        ensures
            final(self)@ == old(self)@.op_bcd(x),
    {
        let digits = bcd(self.registers.get(x));
        let i = self.registers.index as usize;
        self.memory[i] = digits[0];
        self.memory[i + 1] = digits[1];
        self.memory[i + 2] = digits[2];
        self.registers.program_counter += 2;
        assert(self@.memory =~= old(self)@.op_bcd(x).memory);
        assert(self@ =~= old(self)@.op_bcd(x));
    }

    /// `RegDump`, for an index register that leaves room for the registers.
    fn op_reg_dump(&mut self, x: u8)
        requires
            x < 16,
            old(self)@.index + x < MEMORY,
            old(self)@.pc + 1 < MEMORY,
        ensures
            final(self)@ == old(self)@.op_reg_dump(x),
    {
        let i = self.registers.index as usize;
        let mut k: usize = 0;
        while k <= x as usize
            invariant
                x < 16,
                i == old(self)@.index,
                i + x < MEMORY,
                k <= x + 1,
                self.registers == old(self).registers,
                self.stack == old(self).stack,
                self.io == old(self).io,
                self.delay_timer == old(self).delay_timer,
                self.sound_timer == old(self).sound_timer,
                self.program_ended == old(self).program_ended,
                self.waiting == old(self).waiting,
                self.log == old(self).log,
                forall|j: int|
                    0 <= j < MEMORY ==> self.memory@[j] == (if i <= j < i + k {
                        old(self).registers.general@[j - i]
                    } else {
                        old(self).memory@[j]
                    }),
            decreases x + 1 - k,
        {
            self.memory[i + k] = self.registers.general[k];
            k += 1;
        }
        self.registers.program_counter += 2;
        assert(self@.memory =~= old(self)@.op_reg_dump(x).memory);
        assert(self@ =~= old(self)@.op_reg_dump(x));
    }

    /// `RegLoad`, for an index register that leaves room for the registers.
    fn op_reg_load(&mut self, x: u8)
        requires
            x < 16,
            old(self)@.index + x < MEMORY,
            old(self)@.pc + 1 < MEMORY,
        ensures
            final(self)@ == old(self)@.op_reg_load(x),
    {
        let i = self.registers.index as usize;
        let mut k: usize = 0;
        while k <= x as usize
            invariant
                x < 16,
                i == old(self)@.index,
                i + x < MEMORY,
                k <= x + 1,
                self.registers.index == old(self).registers.index,
                self.registers.program_counter == old(self).registers.program_counter,
                self.memory == old(self).memory,
                self.stack == old(self).stack,
                self.io == old(self).io,
                self.delay_timer == old(self).delay_timer,
                self.sound_timer == old(self).sound_timer,
                self.program_ended == old(self).program_ended,
                self.waiting == old(self).waiting,
                self.log == old(self).log,
                forall|j: int|
                    0 <= j < 16 ==> self.registers.general@[j] == (if j < k {
                        old(self).memory@[i + j]
                    } else {
                        old(self).registers.general@[j]
                    }),
            decreases x + 1 - k,
        {
            self.registers.general[k] = self.memory[i + k];
            k += 1;
        }
        self.registers.program_counter += 2;
        assert(self@.v =~= old(self)@.op_reg_load(x).v);
        assert(self@ =~= old(self)@.op_reg_load(x));
    }

    /// Why a sprite of `height` rows at I cannot be drawn at (`x`, `y`), if
    /// it cannot.
    fn check_sprite(&self, x: u8, y: u8, height: u8) -> (fault: Option<Error>)
        ensures
            fault == self@.draw_fault(x, y, height as int),
    {
        let index = self.registers.index as usize;
        let mut row: u8 = 0;
        while row < height
            invariant
                row <= height,
                index == self@.index,
                self@.draw_fault(x, y, row as int) is None,
            decreases height - row,
        {
            let address = index + row as usize;
            let pixel_y = y as usize + row as usize;
            if address >= MEMORY {
                proof {
                    self@.lemma_draw_fault_first(x, y, row as int, height as int);
                }
                return Some(Error::InvalidAddress(address, "Draw"));
            }
            if pixel_y >= SCREEN_HEIGHT || x as usize >= SCREEN_WIDTH {
                proof {
                    self@.lemma_draw_fault_first(x, y, row as int, height as int);
                }
                return Some(Error::PixelOutOfBounds(x as usize, pixel_y));
            }
            if x as usize + 7 >= SCREEN_WIDTH {
                proof {
                    self@.lemma_draw_fault_first(x, y, row as int, height as int);
                }
                return Some(Error::PixelOutOfBounds(SCREEN_WIDTH, pixel_y));
            }
            row += 1;
        }
        None
    }

    /// `Draw`, for a sprite that lies in memory and on the display.
    fn op_draw(&mut self, x_id: u8, y_id: u8, height: u8)
        requires
            x_id < 16,
            y_id < 16,
            old(self)@.pc + 1 < MEMORY,
            old(self)@.draw_fault(old(self)@.vx(x_id), old(self)@.vx(y_id), height as int) is None,
        ensures
            final(self)@ == old(self)@.op_draw(x_id, y_id, height),
    {
        let x = self.registers.get(x_id);
        let y = self.registers.get(y_id);
        let index = self.registers.index as usize;
        let ghost before = self@;
        let mut collision = false;
        let mut row: u8 = 0;
        proof {
            self.io.lemma_view_len();
            assert(self@.pixels =~= before.drawn_within(x, y, 0, 0));
        }
        while row < height
            invariant
                row <= height,
                before == old(self)@,
                x == before.vx(x_id),
                y == before.vx(y_id),
                index == before.index,
                before.pixels.len() == PIXELS,
                before.draw_fault(x, y, height as int) is None,
                self@ == (Machine { pixels: self@.pixels, ..before }),
                self@.pixels.len() == PIXELS,
                self@.pixels == before.drawn_within(x, y, row as int, 0),
                collision == before.collides_within(x, y, row as int, 0),
            decreases height - row,
        {
            proof {
                before.lemma_draw_fault_none(x, y, row as int, height as int);
            }
            let byte = self.memory[index + row as usize];
            let mut bit: u8 = 0;
            while bit < 8
                invariant
                    bit <= 8,
                    row < height,
                    before == old(self)@,
                    before.pixels.len() == PIXELS,
                    before.draw_row_fault(x, y, row as int) is None,
                    index == before.index,
                    byte == before.memory[index + row],
                    self@ == (Machine { pixels: self@.pixels, ..before }),
                    self@.pixels.len() == PIXELS,
                    self@.pixels == before.drawn_within(x, y, row as int, bit as int),
                    collision == before.collides_within(x, y, row as int, bit as int),
                decreases 8 - bit,
            {
                let lit = byte & (0x80u8 >> bit) != 0;
                let pixel_x = x as usize + bit as usize;
                let pixel_y = y as usize + row as usize;
                let pixel_index = pixel_x + pixel_y * SCREEN_WIDTH;
                assert(pixel_index % SCREEN_WIDTH == pixel_x && pixel_index / SCREEN_WIDTH == pixel_y);
                assert(lit == before.sprite_pixel(x, y, pixel_index as int));
                assert(!sprite_reached(x, y, row as int, bit as int, pixel_index as int));
                let pixel = self.io.get_mut_pixel(pixel_index);
                if *pixel && lit {
                    collision = true;
                }
                *pixel = *pixel != lit;
                bit += 1;
                proof {
                    self.io.lemma_view_len();
                    assert(self@ =~= (Machine { pixels: self@.pixels, ..before }));
                    assert forall|p: int| 0 <= p < PIXELS implies (sprite_reached(
                        x,
                        y,
                        row as int,
                        bit as int,
                        p,
                    ) <==> (p == pixel_index || sprite_reached(x, y, row as int, bit - 1, p))) by {
                        if p % (SCREEN_WIDTH as int) == pixel_x && p / (SCREEN_WIDTH as int)
                            == pixel_y {
                            assert(p == pixel_index);
                        }
                    }
                    assert(self@.pixels =~= before.drawn_within(x, y, row as int, bit as int));
                    if before.collides_within(x, y, row as int, bit - 1) {
                        let w = choose|p: int|
                            0 <= p < PIXELS && sprite_reached(x, y, row as int, bit - 1, p)
                                && before.pixels[p] && #[trigger] before.sprite_pixel(x, y, p);
                        assert(sprite_reached(x, y, row as int, bit as int, w));
                    }
                    if before.pixels[pixel_index as int] && lit {
                        assert(sprite_reached(x, y, row as int, bit as int, pixel_index as int));
                    }
                }
            }
            row += 1;
            proof {
                assert forall|p: int| 0 <= p < PIXELS implies (sprite_reached(x, y, row as int, 0, p)
                    <==> sprite_reached(x, y, row - 1, 8, p)) by {}
                assert(self@.pixels =~= before.drawn_within(x, y, row as int, 0));
                if before.collides_within(x, y, row - 1, 8) {
                    let w = choose|p: int|
                        0 <= p < PIXELS && sprite_reached(x, y, row - 1, 8, p) && before.pixels[p]
                            && #[trigger] before.sprite_pixel(x, y, p);
                    assert(sprite_reached(x, y, row as int, 0, w));
                }
                if before.collides_within(x, y, row as int, 0) {
                    let w = choose|p: int|
                        0 <= p < PIXELS && sprite_reached(x, y, row as int, 0, p) && before.pixels[p]
                            && #[trigger] before.sprite_pixel(x, y, p);
                    assert(sprite_reached(x, y, row - 1, 8, w));
                }
            }
        }
        self.registers.set(0xF, if collision { 1 } else { 0 });
        self.io.set_draw_flag();
        self.registers.program_counter += 2;
        proof {
            assert forall|p: int| 0 <= p < PIXELS implies (sprite_reached(x, y, height as int, 0, p)
                <==> sprite_covers(x, y, height, p)) by {}
            if before.collides_within(x, y, height as int, 0) {
                let w = choose|p: int|
                    0 <= p < PIXELS && sprite_reached(x, y, height as int, 0, p) && before.pixels[p]
                        && #[trigger] before.sprite_pixel(x, y, p);
                assert(sprite_covers(x, y, height, w));
            }
            if before.draw_collides(x, y, height) {
                let w = choose|p: int|
                    0 <= p < PIXELS && sprite_covers(x, y, height, p) && before.pixels[p]
                        && #[trigger] before.sprite_pixel(x, y, p);
                assert(sprite_reached(x, y, height as int, 0, w));
            }
            assert(self@.pixels =~= before.drawn_pixels(x, y, height));
            assert(self@ =~= before.op_draw(x_id, y_id, height));
        }
    }

    /// Executes an instruction that only moves the program counter.
    fn execute_flow(&mut self, instruction: Instruction) -> (result: Result<Action, Error>)
        requires
            old(self).wf(),
            old(self)@.waiting is None,
            old(self)@.pc + 1 < MEMORY,
            valid_instruction(instruction),
            is_flow(instruction),
        ensures
            executed(old(self)@, instruction, 0, final(self)@, result),
    {
        proof {
            self.io.lemma_view_len();
        }
        match instruction {
            Instruction::Return => {
                self.op_return();
            },
            Instruction::Goto(addr) => {
                if addr as usize >= MEMORY {
                    return Err(Error::InvalidAddress(addr as usize, "Goto"));
                }
                self.jump(addr);
            },
            Instruction::Call(addr) => {
                if addr as usize >= MEMORY {
                    return Err(Error::InvalidAddress(addr as usize, "Call"));
                }
                self.op_call(addr);
            },
            Instruction::OffsetGoto(addr) => {
                let v0 = self.registers.get_u16(0);
                if v0 as usize + addr as usize >= MEMORY {
                    return Err(Error::InvalidAddress(addr as usize, "OffsetGoto"));
                }
                self.jump(addr + v0);
            },
            Instruction::SkipEqConst(x, n) => {
                let skip = self.registers.get(x) == n;
                self.skip_if(skip);
            },
            Instruction::SkipNeqConst(x, n) => {
                let skip = self.registers.get(x) != n;
                self.skip_if(skip);
            },
            Instruction::SkipEq(x, y) => {
                let skip = self.registers.get(x) == self.registers.get(y);
                self.skip_if(skip);
            },
            Instruction::SkipNeq(x, y) => {
                let skip = self.registers.get(x) != self.registers.get(y);
                self.skip_if(skip);
            },
            _ => {},
        }
        proof {
            self.io.lemma_view_len();
        }
        Ok(self.action())
    }

    /// Executes an instruction that computes a register from registers.
    fn execute_arithmetic(&mut self, instruction: Instruction, random: u8) -> (result: Result<Action, Error>)
        requires
            old(self).wf(),
            old(self)@.waiting is None,
            old(self)@.pc + 1 < MEMORY,
            valid_instruction(instruction),
            is_arithmetic(instruction),
        ensures
            executed(old(self)@, instruction, random, final(self)@, result),
    {
        proof {
            self.io.lemma_view_len();
        }
        match instruction {
            Instruction::SetConst(x, n) => {
                self.set_register(x, n);
            },
            Instruction::AddConst(x, n) => {
                let value = self.registers.get(x).wrapping_add(n);
                proof {
                    lemma_wrapping(self.registers.general@[x as int], n);
                }
                self.set_register(x, value);
            },
            Instruction::Move(x, y) => {
                let value = self.registers.get(y);
                self.set_register(x, value);
            },
            Instruction::BitOr(x, y) => {
                let value = self.registers.get(x) | self.registers.get(y);
                self.set_register(x, value);
            },
            Instruction::BitAnd(x, y) => {
                let value = self.registers.get(x) & self.registers.get(y);
                self.set_register(x, value);
            },
            Instruction::BitXor(x, y) => {
                let value = self.registers.get(x) ^ self.registers.get(y);
                self.set_register(x, value);
            },
            Instruction::Shr(x_id) => {
                let x = self.registers.get(x_id);
                assert(x >> 1 == x / 2 && x & 1 == x % 2) by (bit_vector);
                self.set_register_and_flag(x_id, x >> 1, x & 1);
            },
            Instruction::Shl(x_id) => {
                let x = self.registers.get(x_id);
                assert(x << 1 == (x * 2) % 0x100 && (x & 0x80) >> 7 == x / 0x80) by (bit_vector);
                self.set_register_and_flag(x_id, x << 1, (x & 0x80) >> 7);
            },
            Instruction::Add(x_id, y_id) => {
                let x = self.registers.get(x_id);
                let y = self.registers.get(y_id);
                proof {
                    lemma_wrapping(x, y);
                    lemma_wrapping(y, x);
                }
                let carry: u8 = if x.checked_add(y).is_none() {
                    1
                } else {
                    0
                };
                self.set_register_and_flag(x_id, x.wrapping_add(y), carry);
            },
            Instruction::Sub(x_id, y_id) => {
                let x = self.registers.get(x_id);
                let y = self.registers.get(y_id);
                proof {
                    lemma_wrapping(x, y);
                    lemma_wrapping(y, x);
                }
                let borrow: u8 = if x.checked_sub(y).is_none() {
                    1
                } else {
                    0
                };
                self.set_register_and_flag(x_id, x.wrapping_sub(y), borrow);
            },
            Instruction::InverseSub(x_id, y_id) => {
                let x = self.registers.get(x_id);
                let y = self.registers.get(y_id);
                proof {
                    lemma_wrapping(x, y);
                    lemma_wrapping(y, x);
                }
                let borrow: u8 = if y.checked_sub(x).is_none() {
                    1
                } else {
                    0
                };
                self.set_register_and_flag(x_id, y.wrapping_sub(x), borrow);
            },
            Instruction::Rand(x, n) => {
                self.set_register(x, random & n);
            },
            _ => {},
        }
        proof {
            self.io.lemma_view_len();
        }
        Ok(self.action())
    }

    /// Executes an instruction that reads or writes memory or the index register.
    fn execute_memory(&mut self, instruction: Instruction) -> (result: Result<Action, Error>)
        requires
            old(self).wf(),
            old(self)@.waiting is None,
            old(self)@.pc + 1 < MEMORY,
            valid_instruction(instruction),
            is_memory(instruction),
        ensures
            executed(old(self)@, instruction, 0, final(self)@, result),
    {
        proof {
            self.io.lemma_view_len();
        }
        match instruction {
            Instruction::BCD(x) => {
                let i = self.registers.index as usize;
                if i + 2 >= MEMORY {
                    return Err(Error::InvalidAddress(i, "BCD"));
                }
                self.op_bcd(x);
            },
            Instruction::RegDump(x) => {
                let i = self.registers.index as usize;
                if i + x as usize >= MEMORY {
                    return Err(Error::InvalidAddress(i, "RegDump"));
                }
                self.op_reg_dump(x);
            },
            Instruction::RegLoad(x) => {
                let i = self.registers.index as usize;
                if i + x as usize >= MEMORY {
                    return Err(Error::InvalidAddress(i, "RegLoad"));
                }
                self.op_reg_load(x);
            },
            Instruction::SetIndex(addr) => {
                self.set_index(addr);
            },
            Instruction::AddIndex(x) => {
                let index = self.registers.index.wrapping_add(self.registers.get_u16(x));
                proof {
                    lemma_wrapping_index(self.registers.index, self.registers.general@[x as int]);
                }
                self.set_index(index);
            },
            Instruction::SetIndexChar(x) => {
                let character = self.registers.get_u16(x);
                if character > 15 {
                    return Err(Error::UnknownCharacter(self.registers.get(x)));
                }
                self.set_index(FONTSET_START as u16 + 5 * character);
            },
            _ => {},
        }
        proof {
            self.io.lemma_view_len();
        }
        Ok(self.action())
    }

    /// Executes an instruction that deals with the timers, the keypad or the display.
    fn execute_device(&mut self, instruction: Instruction) -> (result: Result<Action, Error>)
        requires
            old(self).wf(),
            old(self)@.waiting is None,
            old(self)@.pc + 1 < MEMORY,
            valid_instruction(instruction),
            is_device(instruction),
        ensures
            executed(old(self)@, instruction, 0, final(self)@, result),
    {
        proof {
            self.io.lemma_view_len();
        }
        match instruction {
            Instruction::GetDelay(x) => {
                let value = self.delay_timer;
                self.set_register(x, value);
            },
            Instruction::SetDelay(x) => {
                let value = self.registers.get(x);
                self.set_delay(value);
            },
            Instruction::SetSound(x) => {
                let value = self.registers.get(x);
                self.set_sound(value);
            },
            Instruction::WaitKey(x) => {
                self.op_wait_key(x);
            },
            Instruction::SkipKey(x) => {
                let key = self.registers.get(x);
                if key > 15 {
                    return Err(Error::UnknownKey(key, "SkipKey"));
                }
                let skip = self.io.is_key_pressed(key);
                self.skip_if(skip);
            },
            Instruction::SkipNotKey(x) => {
                let key = self.registers.get(x);
                if key > 15 {
                    return Err(Error::UnknownKey(key, "SkipNotKey"));
                }
                let skip = !self.io.is_key_pressed(key);
                self.skip_if(skip);
            },
            Instruction::Draw(x, y, height) => {
                let fault = self.check_sprite(self.registers.get(x), self.registers.get(y), height);
                if let Some(fault) = fault {
                    return Err(fault);
                }
                self.op_draw(x, y, height);
            },
            Instruction::ClearScreen => {
                self.op_clear_screen();
            },
            _ => {},
        }
        proof {
            self.io.lemma_view_len();
        }
        Ok(self.action())
    }

    /// Executes one instruction. `random` is the byte that a `Rand`
    /// instruction takes; no other instruction looks at it. An instruction
    /// that fails leaves the machine as it was.
    pub fn execute(&mut self, instruction: Instruction, random: u8) -> (result: Result<
        Action,
        Error,
    >)
        requires
            old(self).wf(),
            old(self)@.waiting is None,
            old(self)@.pc + 1 < MEMORY,
            valid_instruction(instruction),
        ensures
            final(self).wf(),
            match old(self)@.execute(instruction, random) {
                Ok(machine) => final(self)@ == machine && result == Ok::<Action, Error>(
                    machine.action(),
                ),
                Err(fault) => final(self)@ == old(self)@ && result == Err::<Action, Error>(fault),
            },
    {
        match instruction {
            Instruction::Return
            | Instruction::Goto(_)
            | Instruction::Call(_)
            | Instruction::OffsetGoto(_)
            | Instruction::SkipEqConst(_, _)
            | Instruction::SkipNeqConst(_, _)
            | Instruction::SkipEq(_, _)
            | Instruction::SkipNeq(_, _) => self.execute_flow(instruction),
            Instruction::BCD(_)
            | Instruction::RegDump(_)
            | Instruction::RegLoad(_)
            | Instruction::SetIndex(_)
            | Instruction::AddIndex(_)
            | Instruction::SetIndexChar(_) => self.execute_memory(instruction),
            Instruction::GetDelay(_)
            | Instruction::SetDelay(_)
            | Instruction::SetSound(_)
            | Instruction::WaitKey(_)
            | Instruction::SkipKey(_)
            | Instruction::SkipNotKey(_)
            | Instruction::Draw(_, _, _)
            | Instruction::ClearScreen => self.execute_device(instruction),
            _ => self.execute_arithmetic(instruction, random),
        }
    }

    /// One poll of a key wait with the keypad snapshot `keys`.
    fn poll(&mut self, keys: &Keys)
        requires
            old(self).wf(),
            old(self)@.waiting is Some,
        ensures
            final(self).wf(),
            final(self)@ == old(self)@.poll(keys@),
    {
        proof {
            self.io.lemma_view_len();
        }
        if let Some(x) = self.waiting {
            if let Some(key) = self.io.new_key(keys) {
                self.waiting = None;
                self.registers.set(x, key);
                self.registers.program_counter += 2;
                assert(self@ =~= old(self)@.poll(keys@));
            }
        }
    }

    /// Runs one cycle with the keypad snapshot `keys`, handing `random` to a
    /// `Rand` instruction.
    ///
    /// A machine that waits for a key polls `keys` for a new press. Any other
    /// machine fetches the opcode at the program counter, or ends the program
    /// if there is none; decodes it; takes `keys` as its snapshot; and
    /// executes the instruction.
    pub fn step_with(&mut self, keys: Keys, random: u8) -> (result: Result<Action, Error>)
        requires
            old(self).wf(),
        ensures
            final(self).wf(),
            old(self)@.rejects() ==> final(self)@ == old(self)@ && (result matches Err(
                Error::InvalidOpcode(text),
            ) && text@ == opcode_text(old(self)@.opcode().unwrap())),
            !old(self)@.rejects() ==> final(self)@ == old(self)@.cycle(keys@, random) && result
                == old(self)@.cycle_result(keys@, random),
    {
        proof {
            self.io.lemma_view_len();
        }
        if self.waiting.is_some() {
            self.poll(&keys);
            return Ok(self.action());
        }
        let opcode = match self.fetch() {
            Some(opcode) => opcode,
            None => {
                self.program_ended = true;
                assert(self@ =~= (Machine { program_ended: true, ..old(self)@ }));
                return Ok(Action::Halt);
            },
        };
        let instruction = match interpret_instruction(opcode) {
            Ok(instruction) => instruction,
            Err(fault) => {
                return Err(fault);
            },
        };
        proof {
            lemma_decode_valid(opcode);
        }
        self.io.set_keys(keys);
        assert(self@ =~= (Machine { keys: keys@, ..old(self)@ }));
        self.execute(instruction, random)
    }

    /// Whether the next cycle looks at the keypad: whether the machine waits
    /// for a key or is about to execute an instruction.
    fn takes_snapshot(&self) -> (takes: bool)
        ensures
            takes == (self@.waiting is Some || (self@.opcode() is Some && !self@.rejects())),
    {
        if self.waiting.is_some() {
            return true;
        }
        match self.fetch() {
            Some(opcode) => interpret_instruction(opcode).is_ok(),
            None => false,
        }
    }

    /// Whether the next cycle executes a `Rand` instruction.
    fn draws_random(&self) -> (draws: bool)
        ensures
            draws == self@.draws_random(),
    {
        if self.waiting.is_some() {
            return false;
        }
        match self.fetch() {
            Some(opcode) => match interpret_instruction(opcode) {
                Ok(Instruction::Rand(_, _)) => true,
                _ => false,
            },
            None => false,
        }
    }

    /// Runs one cycle with the keypad snapshot `keys`. A `Rand` instruction
    /// draws its byte from the random number generator; every other cycle is
    /// the one that `step_with` runs, whatever byte it is given.
    pub fn step(&mut self, keys: Keys) -> (result: Result<Action, Error>)
        requires
            old(self).wf(),
        ensures
            final(self).wf(),
            old(self)@.rejects() ==> final(self)@ == old(self)@ && (result matches Err(
                Error::InvalidOpcode(text),
            ) && text@ == opcode_text(old(self)@.opcode().unwrap())),
            !old(self)@.rejects() ==> exists|random: u8|
                final(self)@ == #[trigger] old(self)@.cycle(keys@, random) && result == old(
                    self,
                )@.cycle_result(keys@, random),
            !old(self)@.rejects() && !old(self)@.draws_random() ==> final(self)@ == old(
                self,
            )@.cycle(keys@, 0) && result == old(self)@.cycle_result(keys@, 0),
    {
        let random = if self.draws_random() {
            random_byte()
        } else {
            0
        };
        self.step_with(keys, random)
    }

    /// Runs one cycle on the front end `io`: takes the keypad snapshot from
    /// it, runs the cycle that `step` runs with that snapshot, and draws the
    /// display once if the cycle asks for it. The front end is not asked for
    /// the keypad where the cycle does not look at it: where the program ends
    /// or the opcode encodes no instruction.
    ///
    /// A `WaitKey` instruction takes one cycle for each poll of the keypad:
    /// while the result is `Action::AwaitKey`, the instruction is not over,
    /// and the caller runs the next cycle at once.
    pub fn cycle<T: Chip8IO>(&mut self, io: &mut T) -> (result: Result<Action, Error>)
        requires
            old(self).wf(),
        ensures
            final(self).wf(),
            old(self)@.rejects() ==> final(self)@ == old(self)@ && (result matches Err(
                Error::InvalidOpcode(text),
            ) && text@ == opcode_text(old(self)@.opcode().unwrap())),
            !old(self)@.rejects() ==> exists|keys: Keys, random: u8|
                final(self)@ == #[trigger] old(self)@.cycle(keys@, random) && result == old(
                    self,
                )@.cycle_result(keys@, random),
    {
        let keys = if self.takes_snapshot() {
            io.get_keys()
        } else {
            [false; 16]
        };
        let result = self.step(keys);
        if let Ok(Action::Redraw) = result {
            proof {
                self.io.lemma_view_len();
            }
            io.draw(self.io.pixels());
        }
        result
    }

    /// Counts the timers down by one tick, and plays the sound on the front
    /// end `io` if the sound timer has just reached zero.
    pub fn update_timers<T: Chip8IO>(&mut self, io: &mut T)
        ensures
            final(self)@ == old(self)@.tick(),
            old(self).wf() ==> final(self).wf(),
    {
        if self.tick() {
            io.play_sound();
        }
    }
}

} // verus!
