//! The decoder, the construction of a machine, and single instructions
//! executed on given states.

use chip8::config::Log;
use chip8::fontset::{fontset, FONTSET_START};
use chip8::instruction::Instruction;
use chip8::interpreter::{format_opcode, interpret_instruction};
use chip8::io::Io;
use chip8::keyboard::{binding, Binding, Keyboard};
use chip8::register::Registers;
use chip8::{Action, Chip8, Chip8IO, Error, Keys, MEMORY, PROGRAM_START, SCREEN_HEIGHT, SCREEN_WIDTH};

const NO_KEYS: [bool; 16] = [false; 16];

/// A machine that holds the program given as opcodes.
fn machine(opcodes: &[u16]) -> Chip8 {
    let mut bytes = Vec::new();
    for &opcode in opcodes {
        bytes.push((opcode >> 8) as u8);
        bytes.push((opcode & 0xFF) as u8);
    }
    Chip8::new(&bytes, Log::Disabled).unwrap()
}

/// Executes the instructions one after the other and expects each to succeed.
fn execute_all(chip8: &mut Chip8, instructions: &[Instruction]) {
    for &instruction in instructions {
        chip8.execute(instruction, 0).unwrap();
    }
}

#[test]
fn decode_fixed_opcodes() {
    assert_eq!(Ok(Instruction::ClearScreen), interpret_instruction(0x00E0));
    assert_eq!(Ok(Instruction::Return), interpret_instruction(0x00EE));
    assert_eq!(Ok(Instruction::Goto(0xABC)), interpret_instruction(0x1ABC));
    assert_eq!(Ok(Instruction::Call(0x234)), interpret_instruction(0x2234));
    assert_eq!(Ok(Instruction::OffsetGoto(0xFFF)), interpret_instruction(0xBFFF));
    assert_eq!(Ok(Instruction::SetIndex(0x123)), interpret_instruction(0xA123));
}

#[test]
fn decode_operands() {
    assert_eq!(Ok(Instruction::SkipEqConst(0xA, 0xBC)), interpret_instruction(0x3ABC));
    assert_eq!(Ok(Instruction::SkipNeqConst(0x1, 0x02)), interpret_instruction(0x4102));
    assert_eq!(Ok(Instruction::SkipEq(0x1, 0x2)), interpret_instruction(0x5120));
    assert_eq!(Ok(Instruction::SetConst(0xF, 0xFF)), interpret_instruction(0x6FFF));
    assert_eq!(Ok(Instruction::AddConst(0x0, 0x01)), interpret_instruction(0x7001));
    assert_eq!(Ok(Instruction::Move(0x1, 0x2)), interpret_instruction(0x8120));
    assert_eq!(Ok(Instruction::BitOr(0x1, 0x2)), interpret_instruction(0x8121));
    assert_eq!(Ok(Instruction::BitAnd(0x1, 0x2)), interpret_instruction(0x8122));
    assert_eq!(Ok(Instruction::BitXor(0x1, 0x2)), interpret_instruction(0x8123));
    assert_eq!(Ok(Instruction::Add(0x1, 0x2)), interpret_instruction(0x8124));
    assert_eq!(Ok(Instruction::Sub(0x1, 0x2)), interpret_instruction(0x8125));
    assert_eq!(Ok(Instruction::InverseSub(0x1, 0x2)), interpret_instruction(0x8127));
    assert_eq!(Ok(Instruction::Shl(0x1)), interpret_instruction(0x812E));
    assert_eq!(Ok(Instruction::SkipNeq(0x3, 0x4)), interpret_instruction(0x9340));
    assert_eq!(Ok(Instruction::Rand(0x5, 0x0F)), interpret_instruction(0xC50F));
    assert_eq!(Ok(Instruction::Draw(0x1, 0x2, 0x5)), interpret_instruction(0xD125));
    assert_eq!(Ok(Instruction::SkipKey(0x7)), interpret_instruction(0xE79E));
    assert_eq!(Ok(Instruction::SkipNotKey(0x7)), interpret_instruction(0xE7A1));
    assert_eq!(Ok(Instruction::GetDelay(0x8)), interpret_instruction(0xF807));
    assert_eq!(Ok(Instruction::WaitKey(0x8)), interpret_instruction(0xF80A));
    assert_eq!(Ok(Instruction::SetDelay(0x8)), interpret_instruction(0xF815));
    assert_eq!(Ok(Instruction::SetSound(0x8)), interpret_instruction(0xF818));
    assert_eq!(Ok(Instruction::AddIndex(0x8)), interpret_instruction(0xF81E));
    assert_eq!(Ok(Instruction::SetIndexChar(0x8)), interpret_instruction(0xF829));
    assert_eq!(Ok(Instruction::BCD(0x8)), interpret_instruction(0xF833));
    assert_eq!(Ok(Instruction::RegDump(0x8)), interpret_instruction(0xF855));
    assert_eq!(Ok(Instruction::RegLoad(0x8)), interpret_instruction(0xF865));
}

#[test]
fn decode_shr_whatever_the_second_register() {
    for x in 0..16u16 {
        for y in 0..16u16 {
            let opcode = 0x8006 | (x << 8) | (y << 4);
            assert_eq!(Ok(Instruction::Shr(x as u8)), interpret_instruction(opcode));
        }
    }
}

#[test]
fn decode_rejects_unknown_f_suffixes() {
    let known = [0x07, 0x0A, 0x15, 0x18, 0x1E, 0x29, 0x33, 0x55, 0x65];
    for low in 0..=0xFFu16 {
        let opcode = 0xF300 | low;
        let decoded = interpret_instruction(opcode);
        if known.contains(&low) {
            assert!(decoded.is_ok());
        } else {
            assert_eq!(Err(Error::InvalidOpcode(format!("0x{:04X}", opcode))), decoded);
        }
    }
}

#[test]
fn decode_rejects_other_unknown_opcodes() {
    assert_eq!(Err(Error::InvalidOpcode("0x0000".to_string())), interpret_instruction(0x0000));
    assert_eq!(Err(Error::InvalidOpcode("0x00E1".to_string())), interpret_instruction(0x00E1));
    assert_eq!(Err(Error::InvalidOpcode("0x5121".to_string())), interpret_instruction(0x5121));
    assert_eq!(Err(Error::InvalidOpcode("0x8128".to_string())), interpret_instruction(0x8128));
    assert_eq!(Err(Error::InvalidOpcode("0x9ABC".to_string())), interpret_instruction(0x9ABC));
    assert_eq!(Err(Error::InvalidOpcode("0xE19F".to_string())), interpret_instruction(0xE19F));
    assert_eq!(Err(Error::InvalidOpcode("0xFFFF".to_string())), interpret_instruction(0xFFFF));
}

#[test]
fn opcode_text_is_padded_upper_case_hexadecimal() {
    assert_eq!("0x0000", format_opcode(0));
    assert_eq!("0x00AB", format_opcode(0xAB));
    assert_eq!("0xBEEF", format_opcode(0xBEEF));
    assert_eq!("0x9A0C", format_opcode(0x9A0C));
}

#[test]
fn log_from_bool() {
    assert!(Log::from(true).is_enabled());
    assert!(!Log::from(false).is_enabled());
    assert!(Log::Enabled.is_enabled());
    assert!(!Log::Disabled.is_enabled());
}

#[test]
fn new_machine_holds_font_and_program() {
    let chip8 = Chip8::new(&[0x12, 0x34, 0x56], Log::Enabled).unwrap();
    let memory = chip8.memory();
    assert_eq!(MEMORY, memory.len());
    assert_eq!(&fontset()[..], &memory[FONTSET_START..FONTSET_START + 80]);
    assert_eq!(&[0xF0, 0x90, 0x90, 0x90, 0xF0], &memory[0x50..0x55]);
    assert_eq!(&[0xF0, 0x80, 0xF0, 0x80, 0x80], &memory[0x9B..0xA0]);
    assert!(memory[..FONTSET_START].iter().all(|&byte| byte == 0));
    assert!(memory[FONTSET_START + 80..PROGRAM_START].iter().all(|&byte| byte == 0));
    assert_eq!(&[0x12, 0x34, 0x56], &memory[PROGRAM_START..PROGRAM_START + 3]);
    assert!(memory[PROGRAM_START + 3..].iter().all(|&byte| byte == 0));
    assert_eq!(&[0; 16], chip8.registers().get_registers());
    assert_eq!(0, chip8.registers().index);
    assert_eq!(0x200, chip8.registers().program_counter);
    assert!(chip8.stack().is_empty());
    assert!(chip8.io().draw_flag());
    assert!(chip8.io().pixels().iter().all(|&pixel| !pixel));
    assert_eq!(SCREEN_WIDTH * SCREEN_HEIGHT, chip8.io().pixels().len());
    assert_eq!(0, chip8.delay_timer());
    assert_eq!(0, chip8.sound_timer());
    assert!(!chip8.program_ended());
    assert_eq!(None, chip8.waiting());
    assert!(chip8.log().is_enabled());
}

#[test]
fn program_size_limit() {
    let limit = MEMORY - PROGRAM_START;
    assert!(Chip8::new(&vec![0; limit - 1], Log::Disabled).is_ok());
    match Chip8::new(&vec![0; limit], Log::Disabled) {
        Err(error) => assert_eq!(Error::ProgramTooLarge(limit, limit), error),
        Ok(_) => panic!("a program of {} bytes was accepted", limit),
    }
    match Chip8::new(&vec![0; limit + 10], Log::Disabled) {
        Err(error) => assert_eq!(Error::ProgramTooLarge(limit + 10, limit), error),
        Ok(_) => panic!("a program of {} bytes was accepted", limit + 10),
    }
}

#[test]
fn empty_program_runs_into_zeroes() {
    let mut chip8 = machine(&[]);
    assert_eq!(Some(0), chip8.fetch());
    assert_eq!(Err(Error::InvalidOpcode("0x0000".to_string())), chip8.step(NO_KEYS));
    assert_eq!(0x200, chip8.registers().program_counter);
}

#[test]
fn program_ends_when_the_counter_leaves_memory() {
    let mut chip8 = machine(&[0x1FFF]);
    assert_eq!(Ok(Action::Redraw), chip8.step(NO_KEYS));
    assert_eq!(0xFFF, chip8.registers().program_counter);
    assert_eq!(None, chip8.fetch());
    assert!(!chip8.program_ended());
    assert_eq!(Ok(Action::Halt), chip8.step(NO_KEYS));
    assert!(chip8.program_ended());
    assert_eq!(0xFFF, chip8.registers().program_counter);
}

#[test]
fn fetch_is_big_endian() {
    let chip8 = machine(&[0xA1B2]);
    assert_eq!(Some(0xA1B2), chip8.fetch());
}

#[test]
fn add_sets_carry_and_wraps() {
    for &(a, b) in &[(0u8, 0u8), (255, 1), (255, 255), (128, 127), (128, 128), (1, 254), (200, 100)] {
        let mut chip8 = machine(&[]);
        execute_all(
            &mut chip8,
            &[Instruction::SetConst(1, a), Instruction::SetConst(2, b), Instruction::Add(1, 2)],
        );
        let sum = a as u16 + b as u16;
        assert_eq!((sum % 256) as u8, chip8.registers().get(1));
        assert_eq!(if sum > 255 { 1 } else { 0 }, chip8.registers().get(0xF));
    }
}

#[test]
fn sub_sets_borrow_and_wraps() {
    for &(a, b) in &[(0u8, 0u8), (0, 1), (1, 0), (5, 5), (10, 200), (255, 255), (0, 255)] {
        let mut chip8 = machine(&[]);
        execute_all(
            &mut chip8,
            &[Instruction::SetConst(1, a), Instruction::SetConst(2, b), Instruction::Sub(1, 2)],
        );
        assert_eq!(a.wrapping_sub(b), chip8.registers().get(1));
        assert_eq!(if a < b { 1 } else { 0 }, chip8.registers().get(0xF));

        let mut chip8 = machine(&[]);
        execute_all(
            &mut chip8,
            &[Instruction::SetConst(1, a), Instruction::SetConst(2, b), Instruction::InverseSub(1, 2)],
        );
        assert_eq!(b.wrapping_sub(a), chip8.registers().get(1));
        assert_eq!(if b < a { 1 } else { 0 }, chip8.registers().get(0xF));
    }
}

#[test]
fn flag_register_as_destination_keeps_the_flag() {
    let mut chip8 = machine(&[]);
    execute_all(
        &mut chip8,
        &[Instruction::SetConst(0xF, 200), Instruction::SetConst(1, 100), Instruction::Add(0xF, 1)],
    );
    assert_eq!(1, chip8.registers().get(0xF));
    execute_all(&mut chip8, &[Instruction::SetConst(0xF, 0x03), Instruction::Shr(0xF)]);
    assert_eq!(1, chip8.registers().get(0xF));
}

#[test]
fn shifts_capture_the_bit_that_leaves() {
    for a in 0..=255u8 {
        let mut chip8 = machine(&[]);
        execute_all(&mut chip8, &[Instruction::SetConst(3, a), Instruction::Shr(3)]);
        assert_eq!(a >> 1, chip8.registers().get(3));
        assert_eq!(a & 1, chip8.registers().get(0xF));

        let mut chip8 = machine(&[]);
        execute_all(&mut chip8, &[Instruction::SetConst(3, a), Instruction::Shl(3)]);
        assert_eq!(a << 1, chip8.registers().get(3));
        assert_eq!(a >> 7, chip8.registers().get(0xF));
    }
}

#[test]
fn bcd_writes_three_digits() {
    let mut chip8 = machine(&[]);
    execute_all(
        &mut chip8,
        &[Instruction::SetConst(4, 255), Instruction::SetIndex(0x300), Instruction::BCD(4)],
    );
    assert_eq!(&[2, 5, 5], &chip8.memory()[0x300..0x303]);
    execute_all(&mut chip8, &[Instruction::SetConst(4, 0), Instruction::BCD(4)]);
    assert_eq!(&[0, 0, 0], &chip8.memory()[0x300..0x303]);
    execute_all(&mut chip8, &[Instruction::SetConst(4, 107), Instruction::BCD(4)]);
    assert_eq!(&[1, 0, 7], &chip8.memory()[0x300..0x303]);
}

#[test]
fn bcd_at_the_end_of_memory() {
    let mut chip8 = machine(&[]);
    execute_all(&mut chip8, &[Instruction::SetConst(0, 123), Instruction::SetIndex(0xFFD)]);
    assert_eq!(Ok(Action::Redraw), chip8.execute(Instruction::BCD(0), 0));
    assert_eq!(&[1, 2, 3], &chip8.memory()[0xFFD..0x1000]);
    execute_all(&mut chip8, &[Instruction::SetIndex(0xFFE)]);
    let pc = chip8.registers().program_counter;
    assert_eq!(Err(Error::InvalidAddress(0xFFE, "BCD")), chip8.execute(Instruction::BCD(0), 0));
    assert_eq!(pc, chip8.registers().program_counter);
    assert_eq!(&[2, 3], &chip8.memory()[0xFFE..0x1000]);
}

#[test]
fn dump_then_load_round_trips() {
    let mut chip8 = machine(&[]);
    for x in 0..16u8 {
        chip8.execute(Instruction::SetConst(x, 0x10 + x), 0).unwrap();
    }
    execute_all(&mut chip8, &[Instruction::SetIndex(0x400), Instruction::RegDump(0xF)]);
    let dumped: Vec<u8> = (0..16u8).map(|x| 0x10 + x).collect();
    assert_eq!(&dumped[..], &chip8.memory()[0x400..0x410]);
    assert_eq!(0x400, chip8.registers().index);
    for x in 0..16u8 {
        chip8.execute(Instruction::SetConst(x, 0), 0).unwrap();
    }
    execute_all(&mut chip8, &[Instruction::RegLoad(0xF)]);
    assert_eq!(&dumped[..], &chip8.registers().get_registers()[..]);
}

#[test]
fn dump_and_load_touch_only_the_first_registers() {
    let mut chip8 = machine(&[]);
    for x in 0..16u8 {
        chip8.execute(Instruction::SetConst(x, 0xA0 + x), 0).unwrap();
    }
    execute_all(&mut chip8, &[Instruction::SetIndex(0x400), Instruction::RegDump(2)]);
    assert_eq!(&[0xA0, 0xA1, 0xA2, 0], &chip8.memory()[0x400..0x404]);
    execute_all(&mut chip8, &[Instruction::SetIndex(0x401), Instruction::RegLoad(1)]);
    assert_eq!(0xA1, chip8.registers().get(0));
    assert_eq!(0xA2, chip8.registers().get(1));
    assert_eq!(0xA2, chip8.registers().get(2));
    assert_eq!(0xAF, chip8.registers().get(0xF));
}

#[test]
fn dump_and_load_outside_memory() {
    let mut chip8 = machine(&[]);
    execute_all(&mut chip8, &[Instruction::SetIndex(0xFFF)]);
    assert!(chip8.execute(Instruction::RegDump(0), 0).is_ok());
    assert_eq!(
        Err(Error::InvalidAddress(0xFFF, "RegDump")),
        chip8.execute(Instruction::RegDump(1), 0)
    );
    assert_eq!(
        Err(Error::InvalidAddress(0xFFF, "RegLoad")),
        chip8.execute(Instruction::RegLoad(1), 0)
    );
    assert!(chip8.execute(Instruction::RegLoad(0), 0).is_ok());
}

#[test]
fn skips_advance_by_four_or_two() {
    let cases = [
        (Instruction::SkipEqConst(1, 7), true),
        (Instruction::SkipEqConst(1, 8), false),
        (Instruction::SkipNeqConst(1, 7), false),
        (Instruction::SkipNeqConst(1, 8), true),
        (Instruction::SkipEq(1, 2), true),
        (Instruction::SkipEq(1, 3), false),
        (Instruction::SkipNeq(1, 2), false),
        (Instruction::SkipNeq(1, 3), true),
    ];
    for &(instruction, skips) in &cases {
        let mut chip8 = machine(&[]);
        execute_all(
            &mut chip8,
            &[Instruction::SetConst(1, 7), Instruction::SetConst(2, 7), Instruction::SetConst(3, 9)],
        );
        let pc = chip8.registers().program_counter;
        chip8.execute(instruction, 0).unwrap();
        assert_eq!(pc + if skips { 4 } else { 2 }, chip8.registers().program_counter);
    }
}

#[test]
fn call_and_return() {
    let mut chip8 = machine(&[0x2300]);
    assert!(chip8.step(NO_KEYS).is_ok());
    assert_eq!(0x300, chip8.registers().program_counter);
    assert_eq!(&[0x200], chip8.stack());
    chip8.execute(Instruction::Return, 0).unwrap();
    assert_eq!(0x202, chip8.registers().program_counter);
    assert!(chip8.stack().is_empty());
}

#[test]
fn return_with_an_empty_stack_goes_on() {
    let mut chip8 = machine(&[0x00EE]);
    assert_eq!(Ok(Action::Redraw), chip8.step(NO_KEYS));
    assert_eq!(0x202, chip8.registers().program_counter);
    assert!(chip8.stack().is_empty());
}

#[test]
fn jumps_check_the_address() {
    let mut chip8 = machine(&[]);
    assert_eq!(
        Err(Error::InvalidAddress(0x1000, "Goto")),
        chip8.execute(Instruction::Goto(0x1000), 0)
    );
    assert_eq!(
        Err(Error::InvalidAddress(0xFFFF, "Call")),
        chip8.execute(Instruction::Call(0xFFFF), 0)
    );
    assert!(chip8.stack().is_empty());
    assert_eq!(0x200, chip8.registers().program_counter);
    execute_all(&mut chip8, &[Instruction::SetConst(0, 0x10)]);
    assert_eq!(
        Err(Error::InvalidAddress(0xFF0, "OffsetGoto")),
        chip8.execute(Instruction::OffsetGoto(0xFF0), 0)
    );
    assert_eq!(
        Err(Error::InvalidAddress(0xFFFF, "OffsetGoto")),
        chip8.execute(Instruction::OffsetGoto(0xFFFF), 0)
    );
    chip8.execute(Instruction::OffsetGoto(0xFEF), 0).unwrap();
    assert_eq!(0xFFF, chip8.registers().program_counter);
}

#[test]
fn add_index_wraps() {
    let mut chip8 = machine(&[]);
    execute_all(
        &mut chip8,
        &[Instruction::SetIndex(0xFFFF), Instruction::SetConst(1, 3), Instruction::AddIndex(1)],
    );
    assert_eq!(2, chip8.registers().index);
}

#[test]
fn set_index_char_checks_the_character() {
    let mut chip8 = machine(&[]);
    execute_all(&mut chip8, &[Instruction::SetConst(1, 0xA), Instruction::SetIndexChar(1)]);
    assert_eq!(0x50 + 50, chip8.registers().index);
    execute_all(&mut chip8, &[Instruction::SetConst(1, 16)]);
    assert_eq!(Err(Error::UnknownCharacter(16)), chip8.execute(Instruction::SetIndexChar(1), 0));
    assert_eq!(0x50 + 50, chip8.registers().index);
}

#[test]
fn skip_key_checks_the_key() {
    let mut chip8 = machine(&[]);
    execute_all(&mut chip8, &[Instruction::SetConst(1, 16)]);
    assert_eq!(Err(Error::UnknownKey(16, "SkipKey")), chip8.execute(Instruction::SkipKey(1), 0));
    assert_eq!(
        Err(Error::UnknownKey(16, "SkipNotKey")),
        chip8.execute(Instruction::SkipNotKey(1), 0)
    );
}

#[test]
fn step_takes_the_keypad_snapshot() {
    let mut chip8 = machine(&[0x610F, 0xE19E, 0xE1A1]);
    let mut keys = NO_KEYS;
    keys[15] = true;
    chip8.step(NO_KEYS).unwrap();
    chip8.step(keys).unwrap();
    assert!(chip8.io().is_key_pressed(15));
    assert_eq!(0x206, chip8.registers().program_counter);
}

#[test]
fn rand_masks_the_random_byte() {
    let mut chip8 = machine(&[]);
    chip8.execute(Instruction::Rand(2, 0x0F), 0xAB).unwrap();
    assert_eq!(0x0B, chip8.registers().get(2));
    chip8.execute(Instruction::Rand(2, 0xF0), 0xAB).unwrap();
    assert_eq!(0xA0, chip8.registers().get(2));
    chip8.execute(Instruction::Rand(2, 0xFF), 0x5C).unwrap();
    assert_eq!(0x5C, chip8.registers().get(2));
}

#[test]
fn step_with_hands_the_byte_to_rand() {
    let mut chip8 = machine(&[0xC13C, 0x6205]);
    assert_eq!(Ok(Action::Redraw), chip8.step_with(NO_KEYS, 0xFF));
    assert_eq!(0x3C, chip8.registers().get(1));
    assert_eq!(Ok(Action::Redraw), chip8.step_with(NO_KEYS, 0xFF));
    assert_eq!(5, chip8.registers().get(2));
}

#[test]
fn step_draws_a_masked_random_byte() {
    for _ in 0..64 {
        let mut chip8 = machine(&[0xC10F, 0xC200]);
        chip8.step(NO_KEYS).unwrap();
        chip8.step(NO_KEYS).unwrap();
        assert_eq!(0, chip8.registers().get(1) & 0xF0);
        assert_eq!(0, chip8.registers().get(2));
        assert_eq!(0x204, chip8.registers().program_counter);
    }
}

#[test]
fn wait_key_blocks_until_a_new_key_goes_down() {
    let mut chip8 = machine(&[0xF30A]);
    let mut held = NO_KEYS;
    held[4] = true;
    assert_eq!(Ok(Action::AwaitKey), chip8.step(held));
    assert_eq!(Some(3), chip8.waiting());
    assert_eq!(0x200, chip8.registers().program_counter);
    // The key that was down when the wait began does not count, nor does its release.
    assert_eq!(Ok(Action::AwaitKey), chip8.step(held));
    assert_eq!(Ok(Action::AwaitKey), chip8.step(NO_KEYS));
    assert_eq!(Ok(Action::AwaitKey), chip8.step(held));
    let mut pressed = held;
    pressed[9] = true;
    pressed[12] = true;
    assert_eq!(Ok(Action::Redraw), chip8.step(pressed));
    assert_eq!(9, chip8.registers().get(3));
    assert_eq!(None, chip8.waiting());
    assert_eq!(0x202, chip8.registers().program_counter);
    assert!(chip8.io().is_key_pressed(4));
    assert!(!chip8.io().is_key_pressed(9));
}

#[test]
fn wait_key_poll_names_the_lowest_new_key() {
    let mut io = Io::new();
    let mut snapshot = NO_KEYS;
    snapshot[0] = true;
    io.set_keys(snapshot);
    assert_eq!(None, io.new_key(&snapshot));
    assert_eq!(None, io.new_key(&NO_KEYS));
    let mut keys = snapshot;
    keys[15] = true;
    assert_eq!(Some(15), io.new_key(&keys));
    keys[7] = true;
    assert_eq!(Some(7), io.new_key(&keys));
}

#[test]
fn timers_count_down_to_zero() {
    let mut chip8 = machine(&[]);
    execute_all(
        &mut chip8,
        &[
            Instruction::SetConst(0, 2),
            Instruction::SetConst(1, 1),
            Instruction::SetSound(0),
            Instruction::SetDelay(1),
        ],
    );
    assert!(!chip8.tick());
    assert_eq!((0, 1), (chip8.delay_timer(), chip8.sound_timer()));
    assert!(chip8.tick());
    assert_eq!((0, 0), (chip8.delay_timer(), chip8.sound_timer()));
    assert!(!chip8.tick());
    assert_eq!((0, 0), (chip8.delay_timer(), chip8.sound_timer()));
}

/// A machine with the sprite bytes at 0x300, the index register pointing at
/// them, and V1 and V2 holding the coordinates.
fn machine_with_sprite(sprite: &[u8], x: u8, y: u8) -> Chip8 {
    let mut chip8 = machine(&[]);
    for (i, &byte) in sprite.iter().enumerate() {
        execute_all(
            &mut chip8,
            &[
                Instruction::SetConst(0, byte),
                Instruction::SetIndex(0x300 + i as u16),
                Instruction::RegDump(0),
            ],
        );
    }
    execute_all(
        &mut chip8,
        &[Instruction::SetIndex(0x300), Instruction::SetConst(1, x), Instruction::SetConst(2, y)],
    );
    chip8
}

fn lit(chip8: &Chip8) -> Vec<(usize, usize)> {
    let mut lit = Vec::new();
    for (index, &pixel) in chip8.io().pixels().iter().enumerate() {
        if pixel {
            lit.push((index % SCREEN_WIDTH, index / SCREEN_WIDTH));
        }
    }
    lit
}

#[test]
fn draw_at_a_location() {
    let mut chip8 = machine_with_sprite(&[0, 1, 2, 3, 4], 56, 27);
    assert_eq!(Ok(Action::Redraw), chip8.execute(Instruction::Draw(1, 2, 5), 0));
    assert_eq!(vec![(63, 28), (62, 29), (62, 30), (63, 30), (61, 31)], lit(&chip8));
    assert_eq!(0, chip8.registers().get(0xF));
}

#[test]
fn draw_in_the_bottom_right_corner() {
    let mut chip8 = machine_with_sprite(&[0x81, 0xFF], 120, 62);
    chip8.execute(Instruction::Draw(1, 2, 2), 0).unwrap();
    let mut expected = vec![(120, 62), (127, 62)];
    expected.extend((120..128).map(|x| (x, 63)));
    assert_eq!(expected, lit(&chip8));
}

#[test]
fn draw_twice_clears_and_sets_the_flag() {
    let mut chip8 = machine_with_sprite(&[0xF0, 0x90, 0x90, 0x90, 0xF0], 10, 20);
    chip8.execute(Instruction::Draw(1, 2, 5), 0).unwrap();
    assert_eq!(14, lit(&chip8).len());
    assert_eq!(0, chip8.registers().get(0xF));
    chip8.execute(Instruction::Draw(1, 2, 5), 0).unwrap();
    assert!(lit(&chip8).is_empty());
    assert_eq!(1, chip8.registers().get(0xF));
}

#[test]
fn draw_flips_pixels() {
    let mut chip8 = machine_with_sprite(&[0b1100_0000], 0, 0);
    chip8.execute(Instruction::Draw(1, 2, 1), 0).unwrap();
    execute_all(
        &mut chip8,
        &[
            Instruction::SetConst(0, 0b0110_0000),
            Instruction::RegDump(0),
            Instruction::SetConst(0xF, 7),
        ],
    );
    chip8.execute(Instruction::Draw(1, 2, 1), 0).unwrap();
    assert_eq!(vec![(0, 0), (2, 0)], lit(&chip8));
    assert_eq!(1, chip8.registers().get(0xF));
}

#[test]
fn draw_of_a_dark_sprite_over_lit_pixels_changes_nothing() {
    let mut chip8 = machine_with_sprite(&[0x01], 0, 0);
    chip8.execute(Instruction::Draw(1, 2, 1), 0).unwrap();
    execute_all(&mut chip8, &[Instruction::SetConst(0, 0), Instruction::RegDump(0)]);
    chip8.execute(Instruction::Draw(1, 2, 1), 0).unwrap();
    assert_eq!(vec![(7, 0)], lit(&chip8));
    assert_eq!(0, chip8.registers().get(0xF));
}

#[test]
fn draw_without_rows_only_clears_the_flag() {
    let mut chip8 = machine_with_sprite(&[0xFF], 200, 200);
    execute_all(&mut chip8, &[Instruction::SetConst(0xF, 9)]);
    assert_eq!(Ok(Action::Redraw), chip8.execute(Instruction::Draw(1, 2, 0), 0));
    assert!(lit(&chip8).is_empty());
    assert_eq!(0, chip8.registers().get(0xF));
}

#[test]
fn draw_outside_the_display() {
    let mut chip8 = machine_with_sprite(&[0xFF, 0xFF], 121, 0);
    execute_all(&mut chip8, &[Instruction::SetConst(0xF, 9)]);
    assert_eq!(
        Err(Error::PixelOutOfBounds(128, 0)),
        chip8.execute(Instruction::Draw(1, 2, 2), 0)
    );
    assert!(lit(&chip8).is_empty());
    assert_eq!(9, chip8.registers().get(0xF));

    let mut chip8 = machine_with_sprite(&[0xFF, 0xFF], 130, 3);
    assert_eq!(
        Err(Error::PixelOutOfBounds(130, 3)),
        chip8.execute(Instruction::Draw(1, 2, 2), 0)
    );

    let mut chip8 = machine_with_sprite(&[0xFF, 0xFF, 0xFF], 8, 62);
    assert_eq!(
        Err(Error::PixelOutOfBounds(8, 64)),
        chip8.execute(Instruction::Draw(1, 2, 3), 0)
    );
    assert!(lit(&chip8).is_empty());
    assert!(chip8.execute(Instruction::Draw(1, 2, 2), 0).is_ok());
}

#[test]
fn draw_outside_memory() {
    let mut chip8 = machine_with_sprite(&[], 0, 0);
    execute_all(&mut chip8, &[Instruction::SetIndex(0xFFE)]);
    assert!(chip8.execute(Instruction::Draw(1, 2, 2), 0).is_ok());
    assert_eq!(
        Err(Error::InvalidAddress(0x1000, "Draw")),
        chip8.execute(Instruction::Draw(1, 2, 3), 0)
    );
}

#[test]
fn clear_screen_asks_for_a_redraw() {
    let mut chip8 = machine_with_sprite(&[0xFF], 0, 0);
    chip8.execute(Instruction::Draw(1, 2, 1), 0).unwrap();
    assert_eq!(Ok(Action::Redraw), chip8.execute(Instruction::ClearScreen, 0));
    assert!(lit(&chip8).is_empty());
    assert!(chip8.io().draw_flag());
}

#[test]
fn io_pixels_and_flags() {
    let mut io = Io::new();
    assert!(io.draw_flag());
    *io.get_mut_pixel(5) = true;
    *io.get_mut_pixel(8191) = true;
    assert!(io.pixels()[5] && io.pixels()[8191] && !io.pixels()[6]);
    io.set_draw_flag();
    assert!(io.draw_flag());
    io.clear_screen();
    assert!(io.pixels().iter().all(|&pixel| !pixel));
    let mut keys = NO_KEYS;
    keys[3] = true;
    io.set_keys(keys);
    assert!(io.is_key_pressed(3));
    assert!(!io.is_key_pressed(4));
}

#[test]
fn registers_get_and_set() {
    let mut registers = Registers::new();
    assert_eq!(0x200, registers.program_counter);
    assert_eq!(0, registers.index);
    registers.set(3, 0xAB);
    assert_eq!(0xAB, registers.get(3));
    assert_eq!(0xAB, registers.get_u16(3));
    registers.get_mut_registers()[15] = 7;
    assert_eq!(7, registers.get_registers()[15]);
    assert_eq!(0, registers.get(0));
}

#[test]
fn keyboard_bindings() {
    let rows: [(&str, [u8; 4]); 4] = [
        ("1234", [0x0, 0x1, 0x2, 0xC]),
        ("qwer", [0x4, 0x5, 0x6, 0xD]),
        ("asdf", [0x7, 0x8, 0x9, 0xE]),
        ("zxcv", [0xA, 0x0, 0xB, 0xF]),
    ];
    for (letters, keys) in rows.iter() {
        for (letter, &key) in letters.chars().zip(keys.iter()) {
            assert_eq!(Binding::Key(key), binding(letter as u32));
        }
    }
    assert_eq!(Binding::Close, binding(0x1B));
    assert_eq!(Binding::Unbound, binding('p' as u32));
    assert_eq!(Binding::Unbound, binding(0));
}

#[test]
fn keyboard_follows_presses_and_releases() {
    let mut keyboard = Keyboard::new();
    keyboard.set_key('q' as u32, true);
    keyboard.set_key('v' as u32, true);
    keyboard.set_key('p' as u32, true);
    assert!(keyboard.keys[4] && keyboard.keys[15]);
    assert_eq!(2, keyboard.keys.iter().filter(|&&key| key).count());
    assert!(!keyboard.should_close);
    keyboard.set_key('q' as u32, false);
    assert!(!keyboard.keys[4] && keyboard.keys[15]);
    keyboard.set_key(0x1B, true);
    assert!(keyboard.should_close);
    assert!(keyboard.keys[15]);
}

/// A front end that plays back keypad snapshots and counts what it is asked to do.
struct Script {
    snapshots: Vec<Keys>,
    polls: usize,
    draws: usize,
    sounds: usize,
}

impl Script {
    fn new(snapshots: Vec<Keys>) -> Script {
        Script { snapshots, polls: 0, draws: 0, sounds: 0 }
    }
}

impl Chip8IO for Script {
    fn draw(&mut self, pixels: &[bool]) {
        assert_eq!(SCREEN_WIDTH * SCREEN_HEIGHT, pixels.len());
        self.draws += 1;
    }

    fn get_keys(&mut self) -> Keys {
        let keys = self.snapshots.get(self.polls).copied().unwrap_or(NO_KEYS);
        self.polls += 1;
        keys
    }

    fn play_sound(&mut self) {
        self.sounds += 1;
    }

    fn should_close(&self) -> bool {
        false
    }
}

#[test]
fn cycle_polls_once_and_draws_once() {
    let mut chip8 = machine(&[0x6105, 0x00E0]);
    let mut io = Script::new(Vec::new());
    assert_eq!(Ok(Action::Redraw), chip8.cycle(&mut io));
    assert_eq!((1, 1), (io.polls, io.draws));
    assert_eq!(Ok(Action::Redraw), chip8.cycle(&mut io));
    assert_eq!((2, 2), (io.polls, io.draws));
    assert_eq!(5, chip8.registers().get(1));
}

#[test]
fn cycle_does_not_draw_while_waiting_or_failing_or_ended() {
    let mut pressed = NO_KEYS;
    pressed[2] = true;
    let mut chip8 = machine(&[0xF50A, 0x1FFF]);
    let mut io = Script::new(vec![NO_KEYS, NO_KEYS, pressed]);
    assert_eq!(Ok(Action::AwaitKey), chip8.cycle(&mut io));
    assert_eq!(Ok(Action::AwaitKey), chip8.cycle(&mut io));
    assert_eq!((2, 0), (io.polls, io.draws));
    assert_eq!(Ok(Action::Redraw), chip8.cycle(&mut io));
    assert_eq!((3, 1), (io.polls, io.draws));
    assert_eq!(2, chip8.registers().get(5));
    assert_eq!(Ok(Action::Redraw), chip8.cycle(&mut io));
    assert_eq!(Ok(Action::Halt), chip8.cycle(&mut io));
    assert_eq!((4, 2), (io.polls, io.draws));

    let mut chip8 = machine(&[0xFFFF]);
    let mut io = Script::new(Vec::new());
    assert_eq!(Err(Error::InvalidOpcode("0xFFFF".to_string())), chip8.cycle(&mut io));
    assert_eq!((0, 0), (io.polls, io.draws));
}

#[test]
fn update_timers_plays_the_sound_once() {
    let mut chip8 = machine(&[]);
    execute_all(&mut chip8, &[Instruction::SetConst(0, 3), Instruction::SetSound(0)]);
    let mut io = Script::new(Vec::new());
    chip8.update_timers(&mut io);
    chip8.update_timers(&mut io);
    assert_eq!(0, io.sounds);
    chip8.update_timers(&mut io);
    assert_eq!(1, io.sounds);
    chip8.update_timers(&mut io);
    chip8.update_timers(&mut io);
    assert_eq!(1, io.sounds);
    assert_eq!(0, chip8.sound_timer());
}

#[test]
fn wait_key_asks_the_front_end_once() {
    let mut pressed = NO_KEYS;
    pressed[11] = true;
    let io_state = Io::new();
    let mut io = Script::new(vec![NO_KEYS, pressed]);
    assert_eq!(None, io_state.wait_key(&mut io));
    assert_eq!(1, io.polls);
    assert_eq!(Some(11), io_state.wait_key(&mut io));
    assert_eq!(2, io.polls);
}

#[test]
fn machines_keep_their_invariant() {
    let mut chip8 = machine(&[0x2204, 0x0000, 0xF10A]);
    assert!(chip8.is_wf());
    chip8.step(NO_KEYS).unwrap();
    assert!(chip8.is_wf());
    chip8.step(NO_KEYS).unwrap();
    assert_eq!(Some(1), chip8.waiting());
    assert!(chip8.is_wf());
}

#[test]
fn instructions_name_registers_that_exist() {
    assert!(Instruction::Return.is_valid());
    assert!(Instruction::Goto(0xFFFF).is_valid());
    assert!(Instruction::SetConst(15, 255).is_valid());
    assert!(!Instruction::SetConst(16, 0).is_valid());
    assert!(Instruction::Add(15, 15).is_valid());
    assert!(!Instruction::Add(3, 16).is_valid());
    assert!(!Instruction::Add(16, 3).is_valid());
    assert!(!Instruction::WaitKey(200).is_valid());
    assert!(Instruction::Draw(0, 15, 255).is_valid());
    assert!(!Instruction::Draw(0, 16, 1).is_valid());
    for opcode in 0..=0xFFFFu16 {
        if let Ok(instruction) = interpret_instruction(opcode) {
            assert!(instruction.is_valid());
        }
    }
}

#[test]
fn redraw_flag_stays_set() {
    let mut chip8 = machine(&[0x6001, 0x6002, 0x00E0, 0x6003]);
    for _ in 0..4 {
        assert_eq!(Ok(Action::Redraw), chip8.step(NO_KEYS));
        assert!(chip8.io().draw_flag());
    }
}
