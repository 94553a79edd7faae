use chirp8::emulator::{first_held_key, Chip8, Cycle};
use chirp8::error::Error;
use chirp8::instruction::Instruction;
use chirp8::memory::RegIdx;
use chirp8::Args;

const NO_KEYS: [bool; 16] = [false; 16];

fn machine(rom: &[u8]) -> Chip8 {
    Chip8::new(rom, Args::default()).unwrap()
}

fn machine_with(rom: &[u8], args: Args) -> Chip8 {
    Chip8::new(rom, args).unwrap()
}

fn run(chip: &mut Chip8, steps: usize) {
    for _ in 0..steps {
        assert_eq!(chip.step(&NO_KEYS), Ok(false));
    }
}

fn reg(chip: &Chip8, idx: u8) -> u8 {
    chip.regs().get(RegIdx::new(idx))
}

fn lit(chip: &Chip8) -> Vec<(usize, usize)> {
    let mut pixels = Vec::new();
    for x in 0..64 {
        for y in 0..32 {
            if chip.display().buffer[x][y] {
                pixels.push((x, y));
            }
        }
    }
    pixels
}

/// The pixels of the glyph `0` with its top left corner at (`x`, `y`).
fn glyph_zero(x: usize, y: usize) -> Vec<(usize, usize)> {
    let rows = [0xF0u8, 0x90, 0x90, 0x90, 0xF0];
    let mut pixels = Vec::new();
    for dx in 0..8 {
        for (dy, row) in rows.iter().enumerate() {
            if row & (0x80 >> dx) != 0 && x + dx < 64 && y + dy < 32 {
                pixels.push((x + dx, y + dy));
            }
        }
    }
    pixels
}

#[test]
fn new_machine() {
    let chip = machine(&[0x12, 0x34]);
    assert_eq!(chip.pc(), 512);
    assert_eq!(chip.index(), 0);
    assert_eq!(chip.delay_timer(), 0);
    assert_eq!(chip.sound_timer(), 0);
    assert!(chip.stack().is_empty());
    for idx in 0..16 {
        assert_eq!(reg(&chip, idx), 0);
    }
    assert!(lit(&chip).is_empty());
    assert_eq!(chip.display().old_buffer, [[false; 32]; 64]);
    assert_eq!(chip.memory().read_u16(512), Ok(0x1234));
    assert_eq!(chip.memory().read_u8(0x50), Ok(0xF0));
    assert_eq!(*chip.args(), Args::default());
}

#[test]
fn new_rejects_a_program_that_does_not_fit() {
    let rom = vec![0u8; 3585];
    assert_eq!(
        Chip8::new(&rom, Args::default()).err(),
        Some(Error::OutOfBoundsAccess { address: 4096 })
    );
    assert!(Chip8::new(&rom[..3584], Args::default()).is_ok());
}

#[test]
fn add_with_carry() {
    let mut chip = machine(&[0x60, 250, 0x61, 10, 0x80, 0x14]);
    run(&mut chip, 3);
    assert_eq!(reg(&chip, 0), 4);
    assert_eq!(reg(&chip, 0xF), 1);
    assert_eq!(reg(&chip, 1), 10);
}

#[test]
fn add_without_carry() {
    let mut chip = machine(&[0x6F, 1, 0x60, 10, 0x61, 20, 0x80, 0x14]);
    run(&mut chip, 4);
    assert_eq!(reg(&chip, 0), 30);
    assert_eq!(reg(&chip, 0xF), 0);
}

#[test]
fn add_to_255_does_not_carry() {
    let mut chip = machine(&[0x60, 255, 0x61, 0, 0x80, 0x14, 0x61, 1, 0x80, 0x14]);
    run(&mut chip, 3);
    assert_eq!((reg(&chip, 0), reg(&chip, 0xF)), (255, 0));
    run(&mut chip, 2);
    assert_eq!((reg(&chip, 0), reg(&chip, 0xF)), (0, 1));
}

#[test]
fn add_into_flag_register_keeps_the_flag() {
    let mut chip = machine(&[0x6F, 5, 0x61, 3, 0x8F, 0x14]);
    run(&mut chip, 3);
    assert_eq!(reg(&chip, 0xF), 0);
}

#[test]
fn sub_without_borrow() {
    let mut chip = machine(&[0x60, 10, 0x61, 5, 0x80, 0x15]);
    run(&mut chip, 3);
    assert_eq!(reg(&chip, 0), 5);
    assert_eq!(reg(&chip, 0xF), 1);
}

#[test]
fn sub_with_borrow() {
    let mut chip = machine(&[0x6F, 1, 0x60, 5, 0x61, 10, 0x80, 0x15]);
    run(&mut chip, 4);
    assert_eq!(reg(&chip, 0), 251);
    assert_eq!(reg(&chip, 0xF), 0);
}

#[test]
fn sub_of_equal_values() {
    let mut chip = machine(&[0x60, 7, 0x61, 7, 0x80, 0x15]);
    run(&mut chip, 3);
    assert_eq!((reg(&chip, 0), reg(&chip, 0xF)), (0, 1));
}

#[test]
fn sub_opposite() {
    let mut chip = machine(&[0x60, 5, 0x61, 10, 0x80, 0x17]);
    run(&mut chip, 3);
    assert_eq!((reg(&chip, 0), reg(&chip, 1), reg(&chip, 0xF)), (5, 10, 1));

    let mut chip = machine(&[0x6F, 1, 0x60, 10, 0x61, 5, 0x80, 0x17]);
    run(&mut chip, 4);
    assert_eq!((reg(&chip, 0), reg(&chip, 1), reg(&chip, 0xF)), (251, 5, 0));
}

#[test]
fn shift_right_quirk() {
    let rom = [0x60, 0b0000_0101, 0x61, 0b0000_1000, 0x80, 0x16];

    let mut in_place = machine(&rom);
    run(&mut in_place, 3);
    assert_eq!(reg(&in_place, 0), 0b0000_0010);
    assert_eq!(reg(&in_place, 1), 0b0000_1000);
    assert_eq!(reg(&in_place, 0xF), 1);

    let mut copying = machine_with(
        &rom,
        Args {
            old_shift_behavior: true,
            ..Args::default()
        },
    );
    run(&mut copying, 3);
    assert_eq!(reg(&copying, 0), 0b0000_0100);
    assert_eq!(reg(&copying, 1), 0b0000_1000);
    assert_eq!(reg(&copying, 0xF), 0);

    assert_ne!(reg(&in_place, 0), reg(&copying, 0));
    assert_ne!(reg(&in_place, 0xF), reg(&copying, 0xF));
}

#[test]
fn shift_left_quirk() {
    let rom = [0x60, 0x81, 0x61, 0x40, 0x80, 0x1E];

    let mut in_place = machine(&rom);
    run(&mut in_place, 3);
    assert_eq!((reg(&in_place, 0), reg(&in_place, 0xF)), (0x02, 1));

    let mut copying = machine_with(
        &rom,
        Args {
            old_shift_behavior: true,
            ..Args::default()
        },
    );
    run(&mut copying, 3);
    assert_eq!((reg(&copying, 0), reg(&copying, 0xF)), (0x80, 0));
}

#[test]
fn shift_of_the_flag_register() {
    let mut chip = machine(&[0x6F, 3, 0x8F, 0x06]);
    run(&mut chip, 2);
    assert_eq!(reg(&chip, 0xF), 0);

    let mut chip = machine(&[0x6F, 0xC0, 0x8F, 0x0E]);
    run(&mut chip, 2);
    assert_eq!(reg(&chip, 0xF), 2);
}

#[test]
fn set_and_add_immediate() {
    let mut chip = machine(&[0x6A, 0xFF, 0x7A, 0x02, 0x7B, 0x07]);
    run(&mut chip, 1);
    assert_eq!(reg(&chip, 0xA), 0xFF);
    run(&mut chip, 1);
    assert_eq!(reg(&chip, 0xA), 0x01);
    assert_eq!(reg(&chip, 0xF), 0);
    run(&mut chip, 1);
    assert_eq!(reg(&chip, 0xB), 0x07);
    assert_eq!(chip.pc(), 518);
}

#[test]
fn register_logic() {
    let set = [0x60, 0b1100, 0x61, 0b1010];
    let ops: [(u8, u8); 4] = [(0x0, 0b1010), (0x1, 0b1110), (0x2, 0b1000), (0x3, 0b0110)];
    for (op, expected) in ops {
        let mut rom = set.to_vec();
        rom.extend_from_slice(&[0x80, 0x10 | op]);
        let mut chip = machine(&rom);
        run(&mut chip, 3);
        assert_eq!(reg(&chip, 0), expected, "8XY{op:X}");
        assert_eq!(reg(&chip, 1), 0b1010);
        assert_eq!(reg(&chip, 0xF), 0);
    }
}

#[test]
fn jump_sets_the_program_counter() {
    let mut chip = machine(&[0x1A, 0xBC]);
    run(&mut chip, 1);
    assert_eq!(chip.pc(), 0xABC);
}

#[test]
fn call_and_return() {
    let mut chip = machine(&[0x22, 0x06, 0x00, 0x00, 0x00, 0x00, 0x00, 0xEE]);
    run(&mut chip, 1);
    assert_eq!(chip.pc(), 0x206);
    assert_eq!(chip.stack(), &vec![0x202]);
    run(&mut chip, 1);
    assert_eq!(chip.pc(), 0x202);
    assert!(chip.stack().is_empty());
}

#[test]
fn nested_calls_return_in_reverse() {
    // 0x200: call 0x204; 0x204: call 0x208; 0x208: return
    let mut chip = machine(&[0x22, 0x04, 0x00, 0x00, 0x22, 0x08, 0x00, 0xEE, 0x00, 0xEE]);
    run(&mut chip, 2);
    assert_eq!(chip.stack(), &vec![0x202, 0x206]);
    assert_eq!(chip.pc(), 0x208);
    run(&mut chip, 1);
    assert_eq!(chip.pc(), 0x206);
    run(&mut chip, 1);
    assert_eq!(chip.pc(), 0x202);
    assert!(chip.stack().is_empty());
}

#[test]
fn call_stack_grows_past_sixteen() {
    // 0x200: call 0x200
    let mut chip = machine(&[0x22, 0x00]);
    run(&mut chip, 100);
    assert_eq!(chip.stack().len(), 100);
    assert!(chip.stack().iter().all(|pc| *pc == 0x202));
}

#[test]
fn return_with_empty_stack_fails() {
    let mut chip = machine(&[0x00, 0xEE]);
    assert_eq!(chip.step(&NO_KEYS), Err(Error::StackUnderflow));
    assert_eq!(chip.pc(), 514);
    assert!(chip.stack().is_empty());
}

#[test]
fn unknown_instruction_fails() {
    let mut chip = machine(&[0x51, 0x21]);
    assert_eq!(
        chip.step(&NO_KEYS),
        Err(Error::UnknownInstruction { word: 0x5121 })
    );
    assert_eq!(chip.pc(), 514);

    let mut chip = machine(&[]);
    assert_eq!(
        chip.fetch_and_decode(),
        Err(Error::UnknownInstruction { word: 0 })
    );
}

#[test]
fn fetch_beyond_memory_fails() {
    let mut chip = machine(&[0x1F, 0xFF]);
    run(&mut chip, 1);
    assert_eq!(
        chip.step(&NO_KEYS),
        Err(Error::OutOfBoundsAccess { address: 4096 })
    );
    assert_eq!(chip.pc(), 0xFFF);
}

#[test]
fn fetch_and_decode_advances() {
    let mut chip = machine(&[0x61, 0xFF, 0xD0, 0x15]);
    assert_eq!(
        chip.fetch_and_decode(),
        Ok(Instruction::SetIm(RegIdx::new(1), 255))
    );
    assert_eq!(chip.pc(), 514);
    assert_eq!(reg(&chip, 1), 0);
    assert_eq!(
        chip.fetch_and_decode(),
        Ok(Instruction::Draw(RegIdx::new(0), RegIdx::new(1), 5))
    );
    assert_eq!(chip.pc(), 516);
}

#[test]
fn last_word_of_memory_can_be_fetched() {
    // 0x200: jump 0xFFE, where the zero word encodes nothing
    let mut chip = machine(&[0x1F, 0xFE]);
    run(&mut chip, 1);
    assert_eq!(
        chip.step(&NO_KEYS),
        Err(Error::UnknownInstruction { word: 0 })
    );
    assert_eq!(chip.pc(), 4096);
}

#[test]
fn skip_on_immediate() {
    let cases: [(u8, u8, u8, u16); 4] = [
        (0x30, 7, 7, 518),
        (0x30, 7, 8, 516),
        (0x40, 7, 7, 516),
        (0x40, 7, 8, 518),
    ];
    for (op, value, operand, pc) in cases {
        let mut chip = machine(&[0x60, value, op, operand]);
        run(&mut chip, 2);
        assert_eq!(chip.pc(), pc, "{op:02x} {value} {operand}");
    }
}

#[test]
fn skip_on_registers() {
    let cases: [(u8, u8, u8, u16); 4] = [
        (0x50, 7, 7, 520),
        (0x50, 7, 8, 518),
        (0x90, 7, 7, 518),
        (0x90, 7, 8, 520),
    ];
    for (op, x, y, pc) in cases {
        let mut chip = machine(&[0x60, x, 0x61, y, op, 0x10]);
        run(&mut chip, 3);
        assert_eq!(chip.pc(), pc, "{op:02x} {x} {y}");
    }
}

#[test]
fn jump_with_offset_quirk() {
    let rom = [0x60, 0x10, 0x63, 0x20, 0xB3, 0x00];

    let mut from_v0 = machine(&rom);
    run(&mut from_v0, 3);
    assert_eq!(from_v0.pc(), 0x310);

    let mut from_vx = machine_with(
        &rom,
        Args {
            new_jump_behavior: true,
            ..Args::default()
        },
    );
    run(&mut from_vx, 3);
    assert_eq!(from_vx.pc(), 0x320);
}

#[test]
fn jump_with_offset_may_leave_memory() {
    let mut chip = machine(&[0x60, 0xFF, 0xBF, 0xFF]);
    run(&mut chip, 2);
    assert_eq!(chip.pc(), 0xFFF + 0xFF);
    assert_eq!(
        chip.step(&NO_KEYS),
        Err(Error::OutOfBoundsAccess { address: 0xFFF + 0xFF })
    );
}

#[test]
fn random_is_masked() {
    let mut chip = machine(&[0x60, 0xFF, 0xC0, 0x00]);
    run(&mut chip, 2);
    assert_eq!(reg(&chip, 0), 0);

    // 0x200: V0 = random & 0x0F; 0x202: jump 0x200
    let mut chip = machine(&[0xC0, 0x0F, 0x12, 0x00]);
    let mut seen = [false; 16];
    for _ in 0..2000 {
        run(&mut chip, 2);
        assert!(reg(&chip, 0) <= 0x0F);
        seen[reg(&chip, 0) as usize] = true;
    }
    assert!(seen.iter().filter(|s| **s).count() > 1);
}

#[test]
fn execute_uses_the_random_byte_it_is_given() {
    let mut chip = machine(&[]);
    let inst = Instruction::RandAnd(RegIdx::new(4), 0xF0);
    assert_eq!(chip.execute(inst, &NO_KEYS, 0xAB), Ok(false));
    assert_eq!(reg(&chip, 4), 0xA0);
    assert_eq!(chip.execute(inst, &NO_KEYS, 0x5F), Ok(false));
    assert_eq!(reg(&chip, 4), 0x50);
    assert_eq!(chip.pc(), 512);

    let add = Instruction::AddIm(RegIdx::new(4), 1);
    assert_eq!(chip.execute(add, &NO_KEYS, 0xFF), Ok(false));
    assert_eq!(reg(&chip, 4), 0x51);
}

#[test]
fn timers_are_set_and_read() {
    let mut chip = machine(&[0x60, 33, 0xF0, 0x15, 0x60, 44, 0xF0, 0x18, 0xF1, 0x07]);
    run(&mut chip, 5);
    assert_eq!(chip.delay_timer(), 33);
    assert_eq!(chip.sound_timer(), 44);
    assert_eq!(reg(&chip, 1), 33);
}

#[test]
fn set_index_and_add_index() {
    let rom = [0xAF, 0xFE, 0x60, 0x04, 0xF0, 0x1E];

    let mut plain = machine(&rom);
    run(&mut plain, 1);
    assert_eq!(plain.index(), 0xFFE);
    run(&mut plain, 2);
    assert_eq!(plain.index(), 0x1002);
    assert_eq!(reg(&plain, 0xF), 0);

    let mut flagging = machine_with(
        &rom,
        Args {
            index_overflow: true,
            ..Args::default()
        },
    );
    run(&mut flagging, 3);
    assert_eq!(flagging.index(), 0x1002);
    assert_eq!(reg(&flagging, 0xF), 1);
}

#[test]
fn add_index_below_the_end_of_memory_sets_no_flag() {
    let mut chip = machine_with(
        &[0xAF, 0xFE, 0x60, 0x01, 0xF0, 0x1E, 0xF0, 0x1E],
        Args {
            index_overflow: true,
            ..Args::default()
        },
    );
    run(&mut chip, 3);
    assert_eq!(chip.index(), 0xFFF);
    assert_eq!(reg(&chip, 0xF), 0);
    run(&mut chip, 1);
    assert_eq!(chip.index(), 0x1000);
    assert_eq!(reg(&chip, 0xF), 1);
}

#[test]
fn add_index_wraps_at_sixteen_bits() {
    // 0x200: V0 = 255; 0x202: index += V0; 0x204: jump 0x202
    let mut chip = machine_with(
        &[0x60, 0xFF, 0xF0, 0x1E, 0x12, 0x02],
        Args {
            index_overflow: true,
            ..Args::default()
        },
    );
    run(&mut chip, 1 + 2 * 257);
    assert_eq!(chip.index(), 65535);
    assert_eq!(reg(&chip, 0xF), 1);
    run(&mut chip, 1);
    assert_eq!(chip.index(), 254);
}

#[test]
fn index_character() {
    for (value, index) in [(0x00u8, 0x50u16), (0x01, 0x55), (0x0F, 0x9B), (0x1A, 0x82), (0xFF, 0x9B)] {
        let mut chip = machine(&[0x60, value, 0xF0, 0x29]);
        run(&mut chip, 2);
        assert_eq!(chip.index(), index, "{value:02x}");
    }
}

#[test]
fn bcd() {
    for (value, digits) in [(234u8, [2u8, 3, 4]), (7, [0, 0, 7]), (255, [2, 5, 5]), (100, [1, 0, 0]), (0, [0, 0, 0])] {
        let mut chip = machine(&[0x60, value, 0xA3, 0x00, 0xF0, 0x33]);
        run(&mut chip, 3);
        for (offset, digit) in digits.iter().enumerate() {
            assert_eq!(chip.memory().read_u8(0x300 + offset as u16), Ok(*digit));
        }
        assert_eq!(chip.memory().read_u8(0x2FF), Ok(0));
        assert_eq!(chip.memory().read_u8(0x303), Ok(0));
        assert_eq!(chip.index(), 0x300);
    }
}

#[test]
fn bcd_at_the_end_of_memory() {
    let mut chip = machine(&[0x60, 234, 0xAF, 0xFD, 0xF0, 0x33]);
    run(&mut chip, 3);
    assert_eq!(chip.memory().read_u8(4093), Ok(2));
    assert_eq!(chip.memory().read_u8(4094), Ok(3));
    assert_eq!(chip.memory().read_u8(4095), Ok(4));

    let mut chip = machine(&[0x60, 234, 0xAF, 0xFE, 0xF0, 0x33]);
    run(&mut chip, 2);
    assert_eq!(
        chip.step(&NO_KEYS),
        Err(Error::OutOfBoundsAccess { address: 4096 })
    );
    assert_eq!(chip.memory().read_u8(4094), Ok(2));
    assert_eq!(chip.memory().read_u8(4095), Ok(3));
}

#[test]
fn bcd_beyond_memory_fails_at_the_index() {
    // index = 0xFFF + 0xFF
    let mut chip = machine(&[0x60, 0xFF, 0xAF, 0xFF, 0xF0, 0x1E, 0xF0, 0x33]);
    run(&mut chip, 3);
    assert_eq!(
        chip.step(&NO_KEYS),
        Err(Error::OutOfBoundsAccess { address: 0xFFF + 0xFF })
    );
}

#[test]
fn store_and_load_registers() {
    // V0..V3 = 11, 22, 33, 44; index = 0x300; store V0..V2;
    // V0..V3 = 0; load V0..V1
    let rom = [
        0x60, 11, 0x61, 22, 0x62, 33, 0x63, 44, 0xA3, 0x00, 0xF2, 0x55, 0x60, 0, 0x61, 0, 0x62, 0,
        0x63, 0, 0xF1, 0x65,
    ];
    let mut chip = machine(&rom);
    run(&mut chip, 6);
    assert_eq!(chip.memory().read_u8(0x300), Ok(11));
    assert_eq!(chip.memory().read_u8(0x301), Ok(22));
    assert_eq!(chip.memory().read_u8(0x302), Ok(33));
    assert_eq!(chip.memory().read_u8(0x303), Ok(0));
    assert_eq!(chip.index(), 0x300);
    run(&mut chip, 5);
    assert_eq!(reg(&chip, 0), 11);
    assert_eq!(reg(&chip, 1), 22);
    assert_eq!(reg(&chip, 2), 0);
    assert_eq!(reg(&chip, 3), 0);
    assert_eq!(chip.index(), 0x300);
}

#[test]
fn store_and_load_quirk_moves_the_index() {
    let rom = [0x60, 11, 0x61, 22, 0x62, 33, 0xA3, 0x00, 0xF2, 0x55, 0xF1, 0x65];
    let mut chip = machine_with(
        &rom,
        Args {
            old_store_load_behavior: true,
            ..Args::default()
        },
    );
    run(&mut chip, 5);
    assert_eq!(chip.index(), 0x303);
    assert_eq!(chip.memory().read_u8(0x302), Ok(33));
    run(&mut chip, 1);
    assert_eq!(chip.index(), 0x305);
    assert_eq!(reg(&chip, 0), 0);
    assert_eq!(reg(&chip, 1), 0);
    assert_eq!(reg(&chip, 2), 33);
}

#[test]
fn store_all_registers() {
    let mut rom = Vec::new();
    for idx in 0..16u8 {
        rom.extend_from_slice(&[0x60 | idx, 0xA0 + idx]);
    }
    rom.extend_from_slice(&[0xAF, 0xF0, 0xFF, 0x55]);
    let mut chip = machine(&rom);
    run(&mut chip, 18);
    for idx in 0..16u16 {
        assert_eq!(chip.memory().read_u8(0xFF0 + idx), Ok(0xA0 + idx as u8));
    }
}

#[test]
fn store_beyond_memory_fails() {
    let rom = [0x60, 11, 0x61, 22, 0x62, 33, 0xAF, 0xFE, 0xF2, 0x55];
    let mut chip = machine_with(
        &rom,
        Args {
            old_store_load_behavior: true,
            ..Args::default()
        },
    );
    run(&mut chip, 4);
    assert_eq!(
        chip.step(&NO_KEYS),
        Err(Error::OutOfBoundsAccess { address: 4096 })
    );
    assert_eq!(chip.memory().read_u8(4094), Ok(11));
    assert_eq!(chip.memory().read_u8(4095), Ok(22));
    assert_eq!(chip.index(), 0xFFE);
}

#[test]
fn load_beyond_memory_fails() {
    // memory[4094..] = 2, 3 by BCD of 23 at 4093; then load V0..V3 at 4094
    let rom = [
        0x60, 23, 0xAF, 0xFD, 0xF0, 0x33, 0x60, 9, 0x61, 9, 0x62, 9, 0x63, 9, 0xAF, 0xFE, 0xF3,
        0x65,
    ];
    let mut chip = machine(&rom);
    run(&mut chip, 8);
    assert_eq!(
        chip.step(&NO_KEYS),
        Err(Error::OutOfBoundsAccess { address: 4096 })
    );
    assert_eq!(reg(&chip, 0), 2);
    assert_eq!(reg(&chip, 1), 3);
    assert_eq!(reg(&chip, 2), 9);
    assert_eq!(reg(&chip, 3), 9);
    assert_eq!(chip.index(), 0xFFE);
}

#[test]
fn draw_glyph() {
    // index = glyph 0; draw 5 rows at (V0, V1) = (3, 4)
    let mut chip = machine(&[0x60, 3, 0x61, 4, 0xA0, 0x50, 0xD0, 0x15]);
    run(&mut chip, 3);
    assert_eq!(chip.step(&NO_KEYS), Ok(true));
    assert_eq!(lit(&chip), glyph_zero(3, 4));
    assert_eq!(lit(&chip).len(), 14);
    assert_eq!(reg(&chip, 0xF), 0);
    assert_eq!(chip.display().old_buffer, chip.display().buffer);
    assert_eq!(chip.pc(), 520);
}

#[test]
fn draw_twice_restores_and_collides() {
    let mut chip = machine(&[0x60, 3, 0x61, 4, 0xA0, 0x50, 0xD0, 0x15, 0xD0, 0x15]);
    run(&mut chip, 3);
    assert_eq!(chip.step(&NO_KEYS), Ok(true));
    assert_eq!(reg(&chip, 0xF), 0);
    assert!(!lit(&chip).is_empty());
    assert_eq!(chip.step(&NO_KEYS), Ok(true));
    assert_eq!(reg(&chip, 0xF), 1);
    assert!(lit(&chip).is_empty());
    assert_eq!(chip.display().old_buffer, [[false; 32]; 64]);
}

#[test]
fn draw_resets_the_flag() {
    // the second sprite lies beside the first
    let mut chip = machine(&[
        0xA0, 0x50, 0xD0, 0x05, 0xD0, 0x05, 0xD0, 0x05, 0x60, 8, 0xD0, 0x15,
    ]);
    run(&mut chip, 1);
    assert_eq!(chip.step(&NO_KEYS), Ok(true));
    assert_eq!(chip.step(&NO_KEYS), Ok(true));
    assert_eq!(reg(&chip, 0xF), 1);
    assert_eq!(chip.step(&NO_KEYS), Ok(true));
    assert_eq!(reg(&chip, 0xF), 0);
    run(&mut chip, 1);
    assert_eq!(chip.step(&NO_KEYS), Ok(true));
    assert_eq!(reg(&chip, 0xF), 0);
    let mut expected = glyph_zero(0, 0);
    expected.extend(glyph_zero(8, 0));
    expected.sort();
    assert_eq!(lit(&chip), expected);
}

#[test]
fn draw_wraps_the_origin() {
    let mut chip = machine(&[0x60, 64 + 2, 0x61, 32 + 1, 0xA0, 0x50, 0xD0, 0x15]);
    run(&mut chip, 3);
    assert_eq!(chip.step(&NO_KEYS), Ok(true));
    assert_eq!(lit(&chip), glyph_zero(2, 1));
}

#[test]
fn draw_clips_at_the_edges() {
    let mut chip = machine(&[0x60, 62, 0x61, 30, 0xA0, 0x50, 0xD0, 0x15]);
    run(&mut chip, 3);
    assert_eq!(chip.step(&NO_KEYS), Ok(true));
    assert_eq!(lit(&chip), vec![(62, 30), (62, 31), (63, 30)]);
    assert_eq!(reg(&chip, 0xF), 0);
}

#[test]
fn draw_of_no_rows_presents_the_frame() {
    let mut chip = machine(&[0x6F, 1, 0xA0, 0x50, 0xD0, 0x00]);
    run(&mut chip, 2);
    assert_eq!(chip.step(&NO_KEYS), Ok(true));
    assert!(lit(&chip).is_empty());
    assert_eq!(reg(&chip, 0xF), 0);
}

#[test]
fn draw_at_the_flag_register_uses_its_old_value() {
    let mut chip = machine(&[0x6F, 9, 0x61, 2, 0xA0, 0x50, 0xDF, 0x15]);
    run(&mut chip, 3);
    assert_eq!(chip.step(&NO_KEYS), Ok(true));
    assert_eq!(lit(&chip), glyph_zero(9, 2));
    assert_eq!(reg(&chip, 0xF), 0);
}

#[test]
fn draw_beyond_memory_fails() {
    // memory[4094..] = 0xF0 0x90 by storing V0, V1; then draw 3 rows at 4094
    let rom = [0x60, 0xF0, 0x61, 0x90, 0xAF, 0xFE, 0xF1, 0x55, 0x60, 0, 0x61, 0, 0xD0, 0x13];
    let mut chip = machine(&rom);
    run(&mut chip, 6);
    assert_eq!(
        chip.step(&NO_KEYS),
        Err(Error::OutOfBoundsAccess { address: 4096 })
    );
    assert_eq!(
        lit(&chip),
        vec![(0, 0), (0, 1), (1, 0), (2, 0), (3, 0), (3, 1)]
    );
    assert_eq!(chip.display().old_buffer, [[false; 32]; 64]);
    assert_eq!(reg(&chip, 0xF), 0);
}

#[test]
fn clear_screen() {
    let mut chip = machine(&[0xA0, 0x50, 0xD0, 0x05, 0x00, 0xE0]);
    run(&mut chip, 1);
    assert_eq!(chip.step(&NO_KEYS), Ok(true));
    assert!(!lit(&chip).is_empty());
    assert_eq!(chip.step(&NO_KEYS), Ok(true));
    assert!(lit(&chip).is_empty());
    assert_eq!(chip.display().old_buffer, [[false; 32]; 64]);
}

#[test]
fn get_key_waits_for_a_key() {
    let mut chip = machine(&[0xF3, 0x0A]);
    for _ in 0..5 {
        assert_eq!(chip.step(&NO_KEYS), Ok(false));
        assert_eq!(chip.pc(), 512);
        assert_eq!(reg(&chip, 3), 0);
    }
    let mut keys = NO_KEYS;
    keys[7] = true;
    keys[3] = true;
    keys[12] = true;
    assert_eq!(chip.step(&keys), Ok(false));
    assert_eq!(chip.pc(), 514);
    assert_eq!(reg(&chip, 3), 3);
}

#[test]
fn get_key_takes_the_lowest_key() {
    for lowest in 0..16usize {
        let mut keys = NO_KEYS;
        for key in lowest..16 {
            keys[key] = true;
        }
        let mut chip = machine(&[0x6A, 0xFF, 0xFA, 0x0A]);
        run(&mut chip, 1);
        assert_eq!(chip.step(&keys), Ok(false));
        assert_eq!(reg(&chip, 0xA), lowest as u8);
        assert_eq!(chip.pc(), 516);
    }
}

#[test]
fn first_held_key_is_the_lowest() {
    assert_eq!(first_held_key(&NO_KEYS), None);
    let mut keys = NO_KEYS;
    keys[15] = true;
    assert_eq!(first_held_key(&keys), Some(15));
    keys[4] = true;
    assert_eq!(first_held_key(&keys), Some(4));
    keys[0] = true;
    assert_eq!(first_held_key(&keys), Some(0));
}

#[test]
fn skip_on_key() {
    let mut keys = NO_KEYS;
    keys[5] = true;
    let cases: [(u8, u8, u16); 4] = [
        (0x9E, 5, 518),
        (0x9E, 6, 516),
        (0xA1, 5, 516),
        (0xA1, 6, 518),
    ];
    for (op, key, pc) in cases {
        let mut chip = machine(&[0x60, key, 0xE0, op]);
        assert_eq!(chip.step(&keys), Ok(false));
        assert_eq!(chip.step(&keys), Ok(false));
        assert_eq!(chip.pc(), pc, "{op:02x} {key}");
    }
}

#[test]
fn a_number_above_fifteen_names_no_held_key() {
    let keys = [true; 16];
    for (op, key, pc) in [(0x9Eu8, 16u8, 516u16), (0x9E, 200, 516), (0xA1, 16, 518), (0xA1, 255, 518)] {
        let mut chip = machine(&[0x60, key, 0xE0, op]);
        assert_eq!(chip.step(&keys), Ok(false));
        assert_eq!(chip.step(&keys), Ok(false));
        assert_eq!(chip.pc(), pc, "{op:02x} {key}");
    }
}

fn with_timers(delay: u8, sound: u8) -> Chip8 {
    let mut chip = machine(&[0x60, delay, 0xF0, 0x15, 0x60, sound, 0xF0, 0x18]);
    run(&mut chip, 4);
    chip
}

#[test]
fn timers_count_down_once_per_period() {
    let mut chip = with_timers(10, 5);
    assert!(chip.tick_timers(16));
    assert_eq!((chip.delay_timer(), chip.sound_timer()), (9, 4));
}

#[test]
fn timers_wait_for_a_whole_period() {
    let mut chip = with_timers(10, 5);
    for elapsed in [0u128, 1, 15] {
        assert!(!chip.tick_timers(elapsed));
        assert_eq!((chip.delay_timer(), chip.sound_timer()), (10, 5));
    }
}

#[test]
fn timers_count_whole_periods() {
    let mut chip = with_timers(10, 5);
    assert!(chip.tick_timers(3 * 16));
    assert_eq!((chip.delay_timer(), chip.sound_timer()), (7, 2));
    assert!(chip.tick_timers(47));
    assert_eq!((chip.delay_timer(), chip.sound_timer()), (5, 0));
    assert!(chip.tick_timers(31));
    assert_eq!((chip.delay_timer(), chip.sound_timer()), (4, 0));
}

#[test]
fn timers_stop_at_zero() {
    let mut chip = with_timers(10, 5);
    assert!(chip.tick_timers(7 * 16));
    assert_eq!((chip.delay_timer(), chip.sound_timer()), (3, 0));
    assert!(chip.tick_timers(3 * 16));
    assert_eq!((chip.delay_timer(), chip.sound_timer()), (0, 0));
    assert!(chip.tick_timers(16));
    assert_eq!((chip.delay_timer(), chip.sound_timer()), (0, 0));
}

#[test]
fn timers_after_very_long_times() {
    for elapsed in [255 * 16u128, 256 * 16, 257 * 16, 300 * 16, u128::MAX] {
        let mut chip = with_timers(255, 200);
        assert!(chip.tick_timers(elapsed));
        assert_eq!((chip.delay_timer(), chip.sound_timer()), (0, 0));
    }
    let mut chip = with_timers(255, 200);
    assert!(chip.tick_timers(254 * 16));
    assert_eq!((chip.delay_timer(), chip.sound_timer()), (1, 0));
}

#[test]
fn timers_follow_the_configured_period() {
    let mut chip = machine_with(
        &[0x60, 10, 0xF0, 0x15],
        Args {
            timer_period: 100,
            ..Args::default()
        },
    );
    run(&mut chip, 2);
    assert!(!chip.tick_timers(99));
    assert_eq!(chip.delay_timer(), 10);
    assert!(chip.tick_timers(100));
    assert_eq!(chip.delay_timer(), 9);
    assert!(chip.tick_timers(250));
    assert_eq!(chip.delay_timer(), 7);
}

#[test]
fn tick_presents_the_frame() {
    let mut chip = machine(&[]);
    // draw without presenting: an instruction that faults does not present
    let draw = Instruction::Draw(RegIdx::new(0), RegIdx::new(0), 1);
    let set = Instruction::SetIndex(0x50);
    assert_eq!(chip.execute(set, &NO_KEYS, 0), Ok(false));
    assert_eq!(chip.execute(draw, &NO_KEYS, 0), Ok(true));
    assert_eq!(chip.display().old_buffer, chip.display().buffer);
    assert!(chip.tick_timers(16));
    assert_eq!(chip.display().old_buffer, chip.display().buffer);
    assert_eq!(lit(&chip), vec![(0, 0), (1, 0), (2, 0), (3, 0)]);
}

#[test]
fn cycle_reports_what_to_do() {
    // V0 = 2; sound = V0; draw; jump to self
    let mut chip = machine(&[0x60, 2, 0xF0, 0x18, 0xD0, 0x01, 0x12, 0x06]);
    assert_eq!(
        chip.cycle(&NO_KEYS, 0),
        Ok(Cycle {
            present: false,
            timers_ticked: false,
            tone: false
        })
    );
    assert_eq!(
        chip.cycle(&NO_KEYS, 5),
        Ok(Cycle {
            present: false,
            timers_ticked: false,
            tone: true
        })
    );
    assert_eq!(
        chip.cycle(&NO_KEYS, 10),
        Ok(Cycle {
            present: true,
            timers_ticked: false,
            tone: true
        })
    );
    assert_eq!(
        chip.cycle(&NO_KEYS, 16),
        Ok(Cycle {
            present: true,
            timers_ticked: true,
            tone: true
        })
    );
    assert_eq!(chip.sound_timer(), 1);
    assert_eq!(
        chip.cycle(&NO_KEYS, 17),
        Ok(Cycle {
            present: true,
            timers_ticked: true,
            tone: false
        })
    );
    assert_eq!(chip.sound_timer(), 0);
    assert_eq!(chip.pc(), 0x206);
}

#[test]
fn cycle_stops_on_a_fault_before_the_timers() {
    // delay = 9; then a word that encodes nothing
    let mut chip = machine(&[0x60, 9, 0xF0, 0x15, 0xFF, 0xFF]);
    assert!(chip.cycle(&NO_KEYS, 0).is_ok());
    assert!(chip.cycle(&NO_KEYS, 0).is_ok());
    assert_eq!(
        chip.cycle(&NO_KEYS, 1000),
        Err(Error::UnknownInstruction { word: 0xFFFF })
    );
    assert_eq!(chip.delay_timer(), 9);
}

#[test]
fn cycle_passes_keys_on() {
    let mut chip = machine(&[0xF0, 0x0A]);
    assert!(chip.cycle(&NO_KEYS, 0).is_ok());
    assert_eq!(chip.pc(), 512);
    let mut keys = NO_KEYS;
    keys[9] = true;
    assert!(chip.cycle(&keys, 0).is_ok());
    assert_eq!(chip.pc(), 514);
    assert_eq!(reg(&chip, 0), 9);
}
