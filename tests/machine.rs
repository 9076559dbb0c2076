use chip8::font::FONT_SET;
use chip8::instruction::{decode, Instruction};
use chip8::machine::LoadError;
use chip8::state::{Fault, Step};
use chip8::Chip8;

fn machine_with(rom: &[u8]) -> Chip8 {
    let mut chip = Chip8::new();
    chip.load(rom).unwrap();
    chip
}

fn run(chip: &mut Chip8, cycles: usize) {
    for _ in 0..cycles {
        assert_eq!(chip.emulate_cycle_with(0), Ok(Step::Executed));
    }
}

#[test]
fn new_machine_holds_font_and_zeroes() {
    let chip = Chip8::new();
    assert_eq!(chip.program_counter(), 0x200);
    assert_eq!(chip.index_register(), 0);
    assert_eq!(chip.stack_pointer(), 0);
    assert_eq!(chip.delay_timer(), 0);
    assert_eq!(chip.sound_timer(), 0);
    assert!(!chip.draw_flag());
    for k in 0..80 {
        assert_eq!(chip.memory_byte(k), FONT_SET[k]);
    }
    for k in 80..4096 {
        assert_eq!(chip.memory_byte(k), 0);
    }
    for x in 0..16 {
        assert_eq!(chip.register(x), 0);
        assert!(!chip.key_pressed(x));
    }
    assert!(chip.framebuffer().iter().all(|&c| c == 0));
}

#[test]
fn set_immediate_then_read_register() {
    let mut chip = machine_with(&[0x6A, 0x2B, 0x63, 0xFF]);
    run(&mut chip, 1);
    assert_eq!(chip.register(0xA), 0x2B);
    assert_eq!(chip.program_counter(), 0x202);
    run(&mut chip, 1);
    assert_eq!(chip.register(3), 0xFF);
    assert_eq!(chip.program_counter(), 0x204);
}

#[test]
fn add_registers_with_carry() {
    let mut chip = machine_with(&[0x60, 200, 0x61, 100, 0x80, 0x14]);
    run(&mut chip, 3);
    assert_eq!(chip.register(0), 44);
    assert_eq!(chip.register(0xF), 1);
    assert_eq!(chip.register(1), 100);
}

#[test]
fn add_registers_without_carry() {
    let mut chip = machine_with(&[0x60, 100, 0x61, 155, 0x6F, 7, 0x80, 0x14]);
    run(&mut chip, 4);
    assert_eq!(chip.register(0), 255);
    assert_eq!(chip.register(0xF), 0);
}

#[test]
fn sub_registers_without_borrow() {
    let mut chip = machine_with(&[0x60, 50, 0x61, 50, 0x80, 0x15]);
    run(&mut chip, 3);
    assert_eq!(chip.register(0), 0);
    assert_eq!(chip.register(0xF), 1);
}

#[test]
fn sub_registers_with_borrow() {
    let mut chip = machine_with(&[0x60, 10, 0x61, 20, 0x80, 0x15]);
    run(&mut chip, 3);
    assert_eq!(chip.register(0), 246);
    assert_eq!(chip.register(0xF), 0);
}

#[test]
fn sub_reversed_and_shifts() {
    let mut chip = machine_with(&[
        0x60, 10, 0x61, 20, 0x80, 0x17, // V0 = 20 - 10
        0x62, 0x81, 0x82, 0x06, // V2 = 0x81 >> 1
        0x63, 0x81, 0x83, 0x0E, // V3 = 0x81 << 1
    ]);
    run(&mut chip, 3);
    assert_eq!(chip.register(0), 10);
    assert_eq!(chip.register(0xF), 1);
    run(&mut chip, 2);
    assert_eq!(chip.register(2), 0x40);
    assert_eq!(chip.register(0xF), 1);
    run(&mut chip, 2);
    assert_eq!(chip.register(3), 0x02);
    assert_eq!(chip.register(0xF), 1);
}

#[test]
fn logic_and_add_immediate() {
    let mut chip = machine_with(&[
        0x60, 0xF0, 0x61, 0x3C, 0x82, 0x00, // V2 = V0
        0x82, 0x11, // V2 |= V1
        0x83, 0x00, 0x83, 0x12, // V3 = V0 & V1
        0x84, 0x00, 0x84, 0x13, // V4 = V0 ^ V1
        0x70, 0x20, // V0 += 0x20, wrapping
    ]);
    run(&mut chip, 9);
    assert_eq!(chip.register(2), 0xFC);
    assert_eq!(chip.register(3), 0x30);
    assert_eq!(chip.register(4), 0xCC);
    assert_eq!(chip.register(0), 0x10);
    assert_eq!(chip.register(0xF), 0);
}

#[test]
fn call_then_return_comes_back() {
    let mut chip = machine_with(&[0x22, 0x06, 0x00, 0x00, 0x00, 0x00, 0x00, 0xEE]);
    run(&mut chip, 1);
    assert_eq!(chip.program_counter(), 0x206);
    assert_eq!(chip.stack_pointer(), 1);
    run(&mut chip, 1);
    assert_eq!(chip.program_counter(), 0x202);
    assert_eq!(chip.stack_pointer(), 0);
}

#[test]
fn clear_screen_turns_every_cell_off() {
    let mut chip = machine_with(&[0x60, 0x0F, 0xF0, 0x29, 0xD1, 0x15, 0x00, 0xE0]);
    run(&mut chip, 3);
    assert!(chip.framebuffer().iter().any(|&c| c == 1));
    assert!(chip.consume_redraw());
    assert!(!chip.draw_flag());
    run(&mut chip, 1);
    assert_eq!(chip.framebuffer().len(), 2048);
    assert!(chip.framebuffer().iter().all(|&c| c == 0));
    assert!(chip.draw_flag());
    assert_eq!(chip.program_counter(), 0x208);
}

#[test]
fn draw_font_glyph_eight() {
    let mut chip = machine_with(&[0x60, 0x08, 0xF0, 0x29, 0x61, 0x00, 0x62, 0x00, 0xD1, 0x25]);
    run(&mut chip, 2);
    assert_eq!(chip.index_register(), 40);
    run(&mut chip, 3);
    assert_eq!(chip.register(0xF), 0);
    assert!(chip.draw_flag());
    let rows: [u8; 5] = [0xF0, 0x90, 0xF0, 0x90, 0xF0];
    let gfx = chip.framebuffer();
    for row in 0..32 {
        for col in 0..64 {
            let lit = row < 5 && col < 8 && rows[row] & (0x80 >> col) != 0;
            assert_eq!(gfx[row * 64 + col], if lit { 1 } else { 0 }, "row {} col {}", row, col);
        }
    }
}

#[test]
fn draw_twice_erases_and_reports_collision() {
    let mut chip = machine_with(&[0xA0, 0x00, 0xD0, 0x05, 0xD0, 0x05]);
    run(&mut chip, 2);
    assert_eq!(chip.register(0xF), 0);
    run(&mut chip, 1);
    assert_eq!(chip.register(0xF), 1);
    assert!(chip.framebuffer().iter().all(|&c| c == 0));
}

#[test]
fn draw_wraps_linearly() {
    // A full row of eight pixels at x = 62 runs on into the next row.
    let mut chip = machine_with(&[0x60, 62, 0x61, 0, 0xA2, 0x0A, 0xD0, 0x11, 0x12, 0x0E, 0xFF]);
    run(&mut chip, 4);
    let gfx = chip.framebuffer();
    for k in 0..2048 {
        let lit = (62..70).contains(&k);
        assert_eq!(gfx[k], if lit { 1 } else { 0 }, "cell {}", k);
    }
}

#[test]
fn draw_wraps_from_bottom_to_top() {
    let mut chip = machine_with(&[0x60, 0, 0x61, 31, 0xA2, 0x0A, 0xD0, 0x12, 0x12, 0x0E, 0x80, 0x80]);
    run(&mut chip, 4);
    let gfx = chip.framebuffer();
    assert_eq!(gfx[31 * 64], 1);
    assert_eq!(gfx[0], 1);
    assert_eq!(gfx.iter().filter(|&&c| c == 1).count(), 2);
}

#[test]
fn oversized_rom_is_refused() {
    let mut chip = Chip8::new();
    let rom = vec![0xAB; 3585];
    assert_eq!(chip.load(&rom), Err(LoadError::RomTooLarge { len: 3585, capacity: 3584 }));
    for k in 0..80 {
        assert_eq!(chip.memory_byte(k), FONT_SET[k]);
    }
    for k in 80..4096 {
        assert_eq!(chip.memory_byte(k), 0);
    }
}

#[test]
fn largest_rom_fits() {
    let mut chip = Chip8::new();
    let rom: Vec<u8> = (0..3584).map(|k| (k % 251) as u8).collect();
    assert_eq!(chip.load(&rom), Ok(()));
    for k in 0..3584 {
        assert_eq!(chip.memory_byte(0x200 + k), (k % 251) as u8);
    }
    for k in 0..80 {
        assert_eq!(chip.memory_byte(k), FONT_SET[k]);
    }
    assert_eq!(chip.program_counter(), 0x200);
}

#[test]
fn store_registers_excludes_vx() {
    let mut chip = machine_with(&[
        0x60, 1, 0x61, 2, 0x62, 3, 0x63, 4, 0xA3, 0x00, 0xF3, 0x55,
    ]);
    run(&mut chip, 6);
    assert_eq!(chip.memory_byte(0x300), 1);
    assert_eq!(chip.memory_byte(0x301), 2);
    assert_eq!(chip.memory_byte(0x302), 3);
    assert_eq!(chip.memory_byte(0x303), 0);
    assert_eq!(chip.index_register(), 0x304);
}

#[test]
fn load_registers_includes_vx() {
    let mut chip = machine_with(&[0xA2, 0x06, 0xF3, 0x65, 0x00, 0x00, 9, 8, 7, 6, 5]);
    run(&mut chip, 2);
    assert_eq!(chip.register(0), 9);
    assert_eq!(chip.register(1), 8);
    assert_eq!(chip.register(2), 7);
    assert_eq!(chip.register(3), 6);
    assert_eq!(chip.register(4), 0);
    assert_eq!(chip.index_register(), 0x20A);
}

#[test]
fn unknown_opcode_changes_nothing_but_timers() {
    let mut chip = machine_with(&[0x60, 5, 0xF0, 0x15, 0x51, 0x21]);
    run(&mut chip, 2);
    assert_eq!(chip.delay_timer(), 4);
    let before: Vec<u8> = (0..4096).map(|k| chip.memory_byte(k)).collect();
    assert_eq!(chip.emulate_cycle_with(0), Ok(Step::Unknown { opcode: 0x5121 }));
    assert_eq!(chip.program_counter(), 0x204);
    assert_eq!(chip.register(0), 5);
    assert_eq!(chip.stack_pointer(), 0);
    assert_eq!(chip.index_register(), 0);
    assert_eq!(chip.delay_timer(), 3);
    let after: Vec<u8> = (0..4096).map(|k| chip.memory_byte(k)).collect();
    assert_eq!(before, after);
    assert_eq!(chip.emulate_cycle_with(0), Ok(Step::Unknown { opcode: 0x5121 }));
    assert_eq!(chip.program_counter(), 0x204);
}

#[test]
fn timers_count_down_to_zero() {
    let mut chip = machine_with(&[0x60, 2, 0xF0, 0x15, 0xF0, 0x18, 0xF1, 0x07, 0x12, 0x08]);
    run(&mut chip, 2);
    assert_eq!(chip.delay_timer(), 1);
    run(&mut chip, 1);
    assert_eq!(chip.delay_timer(), 0);
    assert_eq!(chip.sound_timer(), 1);
    run(&mut chip, 1);
    assert_eq!(chip.register(1), 0);
    assert_eq!(chip.sound_timer(), 0);
    run(&mut chip, 1);
    assert_eq!(chip.delay_timer(), 0);
    assert_eq!(chip.sound_timer(), 0);
}

#[test]
fn skips_on_immediates_and_registers() {
    let mut chip = machine_with(&[0x60, 7, 0x30, 7]);
    run(&mut chip, 2);
    assert_eq!(chip.program_counter(), 0x206);
    let mut chip = machine_with(&[0x60, 7, 0x40, 7]);
    run(&mut chip, 2);
    assert_eq!(chip.program_counter(), 0x204);
    let mut chip = machine_with(&[0x60, 7, 0x61, 7, 0x50, 0x10]);
    run(&mut chip, 3);
    assert_eq!(chip.program_counter(), 0x208);
    let mut chip = machine_with(&[0x60, 7, 0x61, 7, 0x90, 0x10]);
    run(&mut chip, 3);
    assert_eq!(chip.program_counter(), 0x206);
}

#[test]
fn jumps() {
    let mut chip = machine_with(&[0x13, 0x45]);
    run(&mut chip, 1);
    assert_eq!(chip.program_counter(), 0x345);
    let mut chip = machine_with(&[0x60, 4, 0xB3, 0x00]);
    run(&mut chip, 2);
    assert_eq!(chip.program_counter(), 0x304);
}

#[test]
fn key_skips() {
    let mut chip = machine_with(&[0x60, 5, 0xE0, 0x9E]);
    chip.set_key(5, true);
    assert!(chip.key_pressed(5));
    run(&mut chip, 2);
    assert_eq!(chip.program_counter(), 0x206);
    let mut chip = machine_with(&[0x60, 5, 0xE0, 0xA1]);
    run(&mut chip, 2);
    assert_eq!(chip.program_counter(), 0x206);
    chip.set_key(5, false);
    assert!(!chip.key_pressed(5));
}

#[test]
fn wait_key_takes_last_pressed() {
    let mut chip = machine_with(&[0xF4, 0x0A]);
    run(&mut chip, 3);
    assert_eq!(chip.program_counter(), 0x200);
    chip.set_key(3, true);
    chip.set_key(7, true);
    run(&mut chip, 1);
    assert_eq!(chip.register(4), 7);
    assert_eq!(chip.program_counter(), 0x202);
}

#[test]
fn add_index_sets_overflow_flag() {
    let mut chip = machine_with(&[0xAF, 0xFF, 0x60, 1, 0xF0, 0x1E, 0xF0, 0x1E]);
    run(&mut chip, 3);
    assert_eq!(chip.index_register(), 0x1000);
    assert_eq!(chip.register(0xF), 1);
    let mut chip = machine_with(&[0xA1, 0x00, 0x60, 1, 0xF0, 0x1E]);
    run(&mut chip, 3);
    assert_eq!(chip.index_register(), 0x101);
    assert_eq!(chip.register(0xF), 0);
}

#[test]
fn font_char_address() {
    let mut chip = machine_with(&[0x65, 0x0A, 0xF5, 0x29]);
    run(&mut chip, 2);
    assert_eq!(chip.index_register(), 50);
}

#[test]
fn store_bcd_digits() {
    let mut chip = machine_with(&[0x60, 254, 0xA3, 0x00, 0xF0, 0x33]);
    run(&mut chip, 3);
    assert_eq!(chip.memory_byte(0x300), 2);
    assert_eq!(chip.memory_byte(0x301), 5);
    assert_eq!(chip.memory_byte(0x302), 4);
    assert_eq!(chip.index_register(), 0x300);
}

#[test]
fn random_byte_is_masked() {
    let mut chip = machine_with(&[0xC0, 0x0F, 0xC1, 0x00]);
    assert_eq!(chip.emulate_cycle_with(0xAB), Ok(Step::Executed));
    assert_eq!(chip.register(0), 0x0B);
    assert_eq!(chip.emulate_cycle(), Ok(Step::Executed));
    assert_eq!(chip.register(1), 0);
    assert_eq!(chip.program_counter(), 0x204);
}

#[test]
fn random_byte_stays_within_mask() {
    for _ in 0..64 {
        let mut chip = machine_with(&[0xC2, 0x31]);
        assert_eq!(chip.emulate_cycle(), Ok(Step::Executed));
        assert_eq!(chip.register(2) & !0x31, 0);
    }
}

#[test]
fn return_with_empty_stack_faults() {
    let mut chip = machine_with(&[0x00, 0xEE]);
    assert_eq!(chip.emulate_cycle_with(0), Err(Fault::StackUnderflow));
    assert_eq!(chip.program_counter(), 0x200);
    assert_eq!(chip.emulate_cycle_with(0), Err(Fault::StackUnderflow));
}

#[test]
fn seventeenth_nested_call_faults() {
    let mut chip = machine_with(&[0x22, 0x00]);
    run(&mut chip, 16);
    assert_eq!(chip.stack_pointer(), 16);
    assert_eq!(chip.emulate_cycle_with(0), Err(Fault::StackOverflow));
    assert_eq!(chip.stack_pointer(), 16);
}

#[test]
fn jump_past_memory_faults_on_fetch() {
    let mut chip = machine_with(&[0x1F, 0xFF]);
    run(&mut chip, 1);
    assert_eq!(chip.program_counter(), 0xFFF);
    assert_eq!(chip.emulate_cycle_with(0), Err(Fault::PcOutOfRange));
    assert_eq!(chip.program_counter(), 0xFFF);
}

#[test]
fn memory_access_past_end_faults() {
    let mut chip = machine_with(&[0xAF, 0xFE, 0xF0, 0x33]);
    run(&mut chip, 1);
    assert_eq!(chip.emulate_cycle_with(0), Err(Fault::MemoryOutOfRange));
    let mut chip = machine_with(&[0xAF, 0xFE, 0xD0, 0x03]);
    run(&mut chip, 1);
    assert_eq!(chip.emulate_cycle_with(0), Err(Fault::MemoryOutOfRange));
    let mut chip = machine_with(&[0xAF, 0xFE, 0xF3, 0x65]);
    run(&mut chip, 1);
    assert_eq!(chip.emulate_cycle_with(0), Err(Fault::MemoryOutOfRange));
}

#[test]
fn store_into_font_faults() {
    let mut chip = machine_with(&[0xA0, 0x00, 0xF2, 0x55]);
    run(&mut chip, 1);
    assert_eq!(chip.emulate_cycle_with(0), Err(Fault::FontWrite));
    assert_eq!(chip.memory_byte(0), FONT_SET[0]);
    assert_eq!(chip.index_register(), 0);
    let mut chip = machine_with(&[0xA0, 0x4F, 0xF0, 0x33]);
    run(&mut chip, 1);
    assert_eq!(chip.emulate_cycle_with(0), Err(Fault::FontWrite));
    assert_eq!(chip.memory_byte(0x4F), FONT_SET[0x4F]);
}

#[test]
fn store_between_font_and_program_succeeds() {
    let mut chip = machine_with(&[0x60, 1, 0x61, 2, 0x62, 3, 0x63, 4, 0xA1, 0x00, 0xF3, 0x55]);
    run(&mut chip, 6);
    assert_eq!(chip.memory_byte(0x100), 1);
    assert_eq!(chip.memory_byte(0x101), 2);
    assert_eq!(chip.memory_byte(0x102), 3);
    assert_eq!(chip.memory_byte(0x103), 0);
    assert_eq!(chip.index_register(), 0x104);
    let mut chip = machine_with(&[0x60, 123, 0xA0, 0x50, 0xF0, 0x33]);
    run(&mut chip, 3);
    assert_eq!(chip.memory_byte(0x50), 1);
    assert_eq!(chip.memory_byte(0x51), 2);
    assert_eq!(chip.memory_byte(0x52), 3);
    for k in 0..80 {
        assert_eq!(chip.memory_byte(k), FONT_SET[k]);
    }
    let mut chip = machine_with(&[0xA0, 0x00, 0xF0, 0x55]);
    run(&mut chip, 2);
    assert_eq!(chip.index_register(), 1);
}

#[test]
fn sub_reads_flag_operand_before_writing_it() {
    let mut chip = machine_with(&[0x60, 5, 0x6F, 3, 0x80, 0xF5]);
    run(&mut chip, 3);
    assert_eq!(chip.register(0), 2);
    assert_eq!(chip.register(0xF), 1);
    let mut chip = machine_with(&[0x60, 3, 0x6F, 5, 0x80, 0xF7]);
    run(&mut chip, 3);
    assert_eq!(chip.register(0), 2);
    assert_eq!(chip.register(0xF), 1);
}

#[test]
fn flag_wins_when_vf_is_the_target() {
    let mut chip = machine_with(&[0x6F, 3, 0x8F, 0x06]);
    run(&mut chip, 2);
    assert_eq!(chip.register(0xF), 1);
    let mut chip = machine_with(&[0x6F, 0x40, 0x8F, 0x0E]);
    run(&mut chip, 2);
    assert_eq!(chip.register(0xF), 0);
    let mut chip = machine_with(&[0x6F, 200, 0x60, 100, 0x8F, 0x04]);
    run(&mut chip, 3);
    assert_eq!(chip.register(0xF), 1);
}

#[test]
fn add_index_adds_vf_before_the_flag() {
    let mut chip = machine_with(&[0xA1, 0x00, 0x6F, 5, 0xFF, 0x1E]);
    run(&mut chip, 3);
    assert_eq!(chip.index_register(), 0x105);
    assert_eq!(chip.register(0xF), 0);
}

#[test]
fn key_beyond_f_faults() {
    let mut chip = machine_with(&[0x60, 16, 0xE0, 0x9E]);
    run(&mut chip, 1);
    assert_eq!(chip.emulate_cycle_with(0), Err(Fault::KeyOutOfRange));
    assert_eq!(chip.program_counter(), 0x202);
}

#[test]
fn decode_reads_each_field() {
    assert_eq!(decode(0xD12F), Instruction::Draw { x: 1, y: 2, n: 15 });
    assert_eq!(decode(0x2ABC), Instruction::Call { addr: 0xABC });
    assert_eq!(decode(0x7E42), Instruction::AddImmediate { x: 0xE, nn: 0x42 });
    assert_eq!(decode(0x00E0), Instruction::ClearScreen);
    assert_eq!(decode(0x0123), Instruction::Unknown);
    assert_eq!(decode(0x8AB8), Instruction::Unknown);
    assert_eq!(decode(0xF865), Instruction::LoadRegs { x: 8 });
}
