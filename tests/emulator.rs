use cheap::emulator::Emulator;
use cheap::machine::{EmuError, FONTSET, RAM_SIZE};

fn machine_with(program: &[u8]) -> Emulator {
    let mut emu = Emulator::new();
    emu.load(program).unwrap();
    emu
}

fn run_one(program: &[u8]) -> Emulator {
    let mut emu = machine_with(program);
    emu.tick().unwrap();
    emu
}

fn lit_count(emu: &Emulator) -> usize {
    let mut count = 0;
    for y in 0..32 {
        for x in 0..64 {
            if emu.get_pixel(x, y) {
                count += 1;
            }
        }
    }
    count
}

#[test]
fn new_machine_has_font_and_start_address() {
    let emu = Emulator::new();
    assert_eq!(emu.pc, 0x200);
    assert_eq!(&emu.ram[..80], &FONTSET[..]);
    assert!(emu.ram[80..].iter().all(|b| *b == 0));
    assert_eq!(emu.v_reg, [0; 16]);
    assert_eq!(emu.sp, 0);
    assert_eq!(emu.i_reg, 0);
    assert_eq!(emu.dt, 0);
    assert_eq!(emu.st, 0);
    assert_eq!(emu.op, 0);
    assert_eq!(lit_count(&emu), 0);
}

#[test]
fn reset_twice_equals_reset_once() {
    let mut emu = machine_with(&[0x60, 0x12, 0xA3, 0x00, 0xD0, 0x05]);
    emu.tick().unwrap();
    emu.tick().unwrap();
    emu.keys[3] = true;
    emu.dt = 9;
    emu.reset();
    let once = (emu.pc, emu.ram, emu.screen, emu.v_reg, emu.i_reg, emu.sp, emu.stack, emu.keys, emu.dt, emu.st, emu.op);
    emu.reset();
    let twice = (emu.pc, emu.ram, emu.screen, emu.v_reg, emu.i_reg, emu.sp, emu.stack, emu.keys, emu.dt, emu.st, emu.op);
    assert!(once == twice);
    let fresh = Emulator::new();
    assert!(fresh.ram == emu.ram);
    assert_eq!(emu.pc, 0x200);
    assert_eq!(emu.keys, [false; 16]);
    assert_eq!(emu.dt, 0);
}

#[test]
fn load_round_trip() {
    let program: Vec<u8> = (0..300u32).map(|k| (k * 7 % 256) as u8).collect();
    let emu = machine_with(&program);
    assert_eq!(&emu.ram[0x200..0x200 + program.len()], &program[..]);
    assert_eq!(&emu.ram[..80], &FONTSET[..]);
    assert_eq!(emu.ram[0x200 + program.len()], 0);
}

#[test]
fn load_largest_program() {
    let program = vec![0xAB; RAM_SIZE - 0x200];
    let emu = machine_with(&program);
    assert_eq!(emu.ram[RAM_SIZE - 1], 0xAB);
}

#[test]
fn load_too_large_is_refused_whole() {
    let mut emu = Emulator::new();
    let program = vec![0xAB; RAM_SIZE - 0x200 + 1];
    assert_eq!(emu.load(&program), Err(EmuError::LoadError));
    assert_eq!(emu.ram[0x200], 0);
}

#[test]
fn empty_load_changes_nothing() {
    let mut emu = Emulator::new();
    assert_eq!(emu.load(&[]), Ok(()));
    assert!(emu.ram == Emulator::new().ram);
}

#[test]
fn fetch_records_word_and_advances() {
    let emu = run_one(&[0x00, 0x00]);
    assert_eq!(emu.pc, 0x202);
    assert_eq!(emu.op, 0x0000);
}

#[test]
fn fetch_outside_memory_faults() {
    let mut emu = Emulator::new();
    emu.pc = 4095;
    assert_eq!(emu.tick(), Err(EmuError::MemoryFault));
    assert_eq!(emu.pc, 4095);
}

#[test]
fn clear_screen() {
    let mut emu = machine_with(&[0x00, 0xE0]);
    emu.screen[5] = true;
    emu.screen[2047] = true;
    emu.tick().unwrap();
    assert_eq!(lit_count(&emu), 0);
}

#[test]
fn jump_sets_pc() {
    let emu = run_one(&[0x1A, 0xBC]);
    assert_eq!(emu.pc, 0xABC);
}

#[test]
fn call_and_return() {
    let mut emu = machine_with(&[0x23, 0x00]);
    emu.ram[0x300] = 0x00;
    emu.ram[0x301] = 0xEE;
    emu.tick().unwrap();
    assert_eq!(emu.pc, 0x300);
    assert_eq!(emu.sp, 1);
    assert_eq!(emu.stack[0], 0x202);
    emu.tick().unwrap();
    assert_eq!(emu.pc, 0x202);
    assert_eq!(emu.sp, 0);
}

#[test]
fn return_on_empty_stack_faults() {
    let mut emu = machine_with(&[0x00, 0xEE]);
    assert_eq!(emu.tick(), Err(EmuError::StackFault));
}

#[test]
fn call_on_full_stack_faults() {
    let mut emu = machine_with(&[0x22, 0x00]);
    for _ in 0..16 {
        emu.tick().unwrap();
    }
    assert_eq!(emu.sp, 16);
    assert_eq!(emu.tick(), Err(EmuError::StackFault));
    assert_eq!(emu.sp, 16);
}

#[test]
fn skip_if_equal_immediate() {
    let mut emu = machine_with(&[0x35, 0x42]);
    emu.v_reg[5] = 0x42;
    emu.tick().unwrap();
    assert_eq!(emu.pc, 0x204);
    let mut emu = machine_with(&[0x35, 0x42]);
    emu.v_reg[5] = 0x41;
    emu.tick().unwrap();
    assert_eq!(emu.pc, 0x202);
}

#[test]
fn skip_if_not_equal_immediate() {
    let mut emu = machine_with(&[0x45, 0x42]);
    emu.v_reg[5] = 0x41;
    emu.tick().unwrap();
    assert_eq!(emu.pc, 0x204);
}

#[test]
fn skip_on_registers() {
    let mut emu = machine_with(&[0x51, 0x20]);
    emu.v_reg[1] = 7;
    emu.v_reg[2] = 7;
    emu.tick().unwrap();
    assert_eq!(emu.pc, 0x204);
    let mut emu = machine_with(&[0x91, 0x20]);
    emu.v_reg[1] = 7;
    emu.v_reg[2] = 8;
    emu.tick().unwrap();
    assert_eq!(emu.pc, 0x204);
}

#[test]
fn set_and_add_immediate() {
    let emu = run_one(&[0x6A, 0x33]);
    assert_eq!(emu.v_reg[0xA], 0x33);
    let mut emu = machine_with(&[0x7A, 0x10]);
    emu.v_reg[0xA] = 0xF8;
    emu.v_reg[0xF] = 5;
    emu.tick().unwrap();
    assert_eq!(emu.v_reg[0xA], 0x08);
    assert_eq!(emu.v_reg[0xF], 5);
}

#[test]
fn logic_operations() {
    for (low, want) in [(0u8, 0b1010u8), (1, 0b1110), (2, 0b1000), (3, 0b0110)] {
        let mut emu = machine_with(&[0x81, 0x20 | low]);
        emu.v_reg[1] = 0b1100;
        emu.v_reg[2] = 0b1010;
        emu.tick().unwrap();
        assert_eq!(emu.v_reg[1], want);
    }
}

#[test]
fn add_sets_carry() {
    let mut emu = machine_with(&[0x81, 0x24]);
    emu.v_reg[1] = 0xFF;
    emu.v_reg[2] = 0x01;
    emu.tick().unwrap();
    assert_eq!(emu.v_reg[1], 0x00);
    assert_eq!(emu.v_reg[0xF], 1);
    let mut emu = machine_with(&[0x81, 0x24]);
    emu.v_reg[1] = 0x10;
    emu.v_reg[2] = 0x01;
    emu.v_reg[0xF] = 1;
    emu.tick().unwrap();
    assert_eq!(emu.v_reg[1], 0x11);
    assert_eq!(emu.v_reg[0xF], 0);
}

#[test]
fn sub_flag_means_no_borrow() {
    let mut emu = machine_with(&[0x81, 0x25]);
    emu.v_reg[1] = 0x01;
    emu.v_reg[2] = 0x02;
    emu.tick().unwrap();
    assert_eq!(emu.v_reg[1], 0xFF);
    assert_eq!(emu.v_reg[0xF], 0);
    let mut emu = machine_with(&[0x81, 0x25]);
    emu.v_reg[1] = 0x05;
    emu.v_reg[2] = 0x05;
    emu.tick().unwrap();
    assert_eq!(emu.v_reg[1], 0x00);
    assert_eq!(emu.v_reg[0xF], 1);
}

#[test]
fn reverse_sub() {
    let mut emu = machine_with(&[0x81, 0x27]);
    emu.v_reg[1] = 0x03;
    emu.v_reg[2] = 0x01;
    emu.tick().unwrap();
    assert_eq!(emu.v_reg[1], 0xFE);
    assert_eq!(emu.v_reg[0xF], 0);
}

#[test]
fn shifts_put_out_bit_in_flag() {
    let mut emu = machine_with(&[0x81, 0x06]);
    emu.v_reg[1] = 0b1000_0011;
    emu.tick().unwrap();
    assert_eq!(emu.v_reg[1], 0b0100_0001);
    assert_eq!(emu.v_reg[0xF], 1);
    let mut emu = machine_with(&[0x81, 0x0E]);
    emu.v_reg[1] = 0b1000_0011;
    emu.tick().unwrap();
    assert_eq!(emu.v_reg[1], 0b0000_0110);
    assert_eq!(emu.v_reg[0xF], 1);
}

#[test]
fn flag_register_as_target_keeps_flag() {
    let mut emu = machine_with(&[0x8F, 0x14]);
    emu.v_reg[0xF] = 0xFF;
    emu.v_reg[1] = 0x02;
    emu.tick().unwrap();
    assert_eq!(emu.v_reg[0xF], 1);
}

#[test]
fn index_and_offset_jump() {
    let emu = run_one(&[0xA1, 0x23]);
    assert_eq!(emu.i_reg, 0x123);
    let mut emu = machine_with(&[0xB3, 0x00]);
    emu.v_reg[0] = 0x10;
    emu.tick().unwrap();
    assert_eq!(emu.pc, 0x310);
}

#[test]
fn random_is_masked() {
    let mut emu = Emulator::new();
    assert_eq!(emu.execute(0xC30F, 0xAB), Ok(()));
    assert_eq!(emu.v_reg[3], 0x0B);
    for _ in 0..20 {
        let mut emu = machine_with(&[0xC3, 0x0F]);
        emu.tick().unwrap();
        assert!(emu.v_reg[3] <= 0x0F);
    }
    let mut emu = machine_with(&[0xC3, 0x00]);
    emu.v_reg[3] = 9;
    emu.tick().unwrap();
    assert_eq!(emu.v_reg[3], 0);
}

#[test]
fn draw_then_redraw_collides() {
    let mut emu = machine_with(&[0xA3, 0x00, 0xD0, 0x01, 0xD0, 0x01]);
    emu.ram[0x300] = 0xFF;
    emu.tick().unwrap();
    emu.tick().unwrap();
    for x in 0..8 {
        assert!(emu.get_pixel(x, 0));
    }
    assert!(!emu.get_pixel(8, 0));
    assert_eq!(lit_count(&emu), 8);
    assert_eq!(emu.v_reg[0xF], 0);
    emu.tick().unwrap();
    assert_eq!(lit_count(&emu), 0);
    assert_eq!(emu.v_reg[0xF], 1);
}

#[test]
fn draw_wraps_around_edges() {
    let mut emu = machine_with(&[0xA3, 0x00, 0xD1, 0x22]);
    emu.ram[0x300] = 0xC0;
    emu.ram[0x301] = 0xC0;
    emu.v_reg[1] = 63;
    emu.v_reg[2] = 31;
    emu.tick().unwrap();
    emu.tick().unwrap();
    assert!(emu.get_pixel(63, 31));
    assert!(emu.get_pixel(0, 31));
    assert!(emu.get_pixel(63, 0));
    assert!(emu.get_pixel(0, 0));
    assert_eq!(lit_count(&emu), 4);
    assert_eq!(emu.v_reg[0xF], 0);
}

#[test]
fn draw_font_glyph() {
    let mut emu = machine_with(&[0xF0, 0x29, 0xD1, 0x15]);
    emu.v_reg[0] = 0;
    emu.v_reg[1] = 10;
    emu.tick().unwrap();
    assert_eq!(emu.i_reg, 0);
    emu.tick().unwrap();
    for x in 10..14 {
        assert!(emu.get_pixel(x, 10));
        assert!(emu.get_pixel(x, 14));
    }
    assert!(emu.get_pixel(10, 12));
    assert!(!emu.get_pixel(11, 12));
    assert_eq!(lit_count(&emu), 14);
}

#[test]
fn draw_past_memory_faults() {
    let mut emu = machine_with(&[0xAF, 0xFE, 0xD0, 0x05]);
    emu.tick().unwrap();
    assert_eq!(emu.tick(), Err(EmuError::MemoryFault));
    assert_eq!(lit_count(&emu), 0);
}

#[test]
fn key_skips() {
    let mut emu = machine_with(&[0xE4, 0x9E]);
    emu.v_reg[4] = 7;
    emu.keys[7] = true;
    emu.tick().unwrap();
    assert_eq!(emu.pc, 0x204);
    let mut emu = machine_with(&[0xE4, 0xA1]);
    emu.v_reg[4] = 7;
    emu.tick().unwrap();
    assert_eq!(emu.pc, 0x204);
    let mut emu = machine_with(&[0xE4, 0xA1]);
    emu.v_reg[4] = 7;
    emu.keys[7] = true;
    emu.tick().unwrap();
    assert_eq!(emu.pc, 0x202);
}

#[test]
fn key_index_outside_keypad_faults() {
    let mut emu = machine_with(&[0xE4, 0x9E]);
    emu.v_reg[4] = 16;
    assert_eq!(emu.tick(), Err(EmuError::MemoryFault));
}

#[test]
fn key_wait_stalls_without_key() {
    let mut emu = machine_with(&[0xF3, 0x0A]);
    emu.tick().unwrap();
    assert_eq!(emu.pc, 0x200);
    emu.tick().unwrap();
    assert_eq!(emu.pc, 0x200);
    emu.keys[9] = true;
    emu.keys[12] = true;
    emu.tick().unwrap();
    assert_eq!(emu.pc, 0x202);
    assert_eq!(emu.v_reg[3], 9);
}

#[test]
fn timer_registers() {
    let mut emu = machine_with(&[0xF1, 0x15, 0xF2, 0x18, 0xF3, 0x07]);
    emu.v_reg[1] = 30;
    emu.v_reg[2] = 40;
    emu.tick().unwrap();
    emu.tick().unwrap();
    assert_eq!(emu.dt, 30);
    assert_eq!(emu.st, 40);
    emu.tick_timers();
    emu.tick().unwrap();
    assert_eq!(emu.v_reg[3], 29);
}

#[test]
fn timers_stop_at_zero() {
    let mut emu = Emulator::new();
    emu.dt = 3;
    emu.st = 1;
    for _ in 0..10 {
        emu.tick_timers();
    }
    assert_eq!(emu.dt, 0);
    assert_eq!(emu.st, 0);
    emu.dt = 5;
    emu.tick_timers();
    assert_eq!(emu.dt, 4);
    assert_eq!(emu.st, 0);
}

#[test]
fn index_add_and_glyph_address() {
    let mut emu = machine_with(&[0xF1, 0x1E, 0xF2, 0x29]);
    emu.i_reg = 0x100;
    emu.v_reg[1] = 0x20;
    emu.v_reg[2] = 0xB;
    emu.v_reg[0xF] = 3;
    emu.tick().unwrap();
    assert_eq!(emu.i_reg, 0x120);
    assert_eq!(emu.v_reg[0xF], 3);
    emu.tick().unwrap();
    assert_eq!(emu.i_reg, 55);
}

#[test]
fn bcd_of_155() {
    let mut emu = machine_with(&[0xF5, 0x33]);
    emu.v_reg[5] = 0x9B;
    emu.i_reg = 0x400;
    emu.tick().unwrap();
    assert_eq!(emu.ram[0x400], 1);
    assert_eq!(emu.ram[0x401], 5);
    assert_eq!(emu.ram[0x402], 5);
}

#[test]
fn bcd_past_memory_faults() {
    let mut emu = machine_with(&[0xF5, 0x33]);
    emu.i_reg = 4094;
    assert_eq!(emu.tick(), Err(EmuError::MemoryFault));
    assert_eq!(emu.pc, 0x202);
}

#[test]
fn store_and_load_registers() {
    let mut emu = machine_with(&[0xF2, 0x55, 0x60, 0x00, 0x61, 0x00, 0xF1, 0x65]);
    emu.i_reg = 0x500;
    emu.v_reg[0] = 1;
    emu.v_reg[1] = 2;
    emu.v_reg[2] = 3;
    emu.v_reg[3] = 4;
    emu.tick().unwrap();
    assert_eq!(&emu.ram[0x500..0x504], &[1, 2, 3, 0]);
    emu.tick().unwrap();
    emu.tick().unwrap();
    emu.v_reg[2] = 9;
    emu.tick().unwrap();
    assert_eq!(&emu.v_reg[..4], &[1, 2, 9, 4]);
}

#[test]
fn unknown_words_are_decode_errors() {
    for op in [0x0123u16, 0x00E1, 0x5121, 0x8128, 0x812F, 0x9121, 0xE100, 0xF1FF, 0xF100] {
        let mut emu = Emulator::new();
        assert_eq!(emu.execute(op, 0), Err(EmuError::DecodeError(op)));
        assert_eq!(emu.pc, 0x200);
    }
    let mut emu = machine_with(&[0xFF, 0xFF]);
    assert_eq!(emu.tick(), Err(EmuError::DecodeError(0xFFFF)));
    assert_eq!(emu.op, 0xFFFF);
}

#[test]
fn nop_changes_only_pc_and_word() {
    let mut emu = machine_with(&[0x00, 0x00]);
    emu.v_reg[2] = 4;
    emu.tick().unwrap();
    assert_eq!(emu.v_reg[2], 4);
    assert_eq!(emu.pc, 0x202);
}
