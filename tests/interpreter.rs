use chip8::instruction::{decode, Instruction};
use chip8::machine::{Chip8, ExecutionFault, ProgramTooLarge};

fn machine_with(program: &[u8]) -> Chip8 {
    let mut m = Chip8::initialize();
    m.load_fontset();
    m.load_program(program).unwrap();
    m
}

fn pixel(m: &Chip8, x: usize, y: usize) -> bool {
    m.gfx[y * 64 + x]
}

#[test]
fn load_byte_then_read_every_register() {
    for x in 0..16usize {
        let mut m = Chip8::initialize();
        let kk = (0x11 * x as u16 + 3) as u8;
        m.op_6xkk(x, kk);
        assert_eq!(m.v[x], kk);
        assert_eq!(m.pc, 0x202);
    }
}

#[test]
fn load_byte_through_step() {
    let mut m = machine_with(&[0x6A, 0x42]);
    assert_eq!(m.step(0), Ok(()));
    assert_eq!(m.v[0xA], 0x42);
    assert_eq!(m.opcode, 0x6A42);
}

#[test]
fn add_registers_with_carry() {
    let mut m = Chip8::initialize();
    m.v[1] = 0xFF;
    m.v[2] = 0x01;
    m.op_8xy4(1, 2);
    assert_eq!(m.v[1], 0x00);
    assert_eq!(m.v[0xF], 1);

    let mut m = Chip8::initialize();
    m.v[1] = 0x01;
    m.v[2] = 0x01;
    m.op_8xy4(1, 2);
    assert_eq!(m.v[1], 0x02);
    assert_eq!(m.v[0xF], 0);
}

#[test]
fn add_registers_into_flag_register_keeps_flag() {
    let mut m = Chip8::initialize();
    m.v[0xF] = 0xFF;
    m.v[3] = 0x02;
    m.op_8xy4(0xF, 3);
    assert_eq!(m.v[0xF], 1);
}

#[test]
fn sub_registers_borrow() {
    let mut m = Chip8::initialize();
    m.v[4] = 0x05;
    m.v[5] = 0x03;
    m.op_8xy5(4, 5);
    assert_eq!(m.v[4], 0x02);
    assert_eq!(m.v[0xF], 1);

    let mut m = Chip8::initialize();
    m.v[4] = 0x03;
    m.v[5] = 0x05;
    m.op_8xy5(4, 5);
    assert_eq!(m.v[4], 0xFE);
    assert_eq!(m.v[0xF], 0);
}

#[test]
fn sub_equal_registers_has_no_borrow() {
    let mut m = Chip8::initialize();
    m.v[4] = 0x07;
    m.v[5] = 0x07;
    m.op_8xy5(4, 5);
    assert_eq!(m.v[4], 0);
    assert_eq!(m.v[0xF], 1);
}

#[test]
fn sub_reversed_wraps() {
    let mut m = Chip8::initialize();
    m.v[1] = 0x05;
    m.v[2] = 0x03;
    m.op_8xy7(1, 2);
    assert_eq!(m.v[1], 0xFE);
    assert_eq!(m.v[0xF], 0);

    let mut m = Chip8::initialize();
    m.v[1] = 0x03;
    m.v[2] = 0x05;
    m.op_8xy7(1, 2);
    assert_eq!(m.v[1], 0x02);
    assert_eq!(m.v[0xF], 1);
}

#[test]
fn shifts_set_flag_from_shifted_bit() {
    let mut m = Chip8::initialize();
    m.v[6] = 0b1000_0011;
    m.op_8x06(6);
    assert_eq!(m.v[6], 0b0100_0001);
    assert_eq!(m.v[0xF], 1);

    let mut m = Chip8::initialize();
    m.v[6] = 0b1000_0011;
    m.op_8x0e(6);
    assert_eq!(m.v[6], 0b0000_0110);
    assert_eq!(m.v[0xF], 1);

    let mut m = Chip8::initialize();
    m.v[6] = 0b0100_0010;
    m.op_8x0e(6);
    assert_eq!(m.v[6], 0b1000_0100);
    assert_eq!(m.v[0xF], 0);
}

#[test]
fn bitwise_and_add_byte() {
    let mut m = Chip8::initialize();
    m.v[0] = 0b1100;
    m.v[1] = 0b1010;
    m.op_8xy1(0, 1);
    assert_eq!(m.v[0], 0b1110);
    m.v[0] = 0b1100;
    m.op_8xy2(0, 1);
    assert_eq!(m.v[0], 0b1000);
    m.v[0] = 0b1100;
    m.op_8xy3(0, 1);
    assert_eq!(m.v[0], 0b0110);
    m.op_8xy0(2, 1);
    assert_eq!(m.v[2], 0b1010);
    m.v[3] = 0xF0;
    m.v[0xF] = 7;
    m.op_7xkk(3, 0x20);
    assert_eq!(m.v[3], 0x10);
    assert_eq!(m.v[0xF], 7);
}

#[test]
fn skips_advance_by_four_when_condition_holds() {
    let mut m = Chip8::initialize();
    m.v[1] = 9;
    m.v[2] = 9;
    m.op_3xkk(1, 9);
    assert_eq!(m.pc, 0x204);
    m.op_4xkk(1, 9);
    assert_eq!(m.pc, 0x206);
    m.op_5xy0(1, 2);
    assert_eq!(m.pc, 0x20A);
    m.op_9xy0(1, 2);
    assert_eq!(m.pc, 0x20C);
}

#[test]
fn skip_if_registers_differ_compares_whole_values() {
    let mut m = Chip8::initialize();
    m.v[1] = 0x01;
    m.v[2] = 0x10;
    m.op_9xy0(1, 2);
    assert_eq!(m.pc, 0x204);
}

#[test]
fn call_then_return_comes_back() {
    // 0x200: CALL 0x300; 0x300: RET
    let mut m = machine_with(&[0x23, 0x00]);
    m.memory[0x300] = 0x00;
    m.memory[0x301] = 0xEE;
    assert_eq!(m.step(0), Ok(()));
    assert_eq!(m.pc, 0x300);
    assert_eq!(m.sp, 1);
    assert_eq!(m.stack[0], 0x202);
    assert_eq!(m.step(0), Ok(()));
    assert_eq!(m.pc, 0x202);
    assert_eq!(m.sp, 0);
}

#[test]
fn seventeenth_call_overflows() {
    let mut m = Chip8::initialize();
    for k in 0..16usize {
        assert_eq!(m.op_2nnn(0x400), Ok(()));
        assert_eq!(m.sp, k + 1);
    }
    let before_pc = m.pc;
    assert_eq!(m.op_2nnn(0x400), Err(ExecutionFault::StackOverflow));
    assert_eq!(m.sp, 16);
    assert_eq!(m.pc, before_pc);
}

#[test]
fn return_on_empty_stack_underflows() {
    let mut m = Chip8::initialize();
    assert_eq!(m.op_00ee(), Err(ExecutionFault::StackUnderflow));
    assert_eq!(m.sp, 0);
    assert_eq!(m.pc, 0x200);
}

#[test]
fn drawing_twice_clears_and_collides() {
    let mut m = Chip8::initialize();
    m.load_fontset();
    m.v[0] = 10;
    m.v[1] = 5;
    m.i = 0;
    assert_eq!(m.op_dxyn(0, 1, 5), Ok(()));
    assert_eq!(m.v[0xF], 0);
    assert!(pixel(&m, 10, 5));
    assert!(pixel(&m, 13, 5));
    assert!(!pixel(&m, 11, 6));
    assert!(m.draw_flag);
    assert_eq!(m.op_dxyn(0, 1, 5), Ok(()));
    assert_eq!(m.v[0xF], 1);
    assert!(m.gfx.iter().all(|p| !p));
}

#[test]
fn sprite_wraps_on_both_axes() {
    let mut m = Chip8::initialize();
    m.memory[0x300] = 0xFF;
    m.memory[0x301] = 0x81;
    m.i = 0x300;
    m.v[2] = 60 + 64;
    m.v[3] = 31;
    assert_eq!(m.op_dxyn(2, 3, 2), Ok(()));
    for x in [60, 61, 62, 63, 0, 1, 2, 3] {
        assert!(pixel(&m, x, 31));
    }
    assert!(pixel(&m, 60, 0));
    assert!(pixel(&m, 3, 0));
    assert!(!pixel(&m, 61, 0));
    assert!(!pixel(&m, 4, 31));
    assert_eq!(m.gfx.iter().filter(|p| **p).count(), 10);
}

#[test]
fn draw_past_end_of_memory_is_refused() {
    let mut m = Chip8::initialize();
    m.i = 0xFFE;
    assert_eq!(m.op_dxyn(0, 0, 3), Err(ExecutionFault::AddressOutOfRange));
    assert!(m.gfx.iter().all(|p| !p));
    assert_eq!(m.pc, 0x200);
}

#[test]
fn clear_turns_every_pixel_off() {
    let mut m = Chip8::initialize();
    m.gfx[5] = true;
    m.gfx[2047] = true;
    m.op_00e0();
    assert!(m.gfx.iter().all(|p| !p));
    assert!(m.draw_flag);
    assert_eq!(m.pc, 0x202);
}

#[test]
fn glyph_of_zero_after_fontset() {
    let mut m = Chip8::initialize();
    m.load_fontset();
    m.v[3] = 0;
    m.op_fx29(3);
    assert_eq!(m.i, 0);
    assert_eq!(&m.memory[0..5], &[0xF0, 0x90, 0x90, 0x90, 0xF0]);
    m.v[3] = 0xA;
    m.op_fx29(3);
    assert_eq!(m.i, 50);
    assert_eq!(&m.memory[50..55], &[0xF0, 0x90, 0xF0, 0x90, 0x90]);
}

#[test]
fn decimal_digits_stored_at_index() {
    let mut m = Chip8::initialize();
    m.v[7] = 254;
    m.i = 0x300;
    assert_eq!(m.op_fx33(7), Ok(()));
    assert_eq!(&m.memory[0x300..0x303], &[2, 5, 4]);
    m.i = 0xFFE;
    assert_eq!(m.op_fx33(7), Err(ExecutionFault::AddressOutOfRange));
}

#[test]
fn store_and_load_registers_inclusive() {
    let mut m = Chip8::initialize();
    for r in 0..16usize {
        m.v[r] = (r as u8) + 1;
    }
    m.i = 0x400;
    assert_eq!(m.op_fx55(3), Ok(()));
    assert_eq!(&m.memory[0x400..0x405], &[1, 2, 3, 4, 0]);
    assert_eq!(m.i, 0x400);

    let mut n = Chip8::initialize();
    n.memory[0x400..0x404].copy_from_slice(&[9, 8, 7, 6]);
    n.i = 0x400;
    n.v[3] = 0x55;
    n.v[4] = 0x66;
    assert_eq!(n.op_fx65(2), Ok(()));
    assert_eq!(&n.v[0..5], &[9, 8, 7, 0x55, 0x66]);

    n.i = 0xFFF;
    assert_eq!(n.op_fx65(1), Err(ExecutionFault::AddressOutOfRange));
    assert_eq!(n.op_fx55(1), Err(ExecutionFault::AddressOutOfRange));
}

#[test]
fn wait_key_takes_lowest_pressed_key() {
    let mut m = Chip8::initialize();
    m.op_fx0a(2);
    assert_eq!(m.pc, 0x200);
    m.key[15] = true;
    m.key[9] = true;
    m.op_fx0a(2);
    assert_eq!(m.v[2], 9);
    assert_eq!(m.pc, 0x202);

    let mut m = Chip8::initialize();
    m.key[15] = true;
    m.op_fx0a(4);
    assert_eq!(m.v[4], 15);
}

#[test]
fn key_skips() {
    let mut m = Chip8::initialize();
    m.v[0] = 0xB;
    m.key[0xB] = true;
    m.op_ex9e(0);
    assert_eq!(m.pc, 0x204);
    m.op_exa1(0);
    assert_eq!(m.pc, 0x206);
    m.v[0] = 0x40;
    m.op_ex9e(0);
    assert_eq!(m.pc, 0x208);
    m.op_exa1(0);
    assert_eq!(m.pc, 0x20C);
}

#[test]
fn timers_and_index() {
    let mut m = Chip8::initialize();
    m.v[1] = 0x30;
    m.op_fx15(1);
    assert_eq!(m.delay_timer, 0x30);
    m.op_fx18(1);
    assert_eq!(m.sound_timer, 0x30);
    m.delay_timer = 0x21;
    m.op_fx07(2);
    assert_eq!(m.v[2], 0x21);
    m.op_annn(0xFF0);
    assert_eq!(m.i, 0xFF0);
    m.op_fx1e(1);
    assert_eq!(m.i, 0x1020);
    m.i = 0xFFF0;
    m.op_fx1e(1);
    assert_eq!(m.i, 0x0020);
}

#[test]
fn jumps() {
    let mut m = Chip8::initialize();
    m.op_1nnn(0x345);
    assert_eq!(m.pc, 0x345);
    m.v[0] = 0x10;
    m.op_bnnn(0x300);
    assert_eq!(m.pc, 0x310);
}

#[test]
fn random_masked_by_zero_is_zero() {
    let mut m = Chip8::initialize();
    m.v[5] = 0xAA;
    m.op_cxkk(5, 0x00);
    assert_eq!(m.v[5], 0);
    assert_eq!(m.pc, 0x202);
    m.op_cxkk(5, 0x0F);
    assert!(m.v[5] <= 0x0F);
}

#[test]
fn random_instruction_masks_given_byte() {
    let mut m = machine_with(&[0xC3, 0x3C]);
    assert_eq!(m.step(0xFF), Ok(()));
    assert_eq!(m.v[3], 0x3C);
    let mut m = machine_with(&[0xC3, 0x3C]);
    assert_eq!(m.emulate_cycle(), Ok(()));
    assert_eq!(m.v[3] & !0x3C, 0);
}

#[test]
fn unknown_opcode_advances_and_reports() {
    let mut m = machine_with(&[0x51, 0x23]);
    assert_eq!(m.step(0), Err(ExecutionFault::UnknownOpcode(0x5123)));
    assert_eq!(m.pc, 0x202);
}

#[test]
fn program_counter_past_memory_is_refused() {
    let mut m = Chip8::initialize();
    m.pc = 4095;
    assert_eq!(m.step(0), Err(ExecutionFault::ProgramCounterOutOfRange));
    assert_eq!(m.pc, 4095);
    m.pc = 4094;
    m.memory[4094] = 0x12;
    m.memory[4095] = 0x00;
    assert_eq!(m.step(0), Ok(()));
    assert_eq!(m.pc, 0x200);
}

#[test]
fn decode_every_family() {
    assert_eq!(decode(0x00E0), Instruction::Clear);
    assert_eq!(decode(0x00EE), Instruction::Return);
    assert_eq!(decode(0x0123), Instruction::Unknown { word: 0x0123 });
    assert_eq!(decode(0x1ABC), Instruction::Jump { nnn: 0xABC });
    assert_eq!(decode(0x2ABC), Instruction::Call { nnn: 0xABC });
    assert_eq!(decode(0x3A12), Instruction::SkipIfEqualByte { x: 0xA, kk: 0x12 });
    assert_eq!(decode(0x4A12), Instruction::SkipIfNotEqualByte { x: 0xA, kk: 0x12 });
    assert_eq!(decode(0x5AB0), Instruction::SkipIfEqual { x: 0xA, y: 0xB });
    assert_eq!(decode(0x6A12), Instruction::LoadByte { x: 0xA, kk: 0x12 });
    assert_eq!(decode(0x7A12), Instruction::AddByte { x: 0xA, kk: 0x12 });
    assert_eq!(decode(0x8AB0), Instruction::Move { x: 0xA, y: 0xB });
    assert_eq!(decode(0x8AB1), Instruction::Or { x: 0xA, y: 0xB });
    assert_eq!(decode(0x8AB2), Instruction::And { x: 0xA, y: 0xB });
    assert_eq!(decode(0x8AB3), Instruction::Xor { x: 0xA, y: 0xB });
    assert_eq!(decode(0x8AB4), Instruction::Add { x: 0xA, y: 0xB });
    assert_eq!(decode(0x8AB5), Instruction::Sub { x: 0xA, y: 0xB });
    assert_eq!(decode(0x8AB6), Instruction::ShiftRight { x: 0xA });
    assert_eq!(decode(0x8AB7), Instruction::SubReversed { x: 0xA, y: 0xB });
    assert_eq!(decode(0x8ABE), Instruction::ShiftLeft { x: 0xA });
    assert_eq!(decode(0x8AB9), Instruction::Unknown { word: 0x8AB9 });
    assert_eq!(decode(0x9AB0), Instruction::SkipIfNotEqual { x: 0xA, y: 0xB });
    assert_eq!(decode(0xA123), Instruction::LoadIndex { nnn: 0x123 });
    assert_eq!(decode(0xB123), Instruction::JumpOffset { nnn: 0x123 });
    assert_eq!(decode(0xC1FF), Instruction::Random { x: 1, kk: 0xFF });
    assert_eq!(decode(0xD12F), Instruction::Draw { x: 1, y: 2, n: 0xF });
    assert_eq!(decode(0xE19E), Instruction::SkipIfKey { x: 1 });
    assert_eq!(decode(0xE1A1), Instruction::SkipIfNotKey { x: 1 });
    assert_eq!(decode(0xE1A2), Instruction::Unknown { word: 0xE1A2 });
    assert_eq!(decode(0xF107), Instruction::LoadDelay { x: 1 });
    assert_eq!(decode(0xF10A), Instruction::WaitKey { x: 1 });
    assert_eq!(decode(0xF115), Instruction::SetDelay { x: 1 });
    assert_eq!(decode(0xF118), Instruction::SetSound { x: 1 });
    assert_eq!(decode(0xF11E), Instruction::AddIndex { x: 1 });
    assert_eq!(decode(0xF129), Instruction::LoadGlyph { x: 1 });
    assert_eq!(decode(0xF133), Instruction::StoreDecimal { x: 1 });
    assert_eq!(decode(0xF155), Instruction::StoreRegisters { x: 1 });
    assert_eq!(decode(0xF165), Instruction::LoadRegisters { x: 1 });
    assert_eq!(decode(0xF166), Instruction::Unknown { word: 0xF166 });
}

#[test]
fn load_program_places_bytes_and_refuses_oversize() {
    let mut m = Chip8::initialize();
    assert_eq!(m.load_program(&[1, 2, 3]), Ok(()));
    assert_eq!(&m.memory[0x1FF..0x204], &[0, 1, 2, 3, 0]);
    let full = vec![7u8; 3584];
    assert_eq!(m.load_program(&full), Ok(()));
    assert_eq!(m.memory[4095], 7);
    let big = vec![9u8; 3585];
    assert_eq!(m.load_program(&big), Err(ProgramTooLarge { len: 3585 }));
    assert_eq!(m.memory[0x200], 7);
}

#[test]
fn reset_returns_to_power_on() {
    let mut m = machine_with(&[0x6A, 0x42]);
    m.step(0).unwrap();
    m.sp = 3;
    m.gfx[7] = true;
    m.reset();
    assert_eq!(m.pc, 0x200);
    assert_eq!(m.sp, 0);
    assert_eq!(m.v, [0; 16]);
    assert!(m.memory.iter().all(|b| *b == 0));
    assert!(m.gfx.iter().all(|p| !p));
}

#[test]
fn frame_shows_lit_pixels_white() {
    let mut m = Chip8::initialize();
    m.gfx[0] = true;
    m.gfx[65] = true;
    let mut frame = vec![0x11u8; 64 * 32 * 4 + 3];
    m.draw(&mut frame);
    assert_eq!(&frame[0..4], &[0xFF, 0xFF, 0xFF, 0xFF]);
    assert_eq!(&frame[4..8], &[0x00, 0x00, 0x00, 0xFF]);
    assert_eq!(&frame[65 * 4..66 * 4], &[0xFF, 0xFF, 0xFF, 0xFF]);
    assert_eq!(&frame[8192..], &[0x11, 0x11, 0x11]);

    let mut short = vec![0x22u8; 6];
    m.draw(&mut short);
    assert_eq!(short, vec![0xFF, 0xFF, 0xFF, 0xFF, 0x22, 0x22]);
}

#[test]
fn small_program_runs_to_completion() {
    // V0 := 5; V1 := 7; V0 += V1; I := 0x300; store V0..V1; jump to self
    let program = [0x60, 0x05, 0x61, 0x07, 0x80, 0x14, 0xA3, 0x00, 0xF1, 0x55, 0x12, 0x0A];
    let mut m = machine_with(&program);
    for _ in 0..8 {
        assert_eq!(m.step(0), Ok(()));
    }
    assert_eq!(m.v[0], 12);
    assert_eq!(m.v[0xF], 0);
    assert_eq!(&m.memory[0x300..0x302], &[12, 7]);
    assert_eq!(m.pc, 0x20A);
}

#[test]
fn timers_count_down_to_zero() {
    let mut m = Chip8::initialize();
    m.delay_timer = 2;
    m.sound_timer = 1;
    m.tick_timers();
    assert_eq!((m.delay_timer, m.sound_timer), (1, 0));
    m.tick_timers();
    assert_eq!((m.delay_timer, m.sound_timer), (0, 0));
    m.tick_timers();
    assert_eq!((m.delay_timer, m.sound_timer), (0, 0));
}
