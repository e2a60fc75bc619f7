use chip8::instr::{decode, Fault, Instr};
use chip8::state::Cpu;

fn fresh() -> Cpu {
    Cpu::new()
}

#[test]
fn new_state_is_zeroed_with_font() {
    let c = fresh();
    assert_eq!(c.program_counter(), 0x200);
    assert_eq!(c.index_register(), 0);
    assert_eq!(c.delay(), 0);
    assert_eq!(c.sound(), 0);
    assert_eq!(c.stack_depth(), 0);
    for k in 0..16 {
        assert_eq!(c.register(k), 0);
    }
    // first glyph (0) and last glyph (F) of the font
    assert_eq!(c.mem(0), 0xF0);
    assert_eq!(c.mem(4), 0xF0);
    assert_eq!(c.mem(79), 0x80);
    assert_eq!(c.mem(80), 0);
    for p in c.display() {
        assert_eq!(*p, 0);
    }
}

#[test]
fn load_rom_places_bytes_at_base() {
    let mut c = fresh();
    c.load_rom(&[0xAB, 0xCD, 0x12]);
    assert_eq!(c.mem(0x200), 0xAB);
    assert_eq!(c.mem(0x201), 0xCD);
    assert_eq!(c.mem(0x202), 0x12);
    assert_eq!(c.mem(0x203), 0);
}

#[test]
fn fetch_extracts_nibbles_and_advances() {
    let mut c = fresh();
    c.load_rom(&[0xAB, 0xCD]);
    let op = c.fetch_op().unwrap();
    assert_eq!(op, (0xA, 0xB, 0xC, 0xD));
    assert_eq!(c.program_counter(), 0x202);
}

#[test]
fn fetch_past_end_of_memory_is_fatal() {
    let mut c = fresh();
    c.execute(Instr::Jump(0xFFF), 0, 0).unwrap();
    assert_eq!(c.fetch_op(), Err(Fault::OutOfBounds));
    assert_eq!(c.program_counter(), 0xFFF);
}

#[test]
fn add_sets_carry_iff_sum_exceeds_255() {
    let mut c = fresh();
    c.execute(Instr::SetImm(0, 200), 0, 0).unwrap();
    c.execute(Instr::SetImm(1, 100), 0, 0).unwrap();
    c.execute(Instr::Add(0, 1), 0, 0).unwrap();
    assert_eq!(c.register(0), 44); // (200 + 100) mod 256
    assert_eq!(c.register(15), 1);

    let mut d = fresh();
    d.execute(Instr::SetImm(0, 10), 0, 0).unwrap();
    d.execute(Instr::SetImm(1, 20), 0, 0).unwrap();
    d.execute(Instr::Add(0, 1), 0, 0).unwrap();
    assert_eq!(d.register(0), 30);
    assert_eq!(d.register(15), 0);
}

#[test]
fn sub_sets_borrow_iff_signed_difference_negative() {
    let mut c = fresh();
    c.execute(Instr::SetImm(0, 5), 0, 0).unwrap();
    c.execute(Instr::SetImm(1, 10), 0, 0).unwrap();
    c.execute(Instr::Sub(0, 1), 0, 0).unwrap();
    assert_eq!(c.register(0), 251); // (5 - 10) mod 256
    assert_eq!(c.register(15), 1);

    let mut d = fresh();
    d.execute(Instr::SetImm(0, 10), 0, 0).unwrap();
    d.execute(Instr::SetImm(1, 5), 0, 0).unwrap();
    d.execute(Instr::Sub(0, 1), 0, 0).unwrap();
    assert_eq!(d.register(0), 5);
    assert_eq!(d.register(15), 0);

    // 200 reads as -56 signed, which is below 10
    let mut e = fresh();
    e.execute(Instr::SetImm(0, 200), 0, 0).unwrap();
    e.execute(Instr::SetImm(1, 10), 0, 0).unwrap();
    e.execute(Instr::Sub(0, 1), 0, 0).unwrap();
    assert_eq!(e.register(0), 190);
    assert_eq!(e.register(15), 1);
}

#[test]
fn add_imm_wraps_without_flag() {
    let mut c = fresh();
    c.execute(Instr::SetImm(0, 250), 0, 0).unwrap();
    c.execute(Instr::AddImm(0, 10), 0, 0).unwrap();
    assert_eq!(c.register(0), 4);
    assert_eq!(c.register(15), 0);
}

#[test]
fn bitwise_ops() {
    let mut c = fresh();
    c.execute(Instr::SetImm(0, 0b1100), 0, 0).unwrap();
    c.execute(Instr::SetImm(1, 0b1010), 0, 0).unwrap();
    c.execute(Instr::Or(0, 1), 0, 0).unwrap();
    assert_eq!(c.register(0), 0b1110);
    c.execute(Instr::SetImm(0, 0b1100), 0, 0).unwrap();
    c.execute(Instr::And(0, 1), 0, 0).unwrap();
    assert_eq!(c.register(0), 0b1000);
    c.execute(Instr::SetImm(0, 0b1100), 0, 0).unwrap();
    c.execute(Instr::Xor(0, 1), 0, 0).unwrap();
    assert_eq!(c.register(0), 0b0110);
    c.execute(Instr::Mov(2, 0), 0, 0).unwrap();
    assert_eq!(c.register(2), 0b0110);
}

#[test]
fn shifts_store_the_shifted_out_bit() {
    let mut c = fresh();
    c.execute(Instr::SetImm(0, 165), 0, 0).unwrap(); // 0b1010_0101
    c.execute(Instr::Shr(0), 0, 0).unwrap();
    assert_eq!(c.register(0), 82);
    assert_eq!(c.register(15), 1);

    let mut d = fresh();
    d.execute(Instr::SetImm(0, 165), 0, 0).unwrap();
    d.execute(Instr::Shl(0), 0, 0).unwrap();
    assert_eq!(d.register(0), 74); // (165 * 2) mod 256
    assert_eq!(d.register(15), 128); // raw masked high bit, not normalized
}

#[test]
fn skip_instructions_advance_by_two() {
    let mut c = fresh();
    let pc = c.program_counter();
    c.execute(Instr::SetImm(0, 7), 0, 0).unwrap();
    c.execute(Instr::SkipEqImm(0, 7), 0, 0).unwrap();
    assert_eq!(c.program_counter(), pc + 2);
    c.execute(Instr::SkipEqImm(0, 8), 0, 0).unwrap();
    assert_eq!(c.program_counter(), pc + 2);
    c.execute(Instr::SkipNeImm(0, 8), 0, 0).unwrap();
    assert_eq!(c.program_counter(), pc + 4);
    c.execute(Instr::SetImm(1, 7), 0, 0).unwrap();
    c.execute(Instr::SkipEqReg(0, 1), 0, 0).unwrap();
    assert_eq!(c.program_counter(), pc + 6);
    c.execute(Instr::SkipNeReg(0, 1), 0, 0).unwrap();
    assert_eq!(c.program_counter(), pc + 6);
}

#[test]
fn call_then_return_restores_pc_and_stack_depth() {
    let mut c = fresh();
    let pc = c.program_counter();
    let depth = c.stack_depth();
    c.execute(Instr::Call(0x300), 0, 0).unwrap();
    assert_eq!(c.program_counter(), 0x300);
    assert_eq!(c.stack_depth(), depth + 1);
    c.execute(Instr::Ret, 0, 0).unwrap();
    assert_eq!(c.program_counter(), pc);
    assert_eq!(c.stack_depth(), depth);
}

#[test]
fn return_on_empty_stack_is_fatal() {
    let mut c = fresh();
    assert_eq!(c.execute(Instr::Ret, 0, 0), Err(Fault::StackUnderflow));
}

#[test]
fn call_at_full_depth_is_fatal() {
    let mut c = fresh();
    for _ in 0..24 {
        c.execute(Instr::Call(0x300), 0, 0).unwrap();
    }
    assert_eq!(c.stack_depth(), 24);
    assert_eq!(c.execute(Instr::Call(0x300), 0, 0), Err(Fault::StackOverflow));
    assert_eq!(c.stack_depth(), 24);
}

#[test]
fn jump_and_jump_v0() {
    let mut c = fresh();
    c.execute(Instr::Jump(0x345), 0, 0).unwrap();
    assert_eq!(c.program_counter(), 0x345);
    c.execute(Instr::SetImm(0, 5), 0, 0).unwrap();
    c.execute(Instr::JumpV0(0x300), 0, 0).unwrap();
    assert_eq!(c.program_counter(), 0x305);
}

#[test]
fn index_register_instructions() {
    let mut c = fresh();
    c.execute(Instr::SetIndex(0x100), 0, 0).unwrap();
    assert_eq!(c.index_register(), 0x100);
    c.execute(Instr::SetImm(0, 5), 0, 0).unwrap();
    c.execute(Instr::AddIndex(0), 0, 0).unwrap();
    assert_eq!(c.index_register(), 0x105);
    c.execute(Instr::Font(2), 0, 0).unwrap();
    assert_eq!(c.index_register(), 10); // glyph stride is 5 bytes
}

#[test]
fn random_instruction_masks_the_byte() {
    let mut c = fresh();
    c.execute(Instr::Rand(0, 0x0F), 0xAB, 0).unwrap();
    assert_eq!(c.register(0), 0x0B);
    // through the decoder, with the real generator: mask 0 forces 0
    c.decode_op((0xC, 0, 0, 0)).unwrap();
    assert_eq!(c.register(0), 0);
}

#[test]
fn key_skips_default_to_not_pressed() {
    let mut c = fresh();
    let pc = c.program_counter();
    // no adapter: key-pressed skip does nothing, key-not-pressed skips
    c.decode_op((0xE, 0, 0x9, 0xE)).unwrap();
    assert_eq!(c.program_counter(), pc);
    c.decode_op((0xE, 0, 0xA, 0x1)).unwrap();
    assert_eq!(c.program_counter(), pc + 2);
}

#[test]
fn key_skips_follow_the_key_mask() {
    let mut c = fresh();
    let pc = c.program_counter();
    c.execute(Instr::SetImm(0, 3), 0, 0).unwrap();
    c.execute(Instr::SkipKey(0), 0, 1 << 3).unwrap();
    assert_eq!(c.program_counter(), pc + 2);
    c.execute(Instr::SkipNoKey(0), 0, 1 << 3).unwrap();
    assert_eq!(c.program_counter(), pc + 2);
}

#[test]
fn timer_instructions_and_tick() {
    let mut c = fresh();
    c.execute(Instr::SetImm(0, 2), 0, 0).unwrap();
    c.execute(Instr::SetDelay(0), 0, 0).unwrap();
    c.execute(Instr::SetSound(0), 0, 0).unwrap();
    assert_eq!(c.delay(), 2);
    assert_eq!(c.sound(), 2);
    c.execute(Instr::GetDelay(1), 0, 0).unwrap();
    assert_eq!(c.register(1), 2);
    c.update_timers();
    assert_eq!(c.delay(), 1);
    assert_eq!(c.sound(), 1);
    c.update_timers();
    c.update_timers();
    assert_eq!(c.delay(), 0); // floors at zero, never wraps
    assert_eq!(c.sound(), 0);
}

#[test]
fn timers_never_tick_below_zero_when_never_set() {
    let mut c = fresh();
    for _ in 0..5 {
        c.update_timers();
        assert_eq!(c.delay(), 0);
        assert_eq!(c.sound(), 0);
    }
}

#[test]
fn bcd_stores_decimal_digits() {
    let mut c = fresh();
    c.execute(Instr::SetImm(0, 234), 0, 0).unwrap();
    c.execute(Instr::SetIndex(0x300), 0, 0).unwrap();
    c.execute(Instr::Bcd(0), 0, 0).unwrap();
    assert_eq!(c.mem(0x300), 2);
    assert_eq!(c.mem(0x301), 3);
    assert_eq!(c.mem(0x302), 4);
}

#[test]
fn bcd_at_end_of_memory_is_fatal() {
    let mut c = fresh();
    c.execute(Instr::SetIndex(0xFFF), 0, 0).unwrap();
    assert_eq!(c.execute(Instr::Bcd(0), 0, 0), Err(Fault::OutOfBounds));
}

#[test]
fn store_and_load_registers_round_trip() {
    let mut c = fresh();
    for k in 0..4u8 {
        c.execute(Instr::SetImm(k as usize, 10 + k), 0, 0).unwrap();
    }
    c.execute(Instr::SetIndex(0x400), 0, 0).unwrap();
    c.execute(Instr::Store(3), 0, 0).unwrap();
    for k in 0..4 {
        assert_eq!(c.mem(0x400 + k), 10 + k as u8);
    }
    for k in 0..4 {
        c.execute(Instr::SetImm(k, 0), 0, 0).unwrap();
    }
    c.execute(Instr::Load(3), 0, 0).unwrap();
    for k in 0..4 {
        assert_eq!(c.register(k), 10 + k as u8);
    }
    // register 4 was outside the range and stays untouched
    assert_eq!(c.register(4), 0);
}

#[test]
fn store_past_end_of_memory_is_fatal() {
    let mut c = fresh();
    c.execute(Instr::SetIndex(0xFFE), 0, 0).unwrap();
    assert_eq!(c.execute(Instr::Store(5), 0, 0), Err(Fault::OutOfBounds));
    assert_eq!(c.execute(Instr::Load(5), 0, 0), Err(Fault::OutOfBounds));
}

#[test]
fn draw_twice_restores_display_and_reports_collision() {
    let mut c = fresh();
    c.load_rom(&[0xFF, 0xFF, 0xFF, 0xFF, 0xFF]);
    c.execute(Instr::SetIndex(0x200), 0, 0).unwrap();
    c.execute(Instr::Draw(0, 1, 5), 0, 0).unwrap();
    assert_eq!(c.register(15), 0);
    assert_eq!(c.pixel(0, 0), 1);
    c.execute(Instr::Draw(0, 1, 5), 0, 0).unwrap();
    assert_eq!(c.register(15), 1); // every pixel set by the first draw collides
    for p in c.display() {
        assert_eq!(*p, 0); // XOR is self-inverse
    }
}

#[test]
fn draw_wraps_at_both_edges() {
    let mut c = fresh();
    c.load_rom(&[0xFF, 0xFF]);
    c.execute(Instr::SetIndex(0x200), 0, 0).unwrap();
    c.execute(Instr::SetImm(0, 62), 0, 0).unwrap();
    c.execute(Instr::SetImm(1, 31), 0, 0).unwrap();
    c.execute(Instr::Draw(0, 1, 2), 0, 0).unwrap();
    // columns 62..64 wrap to 0..6, row 31 then wraps to row 0
    assert_eq!(c.pixel(62, 31), 1);
    assert_eq!(c.pixel(63, 31), 1);
    assert_eq!(c.pixel(0, 31), 1);
    assert_eq!(c.pixel(5, 31), 1);
    assert_eq!(c.pixel(62, 0), 1);
    assert_eq!(c.pixel(0, 0), 1);
    assert_eq!(c.pixel(6, 31), 0);
    assert_eq!(c.pixel(6, 0), 0);
    assert_eq!(c.register(15), 0);
}

#[test]
fn draw_past_end_of_memory_is_fatal() {
    let mut c = fresh();
    c.execute(Instr::SetIndex(0xFFE), 0, 0).unwrap();
    assert_eq!(c.execute(Instr::Draw(0, 0, 5), 0, 0), Err(Fault::OutOfBounds));
}

#[test]
fn clear_display_zeroes_every_pixel() {
    let mut c = fresh();
    c.load_rom(&[0xFF, 0xFF, 0xFF]);
    c.execute(Instr::SetIndex(0x200), 0, 0).unwrap();
    c.execute(Instr::Draw(0, 1, 3), 0, 0).unwrap();
    assert_eq!(c.pixel(0, 0), 1);
    c.execute(Instr::Cls, 0, 0).unwrap();
    for p in c.display() {
        assert_eq!(*p, 0);
    }
}

#[test]
fn set_register_program_runs_end_to_end() {
    let mut c = fresh();
    c.load_rom(&[0x60, 0x05, 0x00, 0xEE]);
    let op = c.fetch_op().unwrap();
    c.decode_op(op).unwrap();
    assert_eq!(c.register(0), 5);
    assert_eq!(c.program_counter(), 0x202);
}

#[test]
fn sprite_program_draws_solid_block_at_origin() {
    let mut c = fresh();
    c.load_rom(&[0xFF, 0xFF, 0xFF, 0xFF, 0xFF]);
    c.execute(Instr::SetIndex(0x200), 0, 0).unwrap();
    c.execute(Instr::Draw(0, 1, 5), 0, 0).unwrap();
    for y in 0..32 {
        for x in 0..64 {
            let expected = if x < 8 && y < 5 { 1 } else { 0 };
            assert_eq!(c.pixel(x, y), expected);
        }
    }
    assert_eq!(c.register(15), 0);
}

#[test]
fn invalid_instruction_is_fatal_never_a_no_op() {
    let mut c = fresh();
    c.load_rom(&[0xFF, 0xFF]);
    let op = c.fetch_op().unwrap();
    assert_eq!(c.decode_op(op), Err(Fault::InvalidOpcode));

    let mut d = fresh();
    d.load_rom(&[0xFF, 0xFF]);
    assert_eq!(d.cycle(), Err(Fault::InvalidOpcode));
}

#[test]
fn deprecated_native_call_is_fatal() {
    let mut c = fresh();
    assert_eq!(decode((0x0, 0x1, 0x2, 0x3)), Err(Fault::DeprecatedOpcode));
    c.load_rom(&[0x01, 0x23]);
    let op = c.fetch_op().unwrap();
    assert_eq!(c.decode_op(op), Err(Fault::DeprecatedOpcode));
}

#[test]
fn decoder_matches_the_instruction_table() {
    assert_eq!(decode((0x0, 0x0, 0xE, 0x0)), Ok(Instr::Cls));
    assert_eq!(decode((0x0, 0x0, 0xE, 0xE)), Ok(Instr::Ret));
    assert_eq!(decode((0x1, 0x2, 0x3, 0x4)), Ok(Instr::Jump(0x234)));
    assert_eq!(decode((0x2, 0x2, 0x3, 0x4)), Ok(Instr::Call(0x234)));
    assert_eq!(decode((0x6, 0x1, 0x2, 0x3)), Ok(Instr::SetImm(1, 0x23)));
    assert_eq!(decode((0x8, 0x1, 0x2, 0x4)), Ok(Instr::Add(1, 2)));
    assert_eq!(decode((0x8, 0x1, 0x2, 0x5)), Ok(Instr::Sub(1, 2)));
    assert_eq!(decode((0xA, 0x2, 0x0, 0x0)), Ok(Instr::SetIndex(0x200)));
    assert_eq!(decode((0xD, 0x0, 0x1, 0x5)), Ok(Instr::Draw(0, 1, 5)));
    assert_eq!(decode((0xF, 0x3, 0x3, 0x3)), Ok(Instr::Bcd(3)));
    assert_eq!(decode((0x5, 0x1, 0x2, 0x1)), Err(Fault::InvalidOpcode));
    assert_eq!(decode((0xF, 0x0, 0x9, 0x9)), Err(Fault::InvalidOpcode));
}

#[test]
fn cycle_ticks_timers_at_the_sub_rate() {
    let mut c = fresh();
    // a harmless program: twelve "set register 0 to 5" instructions
    let rom: Vec<u8> = (0..12).flat_map(|_| [0x60, 0x05]).collect();
    c.load_rom(&rom);
    c.execute(Instr::SetImm(1, 3), 0, 0).unwrap();
    c.execute(Instr::SetDelay(1), 0, 0).unwrap();
    assert_eq!(c.delay(), 3);
    // the first cycle ticks the timers, the next nine do not
    c.cycle().unwrap();
    assert_eq!(c.delay(), 2);
    for _ in 0..9 {
        c.cycle().unwrap();
        assert_eq!(c.delay(), 2);
    }
    // the eleventh cycle is the next tick
    c.cycle().unwrap();
    assert_eq!(c.delay(), 1);
}
