use chip8::emu::Emulator;
use chip8::error::Error;
use chip8::machine::RunState;

/// A machine with the font loaded and the given instruction words at 0x200.
fn boot(program: &[u16]) -> Emulator {
    let mut rom = Vec::new();
    for word in program {
        rom.push((word >> 8) as u8);
        rom.push((word & 0xFF) as u8);
    }
    let mut emu = Emulator::new();
    emu.load_sprites();
    emu.load_rom(&rom).unwrap();
    emu
}

/// Executes `n` instructions, each of which must succeed.
fn steps(emu: &mut Emulator, n: usize) {
    for _ in 0..n {
        assert_eq!(emu.step(0), Ok(()));
    }
}

#[test]
fn fetch_is_big_endian() {
    let emu = boot(&[0x12AB]);
    assert_eq!(emu.opcode(), Ok(0x12AB));
}

#[test]
fn decode_splits_the_word() {
    let emu = Emulator::new();
    assert_eq!(emu.decode_opcode(0xD12F), (0x1, 0x2, 0x2F, 0x12F));
    assert_eq!(emu.decode_opcode(0x0000), (0, 0, 0, 0));
    assert_eq!(emu.decode_opcode(0xFFFF), (0xF, 0xF, 0xFF, 0xFFF));
    assert_eq!(emu.decode_opcode(0x8AB4), (0xA, 0xB, 0xB4, 0xAB4));
}

#[test]
fn load_immediate_sets_every_register_to_every_byte() {
    for x in 0..16u16 {
        for kk in 0..=255u16 {
            let mut emu = boot(&[0x6000 | (x << 8) | kk]);
            steps(&mut emu, 1);
            assert_eq!(emu.v()[x as usize], kk as u8);
            assert_eq!(emu.pc(), 0x202);
            for other in 0..16 {
                if other != x as usize {
                    assert_eq!(emu.v()[other], 0);
                }
            }
        }
    }
}

#[test]
fn add_immediate_adds() {
    let mut emu = boot(&[0x6A10, 0x7A05]);
    steps(&mut emu, 2);
    assert_eq!(emu.v()[0xA], 0x15);
    assert_eq!(emu.pc(), 0x204);
}

#[test]
fn add_immediate_wraps_without_flag() {
    let mut emu = boot(&[0x60FF, 0x7002]);
    steps(&mut emu, 2);
    assert_eq!(emu.v()[0], 0x01);
    assert_eq!(emu.v()[0xF], 0);
}

#[test]
fn add_zero_leaves_register_and_flag() {
    let mut emu = boot(&[0x6A37, 0x6F01, 0x7A00, 0x7A00, 0x7A00]);
    steps(&mut emu, 2);
    let registers = *emu.v();
    steps(&mut emu, 3);
    assert_eq!(emu.v(), &registers);
    assert_eq!(emu.v()[0xA], 0x37);
    assert_eq!(emu.v()[0xF], 1);
}

#[test]
fn add_registers_sets_carry() {
    let mut emu = boot(&[0x60FF, 0x6101, 0x8014]);
    steps(&mut emu, 3);
    assert_eq!(emu.v()[0], 0x00);
    assert_eq!(emu.v()[1], 0x01);
    assert_eq!(emu.v()[0xF], 1);
}

#[test]
fn add_registers_clears_carry() {
    let mut emu = boot(&[0x6001, 0x6101, 0x6F01, 0x8014]);
    steps(&mut emu, 4);
    assert_eq!(emu.v()[0], 0x02);
    assert_eq!(emu.v()[0xF], 0);
}

#[test]
fn add_registers_at_the_carry_boundary() {
    let mut emu = boot(&[0x60FF, 0x6100, 0x8014]);
    steps(&mut emu, 3);
    assert_eq!(emu.v()[0], 0xFF);
    assert_eq!(emu.v()[0xF], 0);
    let mut emu = boot(&[0x6080, 0x6180, 0x8014]);
    steps(&mut emu, 3);
    assert_eq!(emu.v()[0], 0x00);
    assert_eq!(emu.v()[0xF], 1);
}

#[test]
fn add_registers_into_the_flag_register_keeps_the_sum() {
    let mut emu = boot(&[0x6FF0, 0x6120, 0x8F14]);
    steps(&mut emu, 3);
    assert_eq!(emu.v()[0xF], 0x10);
}

#[test]
fn copy_or_and_xor() {
    let mut emu = boot(&[0x6005, 0x6109, 0x8010]);
    steps(&mut emu, 3);
    assert_eq!(emu.v()[0], 9);

    let mut emu = boot(&[0x603C, 0x61F0, 0x8011]);
    steps(&mut emu, 3);
    assert_eq!(emu.v()[0], 0xFC);

    let mut emu = boot(&[0x603C, 0x61F0, 0x8012]);
    steps(&mut emu, 3);
    assert_eq!(emu.v()[0], 0x30);

    let mut emu = boot(&[0x603C, 0x61F0, 0x8013]);
    steps(&mut emu, 3);
    assert_eq!(emu.v()[0], 0xCC);
    assert_eq!(emu.v()[1], 0xF0);
    assert_eq!(emu.v()[0xF], 0);
}

#[test]
fn subtract_sets_flag_when_greater() {
    let mut emu = boot(&[0x6005, 0x6103, 0x8015]);
    steps(&mut emu, 3);
    assert_eq!(emu.v()[0], 2);
    assert_eq!(emu.v()[0xF], 1);
}

#[test]
fn subtract_wraps_and_clears_flag_when_smaller() {
    let mut emu = boot(&[0x6003, 0x6105, 0x6F01, 0x8015]);
    steps(&mut emu, 4);
    assert_eq!(emu.v()[0], 0xFE);
    assert_eq!(emu.v()[0xF], 0);
}

#[test]
fn subtract_of_equal_values_clears_flag() {
    let mut emu = boot(&[0x6007, 0x6107, 0x6F01, 0x8015]);
    steps(&mut emu, 4);
    assert_eq!(emu.v()[0], 0);
    assert_eq!(emu.v()[0xF], 0);
}

#[test]
fn reverse_subtract() {
    let mut emu = boot(&[0x6003, 0x6105, 0x8017]);
    steps(&mut emu, 3);
    assert_eq!(emu.v()[0], 2);
    assert_eq!(emu.v()[0xF], 1);

    let mut emu = boot(&[0x6005, 0x6103, 0x6F01, 0x8017]);
    steps(&mut emu, 4);
    assert_eq!(emu.v()[0], 0xFE);
    assert_eq!(emu.v()[0xF], 0);

    let mut emu = boot(&[0x6005, 0x6105, 0x6F01, 0x8017]);
    steps(&mut emu, 4);
    assert_eq!(emu.v()[0], 0);
    assert_eq!(emu.v()[0xF], 0);
}

#[test]
fn shift_right_puts_the_low_nibble_in_the_flag() {
    let mut emu = boot(&[0x6057, 0x8006]);
    steps(&mut emu, 2);
    assert_eq!(emu.v()[0xF], 0x07);
    assert_eq!(emu.v()[0], 0x2B);

    let mut emu = boot(&[0x60F0, 0x6F09, 0x8006]);
    steps(&mut emu, 3);
    assert_eq!(emu.v()[0xF], 0x00);
    assert_eq!(emu.v()[0], 0x78);
}

#[test]
fn shift_right_ignores_the_second_register() {
    let mut emu = boot(&[0x6004, 0x61FF, 0x8016]);
    steps(&mut emu, 3);
    assert_eq!(emu.v()[0], 0x02);
    assert_eq!(emu.v()[1], 0xFF);
    assert_eq!(emu.v()[0xF], 0x04);
}

#[test]
fn shift_right_of_the_flag_register_shifts_the_flag() {
    let mut emu = boot(&[0x6FAB, 0x8F06]);
    steps(&mut emu, 2);
    assert_eq!(emu.v()[0xF], 0x05);
}

#[test]
fn shift_left_puts_the_masked_high_bit_in_the_flag() {
    let mut emu = boot(&[0x60C1, 0x800E]);
    steps(&mut emu, 2);
    assert_eq!(emu.v()[0xF], 0x80);
    assert_eq!(emu.v()[0], 0x82);

    let mut emu = boot(&[0x6041, 0x6F01, 0x800E]);
    steps(&mut emu, 3);
    assert_eq!(emu.v()[0xF], 0x00);
    assert_eq!(emu.v()[0], 0x82);
}

#[test]
fn shift_left_of_the_flag_register_shifts_the_flag() {
    let mut emu = boot(&[0x6FC1, 0x8F0E]);
    steps(&mut emu, 2);
    assert_eq!(emu.v()[0xF], 0x00);
    let mut emu = boot(&[0x6F41, 0x8F0E]);
    steps(&mut emu, 2);
    assert_eq!(emu.v()[0xF], 0x00);
}

#[test]
fn jump_sets_the_program_counter() {
    let mut emu = boot(&[0x1ABC]);
    steps(&mut emu, 1);
    assert_eq!(emu.pc(), 0xABC);
    assert_eq!(emu.sp(), 0);
}

#[test]
fn jump_with_offset_adds_v0() {
    let mut emu = boot(&[0x6010, 0xB300]);
    steps(&mut emu, 2);
    assert_eq!(emu.pc(), 0x310);
    let mut emu = boot(&[0x60FF, 0xBFFF]);
    steps(&mut emu, 2);
    assert_eq!(emu.pc(), 0x10FE);
}

#[test]
fn call_and_return() {
    // 0x200 call 0x206; 0x202 V0 = 1; 0x204 spin; 0x206 V1 = 2; 0x208 return
    let mut emu = boot(&[0x2206, 0x6001, 0x1204, 0x6102, 0x00EE]);
    steps(&mut emu, 1);
    assert_eq!(emu.pc(), 0x206);
    assert_eq!(emu.sp(), 1);
    assert_eq!(emu.stack()[0], 0x202);
    steps(&mut emu, 1);
    assert_eq!(emu.v()[1], 2);
    steps(&mut emu, 1);
    assert_eq!(emu.pc(), 0x202);
    assert_eq!(emu.sp(), 0);
    assert_eq!(emu.stack()[0], 0);
    steps(&mut emu, 1);
    assert_eq!(emu.v()[0], 1);
    assert_eq!(emu.pc(), 0x204);
}

#[test]
fn skip_if_equal_to_byte() {
    let mut emu = boot(&[0x6005, 0x3005]);
    steps(&mut emu, 2);
    assert_eq!(emu.pc(), 0x206);
    let mut emu = boot(&[0x6005, 0x3006]);
    steps(&mut emu, 2);
    assert_eq!(emu.pc(), 0x204);
}

#[test]
fn skip_if_not_equal_to_byte() {
    let mut emu = boot(&[0x6005, 0x4005]);
    steps(&mut emu, 2);
    assert_eq!(emu.pc(), 0x204);
    let mut emu = boot(&[0x6005, 0x4006]);
    steps(&mut emu, 2);
    assert_eq!(emu.pc(), 0x206);
}

#[test]
fn skip_if_registers_equal() {
    let mut emu = boot(&[0x6005, 0x6105, 0x5010]);
    steps(&mut emu, 3);
    assert_eq!(emu.pc(), 0x208);
    let mut emu = boot(&[0x6005, 0x6106, 0x5010]);
    steps(&mut emu, 3);
    assert_eq!(emu.pc(), 0x206);
}

#[test]
fn skip_if_registers_differ() {
    let mut emu = boot(&[0x6005, 0x6105, 0x9010]);
    steps(&mut emu, 3);
    assert_eq!(emu.pc(), 0x206);
    let mut emu = boot(&[0x6005, 0x6106, 0x9010]);
    steps(&mut emu, 3);
    assert_eq!(emu.pc(), 0x208);
}

#[test]
fn register_skips_are_selected_by_the_high_nibble_alone() {
    let mut emu = boot(&[0x6005, 0x6105, 0x501A]);
    steps(&mut emu, 3);
    assert_eq!(emu.pc(), 0x208);
    let mut emu = boot(&[0x6005, 0x6106, 0x901A]);
    steps(&mut emu, 3);
    assert_eq!(emu.pc(), 0x208);
}

#[test]
fn set_address_register() {
    let mut emu = boot(&[0xA123]);
    steps(&mut emu, 1);
    assert_eq!(emu.i(), 0x123);
    assert_eq!(emu.pc(), 0x202);
}

#[test]
fn random_is_masked() {
    let mut emu = boot(&[0xC00F, 0xC1F0, 0xC2FF, 0xC300]);
    assert_eq!(emu.step(0xAB), Ok(()));
    assert_eq!(emu.v()[0], 0x0B);
    assert_eq!(emu.step(0xAB), Ok(()));
    assert_eq!(emu.v()[1], 0xA0);
    assert_eq!(emu.step(0xCD), Ok(()));
    assert_eq!(emu.v()[2], 0xCD);
    assert_eq!(emu.step(0xFF), Ok(()));
    assert_eq!(emu.v()[3], 0x00);
    assert_eq!(emu.pc(), 0x208);
}

#[test]
fn random_byte_is_ignored_by_other_instructions() {
    let mut a = boot(&[0x6012, 0x7003, 0xA222]);
    let mut b = boot(&[0x6012, 0x7003, 0xA222]);
    for _ in 0..3 {
        assert_eq!(a.step(0x00), Ok(()));
        assert_eq!(b.step(0xFF), Ok(()));
    }
    assert_eq!(a.v(), b.v());
    assert_eq!(a.i(), b.i());
    assert_eq!(a.pc(), b.pc());
}

#[test]
fn timers_are_copied_to_and_from_registers() {
    let mut emu = boot(&[0x6033, 0xF015, 0xF107, 0x6244, 0xF218]);
    steps(&mut emu, 5);
    assert_eq!(emu.dt(), 0x33);
    assert_eq!(emu.v()[1], 0x33);
    assert_eq!(emu.st(), 0x44);
}

#[test]
fn add_to_address_register() {
    let mut emu = boot(&[0xA100, 0x6005, 0xF01E]);
    steps(&mut emu, 3);
    assert_eq!(emu.i(), 0x105);
    assert_eq!(emu.v()[0xF], 0);
}

#[test]
fn add_to_address_register_wraps_at_sixteen_bits() {
    // 0x200 I = 0xFFF; 0x202 V0 = 0xFF; 0x204 I += V0; 0x206 jump 0x204
    let mut emu = boot(&[0xAFFF, 0x60FF, 0xF01E, 0x1204]);
    steps(&mut emu, 2);
    for _ in 0..240 {
        steps(&mut emu, 2);
    }
    assert_eq!(emu.i(), 0xFF0F);
    steps(&mut emu, 1);
    assert_eq!(emu.i(), 14);
    assert_eq!(emu.v()[0xF], 0);
}

#[test]
fn glyph_address() {
    let mut emu = boot(&[0x600A, 0xF029]);
    steps(&mut emu, 2);
    assert_eq!(emu.i(), 50);
    let mut emu = boot(&[0x60FF, 0xF029]);
    steps(&mut emu, 2);
    assert_eq!(emu.i(), 1275);
}

#[test]
fn binary_coded_decimal() {
    let mut emu = boot(&[0x60FE, 0xA300, 0xF033]);
    steps(&mut emu, 3);
    assert_eq!(&emu.memory()[0x300..0x303], &[2, 5, 4]);
    assert_eq!(emu.i(), 0x300);

    let mut emu = boot(&[0x6007, 0xA300, 0xF033]);
    steps(&mut emu, 3);
    assert_eq!(&emu.memory()[0x300..0x303], &[0, 0, 7]);

    let mut emu = boot(&[0x6064, 0xA300, 0xF033]);
    steps(&mut emu, 3);
    assert_eq!(&emu.memory()[0x300..0x303], &[1, 0, 0]);
}

#[test]
fn register_dump_counts_by_the_value_in_vx() {
    // V3 holds 1, so F355 stores V0 and V1 only.
    let mut emu = boot(&[0x60AA, 0x61BB, 0x62CC, 0x6301, 0xA300, 0xF355]);
    steps(&mut emu, 6);
    assert_eq!(&emu.memory()[0x300..0x304], &[0xAA, 0xBB, 0x00, 0x00]);
    assert_eq!(emu.i(), 0x300);
    assert_eq!(emu.pc(), 0x20C);
}

#[test]
fn register_dump_with_zero_in_vx_stores_v0() {
    let mut emu = boot(&[0x6100, 0x60AA, 0xA300, 0xF155]);
    steps(&mut emu, 4);
    assert_eq!(&emu.memory()[0x300..0x302], &[0xAA, 0x00]);
}

#[test]
fn register_dump_writes_zero_past_the_last_register() {
    let mut rom = vec![0u8; 0x120];
    let program: [u16; 5] = [0x6011, 0x6122, 0x6F33, 0xA300, 0xF055];
    for (k, word) in program.iter().enumerate() {
        rom[2 * k] = (word >> 8) as u8;
        rom[2 * k + 1] = (word & 0xFF) as u8;
    }
    // 0x300 .. 0x320 holds 0xEE
    for k in 0x100..0x120 {
        rom[k] = 0xEE;
    }
    let mut emu = Emulator::new();
    emu.load_rom(&rom).unwrap();
    steps(&mut emu, 5);
    // V0 == 0x11 == 17: bytes 0x300 ..= 0x311 are written.
    assert_eq!(emu.memory()[0x300], 0x11);
    assert_eq!(emu.memory()[0x301], 0x22);
    for k in 2..15 {
        assert_eq!(emu.memory()[0x300 + k], 0);
    }
    assert_eq!(emu.memory()[0x30F], 0x33);
    assert_eq!(emu.memory()[0x310], 0);
    assert_eq!(emu.memory()[0x311], 0);
    assert_eq!(emu.memory()[0x312], 0xEE);
}

#[test]
fn register_load_counts_by_the_value_in_vx() {
    let mut rom = vec![0u8; 0x110];
    // V2 holds 1, so F265 loads V0 and V1 only.
    let program: [u16; 4] = [0x6201, 0x6377, 0xA300, 0xF265];
    for (k, word) in program.iter().enumerate() {
        rom[2 * k] = (word >> 8) as u8;
        rom[2 * k + 1] = (word & 0xFF) as u8;
    }
    for k in 0..16 {
        rom[0x100 + k] = 0xA0 + k as u8;
    }
    let mut emu = Emulator::new();
    emu.load_rom(&rom).unwrap();
    steps(&mut emu, 4);
    assert_eq!(emu.v()[0], 0xA0);
    assert_eq!(emu.v()[1], 0xA1);
    assert_eq!(emu.v()[2], 0x01);
    assert_eq!(emu.v()[3], 0x77);
    assert_eq!(emu.i(), 0x300);
}

#[test]
fn register_load_stops_at_the_last_register() {
    let mut rom = vec![0u8; 0x120];
    let program: [u16; 3] = [0x60C8, 0xA300, 0xF065];
    for (k, word) in program.iter().enumerate() {
        rom[2 * k] = (word >> 8) as u8;
        rom[2 * k + 1] = (word & 0xFF) as u8;
    }
    for k in 0..0x20 {
        rom[0x100 + k] = 0x10 + k as u8;
    }
    let mut emu = Emulator::new();
    emu.load_rom(&rom).unwrap();
    steps(&mut emu, 3);
    for k in 0..16 {
        assert_eq!(emu.v()[k], 0x10 + k as u8);
    }
}

#[test]
fn dump_then_load_round_trips() {
    // V0 = 3 so that four registers are transferred.
    let mut emu = boot(
        &[0x6003, 0x6111, 0x6222, 0x6333, 0xA400, 0xF055, 0x6103, 0x6203, 0x6303, 0xF065],
    );
    steps(&mut emu, 10);
    assert_eq!(&emu.v()[0..4], &[3, 0x11, 0x22, 0x33]);
}

#[test]
fn wait_for_key_suspends() {
    let mut emu = boot(&[0xF50A]);
    steps(&mut emu, 1);
    assert_eq!(emu.run_state(), RunState::WaitingForKey(5));
    assert!(!emu.is_running());
    assert_eq!(emu.pc(), 0x202);
}

#[test]
fn unknown_words_are_reported_with_their_address() {
    for word in [0x0000u16, 0x0123, 0x00E1, 0x00FE, 0x8008, 0x812F, 0x8009, 0xE000, 0xE19F, 0xE1A0, 0xF000, 0xF1FF, 0xF154, 0xF066] {
        let mut emu = boot(&[0x6A01, word]);
        steps(&mut emu, 1);
        let registers = *emu.v();
        let memory = *emu.memory();
        assert_eq!(emu.step(0), Err(Error::UnknownInstruction { opcode: word, pc: 0x202 }));
        assert_eq!(emu.pc(), 0x202);
        assert_eq!(emu.v(), &registers);
        assert_eq!(emu.memory(), &memory);
        assert_eq!(emu.sp(), 0);
        assert_eq!(emu.run_state(), RunState::Running);
    }
}

#[test]
fn every_known_word_advances_or_transfers() {
    for word in [0x00E0u16, 0x3000, 0x4000, 0x5000, 0x6000, 0x7000, 0x8000, 0x8001, 0x8002, 0x8003, 0x8004, 0x8005, 0x8006, 0x8007, 0x800E, 0x9000, 0xA000, 0xC000, 0xD000, 0xE09E, 0xE0A1, 0xF007, 0xF00A, 0xF015, 0xF018, 0xF01E, 0xF029, 0xF033, 0xF055, 0xF065] {
        let mut emu = boot(&[word]);
        assert_eq!(emu.step(0), Ok(()));
        assert!(emu.pc() == 0x202 || emu.pc() == 0x204);
    }
}

#[test]
fn return_with_empty_stack_underflows() {
    let mut emu = boot(&[0x00EE]);
    assert_eq!(emu.step(0), Err(Error::StackUnderflow));
    assert_eq!(emu.pc(), 0x200);
    assert_eq!(emu.sp(), 0);
}

#[test]
fn seventeenth_nested_call_overflows() {
    let mut program = Vec::new();
    for k in 0..17u16 {
        program.push(0x2000 | (0x202 + 2 * k));
    }
    let mut emu = boot(&program);
    for k in 0..16u16 {
        assert_eq!(emu.step(0), Ok(()));
        assert_eq!(emu.sp(), k as u8 + 1);
        assert_eq!(emu.stack()[k as usize], 0x202 + 2 * k);
    }
    let stack = *emu.stack();
    assert_eq!(emu.step(0), Err(Error::StackOverflow));
    assert_eq!(emu.sp(), 16);
    assert_eq!(emu.pc(), 0x220);
    assert_eq!(emu.stack(), &stack);
}

#[test]
fn sixteen_returns_unwind_sixteen_calls() {
    // Sixteen calls in a chain, then a routine that returns; every return
    // lands on the call after the one it came from, which is the next return.
    let mut program = Vec::new();
    for k in 0..15u16 {
        program.push(0x2000 | (0x202 + 2 * k));
    }
    // 0x21E: the sixteenth call, to 0x2F0
    program.push(0x22F0);
    let mut rom = vec![0u8; 0x100];
    for (k, word) in program.iter().enumerate() {
        rom[2 * k] = (word >> 8) as u8;
        rom[2 * k + 1] = (word & 0xFF) as u8;
    }
    rom[0xF0] = 0x00;
    rom[0xF1] = 0xEE;
    let mut emu = Emulator::new();
    emu.load_rom(&rom).unwrap();
    steps(&mut emu, 16);
    assert_eq!(emu.sp(), 16);
    assert_eq!(emu.pc(), 0x2F0);
    steps(&mut emu, 1);
    assert_eq!(emu.sp(), 15);
    assert_eq!(emu.pc(), 0x220);
    assert_eq!(emu.stack()[15], 0);
}

#[test]
fn fetch_past_the_end_of_memory_fails() {
    let mut emu = boot(&[0x1FFF]);
    steps(&mut emu, 1);
    assert_eq!(emu.pc(), 0xFFF);
    assert_eq!(emu.opcode(), Err(Error::MemoryOutOfBounds));
    assert_eq!(emu.step(0), Err(Error::MemoryOutOfBounds));
    assert_eq!(emu.pc(), 0xFFF);
}

#[test]
fn fetch_of_the_last_word_of_memory_succeeds() {
    let mut rom = vec![0u8; 0x1000 - 0x200];
    rom[0] = 0x1F;
    rom[1] = 0xFE;
    rom[0xDFE] = 0x6A;
    rom[0xDFF] = 0x42;
    let mut emu = Emulator::new();
    emu.load_rom(&rom).unwrap();
    steps(&mut emu, 1);
    assert_eq!(emu.opcode(), Ok(0x6A42));
    steps(&mut emu, 1);
    assert_eq!(emu.v()[0xA], 0x42);
    assert_eq!(emu.pc(), 0x1000);
    assert_eq!(emu.step(0), Err(Error::MemoryOutOfBounds));
}

#[test]
fn decimal_digits_must_fit_in_memory() {
    let mut emu = boot(&[0xAFFD, 0x607B, 0xF033]);
    steps(&mut emu, 3);
    assert_eq!(&emu.memory()[0xFFD..0x1000], &[1, 2, 3]);

    let mut emu = boot(&[0xAFFE, 0x607B, 0xF033]);
    steps(&mut emu, 2);
    let memory = *emu.memory();
    assert_eq!(emu.step(0), Err(Error::MemoryOutOfBounds));
    assert_eq!(emu.memory(), &memory);
    assert_eq!(emu.pc(), 0x204);
}

#[test]
fn register_dump_must_fit_in_memory() {
    let mut emu = boot(&[0xAFFE, 0x6001, 0xF055]);
    steps(&mut emu, 3);
    assert_eq!(&emu.memory()[0xFFE..0x1000], &[1, 0]);

    let mut emu = boot(&[0xAFFE, 0x6002, 0xF055]);
    steps(&mut emu, 2);
    let memory = *emu.memory();
    assert_eq!(emu.step(0), Err(Error::MemoryOutOfBounds));
    assert_eq!(emu.memory(), &memory);
    assert_eq!(emu.pc(), 0x204);
}

#[test]
fn register_load_must_fit_in_memory() {
    let mut emu = boot(&[0xAFFE, 0x6001, 0xF065]);
    steps(&mut emu, 3);
    assert_eq!(emu.pc(), 0x206);

    // Only sixteen registers are ever loaded, so sixteen bytes must be there.
    let mut emu = boot(&[0xAFF0, 0x60FF, 0xF065]);
    steps(&mut emu, 3);
    assert_eq!(emu.pc(), 0x206);

    let mut emu = boot(&[0xAFF1, 0x60FF, 0x6177, 0xF065]);
    steps(&mut emu, 3);
    let registers = *emu.v();
    assert_eq!(emu.step(0), Err(Error::MemoryOutOfBounds));
    assert_eq!(emu.v(), &registers);
    assert_eq!(emu.pc(), 0x206);
}
