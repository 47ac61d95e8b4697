use chip8::{
    apply_instruction, can_execute, decode_instruction, decode_opcode, emulation_step,
    execute_instruction, fetch_instruction, make_chip8, step, Chip8, Fault, Instruction,
    INSTRUCTIONS_PER_FRAME, PROGRAM_START,
};

fn put_word(chip8: &mut Chip8, addr: usize, word: u16) {
    chip8.memory[addr] = (word >> 8) as u8;
    chip8.memory[addr + 1] = (word & 0xFF) as u8;
}

#[test]
fn fetch_reads_big_endian_and_advances_pc() {
    let mut chip8 = Chip8::new();
    chip8.regs.pc = 0x200;
    chip8.memory[0x200] = 0x12;
    chip8.memory[0x201] = 0x34;
    let word = fetch_instruction(&mut chip8.regs, &chip8.memory);
    assert_eq!(word, 0x1234);
    assert_eq!(chip8.regs.pc, 0x202);
}

#[test]
fn fetch_at_last_word_of_memory() {
    let mut chip8 = Chip8::new();
    chip8.regs.pc = 4094;
    chip8.memory[4094] = 0xAB;
    chip8.memory[4095] = 0xCD;
    assert_eq!(fetch_instruction(&mut chip8.regs, &chip8.memory), 0xABCD);
    assert_eq!(chip8.regs.pc, 4096);
}

#[test]
fn decode_rejects_words_outside_the_table() {
    for word in [0x0000u16, 0x0123, 0x00E1, 0x8AB8, 0x8ABF, 0xE19F, 0xE1A2, 0xF100, 0xF1FF, 0xF166] {
        assert_eq!(decode_opcode(word), None, "word {:#06x}", word);
    }
}

#[test]
fn decode_opcode_agrees_with_decode_instruction() {
    for word in [0x00E0u16, 0x1ABC, 0x8AB4, 0xDAB5, 0xE2A1, 0xF165, 0x5121, 0x9AB7] {
        assert_eq!(decode_opcode(word), Some(decode_instruction(word)));
    }
    assert_eq!(decode_instruction(0x5121), Instruction::SeReg { reg1: 1, reg2: 2 });
    assert_eq!(decode_instruction(0xF165), Instruction::LdMemRegs { end_reg: 1 });
}

#[test]
fn add_immediate_wraps_without_flag() {
    let mut chip8 = Chip8::new();
    chip8.regs.general[0x3] = 0xFF;
    chip8.regs.general[0xF] = 0x7;
    execute_instruction(&Instruction::Add { reg: 0x3, val: 0x02 }, &mut chip8);
    assert_eq!(chip8.regs.general[0x3], 0x01);
    assert_eq!(chip8.regs.general[0xF], 0x7);
}

#[test]
fn add_reg_into_flag_register_keeps_sum() {
    let mut chip8 = Chip8::new();
    chip8.regs.general[0xF] = 0xFF;
    chip8.regs.general[0x1] = 0x03;
    execute_instruction(&Instruction::AddReg { reg1: 0xF, reg2: 0x1 }, &mut chip8);
    assert_eq!(chip8.regs.general[0xF], 0x02);
}

#[test]
fn sub_reg_equal_operands_clear_flag() {
    let mut chip8 = Chip8::new();
    chip8.regs.general[0x1] = 0x42;
    chip8.regs.general[0x2] = 0x42;
    execute_instruction(&Instruction::SubReg { reg1: 0x1, reg2: 0x2 }, &mut chip8);
    assert_eq!(chip8.regs.general[0x1], 0x00);
    assert_eq!(chip8.regs.general[0xF], 0x0);
}

#[test]
fn bcd_of_edge_values() {
    let mut chip8 = Chip8::new();
    chip8.regs.i = 0x400;
    for (v, digits) in [(0u8, [0u8, 0, 0]), (9, [0, 0, 9]), (100, [1, 0, 0]), (255, [2, 5, 5])] {
        chip8.regs.general[0x4] = v;
        execute_instruction(&Instruction::LdB { reg: 0x4 }, &mut chip8);
        assert_eq!(&chip8.memory[0x400..0x403], &digits);
    }
}

#[test]
fn draw_clips_at_right_edge_and_reports_collision() {
    let mut chip8 = Chip8::new();
    chip8.regs.i = 0x300;
    chip8.memory[0x300] = 0b1010_0001;
    chip8.regs.general[0x0] = 60;
    chip8.regs.general[0x1] = 0;
    chip8.set_px(62, 0, 1);
    execute_instruction(&Instruction::Drw { reg1: 0x0, reg2: 0x1, n_bytes: 1 }, &mut chip8);
    assert_eq!(chip8.get_px(60, 0), 1);
    assert_eq!(chip8.get_px(61, 0), 0);
    assert_eq!(chip8.get_px(62, 0), 0);
    assert_eq!(chip8.get_px(63, 0), 0);
    // the bit for column 67 is not wrapped to the left edge
    assert_eq!(chip8.get_px(3, 0), 0);
    assert_eq!(chip8.regs.general[0xF], 1);
}

#[test]
fn draw_with_zero_rows_only_clears_flag() {
    let mut chip8 = Chip8::new();
    chip8.regs.general[0xF] = 1;
    chip8.set_px(0, 0, 1);
    execute_instruction(&Instruction::Drw { reg1: 0x0, reg2: 0x0, n_bytes: 0 }, &mut chip8);
    assert_eq!(chip8.get_px(0, 0), 1);
    assert_eq!(chip8.regs.general[0xF], 0);
}

#[test]
fn call_then_return_restores_pc() {
    let mut chip8 = Chip8::new();
    chip8.regs.pc = 0x246;
    chip8.regs.sp = 3;
    execute_instruction(&Instruction::Call { address: 0x800 }, &mut chip8);
    assert_eq!(chip8.regs.pc, 0x800);
    assert_eq!(chip8.stack[4], 0x246);
    execute_instruction(&Instruction::Ret, &mut chip8);
    assert_eq!(chip8.regs.pc, 0x246);
    assert_eq!(chip8.regs.sp, 3);
}

#[test]
fn random_uses_given_byte_and_mask() {
    let mut chip8 = Chip8::new();
    apply_instruction(&Instruction::Rnd { reg: 0x2, mask: 0x0F }, &mut chip8, 0xAB);
    assert_eq!(chip8.regs.general[0x2], 0x0B);
    apply_instruction(&Instruction::Rnd { reg: 0x2, mask: 0xF0 }, &mut chip8, 0xAB);
    assert_eq!(chip8.regs.general[0x2], 0xA0);
}

#[test]
fn random_draws_from_seeded_generator() {
    let mut chip8 = Chip8::new();
    fastrand::seed(42);
    execute_instruction(&Instruction::Rnd { reg: 0x3, mask: 0xF0 }, &mut chip8);
    assert_eq!(chip8.regs.general[0x3], 0x80);
}

#[test]
fn timers_count_down_to_zero() {
    let mut chip8 = Chip8::new();
    chip8.regs.dt = 2;
    chip8.regs.st = 0;
    chip8.decrement_timers();
    assert_eq!((chip8.regs.dt, chip8.regs.st), (1, 0));
    chip8.decrement_timers();
    chip8.decrement_timers();
    assert_eq!((chip8.regs.dt, chip8.regs.st), (0, 0));
}

#[test]
fn font_and_program_loading() {
    let mut chip8 = make_chip8();
    assert_eq!(chip8.regs.pc, PROGRAM_START);
    assert_eq!(&chip8.memory[0..5], &[0xF0, 0x90, 0x90, 0x90, 0xF0]);
    assert_eq!(&chip8.memory[75..80], &[0xF0, 0x80, 0xF0, 0x80, 0x80]);
    assert_eq!(chip8.memory[80], 0);
    chip8.load_into_mem(&vec![1, 2, 3], 0x200);
    assert_eq!(&chip8.memory[0x1FF..0x204], &[0, 1, 2, 3, 0]);
    chip8.load_into_mem(&vec![9, 8], 4094);
    assert_eq!(&chip8.memory[4094..4096], &[9, 8]);
}

#[test]
fn font_glyph_address() {
    let mut chip8 = make_chip8();
    chip8.regs.general[0x1] = 0xF;
    execute_instruction(&Instruction::LdF { reg: 0x1 }, &mut chip8);
    assert_eq!(chip8.regs.i, 75);
}

#[test]
fn key_wait_repeats_until_a_key_is_down() {
    let mut chip8 = make_chip8();
    put_word(&mut chip8, 0x200, 0xF30A);
    chip8.regs.general[0x3] = 0x55;
    for _ in 0..3 {
        assert_eq!(step(&mut chip8), Ok(()));
        assert_eq!(chip8.regs.pc, 0x200);
        assert_eq!(chip8.regs.general[0x3], 0x55);
    }
    chip8.key_down[0xC] = true;
    chip8.key_down[0x9] = true;
    assert_eq!(step(&mut chip8), Ok(()));
    assert_eq!(chip8.regs.pc, 0x202);
    assert_eq!(chip8.regs.general[0x3], 0x9);
}

#[test]
fn step_reports_faults_and_leaves_machine_alone() {
    let mut chip8 = make_chip8();
    chip8.regs.pc = 4095;
    assert_eq!(step(&mut chip8), Err(Fault::PcOutOfRange { pc: 4095 }));
    assert_eq!(chip8.regs.pc, 4095);

    chip8.regs.pc = 0x200;
    put_word(&mut chip8, 0x200, 0x8128);
    assert_eq!(step(&mut chip8), Err(Fault::UnknownOpcode { word: 0x8128 }));
    assert_eq!(chip8.regs.pc, 0x200);

    put_word(&mut chip8, 0x200, 0x2300);
    chip8.regs.sp = 15;
    assert_eq!(
        step(&mut chip8),
        Err(Fault::BadOperands { instruction: Instruction::Call { address: 0x300 } })
    );
    assert_eq!(chip8.regs.pc, 0x200);
    assert_eq!(chip8.regs.sp, 15);
}

#[test]
fn can_execute_checks_ranges() {
    let mut chip8 = Chip8::new();
    assert!(can_execute(&Instruction::Ld { reg: 0xF, val: 1 }, &chip8));
    assert!(!can_execute(&Instruction::Ld { reg: 0x10, val: 1 }, &chip8));
    assert!(!can_execute(&Instruction::LdKey { reg: 0x1 }, &chip8));
    chip8.key_down[2] = true;
    assert!(can_execute(&Instruction::LdKey { reg: 0x1 }, &chip8));
    chip8.regs.i = 4094;
    assert!(!can_execute(&Instruction::LdB { reg: 0x1 }, &chip8));
    assert!(can_execute(&Instruction::LdRegsMem { end_reg: 0x1 }, &chip8));
    assert!(!can_execute(&Instruction::LdRegsMem { end_reg: 0x2 }, &chip8));
    chip8.regs.general[0x5] = 16;
    assert!(!can_execute(&Instruction::Skp { reg: 0x5 }, &chip8));
    chip8.regs.i = 4095;
    chip8.regs.general[0x0] = 0;
    chip8.regs.general[0x1] = 30;
    assert!(can_execute(&Instruction::Drw { reg1: 0x0, reg2: 0x1, n_bytes: 1 }, &chip8));
    assert!(!can_execute(&Instruction::Drw { reg1: 0x0, reg2: 0x1, n_bytes: 2 }, &chip8));
}

#[test]
fn emulation_step_runs_a_frame_then_ticks_timers() {
    let mut chip8 = make_chip8();
    for k in 0..INSTRUCTIONS_PER_FRAME {
        put_word(&mut chip8, 0x200 + 2 * k, 0x7001);
    }
    chip8.regs.dt = 5;
    assert_eq!(emulation_step(&mut chip8), Ok(()));
    assert_eq!(chip8.regs.general[0x0], INSTRUCTIONS_PER_FRAME as u8);
    assert_eq!(chip8.regs.pc, 0x200 + 2 * INSTRUCTIONS_PER_FRAME as u16);
    assert_eq!(chip8.regs.dt, 4);
}

#[test]
fn emulation_step_stops_at_fault() {
    let mut chip8 = make_chip8();
    put_word(&mut chip8, 0x200, 0x6A07);
    put_word(&mut chip8, 0x202, 0x0000);
    chip8.regs.dt = 5;
    assert_eq!(emulation_step(&mut chip8), Err(Fault::UnknownOpcode { word: 0x0000 }));
    assert_eq!(chip8.regs.general[0xA], 7);
    assert_eq!(chip8.regs.pc, 0x202);
    assert_eq!(chip8.regs.dt, 5);
}
