use intel4004::i4004emu::{Fault, CPU};

fn blank_cpu() -> CPU {
    CPU {
        ixr: [0; 16],
        rom: [0; 4096],
        rom_io: [0; 16],
        rom_page: 0,
        ram_d: [0; 1024],
        ram_s: [0; 256],
        ram_o: [0; 8],
        ram_bank: 0,
        ram_addr: 0,
        pc: 0,
        stack: [0; 3],
        stack_ptr: 0,
        acc: 0,
        carry: 0,
        test: 0,
        cycle: 0,
    }
}

fn cpu_with_program(program: &[u8]) -> CPU {
    let mut cpu = blank_cpu();
    cpu.rom[..program.len()].copy_from_slice(program);
    cpu
}

fn assert_4004_registers(cpu: &CPU) {
    assert!(cpu.acc <= 15);
    assert!(cpu.carry <= 1);
    assert!(cpu.pc < 4096);
    assert!(cpu.stack_ptr < 3);
    assert!(cpu.ixr.iter().all(|&r| r <= 15));
}

#[test]
fn ldm_then_iac() {
    let mut cpu = cpu_with_program(&[0xD5, 0xF2]);
    cpu.execute(2);
    assert_eq!(cpu.acc, 6);
    assert_eq!(cpu.carry, 0);
    assert_eq!(cpu.pc, 2);
    assert_eq!(cpu.cycle, 2);
}

#[test]
fn nops_advance_the_program_counter() {
    let mut cpu = blank_cpu();
    cpu.pc = 7;
    cpu.acc = 3;
    cpu.ixr[4] = 9;
    cpu.execute(3);
    assert_eq!(cpu.pc, 3);
    assert_eq!(cpu.cycle, 3);
    assert_eq!(cpu.acc, 3);
    assert_eq!(cpu.ixr[4], 9);
}

#[test]
fn non_positive_cycle_limit_only_resets_program_counter() {
    let mut cpu = cpu_with_program(&[0xD5]);
    cpu.pc = 7;
    cpu.cycle = 12;
    assert_eq!(cpu.try_execute(-5), Ok(()));
    assert_eq!(cpu.pc, 0);
    assert_eq!(cpu.cycle, 0);
    assert_eq!(cpu.acc, 0);
}

#[test]
fn jcn_accumulator_zero_condition() {
    let mut cpu = cpu_with_program(&[0xD5, 0x14, 0x20]);
    cpu.execute(3);
    assert_eq!(cpu.pc, 3);
    let mut cpu = cpu_with_program(&[0xD0, 0x14, 0x20]);
    cpu.execute(3);
    assert_eq!(cpu.pc, 0x20);
}

#[test]
fn jcn_inverted_condition() {
    let mut cpu = cpu_with_program(&[0xD5, 0x1C, 0x20]);
    cpu.execute(3);
    assert_eq!(cpu.pc, 0x20);
    let mut cpu = cpu_with_program(&[0x18, 0x34]);
    cpu.execute(2);
    assert_eq!(cpu.pc, 0x34);
}

#[test]
fn jcn_carry_condition() {
    let mut cpu = cpu_with_program(&[0xFA, 0x12, 0x30]);
    cpu.execute(3);
    assert_eq!(cpu.pc, 0x30);
    let mut cpu = cpu_with_program(&[0x12, 0x30]);
    cpu.execute(2);
    assert_eq!(cpu.pc, 2);
}

#[test]
fn jcn_test_pin_condition() {
    let mut cpu = cpu_with_program(&[0x11, 0x34]);
    cpu.test = 0;
    cpu.execute(2);
    assert_eq!(cpu.pc, 0x34);
    let mut cpu = cpu_with_program(&[0x11, 0x34]);
    cpu.test = 1;
    cpu.execute(2);
    assert_eq!(cpu.pc, 2);
}

#[test]
fn jcn_without_condition_skips() {
    let mut cpu = cpu_with_program(&[0x10, 0x34]);
    cpu.execute(2);
    assert_eq!(cpu.pc, 2);
}

#[test]
fn jcn_at_end_of_page_jumps_into_next_page() {
    let mut cpu = blank_cpu();
    cpu.rom[254] = 0x18;
    cpu.rom[255] = 0x05;
    cpu.execute(256);
    assert_eq!(cpu.pc, 0x105);
}

#[test]
fn fim_loads_register_pair() {
    let mut cpu = cpu_with_program(&[0x22, 0xAB]);
    cpu.execute(2);
    assert_eq!(cpu.ixr[2], 0xA);
    assert_eq!(cpu.ixr[3], 0xB);
    assert_eq!(cpu.pc, 2);
}

#[test]
fn src_sends_pair_as_ram_address() {
    let mut cpu = cpu_with_program(&[0x25]);
    cpu.ixr[4] = 0xF;
    cpu.ixr[5] = 0x3;
    cpu.execute(1);
    assert_eq!(cpu.ram_addr, 0xF3);
    assert_eq!(cpu.pc, 1);
}

#[test]
fn fin_loads_rom_word_addressed_by_pair_zero() {
    let mut cpu = cpu_with_program(&[0x32]);
    cpu.ixr[0] = 0;
    cpu.ixr[1] = 3;
    cpu.rom[3] = 0xAB;
    cpu.execute(1);
    assert_eq!(cpu.ixr[2], 0xA);
    assert_eq!(cpu.ixr[3], 0xB);
    assert_eq!(cpu.pc, 1);
}

#[test]
fn fin_reads_within_the_current_page() {
    // JUN to 0x140, where FIN reads address 0x1FF of page 1.
    let mut cpu = cpu_with_program(&[0x40, 0x01]);
    cpu.rom[0x140] = 0x34;
    cpu.rom[0x1FF] = 0x5A;
    cpu.ixr[0] = 0xF;
    cpu.ixr[1] = 0xF;
    cpu.execute(3);
    assert_eq!(cpu.ixr[4], 0x5);
    assert_eq!(cpu.ixr[5], 0xA);
    assert_eq!(cpu.pc, 0x141);
}

#[test]
fn jin_jumps_to_pair_address_in_page() {
    let mut cpu = cpu_with_program(&[0x31]);
    cpu.ixr[0] = 1;
    cpu.ixr[1] = 2;
    cpu.execute(1);
    assert_eq!(cpu.pc, 0x12);
}

#[test]
fn jun_takes_12_bits_little_endian() {
    let mut cpu = cpu_with_program(&[0x4A, 0xBC]);
    cpu.execute(2);
    assert_eq!(cpu.pc, 0xC4A);
}

#[test]
fn jumps_redirect_the_fetch() {
    // JUN to 0x040 skips the LDM 2 at address 2.
    let mut cpu = cpu_with_program(&[0x40, 0x00, 0xD2]);
    cpu.rom[0x40] = 0xD6;
    cpu.execute(3);
    assert_eq!(cpu.acc, 6);
    assert_eq!(cpu.pc, 0x41);
}

#[test]
fn isz_increments_and_jumps() {
    let mut cpu = cpu_with_program(&[0x70, 0x04, 0xD7, 0x00, 0xD3]);
    cpu.execute(3);
    assert_eq!(cpu.acc, 3);
    assert_eq!(cpu.ixr[0], 1);
    assert_eq!(cpu.pc, 5);
}

#[test]
fn jms_pushes_program_counter() {
    let mut cpu = cpu_with_program(&[0x51, 0x23]);
    cpu.pc = 9;
    cpu.execute(2);
    assert_eq!(cpu.stack[0], 0);
    assert_eq!(cpu.stack_ptr, 1);
    assert_eq!(cpu.pc, 0x351);
}

#[test]
fn jms_stack_pointer_wraps_after_three_levels() {
    let mut cpu = cpu_with_program(&[0x50, 0x01]);
    cpu.rom[0x150] = 0x50;
    cpu.rom[0x151] = 0x02;
    cpu.rom[0x250] = 0x50;
    cpu.rom[0x251] = 0x03;
    cpu.rom[0x350] = 0x50;
    cpu.rom[0x351] = 0x04;
    cpu.execute(8);
    assert_eq!(cpu.stack_ptr, 1);
    assert_eq!(cpu.stack, [0x0350, 0x0150, 0x0250]);
    assert_eq!(cpu.pc, 0x0450);
}

#[test]
fn jms_then_bbl_returns_past_saved_address() {
    let mut cpu = cpu_with_program(&[0x50, 0x01]);
    cpu.rom[0x150] = 0xC7;
    cpu.execute(3);
    assert_eq!(cpu.pc, 1);
    assert_eq!(cpu.stack_ptr, 0);
    assert_eq!(cpu.acc, 7);
}

#[test]
fn jms_with_stack_pointer_past_stack_faults() {
    let mut cpu = cpu_with_program(&[0x50, 0x01]);
    cpu.stack_ptr = 3;
    assert_eq!(cpu.try_execute(2), Err(Fault { cycle: 0 }));
    assert_eq!(cpu.stack_ptr, 3);
}

#[test]
fn bbl_moves_down_then_returns() {
    let mut cpu = cpu_with_program(&[0xC7]);
    cpu.stack = [0x010, 0x020, 0];
    cpu.stack_ptr = 1;
    cpu.execute(1);
    assert_eq!(cpu.acc, 7);
    assert_eq!(cpu.pc, 0x011);
    assert_eq!(cpu.stack_ptr, 0);
    let mut cpu = cpu_with_program(&[0xC0]);
    cpu.stack = [4095, 20, 30];
    cpu.execute(1);
    assert_eq!(cpu.pc, 0);
    assert_eq!(cpu.stack_ptr, 0);
}

#[test]
fn inc_wraps_at_15() {
    let mut cpu = cpu_with_program(&[0x63, 0x64]);
    cpu.ixr[3] = 15;
    cpu.ixr[4] = 7;
    cpu.execute(2);
    assert_eq!(cpu.ixr[3], 0);
    assert_eq!(cpu.ixr[4], 8);
    assert_eq!(cpu.pc, 2);
}

#[test]
fn sixteen_incs_restore_register() {
    let mut cpu = cpu_with_program(&[0x69; 16]);
    cpu.ixr[9] = 11;
    cpu.execute(16);
    assert_eq!(cpu.ixr[9], 11);
    assert_eq!(cpu.pc, 16);
}

#[test]
fn add_with_and_without_carry() {
    let mut cpu = cpu_with_program(&[0xD7, 0x84, 0xD3, 0x85]);
    cpu.ixr[4] = 9;
    cpu.ixr[5] = 2;
    cpu.execute(2);
    assert_eq!(cpu.acc, 0);
    assert_eq!(cpu.carry, 1);
    cpu.execute(4);
    assert_eq!(cpu.acc, 5);
    assert_eq!(cpu.carry, 0);
    assert_eq!(cpu.pc, 4);
}

#[test]
fn add_wraps_at_a_byte() {
    let mut cpu = cpu_with_program(&[0x80]);
    cpu.acc = 250;
    cpu.ixr[0] = 10;
    assert_eq!(cpu.try_execute(1), Ok(()));
    assert_eq!(cpu.acc, 4);
    assert_eq!(cpu.carry, 0);
    assert_eq!(cpu.pc, 1);
}

#[test]
fn sub_cases() {
    let mut cpu = cpu_with_program(&[0xD9, 0x95]);
    cpu.ixr[5] = 4;
    cpu.execute(2);
    assert_eq!(cpu.acc, 5);
    assert_eq!(cpu.carry, 1);
    let mut cpu = cpu_with_program(&[0xD4, 0x95]);
    cpu.ixr[5] = 4;
    cpu.execute(2);
    assert_eq!(cpu.acc, 0);
    assert_eq!(cpu.carry, 0);
}

#[test]
fn sub_below_zero_clears_accumulator_and_carry() {
    let mut cpu = cpu_with_program(&[0xD2, 0xFA, 0x95]);
    cpu.ixr[5] = 4;
    assert_eq!(cpu.try_execute(3), Ok(()));
    assert_eq!(cpu.acc, 0);
    assert_eq!(cpu.carry, 0);
    assert_eq!(cpu.pc, 3);
}

#[test]
fn ld_and_xch() {
    let mut cpu = cpu_with_program(&[0xA6, 0xD2, 0xB6]);
    cpu.ixr[6] = 11;
    cpu.execute(3);
    assert_eq!(cpu.acc, 11);
    assert_eq!(cpu.ixr[6], 2);
    assert_eq!(cpu.pc, 3);
}

#[test]
fn xch_twice_restores_register_and_accumulator() {
    let mut cpu = cpu_with_program(&[0xB3, 0xB3]);
    cpu.acc = 4;
    cpu.ixr[3] = 12;
    cpu.execute(2);
    assert_eq!(cpu.acc, 4);
    assert_eq!(cpu.ixr[3], 12);
    assert_eq!(cpu.pc, 2);
}

#[test]
fn clb_clc_stc() {
    let mut cpu = cpu_with_program(&[0xD9, 0xFA, 0xF0]);
    cpu.execute(2);
    assert_eq!(cpu.carry, 1);
    cpu.execute(3);
    assert_eq!(cpu.acc, 0);
    assert_eq!(cpu.carry, 0);
    let mut cpu = cpu_with_program(&[0xFA, 0xF1]);
    cpu.execute(2);
    assert_eq!(cpu.carry, 0);
    assert_eq!(cpu.pc, 2);
}

#[test]
fn iac_carries_out_of_a_nibble() {
    let mut cpu = cpu_with_program(&[0xDF, 0xF2]);
    cpu.execute(2);
    assert_eq!(cpu.acc, 0);
    assert_eq!(cpu.carry, 1);
}

#[test]
fn iac_wraps_at_a_byte() {
    let mut cpu = cpu_with_program(&[0xF2]);
    cpu.acc = 255;
    cpu.carry = 1;
    assert_eq!(cpu.try_execute(1), Ok(()));
    assert_eq!(cpu.acc, 0);
    assert_eq!(cpu.carry, 0);
}

#[test]
fn cma_and_cmc_complement_nibble_and_bit() {
    let mut cpu = cpu_with_program(&[0xD5, 0xF4, 0xF3]);
    cpu.execute(3);
    assert_eq!(cpu.acc, 10);
    assert_eq!(cpu.carry, 1);
    assert_eq!(cpu.pc, 3);
}

#[test]
fn cma_and_cmc_twice_restore() {
    let mut cpu = cpu_with_program(&[0xF4, 0xF4, 0xF3, 0xF3]);
    cpu.acc = 6;
    cpu.carry = 1;
    cpu.execute(4);
    assert_eq!(cpu.acc, 6);
    assert_eq!(cpu.carry, 1);
    assert_eq!(cpu.pc, 4);
}

#[test]
fn ral_and_rar() {
    let mut cpu = cpu_with_program(&[0xF5]);
    cpu.acc = 0b1010;
    cpu.carry = 1;
    cpu.execute(1);
    assert_eq!(cpu.acc, 0b0101);
    assert_eq!(cpu.carry, 1);
    let mut cpu = cpu_with_program(&[0xF6]);
    cpu.acc = 0b0010;
    cpu.carry = 1;
    cpu.execute(1);
    assert_eq!(cpu.acc, 0b1001);
    assert_eq!(cpu.carry, 0);
}

#[test]
fn ral_then_rar_restores() {
    let mut cpu = cpu_with_program(&[0xF5, 0xF6]);
    cpu.acc = 0b1101;
    cpu.carry = 0;
    cpu.execute(2);
    assert_eq!(cpu.acc, 0b1101);
    assert_eq!(cpu.carry, 0);
}

#[test]
fn five_rals_restore() {
    let mut cpu = cpu_with_program(&[0xF5; 5]);
    cpu.acc = 0b0110;
    cpu.carry = 1;
    cpu.execute(5);
    assert_eq!(cpu.acc, 0b0110);
    assert_eq!(cpu.carry, 1);
    assert_eq!(cpu.pc, 5);
}

#[test]
fn tcc_and_tcs() {
    let mut cpu = cpu_with_program(&[0xFA, 0xF7]);
    cpu.execute(2);
    assert_eq!(cpu.acc, 1);
    assert_eq!(cpu.carry, 0);
    let mut cpu = cpu_with_program(&[0xFA, 0xF9]);
    cpu.execute(2);
    assert_eq!(cpu.acc, 9);
    assert_eq!(cpu.carry, 0);
    let mut cpu = cpu_with_program(&[0xF9]);
    cpu.execute(1);
    assert_eq!(cpu.acc, 10);
}

#[test]
fn dac_decrements_with_carry() {
    let mut cpu = cpu_with_program(&[0xD5, 0xF8]);
    cpu.execute(2);
    assert_eq!(cpu.acc, 4);
    assert_eq!(cpu.carry, 1);
}

#[test]
fn dac_of_zero_clears_accumulator_and_carry() {
    let mut cpu = cpu_with_program(&[0xD1, 0xF8, 0xF8]);
    assert_eq!(cpu.try_execute(3), Ok(()));
    assert_eq!(cpu.acc, 0);
    assert_eq!(cpu.carry, 0);
    assert_eq!(cpu.pc, 3);
}

#[test]
fn daa_adjusts_with_carry_out() {
    let mut cpu = cpu_with_program(&[0xDC, 0xFB]);
    cpu.execute(2);
    assert_eq!(cpu.acc, 2);
    assert_eq!(cpu.carry, 1);
    let mut cpu = cpu_with_program(&[0xD3, 0xFB]);
    cpu.execute(2);
    assert_eq!(cpu.acc, 3);
    assert_eq!(cpu.carry, 0);
    let mut cpu = cpu_with_program(&[0xFA, 0xD3, 0xFB]);
    cpu.execute(3);
    assert_eq!(cpu.acc, 9);
    assert_eq!(cpu.carry, 1);
    assert_eq!(cpu.pc, 3);
}

#[test]
fn kbp_codes() {
    for (input, code) in [(0u8, 0u8), (1, 1), (2, 2), (4, 3), (8, 4), (3, 15), (15, 15)] {
        let mut cpu = cpu_with_program(&[0xFC]);
        cpu.acc = input;
        cpu.execute(1);
        assert_eq!(cpu.acc, code);
        assert_eq!(cpu.pc, 1);
    }
}

#[test]
fn dcl_selects_ram_bank() {
    let mut cpu = cpu_with_program(&[0xFD]);
    cpu.acc = 5;
    cpu.execute(1);
    assert_eq!(cpu.ram_bank, 5);
    assert_eq!(cpu.acc, 5);
    assert_eq!(cpu.pc, 1);
    let mut cpu = cpu_with_program(&[0xFD]);
    cpu.acc = 13;
    cpu.execute(1);
    assert_eq!(cpu.ram_bank, 5);
}

#[test]
fn ram_bank_selects_characters_and_status() {
    // LDM 1, DCL, FIM pair 0 <- 0x23, SRC pair 0, LDM 6, WRM, WR1, RDM.
    let program = [0xD1, 0xFD, 0x20, 0x23, 0x21, 0xD6, 0xE0, 0xE5];
    let mut cpu = cpu_with_program(&program);
    cpu.execute(9);
    assert_eq!(cpu.ram_bank, 1);
    assert_eq!(cpu.ram_d[256 + 0x23], 6);
    assert_eq!(cpu.ram_d[0x23], 0);
    assert_eq!(cpu.ram_s[64 + 2 * 4 + 1], 6);
}

#[test]
fn wrm_writes_ram_character() {
    let mut cpu = cpu_with_program(&[0x24, 0x05, 0x25, 0xD9, 0xE0]);
    cpu.execute(5);
    assert_eq!(cpu.ram_addr, 0x05);
    assert_eq!(cpu.ram_d[5], 9);
    assert_eq!(cpu.pc, 5);
}

#[test]
fn unimplemented_opcodes_fault() {
    for op in [0xE3u8, 0xFE, 0xFF] {
        let mut cpu = cpu_with_program(&[0xD4, op]);
        assert_eq!(cpu.try_execute(2), Err(Fault { cycle: 1 }));
        assert_eq!(cpu.acc, 4);
        assert_eq!(cpu.pc, 1);
    }
}

#[test]
fn program_counter_wraps_at_end_of_rom() {
    let mut cpu = blank_cpu();
    cpu.rom[4095] = 0xD3;
    cpu.execute(4097);
    assert_eq!(cpu.acc, 3);
    assert_eq!(cpu.pc, 1);
    assert_eq!(cpu.cycle, 4097);
}

#[test]
fn two_word_instruction_wraps_its_second_word() {
    let mut cpu = blank_cpu();
    cpu.rom[4095] = 0x41;
    cpu.rom[0] = 0x02;
    cpu.execute(4097);
    assert_eq!(cpu.pc, 0x241);
}

#[test]
fn cycle_count_can_pass_the_limit_by_one() {
    let mut cpu = cpu_with_program(&[0xD1, 0x40, 0x00]);
    cpu.execute(2);
    assert_eq!(cpu.cycle, 3);
    assert_eq!(cpu.pc, 0x40);
}

#[test]
fn fault_is_final_with_larger_limit() {
    let mut a = cpu_with_program(&[0xD1, 0xF8, 0xE3, 0xD7]);
    let mut b = cpu_with_program(&[0xD1, 0xF8, 0xE3, 0xD7]);
    let ra = a.try_execute(3);
    let rb = b.try_execute(4000);
    assert_eq!(ra, Err(Fault { cycle: 2 }));
    assert_eq!(ra, rb);
    assert_eq!(a.acc, b.acc);
    assert_eq!(a.pc, b.pc);
}

#[test]
fn shorter_run_completes() {
    let mut a = cpu_with_program(&[0xD1, 0xF8, 0xD7, 0xE3]);
    assert_eq!(a.try_execute(3), Ok(()));
    let mut b = cpu_with_program(&[0xD1, 0xF8, 0xD7, 0xE3]);
    assert_eq!(b.try_execute(4), Err(Fault { cycle: 3 }));
}

#[test]
fn execution_keeps_rom_ram_and_4004_registers() {
    let program = [0xD5, 0x22, 0x33, 0xB1, 0x63, 0xF2, 0xF4, 0xF3, 0xFB, 0xF6, 0x50, 0x09];
    let mut cpu = cpu_with_program(&program);
    cpu.ram_s[2] = 9;
    cpu.ram_o[1] = 4;
    cpu.rom_io[3] = 1;
    cpu.ram_bank = 2;
    cpu.test = 1;
    cpu.pc = 100;
    let rom_before = cpu.rom;
    cpu.execute(40);
    assert_eq!(cpu.rom, rom_before);
    assert_eq!(cpu.ram_s[2], 9);
    assert_eq!(cpu.ram_o[1], 4);
    assert_eq!(cpu.rom_io[3], 1);
    assert_eq!(cpu.ram_bank, 2);
    assert_eq!(cpu.test, 1);
    assert_4004_registers(&cpu);
}

#[test]
fn ram_and_rom_port_instructions() {
    let program = [
        0x24, 0x5A, // FIM pair 4 <- 0x5A
        0x25, // SRC pair 4
        0xD7, // LDM 7
        0xE0, // WRM
        0xE1, // WMP
        0xE2, // WRR
        0xE6, // WR2
        0xD9, // LDM 9
        0xE8, // SBM
        0xEB, // ADM
        0xE9, // RDM
        0xEE, // RD2
    ];
    let mut cpu = cpu_with_program(&program);
    cpu.execute(10);
    assert_eq!(cpu.ram_addr, 0x5A);
    assert_eq!(cpu.ram_d[0x5A], 7);
    assert_eq!(cpu.ram_o[1], 7);
    assert_eq!(cpu.rom_io[5], 7);
    assert_eq!(cpu.ram_s[22], 7);
    assert_eq!(cpu.acc, 2);
    assert_eq!(cpu.carry, 1);
    let mut cpu = cpu_with_program(&program);
    cpu.execute(11);
    assert_eq!(cpu.acc, 9);
    assert_eq!(cpu.carry, 0);
    let mut cpu = cpu_with_program(&program);
    cpu.ram_s[22] = 0;
    cpu.execute(13);
    assert_eq!(cpu.acc, 7);
    assert_eq!(cpu.pc, 13);
}

#[test]
fn rdr_reads_rom_port_nibble() {
    let mut cpu = cpu_with_program(&[0x20, 0x30, 0x21, 0xEA]);
    cpu.rom_io[3] = 0x13;
    cpu.execute(4);
    assert_eq!(cpu.acc, 3);
}

#[test]
fn sbm_below_zero_clears_accumulator_and_carry() {
    let mut cpu = cpu_with_program(&[0xD1, 0xE8]);
    cpu.ram_d[0] = 4;
    assert_eq!(cpu.try_execute(2), Ok(()));
    assert_eq!(cpu.acc, 0);
    assert_eq!(cpu.carry, 0);
}

#[test]
fn fim_prints_its_second_word() {
    let mut cpu = cpu_with_program(&[0x22, 0xAB, 0xD1, 0x24, 0x07, 0xE3, 0x26, 0x99]);
    let mut printed = Vec::new();
    assert_eq!(cpu.run_with_output(8, &mut printed), Err(Fault { cycle: 5 }));
    assert_eq!(printed, vec![0xAB, 0x07]);
}

#[test]
fn op_inc_sixteen_times_restores() {
    let mut cpu = blank_cpu();
    cpu.ixr[4] = 9;
    cpu.pc = 100;
    for _ in 0..16 {
        assert!(cpu.op_inc(0x64));
    }
    assert_eq!(cpu.ixr[4], 9);
    assert_eq!(cpu.pc, 116);
}

#[test]
fn op_xch_twice_restores() {
    let mut cpu = blank_cpu();
    cpu.ixr[2] = 3;
    cpu.acc = 12;
    cpu.pc = 40;
    assert!(cpu.op_xch(0xB2));
    assert!(cpu.op_xch(0xB2));
    assert_eq!(cpu.ixr[2], 3);
    assert_eq!(cpu.acc, 12);
    assert_eq!(cpu.pc, 42);
}

#[test]
fn op_jms_then_op_bbl_returns() {
    let mut cpu = blank_cpu();
    cpu.pc = 0x123;
    cpu.stack_ptr = 1;
    assert!(cpu.op_jms(0x0456));
    assert_eq!(cpu.pc, 0x456);
    assert!(cpu.op_bbl(0xC9));
    assert_eq!(cpu.pc, 0x124);
    assert_eq!(cpu.stack_ptr, 1);
    assert_eq!(cpu.acc, 9);
}

#[test]
fn op_ral_five_times_and_op_rar_undo() {
    let mut cpu = blank_cpu();
    cpu.acc = 0b1001;
    cpu.carry = 1;
    for _ in 0..5 {
        assert!(cpu.op_ral());
    }
    assert_eq!(cpu.acc, 0b1001);
    assert_eq!(cpu.carry, 1);
    assert!(cpu.op_ral());
    assert!(cpu.op_rar());
    assert_eq!(cpu.acc, 0b1001);
    assert_eq!(cpu.carry, 1);
    assert_eq!(cpu.pc, 7);
}

#[test]
fn op_dcl_loads_low_three_bits() {
    let mut cpu = blank_cpu();
    cpu.acc = 0xE;
    assert!(cpu.op_dcl());
    assert_eq!(cpu.ram_bank, 6);
    assert_eq!(cpu.pc, 1);
}
