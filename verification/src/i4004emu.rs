//! The Intel 4004 emulator: the machine state and its instructions.
//!
//! The processor is big endian; this emulator composes two-word
//! instructions little endian (the first ROM word is the low byte).
use vstd::prelude::*;
use crate::laws::{final_state, law_execution_keeps_4004_registers};
use crate::machine::{
    add_spec, bbl_spec, clb_spec, clc_spec, cma_spec, cmc_spec, CpuState, daa_spec, dac_spec,
    dcl_spec, execution, fim_spec, fin_spec, iac_spec, inc_spec, instruction_width, isz_spec,
    jcn_spec, jin_spec, jms_spec, jun_spec, kbp_spec, ld_spec, ldm_spec, nop_spec, one_word_spec,
    opcode, ral_spec, rar_spec, run_from, src_spec, stc_spec, step, sub_spec, tcc_spec, tcs_spec,
    word, valid, instruction_output, run_output, execution_output, wrm_spec, xch_spec, wmp_spec, wrr_spec, wrn_spec, sbm_spec, rdm_spec, rdr_spec, adm_spec,
    rdn_spec,
};

verus! {

/// Machine state of an Intel 4004 with its ROM and RAM.
#[derive(Debug)]
pub struct CPU {
    /// 16 index registers of 4 bits each.
    pub ixr: [u8; 16],
    /// 4096 8-bit words of ROM (16 pages of 256).
    pub rom: [u8; 4096],
    /// ROM I/O lines.
    pub rom_io: [u8; 16],
    /// ROM page selected for I/O.
    pub rom_page: u8,
    /// 1024 4-bit RAM data characters.
    pub ram_d: [u8; 1024],
    /// 256 4-bit RAM status characters.
    pub ram_s: [u8; 256],
    /// RAM output ports.
    pub ram_o: [u8; 8],
    /// RAM bank, selected by DCL.
    pub ram_bank: u8,
    /// RAM address register.
    pub ram_addr: u8,
    /// 12-bit program counter.
    pub pc: u16,
    /// Three-level subroutine stack of 12-bit addresses.
    pub stack: [u16; 3],
    /// Stack pointer.
    pub stack_ptr: u8,
    /// 4-bit accumulator.
    pub acc: u8,
    /// Carry bit.
    pub carry: u8,
    /// Test pin.
    pub test: u8,
    /// ROM words executed in the current run.
    pub cycle: i64,
}

/// A run stopped before the instruction at cycle count `cycle`, which could not complete.
#[derive(Debug, Clone, Copy, PartialEq, Eq)]
pub struct Fault {
    pub cycle: i32,
}

impl View for CPU {
    type V = CpuState;

    open spec fn view(&self) -> CpuState {
        CpuState {
            ixr: self.ixr@,
            rom: self.rom@,
            rom_io: self.rom_io@,
            rom_page: self.rom_page,
            ram_d: self.ram_d@,
            ram_s: self.ram_s@,
            ram_o: self.ram_o@,
            ram_bank: self.ram_bank,
            ram_addr: self.ram_addr,
            pc: self.pc,
            stack: self.stack@,
            stack_ptr: self.stack_ptr,
            acc: self.acc,
            carry: self.carry,
            test: self.test,
            cycle: self.cycle as int,
        }
    }
}

/// An instruction that either completed as `expected` says, or could not
/// complete (`expected` is `None`) and left the state as it was.
pub open spec fn completes_as(
    before: CpuState,
    after: CpuState,
    done: bool,
    expected: Option<CpuState>,
) -> bool {
    match expected {
        Some(t) => done && after == t,
        None => !done && after == before,
    }
}

/// The bit fields of an instruction byte, as the decoder reads them.
pub proof fn lemma_byte_fields(b: u8)
    by (bit_vector)
    ensures
        b & 0xF == b % 16,
        b & 0x0F == b % 16,
        (b & 0xF0) >> 4 == b / 16,
        b & 0x1 == b % 2,
        b & 0xE == (b % 16) - (b % 2),
        b & 0xE < 15,
        (b & 0x8 != 0) == ((b / 8) % 2 == 1),
        (b & 0x4 != 0) == ((b / 4) % 2 == 1),
        (b & 0x2 != 0) == ((b / 2) % 2 == 1),
        (b & 0x1 != 0) == (b % 2 == 1),
        (!b) & 0xF == 15 - b % 16,
{
}

/// The 16-bit instruction word made of two ROM words, the first one low.
fn two_words(first: u8, second: u8) -> (w: u16)
    ensures
        w == word(first, second),
        (w % 256) as u8 == first,
        (w / 256) as u8 == second,
{
    first as u16 + second as u16 * 256
}

impl CPU {
    /// Runs the ROM: the program counter and the cycle count are reset to
    /// 0, then the instruction at the program counter runs, again and again,
    /// until the cycle count (ROM words executed) reaches `max_cycle_count`.
    pub fn execute(&mut self, max_cycle_count: i32)
        requires
            execution(old(self)@, max_cycle_count as int) is Ok,
        ensures
            execution(old(self)@, max_cycle_count as int) == Ok::<CpuState, CpuState>(
                final(self)@,
            ),
    {
        let outcome = self.try_execute(max_cycle_count);
        assert(outcome is Ok);
    }

    /// As `execute`, but stops with `Err` before the first instruction that
    /// cannot complete, leaving the state as it was before it.
    pub fn try_execute(&mut self, max_cycle_count: i32) -> (outcome: Result<(), Fault>)
        ensures
            match execution(old(self)@, max_cycle_count as int) {
                Ok(t) => outcome is Ok && final(self)@ == t,
                Err(t) => outcome == Err::<(), Fault>(Fault { cycle: t.cycle as i32 })
                    && final(self)@ == t,
            },
            valid(old(self)@) ==> valid(final(self)@),
    {
        let mut printed: Vec<u8> = Vec::new();
        self.run_with_output(max_cycle_count, &mut printed)
    }

    /// As `try_execute`, and appends to `printed`, in order, the byte that
    /// each FIM prints (its second word).
    pub fn run_with_output(&mut self, max_cycle_count: i32, printed: &mut Vec<u8>) -> (outcome:
        Result<(), Fault>)
        ensures
            match execution(old(self)@, max_cycle_count as int) {
                Ok(t) => outcome is Ok && final(self)@ == t,
                Err(t) => outcome == Err::<(), Fault>(Fault { cycle: t.cycle as i32 })
                    && final(self)@ == t,
            },
            final(printed)@ == old(printed)@ + execution_output(
                old(self)@,
                max_cycle_count as int,
            ),
            valid(old(self)@) ==> valid(final(self)@),
    {
        let ghost start = old(self)@;
        let ghost printed_before = old(printed)@;
        proof {
            if valid(start) {
                law_execution_keeps_4004_registers(start, max_cycle_count as int);
            }
        }
        self.pc = 0;
        self.cycle = 0;
        assert(printed@ + run_output(self@, max_cycle_count as int) == printed_before
            + execution_output(start, max_cycle_count as int));
        while self.cycle < max_cycle_count as i64
            invariant
                0 <= self.cycle <= 0x1_0000_0000,
                start == old(self)@,
                printed_before == old(printed)@,
                valid(start) ==> valid(final_state(execution(start, max_cycle_count as int))),
                run_from(self@, max_cycle_count as int) == execution(
                    start,
                    max_cycle_count as int,
                ),
                printed@ + run_output(self@, max_cycle_count as int) == printed_before
                    + execution_output(start, max_cycle_count as int),
            decreases max_cycle_count as int + 1 - self.cycle,
        {
            let ghost before = self@;
            let ghost printed_now = printed@;
            let output = self.printed_byte();
            match self.execute_instruction() {
                Some(width) => {
                    self.cycle = self.cycle + width as i64;
                    match output {
                        Some(b) => {
                            printed.push(b);
                        },
                        None => {},
                    }
                    assert(run_output(before, max_cycle_count as int) == instruction_output(before)
                        + run_output(self@, max_cycle_count as int));
                    assert(printed@ =~= printed_now + instruction_output(before));
                },
                None => {
                    assert(run_from(self@, max_cycle_count as int) == Err::<CpuState, CpuState>(
                        self@,
                    ));
                    assert(run_output(self@, max_cycle_count as int) =~= Seq::<u8>::empty());
                    assert(printed@ =~= printed@ + run_output(self@, max_cycle_count as int));
                    return Err(Fault { cycle: self.cycle as i32 });
                },
            }
        }
        assert(run_output(self@, max_cycle_count as int) =~= Seq::<u8>::empty());
        assert(printed@ =~= printed@ + run_output(self@, max_cycle_count as int));
        Ok(())
    }

    /// The byte the instruction at the program counter prints, if any.
    fn printed_byte(&self) -> (b: Option<u8>)
        ensures
            match b {
                Some(x) => instruction_output(self@) == seq![x],
                None => instruction_output(self@) == Seq::<u8>::empty(),
            },
    {
        if self.pc < 4096 {
            let op = self.rom[self.pc as usize];
            proof {
                lemma_byte_fields(op);
            }
            if (op & 0xF0) >> 4 == 2 && op & 0x1 == 0 {
                return Some(self.rom[((self.pc + 1) % 4096) as usize]);
            }
        }
        None
    }

    /// Executes the instruction at the program counter, giving how many ROM
    /// words it takes, or `None` (state unchanged) when it cannot complete.
    fn execute_instruction(&mut self) -> (width: Option<i32>)
        ensures
            final(self).cycle == old(self).cycle,
            match step(old(self)@) {
                Some(t) => width == Some(instruction_width(opcode(old(self)@)) as i32)
                    && final(self)@ == t,
                None => width is None && final(self)@ == old(self)@,
            },
    {
        proof {
            reveal(step);
        }
        if self.pc >= 4096 {
            return None;
        }
        let op = self.rom[self.pc as usize];
        proof {
            lemma_byte_fields(op);
        }
        match (op & 0xF0) >> 4 {
            0x0 => {
                // NOP
                self.pc = (self.pc + 1) % 4096;
                Some(1)
            },
            0x1 => {
                let next_op = self.rom[((self.pc + 1) % 4096) as usize];
                if self.op_jcn(two_words(op, next_op)) {
                    Some(2)
                } else {
                    None
                }
            },
            0x2 => {
                if op & 0x1 == 0 {
                    let next_op = self.rom[((self.pc + 1) % 4096) as usize];
                    if self.op_fim(two_words(op, next_op)) {
                        Some(2)
                    } else {
                        None
                    }
                } else if self.op_src(op) {
                    Some(1)
                } else {
                    None
                }
            },
            0x3 => {
                let done = if op & 0x1 == 0 {
                    self.op_fin(op)
                } else {
                    self.op_jin(op)
                };
                if done {
                    Some(1)
                } else {
                    None
                }
            },
            0x4 => {
                let next_op = self.rom[((self.pc + 1) % 4096) as usize];
                if self.op_jun(two_words(op, next_op)) {
                    Some(2)
                } else {
                    None
                }
            },
            0x5 => {
                let next_op = self.rom[((self.pc + 1) % 4096) as usize];
                if self.op_jms(two_words(op, next_op)) {
                    Some(2)
                } else {
                    None
                }
            },
            0x7 => {
                let next_op = self.rom[((self.pc + 1) % 4096) as usize];
                if self.op_isz(two_words(op, next_op)) {
                    Some(2)
                } else {
                    None
                }
            },
            _ => {
                if self.execute_one_word(op) {
                    Some(1)
                } else {
                    None
                }
            },
        }
    }

    /// Executes a one-word instruction of the groups `0x6`, `0x8`..`0xF`.
    fn execute_one_word(&mut self, op: u8) -> (done: bool)
        requires
            op / 16 == 6 || op / 16 >= 8,
            old(self).pc < 4096,
        ensures
            final(self).cycle == old(self).cycle,
            completes_as(old(self)@, final(self)@, done, one_word_spec(old(self)@, op)),
    {
        proof {
            lemma_byte_fields(op);
        }
        match (op & 0xF0) >> 4 {
            0x6 => self.op_inc(op),
            0x8 => self.op_add(op),
            0x9 => self.op_sub(op),
            0xA => self.op_ld(op),
            0xB => self.op_xch(op),
            0xC => self.op_bbl(op),
            0xD => self.op_ldm(op),
            0xE => match op & 0xF {
                0x0 => self.op_wrm(),
                0x1 => self.op_wmp(),
                0x2 => self.op_wrr(),
                0x4 => self.op_wrn(0),
                0x5 => self.op_wrn(1),
                0x6 => self.op_wrn(2),
                0x7 => self.op_wrn(3),
                0x8 => self.op_sbm(),
                0x9 => self.op_rdm(),
                0xA => self.op_rdr(),
                0xB => self.op_adm(),
                0xC => self.op_rdn(0),
                0xD => self.op_rdn(1),
                0xE => self.op_rdn(2),
                0xF => self.op_rdn(3),
                _ => false,
            },
            0xF => match op & 0xF {
                0x0 => self.op_clb(),
                0x1 => self.op_clc(),
                0x2 => self.op_iac(),
                0x3 => self.op_cmc(),
                0x4 => self.op_cma(),
                0x5 => self.op_ral(),
                0x6 => self.op_rar(),
                0x7 => self.op_tcc(),
                0x8 => self.op_dac(),
                0x9 => self.op_tcs(),
                0xA => self.op_stc(),
                0xB => self.op_daa(),
                0xC => self.op_kbp(),
                0xD => self.op_dcl(),
                _ => false,
            },
            _ => false,
        }
    }

    /// The first address of the ROM page of the word `n` past the program counter.
    fn page_base(&self, n: u16) -> (base: u16)
        requires
            self.pc < 4096,
            n <= 2,
        ensures
            base == crate::machine::page_base(self.pc, n as int),
    {
        (self.pc + n) % 4096 / 256 * 256
    }

    /// The 8-bit value of the register pair starting at `p`.
    fn pair_value(&self, p: u8) -> (v: u16)
        requires
            p < 15,
        ensures
            v == crate::machine::pair_value(self@, p as int),
    {
        (self.ixr[p as usize] % 16) as u16 * 16 + (self.ixr[(p + 1) as usize] % 16) as u16
    }

    /// The selected RAM data character's index in `ram_d`.
    fn ram_index(&self) -> (i: usize)
        ensures
            i == crate::machine::ram_index(self@),
            i < 1024,
    {
        (self.ram_bank % 4) as usize * 256 + self.ram_addr as usize
    }

    /// The index in `ram_s` of status character `n` of the selected RAM register.
    fn status_index(&self, n: u8) -> (i: usize)
        requires
            n < 4,
        ensures
            i == crate::machine::status_index(self@, n as int),
            i < 256,
    {
        (self.ram_bank % 4) as usize * 64 + (self.ram_addr / 16) as usize * 4 + n as usize
    }

    pub fn op_jcn(&mut self, instr: u16) -> (done: bool)
        requires
            old(self).pc < 4096,
        ensures
            final(self).cycle == old(self).cycle,
            completes_as(
                old(self)@,
                final(self)@,
                done,
                jcn_spec(old(self)@, (instr % 256) as u8, (instr / 256) as u8),
            ),
    {
        // If c1 = 0, do not invert the jump condition; if c1 = 1, invert it.
        // c2 = 1: jump if the accumulator is zero; c3 = 1: jump if carry is 1;
        // c4 = 1: jump if the test signal is zero.
        let words: [u8; 2] = [(instr % 256) as u8, (instr / 256) as u8];
        let c1 = words[0] & 0x8 != 0;
        let c2 = words[0] & 0x4 != 0;
        let c3 = words[0] & 0x2 != 0;
        let c4 = words[0] & 0x1 != 0;
        proof {
            lemma_byte_fields(words[0]);
        }
        let condition = (c2 && self.acc == 0) || (c3 && self.carry == 1) || (c4 && self.test == 0);
        if condition != c1 {
            // The jump stays within the page of the next instruction.
            self.pc = self.page_base(2) + words[1] as u16;
        } else {
            self.pc = (self.pc + 2) % 4096;
        }
        true
    }

    pub fn op_fim(&mut self, instr: u16) -> (done: bool)
        requires
            old(self).pc < 4096,
        ensures
            final(self).cycle == old(self).cycle,
            completes_as(
                old(self)@,
                final(self)@,
                done,
                fim_spec(old(self)@, (instr % 256) as u8, (instr / 256) as u8),
            ),
    {
        // The pair register is named by bits 3..1 of the first word.
        let words: [u8; 2] = [(instr % 256) as u8, (instr / 256) as u8];
        let index_reg_pair = words[0] & 0xE;
        proof {
            lemma_byte_fields(words[0]);
            lemma_byte_fields(words[1]);
        }
        self.ixr[index_reg_pair as usize] = (words[1] & 0xF0) >> 4;
        self.ixr[(index_reg_pair + 1) as usize] = words[1] & 0x0F;
        self.pc = (self.pc + 2) % 4096;
        true
    }

    pub fn op_fin(&mut self, instr: u8) -> (done: bool)
        requires
            old(self).pc < 4096,
        ensures
            final(self).cycle == old(self).cycle,
            completes_as(old(self)@, final(self)@, done, fin_spec(old(self)@, instr)),
    {
        // ROM[<address from index register pair 0>] is copied to the register pair named,
        // within the page of the next instruction.
        let index_reg_pair = instr & 0xE;
        proof {
            lemma_byte_fields(instr);
        }
        let rom_addr = self.page_base(1) + self.pair_value(0);
        let fetched = self.rom[rom_addr as usize];
        proof {
            lemma_byte_fields(fetched);
        }
        self.ixr[index_reg_pair as usize] = (fetched & 0xF0) >> 4;
        self.ixr[(index_reg_pair + 1) as usize] = fetched & 0x0F;
        self.pc = (self.pc + 1) % 4096;
        true
    }

    pub fn op_jin(&mut self, instr: u8) -> (done: bool)
        requires
            old(self).pc < 4096,
        ensures
            final(self).cycle == old(self).cycle,
            completes_as(old(self)@, final(self)@, done, jin_spec(old(self)@, instr)),
    {
        // Jump indirect, to the address held in a register pair, within the
        // page of the next instruction.
        let index_reg_pair = instr & 0xE;
        proof {
            lemma_byte_fields(instr);
        }
        self.pc = self.page_base(1) + self.pair_value(index_reg_pair);
        true
    }

    pub fn op_jun(&mut self, instr: u16) -> (done: bool)
        ensures
            final(self).cycle == old(self).cycle,
            completes_as(
                old(self)@,
                final(self)@,
                done,
                jun_spec(old(self)@, (instr % 256) as u8, (instr / 256) as u8),
            ),
    {
        // Jump directly to a ROM address.
        let address = instr & 0xFFF;
        assert(instr & 0xFFF == instr % 4096) by (bit_vector);
        self.pc = address;
        true
    }

    pub fn op_jms(&mut self, instr: u16) -> (done: bool)
        ensures
            final(self).cycle == old(self).cycle,
            completes_as(
                old(self)@,
                final(self)@,
                done,
                jms_spec(old(self)@, (instr % 256) as u8, (instr / 256) as u8),
            ),
    {
        // Jump to a subroutine ROM address, saving the program counter on the stack.
        if self.stack_ptr >= 3 {
            return false;
        }
        self.stack[self.stack_ptr as usize] = self.pc;
        if self.stack_ptr == 2 {
            self.stack_ptr = 0;
        } else {
            self.stack_ptr += 1;
        }
        let address = instr & 0xFFF;
        assert(instr & 0xFFF == instr % 4096) by (bit_vector);
        self.pc = address;
        true
    }

    pub fn op_inc(&mut self, instr: u8) -> (done: bool)
        requires
            old(self).pc < 4096,
        ensures
            final(self).cycle == old(self).cycle,
            completes_as(old(self)@, final(self)@, done, inc_spec(old(self)@, instr)),
    {
        // Increment register RRRR.
        let index_addr = instr & 0xF;
        proof {
            lemma_byte_fields(instr);
        }
        if self.ixr[index_addr as usize] < 15 {
            self.ixr[index_addr as usize] = self.ixr[index_addr as usize] + 1;
        } else {
            self.ixr[index_addr as usize] = 0;
        }
        self.pc = (self.pc + 1) % 4096;
        true
    }

    pub fn op_isz(&mut self, instr: u16) -> (done: bool)
        ensures
            final(self).cycle == old(self).cycle,
            completes_as(
                old(self)@,
                final(self)@,
                done,
                isz_spec(old(self)@, (instr % 256) as u8, (instr / 256) as u8),
            ),
    {
        // Increment register RRRR and jump to the address in the second word.
        let words: [u8; 2] = [(instr % 256) as u8, (instr / 256) as u8];
        let index_addr = words[0] & 0xF;
        proof {
            lemma_byte_fields(words[0]);
        }
        if self.ixr[index_addr as usize] < 15 {
            self.ixr[index_addr as usize] = self.ixr[index_addr as usize] + 1;
        } else {
            self.ixr[index_addr as usize] = 0;
        }
        self.pc = words[1] as u16;
        true
    }

    pub fn op_add(&mut self, instr: u8) -> (done: bool)
        requires
            old(self).pc < 4096,
        ensures
            final(self).cycle == old(self).cycle,
            completes_as(old(self)@, final(self)@, done, add_spec(old(self)@, instr)),
    {
        // Add a register to the accumulator with carry.
        let index_addr = instr & 0xF;
        proof {
            lemma_byte_fields(instr);
        }
        let operand = self.ixr[index_addr as usize];
        let result = ((self.acc as u16 + operand as u16) % 256) as u8;
        if result <= 15 {
            self.acc = result;
            self.carry = 0;
        } else {
            self.acc = 0;
            self.carry = 1;
        }
        self.pc = (self.pc + 1) % 4096;
        true
    }

    pub fn op_sub(&mut self, instr: u8) -> (done: bool)
        requires
            old(self).pc < 4096,
        ensures
            final(self).cycle == old(self).cycle,
            completes_as(old(self)@, final(self)@, done, sub_spec(old(self)@, instr)),
    {
        // Subtract a register from the accumulator with borrow.
        let index_addr = instr & 0xF;
        proof {
            lemma_byte_fields(instr);
        }
        let operand = self.ixr[index_addr as usize];
        let result = ((self.acc as u16 + 256 - operand as u16) % 256) as u8;
        if result <= 15 && result > 0 {
            self.acc = result;
            self.carry = 1;
        } else {
            self.acc = 0;
            self.carry = 0;
        }
        self.pc = (self.pc + 1) % 4096;
        true
    }

    pub fn op_ld(&mut self, instr: u8) -> (done: bool)
        requires
            old(self).pc < 4096,
        ensures
            final(self).cycle == old(self).cycle,
            completes_as(old(self)@, final(self)@, done, ld_spec(old(self)@, instr)),
    {
        // Load register RRRR into the accumulator.
        let index_addr = instr & 0xF;
        proof {
            lemma_byte_fields(instr);
        }
        self.acc = self.ixr[index_addr as usize];
        self.pc = (self.pc + 1) % 4096;
        true
    }

    pub fn op_xch(&mut self, instr: u8) -> (done: bool)
        requires
            old(self).pc < 4096,
        ensures
            final(self).cycle == old(self).cycle,
            completes_as(old(self)@, final(self)@, done, xch_spec(old(self)@, instr)),
    {
        // Exchange an index register with the accumulator.
        let index_addr = instr & 0xF;
        proof {
            lemma_byte_fields(instr);
        }
        let acc_temp = self.acc;
        let reg_temp = self.ixr[index_addr as usize];
        self.ixr[index_addr as usize] = acc_temp;
        self.acc = reg_temp;
        self.pc = (self.pc + 1) % 4096;
        true
    }

    pub fn op_bbl(&mut self, instr: u8) -> (done: bool)
        ensures
            final(self).cycle == old(self).cycle,
            completes_as(old(self)@, final(self)@, done, bbl_spec(old(self)@, instr)),
    {
        // Move down one level in the stack, take the program counter from
        // there and move past it, and load DDDD into the accumulator.
        proof {
            lemma_byte_fields(instr);
        }
        if self.stack_ptr >= 3 {
            return false;
        }
        if self.stack_ptr > 0 {
            self.stack_ptr -= 1;
        } else {
            self.stack_ptr = 0;
        }
        self.pc = ((self.stack[self.stack_ptr as usize] as u32 + 1) % 4096) as u16;
        self.acc = instr & 0xF;
        true
    }

    pub fn op_ldm(&mut self, instr: u8) -> (done: bool)
        requires
            old(self).pc < 4096,
        ensures
            final(self).cycle == old(self).cycle,
            completes_as(old(self)@, final(self)@, done, ldm_spec(old(self)@, instr)),
    {
        // Load the data nibble into the accumulator.
        proof {
            lemma_byte_fields(instr);
        }
        self.acc = instr & 0xF;
        self.pc = (self.pc + 1) % 4096;
        true
    }

    pub fn op_clb(&mut self) -> (done: bool)
        requires
            old(self).pc < 4096,
        ensures
            final(self).cycle == old(self).cycle,
            completes_as(old(self)@, final(self)@, done, clb_spec(old(self)@)),
    {
        // Clear accumulator and carry.
        self.acc = 0;
        self.carry = 0;
        self.pc = (self.pc + 1) % 4096;
        true
    }

    pub fn op_clc(&mut self) -> (done: bool)
        requires
            old(self).pc < 4096,
        ensures
            final(self).cycle == old(self).cycle,
            completes_as(old(self)@, final(self)@, done, clc_spec(old(self)@)),
    {
        // Clear carry.
        self.carry = 0;
        self.pc = (self.pc + 1) % 4096;
        true
    }

    pub fn op_iac(&mut self) -> (done: bool)
        requires
            old(self).pc < 4096,
        ensures
            final(self).cycle == old(self).cycle,
            completes_as(old(self)@, final(self)@, done, iac_spec(old(self)@)),
    {
        // Increment the accumulator.
        let result = ((self.acc as u16 + 1) % 256) as u8;
        if result <= 15 {
            self.acc = result;
            self.carry = 0;
        } else {
            self.acc = 0;
            self.carry = 1;
        }
        self.pc = (self.pc + 1) % 4096;
        true
    }

    pub fn op_cmc(&mut self) -> (done: bool)
        requires
            old(self).pc < 4096,
        ensures
            final(self).cycle == old(self).cycle,
            completes_as(old(self)@, final(self)@, done, cmc_spec(old(self)@)),
    {
        // Complement the carry bit.
        self.carry = if self.carry == 0 {
            1
        } else {
            0
        };
        self.pc = (self.pc + 1) % 4096;
        true
    }

    pub fn op_cma(&mut self) -> (done: bool)
        requires
            old(self).pc < 4096,
        ensures
            final(self).cycle == old(self).cycle,
            completes_as(old(self)@, final(self)@, done, cma_spec(old(self)@)),
    {
        // Complement the 4-bit accumulator.
        proof {
            lemma_byte_fields(self.acc);
        }
        self.acc = !self.acc & 0xF;
        self.pc = (self.pc + 1) % 4096;
        true
    }

    pub fn op_ral(&mut self) -> (done: bool)
        requires
            old(self).pc < 4096,
        ensures
            final(self).cycle == old(self).cycle,
            completes_as(old(self)@, final(self)@, done, ral_spec(old(self)@)),
    {
        // Rotate left through carry.
        let new_acc = (self.acc << 1 & 0xF) | self.carry;
        self.carry = (self.acc & 0x8) >> 3;
        self.acc = new_acc;
        self.pc = (self.pc + 1) % 4096;
        true
    }

    pub fn op_rar(&mut self) -> (done: bool)
        requires
            old(self).pc < 4096,
        ensures
            final(self).cycle == old(self).cycle,
            completes_as(old(self)@, final(self)@, done, rar_spec(old(self)@)),
    {
        // Rotate right through carry.
        let new_acc = (self.acc >> 1 & 0xF) | (self.carry << 3);
        self.carry = self.acc & 0x1;
        self.acc = new_acc;
        self.pc = (self.pc + 1) % 4096;
        true
    }

    pub fn op_tcc(&mut self) -> (done: bool)
        requires
            old(self).pc < 4096,
        ensures
            final(self).cycle == old(self).cycle,
            completes_as(old(self)@, final(self)@, done, tcc_spec(old(self)@)),
    {
        // Transfer carry to the accumulator.
        self.acc = self.carry;
        self.carry = 0;
        self.pc = (self.pc + 1) % 4096;
        true
    }

    pub fn op_dac(&mut self) -> (done: bool)
        requires
            old(self).pc < 4096,
        ensures
            final(self).cycle == old(self).cycle,
            completes_as(old(self)@, final(self)@, done, dac_spec(old(self)@)),
    {
        // Decrement the accumulator.
        let result = ((self.acc as u16 + 255) % 256) as u8;
        if result <= 15 {
            self.acc = result;
            self.carry = 1;
        } else {
            self.acc = 0;
            self.carry = 0;
        }
        self.pc = (self.pc + 1) % 4096;
        true
    }

    pub fn op_tcs(&mut self) -> (done: bool)
        requires
            old(self).pc < 4096,
        ensures
            final(self).cycle == old(self).cycle,
            completes_as(old(self)@, final(self)@, done, tcs_spec(old(self)@)),
    {
        // Transfer carry subtract.
        if self.carry == 1 {
            self.acc = 0x9;
        } else {
            self.acc = 0xA;
        }
        self.carry = 0;
        self.pc = (self.pc + 1) % 4096;
        true
    }

    pub fn op_stc(&mut self) -> (done: bool)
        requires
            old(self).pc < 4096,
        ensures
            final(self).cycle == old(self).cycle,
            completes_as(old(self)@, final(self)@, done, stc_spec(old(self)@)),
    {
        // Set carry.
        self.carry = 1;
        self.pc = (self.pc + 1) % 4096;
        true
    }

    pub fn op_daa(&mut self) -> (done: bool)
        requires
            old(self).pc < 4096,
        ensures
            final(self).cycle == old(self).cycle,
            completes_as(old(self)@, final(self)@, done, daa_spec(old(self)@)),
    {
        // Decimal adjust the accumulator.
        if self.acc > 9 || self.carry == 1 {
            let sum: u16 = self.acc as u16 + 6;
            self.acc = (sum % 16) as u8;
            if sum > 15 {
                self.carry = 1;
            }
        }
        self.pc = (self.pc + 1) % 4096;
        true
    }

    pub fn op_kbp(&mut self) -> (done: bool)
        requires
            old(self).pc < 4096,
        ensures
            final(self).cycle == old(self).cycle,
            completes_as(old(self)@, final(self)@, done, kbp_spec(old(self)@)),
    {
        // Keyboard process: one-hot code to its position.
        match self.acc {
            0x0 => {
                self.acc = 0x0;
            },
            0x1 => {
                self.acc = 0x1;
            },
            0x2 => {
                self.acc = 0x2;
            },
            0x4 => {
                self.acc = 0x3;
            },
            0x8 => {
                self.acc = 0x4;
            },
            _ => {
                self.acc = 0xF;
            },
        };
        self.pc = (self.pc + 1) % 4096;
        true
    }

    pub fn op_dcl(&mut self) -> (done: bool)
        requires
            old(self).pc < 4096,
        ensures
            final(self).cycle == old(self).cycle,
            completes_as(old(self)@, final(self)@, done, dcl_spec(old(self)@)),
    {
        // Designate command line: select the RAM bank.
        self.ram_bank = self.acc % 8;
        self.pc = (self.pc + 1) % 4096;
        true
    }

    pub fn op_src(&mut self, instr: u8) -> (done: bool)
        requires
            old(self).pc < 4096,
        ensures
            final(self).cycle == old(self).cycle,
            completes_as(old(self)@, final(self)@, done, src_spec(old(self)@, instr)),
    {
        // Send register control: the register pair is the 8-bit RAM address.
        let index_reg_pair = instr & 0xE;
        proof {
            lemma_byte_fields(instr);
        }
        self.ram_addr = self.pair_value(index_reg_pair) as u8;
        self.pc = (self.pc + 1) % 4096;
        true
    }

    pub fn op_wrm(&mut self) -> (done: bool)
        requires
            old(self).pc < 4096,
        ensures
            final(self).cycle == old(self).cycle,
            completes_as(old(self)@, final(self)@, done, wrm_spec(old(self)@)),
    {
        // Write the accumulator to the addressed RAM data character.
        let index = self.ram_index();
        self.ram_d[index] = self.acc;
        self.pc = (self.pc + 1) % 4096;
        true
    }

    pub fn op_wmp(&mut self) -> (done: bool)
        requires
            old(self).pc < 4096,
        ensures
            final(self).cycle == old(self).cycle,
            completes_as(old(self)@, final(self)@, done, wmp_spec(old(self)@)),
    {
        // Write the accumulator to the selected RAM chip's output port.
        self.ram_o[(self.ram_addr / 64) as usize] = self.acc;
        self.pc = (self.pc + 1) % 4096;
        true
    }

    pub fn op_wrr(&mut self) -> (done: bool)
        requires
            old(self).pc < 4096,
        ensures
            final(self).cycle == old(self).cycle,
            completes_as(old(self)@, final(self)@, done, wrr_spec(old(self)@)),
    {
        // Write the accumulator to the selected ROM chip's I/O lines.
        self.rom_io[(self.ram_addr / 16) as usize] = self.acc;
        self.pc = (self.pc + 1) % 4096;
        true
    }

    pub fn op_wrn(&mut self, n: u8) -> (done: bool)
        requires
            old(self).pc < 4096,
            n < 4,
        ensures
            final(self).cycle == old(self).cycle,
            completes_as(old(self)@, final(self)@, done, wrn_spec(old(self)@, n as int)),
    {
        // Write the accumulator to status character n of the selected RAM register.
        let index = self.status_index(n);
        self.ram_s[index] = self.acc;
        self.pc = (self.pc + 1) % 4096;
        true
    }

    pub fn op_sbm(&mut self) -> (done: bool)
        requires
            old(self).pc < 4096,
        ensures
            final(self).cycle == old(self).cycle,
            completes_as(old(self)@, final(self)@, done, sbm_spec(old(self)@)),
    {
        // Subtract the selected RAM character from the accumulator with borrow.
        let operand = self.ram_d[self.ram_index()] % 16;
        let result = ((self.acc as u16 + 256 - operand as u16) % 256) as u8;
        if result <= 15 && result > 0 {
            self.acc = result;
            self.carry = 1;
        } else {
            self.acc = 0;
            self.carry = 0;
        }
        self.pc = (self.pc + 1) % 4096;
        true
    }

    pub fn op_rdm(&mut self) -> (done: bool)
        requires
            old(self).pc < 4096,
        ensures
            final(self).cycle == old(self).cycle,
            completes_as(old(self)@, final(self)@, done, rdm_spec(old(self)@)),
    {
        // Read the selected RAM character into the accumulator.
        self.acc = self.ram_d[self.ram_index()] % 16;
        self.pc = (self.pc + 1) % 4096;
        true
    }

    pub fn op_rdr(&mut self) -> (done: bool)
        requires
            old(self).pc < 4096,
        ensures
            final(self).cycle == old(self).cycle,
            completes_as(old(self)@, final(self)@, done, rdr_spec(old(self)@)),
    {
        // Read the selected ROM chip's I/O lines into the accumulator.
        self.acc = self.rom_io[(self.ram_addr / 16) as usize] % 16;
        self.pc = (self.pc + 1) % 4096;
        true
    }

    pub fn op_adm(&mut self) -> (done: bool)
        requires
            old(self).pc < 4096,
        ensures
            final(self).cycle == old(self).cycle,
            completes_as(old(self)@, final(self)@, done, adm_spec(old(self)@)),
    {
        // Add the selected RAM character to the accumulator with carry.
        let operand = self.ram_d[self.ram_index()] % 16;
        let result = ((self.acc as u16 + operand as u16) % 256) as u8;
        if result <= 15 {
            self.acc = result;
            self.carry = 0;
        } else {
            self.acc = 0;
            self.carry = 1;
        }
        self.pc = (self.pc + 1) % 4096;
        true
    }

    pub fn op_rdn(&mut self, n: u8) -> (done: bool)
        requires
            old(self).pc < 4096,
            n < 4,
        ensures
            final(self).cycle == old(self).cycle,
            completes_as(old(self)@, final(self)@, done, rdn_spec(old(self)@, n as int)),
    {
        // Read status character n of the selected RAM register into the accumulator.
        self.acc = self.ram_s[self.status_index(n)] % 16;
        self.pc = (self.pc + 1) % 4096;
        true
    }
}

} // verus!
