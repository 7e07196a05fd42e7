//! What each instruction does, stated field by field over its inputs: the
//! registers it writes and their new values, and that every other part of
//! the state is left as it was.
use vstd::prelude::*;
use crate::i4004emu::lemma_byte_fields;
use crate::machine::{
    clb_spec, clc_spec, cma_spec, cmc_spec, CpuState, dcl_spec, fim_spec, fin_spec, inc_spec,
    isz_spec, jcn_spec, jin_spec, kbp_spec, ld_spec, ldm_spec, ral_spec, rar_spec, src_spec,
    stc_spec, step, tcc_spec, tcs_spec, xch_spec, opcode, one_word_spec, two_word_spec,
    accumulator_group_spec, add_spec, sub_spec, iac_spec, dac_spec, daa_spec, nop_spec, jun_spec,
    jms_spec, bbl_spec, wrm_spec, rdm_spec, wrn_spec, rdn_spec, wmp_spec, wrr_spec, rdr_spec,
    adm_spec, sbm_spec, instruction_output, instruction_width, execution, execution_output,
    run_from, run_output,
};

verus! {

/// The rotations through carry, as arithmetic on a 4-bit accumulator and a carry bit.
proof fn lemma_rotations(a: u8, c: u8)
    by (bit_vector)
    requires
        a <= 15,
        c <= 1,
    ensures
        ((a << 1) & 0xF) | c == ((2 * a + c) % 16) as u8,
        (a & 0x8) >> 3 == a / 8,
        ((a >> 1) & 0xF) | (c << 3) == (a / 2 + 8 * c) as u8,
        a & 0x1 == a % 2,
{
}

/// JCN jumps when bit 3 of the first word is clear and at least one
/// selected condition holds (bit 2: accumulator is 0, bit 1: carry is 1,
/// bit 0: test pin is 0), or when bit 3 is set and none holds. A jump goes
/// to the second word within the page of the next instruction; otherwise
/// both words are skipped. Nothing but the program counter changes.
pub proof fn law_jcn(s: CpuState, w0: u8, w1: u8)
    requires
        s.pc < 4096,
    ensures
        jcn_spec(s, w0, w1) matches Some(t) && {
            let any_holds = (w0 & 0x4 != 0 && s.acc == 0) || (w0 & 0x2 != 0 && s.carry == 1) || (
            w0 & 0x1 != 0 && s.test == 0);
            let jumps = if w0 & 0x8 == 0 {
                any_holds
            } else {
                !any_holds
            };
            &&& t == (CpuState { pc: t.pc, ..s })
            &&& jumps ==> t.pc == (s.pc + 2) % 4096 / 256 * 256 + w1
            &&& !jumps ==> t.pc == (s.pc + 2) % 4096
        },
{
    lemma_byte_fields(w0);
}

/// Any one selected JCN condition that holds is enough for a jump, whatever
/// the other selected conditions are.
pub proof fn law_jcn_one_condition_suffices(s: CpuState, w0: u8, w1: u8)
    requires
        s.pc < 4096,
        w0 & 0x8 == 0,
        (w0 & 0x4 != 0 && s.acc == 0) || (w0 & 0x2 != 0 && s.carry == 1) || (w0 & 0x1 != 0
            && s.test == 0),
    ensures
        jcn_spec(s, w0, w1) matches Some(t) && t.pc % 256 == w1 && t.pc / 256 == (s.pc + 2) % 4096
            / 256,
{
    lemma_byte_fields(w0);
}

/// JIN jumps to the address held in the register pair the opcode names
/// (`opcode & 0xE`, even register high), within the page of the next
/// instruction. Nothing but the program counter changes.
pub proof fn law_jin(s: CpuState, w: u8)
    requires
        s.wf(),
        s.pc < 4096,
    ensures
        jin_spec(s, w) matches Some(t) && {
            let p = (w & 0xE) as int;
            &&& t == (CpuState { pc: t.pc, ..s })
            &&& t.pc == (s.pc + 1) % 4096 / 256 * 256 + (s.ixr[p] % 16) * 16 + s.ixr[p + 1] % 16
        },
{
    lemma_byte_fields(w);
}

/// FIN loads the ROM word that register pair 0 addresses, within the page
/// of the next instruction, into the register pair the opcode names: high
/// nibble to the even register, low nibble to the odd one. Every other
/// register is unchanged, the program counter moves on one word, and
/// nothing else changes.
pub proof fn law_fin(s: CpuState, w: u8)
    requires
        s.wf(),
        s.pc < 4096,
    ensures
        fin_spec(s, w) matches Some(t) && {
            let p = (w & 0xE) as int;
            let byte = s.rom[(s.pc + 1) % 4096 / 256 * 256 + (s.ixr[0] % 16) * 16 + s.ixr[1] % 16];
            &&& t == (CpuState { ixr: t.ixr, pc: t.pc, ..s })
            &&& t.pc == (s.pc + 1) % 4096
            &&& t.ixr.len() == 16
            &&& t.ixr[p] == byte >> 4
            &&& t.ixr[p + 1] == byte & 0xF
            &&& forall|j: int| 0 <= j < 16 && j != p && j != p + 1 ==> t.ixr[j] == s.ixr[j]
        },
{
    lemma_byte_fields(w);
    let p = (w & 0xE) as int;
    let byte = s.rom[(s.pc + 1) % 4096 / 256 * 256 + (s.ixr[0] % 16) * 16 + s.ixr[1] % 16];
    lemma_byte_fields(byte);
    assert(byte >> 4 == (byte & 0xF0) >> 4) by (bit_vector);
}

/// FIM loads its second word into the register pair the opcode names: high
/// nibble to the even register, low nibble to the odd one. Every other
/// register is unchanged, the program counter moves on two words, and
/// nothing else changes.
pub proof fn law_fim(s: CpuState, w0: u8, w1: u8)
    requires
        s.wf(),
        s.pc < 4096,
    ensures
        fim_spec(s, w0, w1) matches Some(t) && {
            let p = (w0 & 0xE) as int;
            &&& t == (CpuState { ixr: t.ixr, pc: t.pc, ..s })
            &&& t.pc == (s.pc + 2) % 4096
            &&& t.ixr.len() == 16
            &&& t.ixr[p] == w1 >> 4
            &&& t.ixr[p + 1] == w1 & 0xF
            &&& forall|j: int| 0 <= j < 16 && j != p && j != p + 1 ==> t.ixr[j] == s.ixr[j]
        },
{
    lemma_byte_fields(w0);
    lemma_byte_fields(w1);
    assert(w1 >> 4 == (w1 & 0xF0) >> 4) by (bit_vector);
}

/// SRC sets the RAM address to the 8-bit value of the register pair the
/// opcode names (even register high); the program counter moves on one
/// word and nothing else changes.
pub proof fn law_src(s: CpuState, w: u8)
    requires
        s.wf(),
        s.pc < 4096,
    ensures
        src_spec(s, w) matches Some(t) && {
            let p = (w & 0xE) as int;
            &&& t == (CpuState { ram_addr: t.ram_addr, pc: t.pc, ..s })
            &&& t.pc == (s.pc + 1) % 4096
            &&& t.ram_addr == (s.ixr[p] % 16) * 16 + s.ixr[p + 1] % 16
        },
{
    lemma_byte_fields(w);
}

/// INC increments register `opcode & 0xF` of a 4-bit value modulo 16;
/// every other register is unchanged, the program counter moves on one
/// word, and nothing else changes.
pub proof fn law_inc(s: CpuState, w: u8)
    requires
        s.wf(),
        s.pc < 4096,
        s.ixr[(w & 0xF) as int] <= 15,
    ensures
        inc_spec(s, w) matches Some(t) && {
            let r = (w & 0xF) as int;
            &&& t == (CpuState { ixr: t.ixr, pc: t.pc, ..s })
            &&& t.pc == (s.pc + 1) % 4096
            &&& t.ixr.len() == 16
            &&& t.ixr[r] == (s.ixr[r] + 1) % 16
            &&& forall|j: int| 0 <= j < 16 && j != r ==> t.ixr[j] == s.ixr[j]
        },
{
    lemma_byte_fields(w);
}

/// ISZ increments register `first word & 0xF` of a 4-bit value modulo 16
/// and jumps to the second word; every other register is unchanged and
/// nothing else changes.
pub proof fn law_isz(s: CpuState, w0: u8, w1: u8)
    requires
        s.wf(),
        s.ixr[(w0 & 0xF) as int] <= 15,
    ensures
        isz_spec(s, w0, w1) matches Some(t) && {
            let r = (w0 & 0xF) as int;
            &&& t == (CpuState { ixr: t.ixr, pc: t.pc, ..s })
            &&& t.pc == w1
            &&& t.ixr.len() == 16
            &&& t.ixr[r] == (s.ixr[r] + 1) % 16
            &&& forall|j: int| 0 <= j < 16 && j != r ==> t.ixr[j] == s.ixr[j]
        },
{
    lemma_byte_fields(w0);
}

/// LD copies register `opcode & 0xF` into the accumulator; the program
/// counter moves on one word and nothing else changes.
pub proof fn law_ld(s: CpuState, w: u8)
    requires
        s.wf(),
        s.pc < 4096,
    ensures
        ld_spec(s, w) matches Some(t) && t == (CpuState {
            acc: s.ixr[(w & 0xF) as int],
            pc: ((s.pc + 1) % 4096) as u16,
            ..s
        }),
{
    lemma_byte_fields(w);
}

/// XCH swaps register `opcode & 0xF` with the accumulator; every other
/// register is unchanged, the program counter moves on one word, and
/// nothing else changes.
pub proof fn law_xch(s: CpuState, w: u8)
    requires
        s.wf(),
        s.pc < 4096,
    ensures
        xch_spec(s, w) matches Some(t) && {
            let r = (w & 0xF) as int;
            &&& t == (CpuState { ixr: t.ixr, acc: t.acc, pc: t.pc, ..s })
            &&& t.pc == (s.pc + 1) % 4096
            &&& t.acc == s.ixr[r]
            &&& t.ixr.len() == 16
            &&& t.ixr[r] == s.acc
            &&& forall|j: int| 0 <= j < 16 && j != r ==> t.ixr[j] == s.ixr[j]
        },
{
    lemma_byte_fields(w);
}

/// LDM loads `opcode & 0xF` into the accumulator; the program counter moves
/// on one word and nothing else changes.
pub proof fn law_ldm(s: CpuState, w: u8)
    requires
        s.pc < 4096,
    ensures
        ldm_spec(s, w) matches Some(t) && t == (CpuState {
            acc: w & 0xF,
            pc: ((s.pc + 1) % 4096) as u16,
            ..s
        }),
{
    lemma_byte_fields(w);
}

/// The accumulator-and-carry instructions change only accumulator, carry
/// and program counter (DCL the RAM bank in place of the first two), and
/// move the program counter on one word. CLB clears both; CLC clears carry
/// and keeps the accumulator; STC sets carry and keeps the accumulator; CMC
/// complements the carry bit and CMA the 4-bit accumulator; TCC moves carry
/// into the accumulator; TCS loads 9 or 10 as carry is 1 or not; both clear
/// carry; DCL selects the RAM bank given by the low three accumulator bits.
pub proof fn law_accumulator_and_carry(s: CpuState)
    requires
        s.pc < 4096,
        s.acc <= 15,
        s.carry <= 1,
    ensures
        ({
            let pc = ((s.pc + 1) % 4096) as u16;
            &&& clb_spec(s) == Some(CpuState { acc: 0, carry: 0, pc: pc, ..s })
            &&& clc_spec(s) == Some(CpuState { carry: 0, pc: pc, ..s })
            &&& stc_spec(s) == Some(CpuState { carry: 1, pc: pc, ..s })
            &&& cmc_spec(s) == Some(CpuState { carry: (1 - s.carry) as u8, pc: pc, ..s })
            &&& cma_spec(s) == Some(CpuState { acc: (15 - s.acc) as u8, pc: pc, ..s })
            &&& tcc_spec(s) == Some(CpuState { acc: s.carry, carry: 0, pc: pc, ..s })
            &&& tcs_spec(s) == Some(CpuState { acc: (10 - s.carry) as u8, carry: 0, pc: pc, ..s })
            &&& dcl_spec(s) == Some(CpuState { ram_bank: s.acc & 0x7, pc: pc, ..s })
        }),
{
    let a = s.acc;
    assert(a & 0x7 == a % 8) by (bit_vector);
}

/// RAL and RAR rotate the five bits of carry and 4-bit accumulator: RAL
/// doubles the accumulator modulo 16, adds the carry, and moves bit 3 into
/// carry; RAR halves the accumulator, adds 8 for a set carry, and moves bit
/// 0 into carry. The program counter moves on one word; nothing else changes.
pub proof fn law_rotations(s: CpuState)
    requires
        s.pc < 4096,
        s.acc <= 15,
        s.carry <= 1,
    ensures
        ({
            let pc = ((s.pc + 1) % 4096) as u16;
            &&& ral_spec(s) == Some(CpuState {
                acc: ((2 * s.acc + s.carry) % 16) as u8,
                carry: s.acc / 8,
                pc: pc,
                ..s
            })
            &&& rar_spec(s) == Some(CpuState {
                acc: (s.acc / 2 + 8 * s.carry) as u8,
                carry: s.acc % 2,
                pc: pc,
                ..s
            })
        }),
{
    lemma_rotations(s.acc, s.carry);
}

/// KBP maps a one-hot accumulator (1, 2, 4, 8) to the position of its bit
/// counted from 1, keeps 0, and gives 15 for any other value; the program
/// counter moves on one word and nothing else changes.
pub proof fn law_kbp(s: CpuState)
    requires
        s.pc < 4096,
    ensures
        kbp_spec(s) matches Some(t) && {
            &&& t == (CpuState { acc: t.acc, pc: ((s.pc + 1) % 4096) as u16, ..s })
            &&& s.acc == 0 ==> t.acc == 0
            &&& s.acc == 1 ==> t.acc == 1
            &&& s.acc == 2 ==> t.acc == 2
            &&& s.acc == 4 ==> t.acc == 3
            &&& s.acc == 8 ==> t.acc == 4
            &&& (s.acc != 0 && s.acc != 1 && s.acc != 2 && s.acc != 4 && s.acc != 8) ==> t.acc
                == 15
        },
{
}

/// With a 4-bit accumulator and register: ADD keeps a sum of at most 15
/// with carry 0 and turns a larger sum into accumulator 0 with carry 1; SUB
/// keeps a positive difference with carry 1 and turns any other into
/// accumulator 0 with carry 0. Register `opcode & 0xF` is the operand. The
/// program counter moves on one word and nothing else changes.
pub proof fn law_add_sub(s: CpuState, w: u8)
    requires
        s.wf(),
        s.pc < 4096,
        s.acc <= 15,
        s.ixr[(w & 0xF) as int] <= 15,
    ensures
        ({
            let x = s.ixr[(w & 0xF) as int];
            let pc = ((s.pc + 1) % 4096) as u16;
            &&& s.acc + x <= 15 ==> add_spec(s, w) == Some(
                CpuState { acc: (s.acc + x) as u8, carry: 0, pc: pc, ..s },
            )
            &&& s.acc + x > 15 ==> add_spec(s, w) == Some(
                CpuState { acc: 0, carry: 1, pc: pc, ..s },
            )
            &&& s.acc > x ==> sub_spec(s, w) == Some(
                CpuState { acc: (s.acc - x) as u8, carry: 1, pc: pc, ..s },
            )
            &&& s.acc <= x ==> sub_spec(s, w) == Some(CpuState { acc: 0, carry: 0, pc: pc, ..s })
        }),
{
    lemma_byte_fields(w);
}

/// With a 4-bit accumulator: IAC adds one with carry 0, and turns 15 into 0
/// with carry 1; DAC subtracts one with carry 1, and turns 0 into 0 with
/// carry 0. The program counter moves on one word and nothing else changes.
pub proof fn law_iac_dac(s: CpuState)
    requires
        s.pc < 4096,
        s.acc <= 15,
    ensures
        ({
            let pc = ((s.pc + 1) % 4096) as u16;
            &&& s.acc < 15 ==> iac_spec(s) == Some(
                CpuState { acc: (s.acc + 1) as u8, carry: 0, pc: pc, ..s },
            )
            &&& s.acc == 15 ==> iac_spec(s) == Some(CpuState { acc: 0, carry: 1, pc: pc, ..s })
            &&& s.acc > 0 ==> dac_spec(s) == Some(
                CpuState { acc: (s.acc - 1) as u8, carry: 1, pc: pc, ..s },
            )
            &&& s.acc == 0 ==> dac_spec(s) == Some(CpuState { acc: 0, carry: 0, pc: pc, ..s })
        }),
{
}

/// With a 4-bit accumulator and a carry bit, DAA adds 6 exactly when the
/// accumulator is above 9 or carry is set; the sum wraps to 4 bits, setting
/// carry when it passes 15 and leaving it otherwise. Accumulator plus 16
/// times carry grows by 6 (adjusted) or stays (not adjusted), less 16 for a
/// carry already set that is set again. The program counter moves on one
/// word and nothing else changes.
pub proof fn law_daa(s: CpuState)
    requires
        s.pc < 4096,
        s.acc <= 15,
        s.carry <= 1,
    ensures
        daa_spec(s) matches Some(t) && {
            &&& t == (CpuState { acc: t.acc, carry: t.carry, pc: ((s.pc + 1) % 4096) as u16, ..s })
            &&& t.acc <= 15
            &&& t.carry <= 1
            &&& (s.acc > 9 || s.carry == 1) ==> t.acc == (s.acc + 6) % 16 && t.carry == (if s.acc
                + 6 > 15 {
                1
            } else {
                s.carry as int
            })
            &&& !(s.acc > 9 || s.carry == 1) ==> t.acc == s.acc && t.carry == s.carry
        },
{
}

/// NOP only moves the program counter on one word.
pub proof fn law_nop(s: CpuState)
    requires
        s.pc < 4096,
    ensures
        nop_spec(s) == Some(CpuState { pc: ((s.pc + 1) % 4096) as u16, ..s }),
{
}

/// JUN jumps to the 12-bit address made of the low nibble of the second
/// word (high) and the first word (low), with nothing else changed.
pub proof fn law_jun(s: CpuState, w0: u8, w1: u8)
    ensures
        jun_spec(s, w0, w1) == Some(
            CpuState { pc: ((w0 as int + 256 * w1 as int) as u16) & 0xFFF, ..s },
        ),
{
    let v = (w0 as int + 256 * w1 as int) as u16;
    assert(v & 0xFFF == v % 4096) by (bit_vector);
}

/// JMS stores the program counter in the stack slot at the stack pointer,
/// leaving the other slots, moves the pointer up one level cyclically
/// (0, 1, 2, 0), and jumps to the 12-bit address of its two words; nothing
/// else changes.
pub proof fn law_jms(s: CpuState, w0: u8, w1: u8)
    requires
        s.wf(),
        s.stack_ptr < 3,
    ensures
        jms_spec(s, w0, w1) matches Some(t) && {
            let sp = s.stack_ptr as int;
            &&& t == (CpuState { stack: t.stack, stack_ptr: t.stack_ptr, pc: t.pc, ..s })
            &&& t.stack.len() == 3
            &&& t.stack[sp] == s.pc
            &&& forall|k: int| 0 <= k < 3 && k != sp ==> t.stack[k] == s.stack[k]
            &&& t.stack_ptr == (sp + 1) % 3
            &&& t.pc == (w0 as int + 256 * w1 as int) % 4096
        },
{
}

/// BBL moves the stack pointer down one level (staying at 0), returns one
/// word past the address in the slot it moves to, and loads `opcode & 0xF`
/// into the accumulator; the stack itself and everything else are unchanged.
pub proof fn law_bbl(s: CpuState, w: u8)
    requires
        s.wf(),
        s.stack_ptr < 3,
    ensures
        bbl_spec(s, w) matches Some(t) && {
            let sp = if s.stack_ptr == 0 {
                0
            } else {
                s.stack_ptr - 1
            };
            &&& t == (CpuState { acc: t.acc, stack_ptr: t.stack_ptr, pc: t.pc, ..s })
            &&& t.stack_ptr == sp
            &&& t.pc == (s.stack[sp] + 1) % 4096
            &&& t.acc == w & 0xF
        },
{
    lemma_byte_fields(w);
}

/// The RAM and port instructions, for the RAM bank `b = ram_bank % 4` and
/// address `a = ram_addr`: WRM writes the accumulator to data character
/// `256 b + a`, RDM reads its low nibble; WRn / RDn write / read status
/// character `64 b + 4 (a / 16) + n`; WMP writes output port `a / 64`; WRR
/// writes and RDR reads the I/O lines of ROM chip `a / 16`. Each moves the
/// program counter on one word and changes nothing else.
pub proof fn law_ram_and_ports(s: CpuState, n: int)
    requires
        s.wf(),
        s.pc < 4096,
        0 <= n < 4,
    ensures
        ({
            let pc = ((s.pc + 1) % 4096) as u16;
            let d = (s.ram_bank % 4) * 256 + s.ram_addr;
            let st = (s.ram_bank % 4) * 64 + 4 * (s.ram_addr / 16) + n;
            &&& wrm_spec(s) == Some(CpuState { ram_d: s.ram_d.update(d, s.acc), pc: pc, ..s })
            &&& rdm_spec(s) == Some(CpuState { acc: s.ram_d[d] & 0xF, pc: pc, ..s })
            &&& wrn_spec(s, n) == Some(CpuState { ram_s: s.ram_s.update(st, s.acc), pc: pc, ..s })
            &&& rdn_spec(s, n) == Some(CpuState { acc: s.ram_s[st] & 0xF, pc: pc, ..s })
            &&& wmp_spec(s) == Some(
                CpuState { ram_o: s.ram_o.update(s.ram_addr as int / 64, s.acc), pc: pc, ..s },
            )
            &&& wrr_spec(s) == Some(
                CpuState { rom_io: s.rom_io.update(s.ram_addr as int / 16, s.acc), pc: pc, ..s },
            )
            &&& rdr_spec(s) == Some(
                CpuState { acc: s.rom_io[s.ram_addr as int / 16] & 0xF, pc: pc, ..s },
            )
        }),
{
    let d = (s.ram_bank % 4) * 256 + s.ram_addr;
    let st = (s.ram_bank % 4) * 64 + 4 * (s.ram_addr / 16) + n;
    lemma_byte_fields(s.ram_d[d]);
    lemma_byte_fields(s.ram_s[st]);
    lemma_byte_fields(s.rom_io[s.ram_addr as int / 16]);
}

/// ADM and SBM work as ADD and SUB with the selected RAM data character
/// (its low nibble) in place of the register.
pub proof fn law_adm_sbm(s: CpuState)
    requires
        s.wf(),
        s.pc < 4096,
        s.acc <= 15,
    ensures
        ({
            let x = s.ram_d[(s.ram_bank % 4) * 256 + s.ram_addr] % 16;
            let pc = ((s.pc + 1) % 4096) as u16;
            &&& s.acc + x <= 15 ==> adm_spec(s) == Some(
                CpuState { acc: (s.acc + x) as u8, carry: 0, pc: pc, ..s },
            )
            &&& s.acc + x > 15 ==> adm_spec(s) == Some(CpuState { acc: 0, carry: 1, pc: pc, ..s })
            &&& s.acc > x ==> sbm_spec(s) == Some(
                CpuState { acc: (s.acc - x) as u8, carry: 1, pc: pc, ..s },
            )
            &&& s.acc <= x ==> sbm_spec(s) == Some(CpuState { acc: 0, carry: 0, pc: pc, ..s })
        }),
{
}

/// FIM (opcodes `0x20`, `0x22`, .., `0x2E`) prints its second word; no other
/// instruction prints anything.
pub proof fn law_output(s: CpuState)
    requires
        s.pc < 4096,
    ensures
        ({
            let op = opcode(s);
            &&& (op >> 4 == 2 && op & 1 == 0) ==> instruction_output(s) == seq![
                s.rom[((s.pc + 1) % 4096) as int],
            ]
            &&& !(op >> 4 == 2 && op & 1 == 0) ==> instruction_output(s).len() == 0
        }),
{
    let op = opcode(s);
    lemma_byte_fields(op);
    assert(op >> 4 == op / 16) by (bit_vector);
}

/// JCN, FIM, JUN, JMS and ISZ take two ROM words and count two cycles; every
/// other instruction takes one.
pub proof fn law_instruction_width(op: u8)
    ensures
        instruction_width(op) == (if op >> 4 == 1 || (op >> 4 == 2 && op & 1 == 0) || op >> 4 == 4
            || op >> 4 == 5 || op >> 4 == 7 {
            2int
        } else {
            1int
        }),
{
    lemma_byte_fields(op);
    assert(op >> 4 == op / 16) by (bit_vector);
}

/// A run with a limit of 0 or less runs nothing: only program counter and
/// cycle count are reset. An instruction that completes before the limit is
/// reached is followed by the run from the state it leaves, with the cycle
/// count moved on by its width, and what it prints comes first; one that
/// cannot complete ends the run there, with nothing more printed.
pub proof fn law_run_steps(s: CpuState, max: int)
    ensures
        max <= 0 ==> execution(s, max) == Ok::<CpuState, CpuState>(
            CpuState { pc: 0, cycle: 0, ..s },
        ) && execution_output(s, max).len() == 0,
        s.cycle < max ==> (match step(s) {
            Some(t) => {
                let u = CpuState { cycle: s.cycle + instruction_width(opcode(s)), ..t };
                &&& run_from(s, max) == run_from(u, max)
                &&& run_output(s, max) == instruction_output(s) + run_output(u, max)
            },
            None => run_from(s, max) == Err::<CpuState, CpuState>(s) && run_output(s, max).len()
                == 0,
        }),
{
}

/// The instruction at the program counter is the one its opcode names: the
/// high nibble selects the group, the low bit selects within groups 2 and
/// 3, and the low nibble within group 15.
pub proof fn law_decode(s: CpuState)
    requires
        s.pc < 4096,
    ensures
        ({
            let op = opcode(s);
            let next = s.rom[((s.pc + 1) % 4096) as int];
            &&& op >> 4 == 1 ==> step(s) == jcn_spec(s, op, next)
            &&& op >> 4 == 2 && op & 1 == 0 ==> step(s) == fim_spec(s, op, next)
            &&& op >> 4 == 2 && op & 1 == 1 ==> step(s) == src_spec(s, op)
            &&& op >> 4 == 3 && op & 1 == 0 ==> step(s) == fin_spec(s, op)
            &&& op >> 4 == 3 && op & 1 == 1 ==> step(s) == jin_spec(s, op)
            &&& op >> 4 == 6 ==> step(s) == inc_spec(s, op)
            &&& op >> 4 == 7 ==> step(s) == isz_spec(s, op, next)
            &&& op >> 4 == 0xA ==> step(s) == ld_spec(s, op)
            &&& op >> 4 == 0xB ==> step(s) == xch_spec(s, op)
            &&& op >> 4 == 0xD ==> step(s) == ldm_spec(s, op)
            &&& op == 0xF0 ==> step(s) == clb_spec(s)
            &&& op == 0xF1 ==> step(s) == clc_spec(s)
            &&& op == 0xF3 ==> step(s) == cmc_spec(s)
            &&& op == 0xF4 ==> step(s) == cma_spec(s)
            &&& op == 0xF5 ==> step(s) == ral_spec(s)
            &&& op == 0xF6 ==> step(s) == rar_spec(s)
            &&& op == 0xF7 ==> step(s) == tcc_spec(s)
            &&& op == 0xF9 ==> step(s) == tcs_spec(s)
            &&& op == 0xFA ==> step(s) == stc_spec(s)
            &&& op == 0xFC ==> step(s) == kbp_spec(s)
            &&& op == 0xFD ==> step(s) == dcl_spec(s)
            &&& op >> 4 == 0 ==> step(s) == nop_spec(s)
            &&& op >> 4 == 4 ==> step(s) == jun_spec(s, op, next)
            &&& op >> 4 == 5 ==> step(s) == jms_spec(s, op, next)
            &&& op >> 4 == 8 ==> step(s) == add_spec(s, op)
            &&& op >> 4 == 9 ==> step(s) == sub_spec(s, op)
            &&& op >> 4 == 0xC ==> step(s) == bbl_spec(s, op)
            &&& op == 0xE0 ==> step(s) == wrm_spec(s)
            &&& op == 0xE1 ==> step(s) == wmp_spec(s)
            &&& op == 0xE2 ==> step(s) == wrr_spec(s)
            &&& op == 0xE3 ==> step(s) is None
            &&& 0xE4 <= op <= 0xE7 ==> step(s) == wrn_spec(s, op - 0xE4)
            &&& op == 0xE8 ==> step(s) == sbm_spec(s)
            &&& op == 0xE9 ==> step(s) == rdm_spec(s)
            &&& op == 0xEA ==> step(s) == rdr_spec(s)
            &&& op == 0xEB ==> step(s) == adm_spec(s)
            &&& 0xEC <= op ==> op < 0xF0 ==> step(s) == rdn_spec(s, op - 0xEC)
            &&& op == 0xF2 ==> step(s) == iac_spec(s)
            &&& op == 0xF8 ==> step(s) == dac_spec(s)
            &&& op == 0xFB ==> step(s) == daa_spec(s)
            &&& op == 0xFE || op == 0xFF ==> step(s) is None
        }),
{
    reveal(step);
    let op = opcode(s);
    lemma_byte_fields(op);
    assert(op >> 4 == op / 16) by (bit_vector);
}

} // verus!
