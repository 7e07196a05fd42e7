//! The mathematical model of the 4004 machine state and of what one
//! instruction does to it.
//!
//! The machine has 4-bit index registers and accumulator, a carry bit and a
//! 12-bit program counter that addresses 4096 ROM words in 16 pages of 256.
//! Instructions are fetched at the program counter, which wraps from the
//! last ROM word to the first.
//!
//! Arithmetic on the accumulator wraps at 8 bits before its result is
//! tested against 15, so ADD, SUB, IAC, DAC, ADM and SBM always complete.
//!
//! Every instruction is modelled as a partial function: `None` marks the
//! inputs on which the emulator cannot complete it: the opcodes it does not
//! implement (WPM `0xE3`, and `0xFE`, `0xFF`), and JMS or BBL with a stack
//! pointer past the three-level stack (which no valid state has, see
//! [`valid`]).
//!
//! DCL selects the RAM bank. The RAM address that SRC sets selects, in its
//! high two bits, a RAM chip (for its output port); in its high nibble, a RAM
//! register of the bank (for its four status characters) and a ROM chip (for
//! its I/O lines); and as a whole, a RAM data character of the bank. The RAM
//! holds four banks; bank numbers are taken modulo 4. RAM characters and I/O
//! lines are read as 4-bit values.
use vstd::prelude::*;

verus! {

/// Abstract value of a [`crate::i4004emu::CPU`]: arrays become sequences.
pub struct CpuState {
    pub ixr: Seq<u8>,
    pub rom: Seq<u8>,
    pub rom_io: Seq<u8>,
    pub rom_page: u8,
    pub ram_d: Seq<u8>,
    pub ram_s: Seq<u8>,
    pub ram_o: Seq<u8>,
    pub ram_bank: u8,
    pub ram_addr: u8,
    pub pc: u16,
    pub stack: Seq<u16>,
    pub stack_ptr: u8,
    pub acc: u8,
    pub carry: u8,
    pub test: u8,
    pub cycle: int,
}

impl CpuState {
    /// The sequences have the lengths of the machine's arrays.
    pub open spec fn wf(self) -> bool {
        &&& self.ixr.len() == 16
        &&& self.rom.len() == 4096
        &&& self.rom_io.len() == 16
        &&& self.ram_d.len() == 1024
        &&& self.ram_s.len() == 256
        &&& self.ram_o.len() == 8
        &&& self.stack.len() == 3
    }
}

/// The register values the 4004 can hold: 4-bit index registers and
/// accumulator, a carry bit, a 12-bit program counter, and a stack pointer
/// inside the three-level stack.
pub open spec fn valid(s: CpuState) -> bool {
    &&& s.wf()
    &&& forall|i: int| 0 <= i < 16 ==> #[trigger] s.ixr[i] <= 15
    &&& s.acc <= 15
    &&& s.carry <= 1
    &&& s.pc < 4096
    &&& s.stack_ptr < 3
}

/// The 12-bit address `n` words past `pc`, wrapping at the end of ROM.
pub open spec fn pc_plus(pc: u16, n: int) -> u16 {
    ((pc + n) % 4096) as u16
}

/// `s` with the program counter moved forward by `n` words.
pub open spec fn advance(s: CpuState, n: int) -> CpuState {
    CpuState { pc: pc_plus(s.pc, n), ..s }
}

/// The first address of the ROM page that holds the word `n` past `pc`:
/// the page that in-page jumps and FIN address (the page of the next
/// instruction).
pub open spec fn page_base(pc: u16, n: int) -> int {
    (pc_plus(pc, n) / 256) * 256
}

/// Low nibble of a byte: the register `RRRR` or the data `DDDD` of an instruction.
pub open spec fn low_nibble(b: u8) -> int {
    (b % 16) as int
}

/// High nibble of a byte.
pub open spec fn high_nibble(b: u8) -> int {
    (b / 16) as int
}

/// Bit `k` of a byte.
pub open spec fn bit(b: u8, k: int) -> bool {
    (b as int / pow2(k)) % 2 == 1
}

/// Powers of two up to 8, for `bit`.
pub open spec fn pow2(k: int) -> int {
    if k == 0 {
        1
    } else if k == 1 {
        2
    } else if k == 2 {
        4
    } else {
        8
    }
}

/// The even register of the pair `PPP` named by an instruction byte.
pub open spec fn pair_base(b: u8) -> int {
    (b % 16) - (b % 2)
}

/// The 8-bit value held by the register pair starting at `p`: the even
/// register is the high nibble.
pub open spec fn pair_value(s: CpuState, p: int) -> int {
    (s.ixr[p] % 16) * 16 + s.ixr[p + 1] % 16
}

/// `s` with the register pair starting at `p` loaded from the two nibbles of `byte`.
pub open spec fn load_pair(s: CpuState, p: int, byte: u8) -> CpuState {
    CpuState {
        ixr: s.ixr.update(p, (byte / 16) as u8).update(p + 1, (byte % 16) as u8),
        ..s
    }
}

/// The value a register increment leaves behind: one more, wrapping from 15 (or above) to 0.
pub open spec fn incremented_register(v: u8) -> u8 {
    if v < 15 {
        (v + 1) as u8
    } else {
        0
    }
}

/// NOP: move on one word.
pub open spec fn nop_spec(s: CpuState) -> Option<CpuState> {
    Some(advance(s, 1))
}

/// JCN: the condition is "accumulator is zero" (bit 2), "carry is 1" (bit 1)
/// or "test pin is zero" (bit 0), any of those selected; bit 3 inverts it.
/// When it holds, jump to the second word within the page of the next
/// instruction; otherwise skip both words.
pub open spec fn jcn_spec(s: CpuState, w0: u8, w1: u8) -> Option<CpuState> {
    let condition = (bit(w0, 2) && s.acc == 0) || (bit(w0, 1) && s.carry == 1) || (bit(w0, 0)
        && s.test == 0);
    if condition != bit(w0, 3) {
        Some(CpuState { pc: (page_base(s.pc, 2) + w1) as u16, ..s })
    } else {
        Some(advance(s, 2))
    }
}

/// FIM: load the second word into a register pair.
pub open spec fn fim_spec(s: CpuState, w0: u8, w1: u8) -> Option<CpuState> {
    Some(advance(load_pair(s, pair_base(w0), w1), 2))
}

/// SRC: send the 8-bit value of a register pair to the RAM address register.
pub open spec fn src_spec(s: CpuState, w: u8) -> Option<CpuState> {
    Some(advance(CpuState { ram_addr: pair_value(s, pair_base(w)) as u8, ..s }, 1))
}

/// FIN: load the ROM word that register pair 0 addresses, within the page
/// of the next instruction, into a register pair.
pub open spec fn fin_spec(s: CpuState, w: u8) -> Option<CpuState> {
    let addr = page_base(s.pc, 1) + pair_value(s, 0);
    Some(advance(load_pair(s, pair_base(w), s.rom[addr]), 1))
}

/// JIN: jump to the address a register pair holds, within the page of the next instruction.
pub open spec fn jin_spec(s: CpuState, w: u8) -> Option<CpuState> {
    Some(CpuState { pc: (page_base(s.pc, 1) + pair_value(s, pair_base(w))) as u16, ..s })
}

/// The 16-bit little-endian word made of two bytes.
pub open spec fn word(w0: u8, w1: u8) -> int {
    w0 + 256 * w1
}

/// JUN: jump to the 12-bit address in the two words.
pub open spec fn jun_spec(s: CpuState, w0: u8, w1: u8) -> Option<CpuState> {
    Some(CpuState { pc: (word(w0, w1) % 4096) as u16, ..s })
}

/// JMS: save the program counter in the stack slot at the stack pointer,
/// move the pointer up one level (from the top level back to the bottom),
/// and jump to the 12-bit address in the two words.
pub open spec fn jms_spec(s: CpuState, w0: u8, w1: u8) -> Option<CpuState> {
    if s.stack_ptr < 3 {
        Some(
            CpuState {
                stack: s.stack.update(s.stack_ptr as int, s.pc),
                stack_ptr: if s.stack_ptr == 2 { 0 } else { (s.stack_ptr + 1) as u8 },
                pc: (word(w0, w1) % 4096) as u16,
                ..s
            },
        )
    } else {
        None
    }
}

/// INC: increment a register.
pub open spec fn inc_spec(s: CpuState, w: u8) -> Option<CpuState> {
    let r = low_nibble(w);
    Some(advance(CpuState { ixr: s.ixr.update(r, incremented_register(s.ixr[r])), ..s }, 1))
}

/// ISZ: increment a register and jump to the address in the second word.
pub open spec fn isz_spec(s: CpuState, w0: u8, w1: u8) -> Option<CpuState> {
    let r = low_nibble(w0);
    Some(CpuState { ixr: s.ixr.update(r, incremented_register(s.ixr[r])), pc: w1 as u16, ..s })
}

/// The 8-bit wrapped sum of the accumulator and `x`.
pub open spec fn wrapped_sum(acc: u8, x: int) -> int {
    (acc + x) % 256
}

/// ADD: add a register to the accumulator (wrapping at 8 bits); a sum above
/// 15 clears the accumulator and sets carry.
pub open spec fn add_spec(s: CpuState, w: u8) -> Option<CpuState> {
    let sum = wrapped_sum(s.acc, s.ixr[low_nibble(w)] as int);
    if sum <= 15 {
        Some(advance(CpuState { acc: sum as u8, carry: 0, ..s }, 1))
    } else {
        Some(advance(CpuState { acc: 0, carry: 1, ..s }, 1))
    }
}

/// SUB: subtract a register from the accumulator (wrapping at 8 bits); a
/// difference in 1..=15 is kept with carry set, anything else clears both.
pub open spec fn sub_spec(s: CpuState, w: u8) -> Option<CpuState> {
    let diff = wrapped_sum(s.acc, -(s.ixr[low_nibble(w)] as int));
    if 0 < diff <= 15 {
        Some(advance(CpuState { acc: diff as u8, carry: 1, ..s }, 1))
    } else {
        Some(advance(CpuState { acc: 0, carry: 0, ..s }, 1))
    }
}

/// LD: load a register into the accumulator.
pub open spec fn ld_spec(s: CpuState, w: u8) -> Option<CpuState> {
    Some(advance(CpuState { acc: s.ixr[low_nibble(w)], ..s }, 1))
}

/// XCH: exchange a register with the accumulator.
pub open spec fn xch_spec(s: CpuState, w: u8) -> Option<CpuState> {
    let r = low_nibble(w);
    Some(advance(CpuState { ixr: s.ixr.update(r, s.acc), acc: s.ixr[r], ..s }, 1))
}

/// BBL: move the stack pointer down one level (not below 0), load the
/// saved address from that slot, move one word past it, and load the data
/// nibble into the accumulator.
pub open spec fn bbl_spec(s: CpuState, w: u8) -> Option<CpuState> {
    if s.stack_ptr < 3 {
        let sp: u8 = if s.stack_ptr > 0 { (s.stack_ptr - 1) as u8 } else { 0 };
        Some(
            CpuState {
                acc: low_nibble(w) as u8,
                stack_ptr: sp,
                pc: pc_plus(s.stack[sp as int], 1),
                ..s
            },
        )
    } else {
        None
    }
}

/// LDM: load the data nibble into the accumulator.
pub open spec fn ldm_spec(s: CpuState, w: u8) -> Option<CpuState> {
    Some(advance(CpuState { acc: low_nibble(w) as u8, ..s }, 1))
}

/// CLB: clear accumulator and carry.
pub open spec fn clb_spec(s: CpuState) -> Option<CpuState> {
    Some(advance(CpuState { acc: 0, carry: 0, ..s }, 1))
}

/// CLC: clear carry.
pub open spec fn clc_spec(s: CpuState) -> Option<CpuState> {
    Some(advance(CpuState { carry: 0, ..s }, 1))
}

/// IAC: increment the accumulator (wrapping at 8 bits); a result above 15
/// clears it and sets carry.
pub open spec fn iac_spec(s: CpuState) -> Option<CpuState> {
    let sum = wrapped_sum(s.acc, 1);
    if sum <= 15 {
        Some(advance(CpuState { acc: sum as u8, carry: 0, ..s }, 1))
    } else {
        Some(advance(CpuState { acc: 0, carry: 1, ..s }, 1))
    }
}

/// CMC: complement the carry bit.
pub open spec fn cmc_spec(s: CpuState) -> Option<CpuState> {
    Some(advance(CpuState { carry: if s.carry == 0 { 1 } else { 0 }, ..s }, 1))
}

/// CMA: complement the 4-bit accumulator.
pub open spec fn cma_spec(s: CpuState) -> Option<CpuState> {
    Some(advance(CpuState { acc: (15 - s.acc % 16) as u8, ..s }, 1))
}

/// RAL: rotate accumulator and carry left: carry into bit 0, bit 3 into carry.
pub open spec fn ral_spec(s: CpuState) -> Option<CpuState> {
    Some(
        advance(
            CpuState {
                acc: ((s.acc << 1u8) & 0xFu8) | s.carry,
                carry: (s.acc & 0x8u8) >> 3u8,
                ..s
            },
            1,
        ),
    )
}

/// RAR: rotate accumulator and carry right: carry into bit 3, bit 0 into carry.
pub open spec fn rar_spec(s: CpuState) -> Option<CpuState> {
    Some(
        advance(
            CpuState {
                acc: ((s.acc >> 1u8) & 0xFu8) | (s.carry << 3u8),
                carry: s.acc & 0x1u8,
                ..s
            },
            1,
        ),
    )
}

/// TCC: move carry into the accumulator and clear carry.
pub open spec fn tcc_spec(s: CpuState) -> Option<CpuState> {
    Some(advance(CpuState { acc: s.carry, carry: 0, ..s }, 1))
}

/// DAC: decrement the accumulator (wrapping at 8 bits), setting carry when
/// the result is at most 15 and clearing both otherwise (so 0 gives 0).
pub open spec fn dac_spec(s: CpuState) -> Option<CpuState> {
    let diff = wrapped_sum(s.acc, -1);
    if diff <= 15 {
        Some(advance(CpuState { acc: diff as u8, carry: 1, ..s }, 1))
    } else {
        Some(advance(CpuState { acc: 0, carry: 0, ..s }, 1))
    }
}

/// TCS: accumulator 9 when carry is 1, else 10; clear carry.
pub open spec fn tcs_spec(s: CpuState) -> Option<CpuState> {
    Some(advance(CpuState { acc: if s.carry == 1 { 9 } else { 10 }, carry: 0, ..s }, 1))
}

/// STC: set carry.
pub open spec fn stc_spec(s: CpuState) -> Option<CpuState> {
    Some(advance(CpuState { carry: 1, ..s }, 1))
}

/// DAA: when the accumulator is above 9 or carry is 1, add 6; a sum above
/// 15 keeps its low nibble and sets carry, a smaller one leaves carry as it
/// is. This keeps the accumulator 4-bit, as the 4004's DAA does, where a
/// plain addition of 6 would leave 16..=21 and an accumulator above 15
/// would be cleared.
pub open spec fn daa_spec(s: CpuState) -> Option<CpuState> {
    let sum = s.acc + 6;
    if s.acc > 9 || s.carry == 1 {
        Some(
            advance(
                CpuState {
                    acc: (sum % 16) as u8,
                    carry: if sum > 15 { 1 } else { s.carry },
                    ..s
                },
                1,
            ),
        )
    } else {
        Some(advance(s, 1))
    }
}

/// The keyboard code KBP gives for an accumulator value.
pub open spec fn kbp_code(acc: u8) -> u8 {
    if acc == 0 {
        0
    } else if acc == 1 {
        1
    } else if acc == 2 {
        2
    } else if acc == 4 {
        3
    } else if acc == 8 {
        4
    } else {
        15
    }
}

/// KBP: replace the accumulator by its keyboard code, and move on one word
/// (instructions are fetched at the program counter, so each one moves it on).
pub open spec fn kbp_spec(s: CpuState) -> Option<CpuState> {
    Some(advance(CpuState { acc: kbp_code(s.acc), ..s }, 1))
}

/// DCL: select the RAM bank given by the low three bits of the accumulator.
pub open spec fn dcl_spec(s: CpuState) -> Option<CpuState> {
    Some(advance(CpuState { ram_bank: s.acc % 8, ..s }, 1))
}

/// The RAM status character `n` (0..=3) of the RAM register that the RAM
/// address (its high nibble) selects in the current bank.
pub open spec fn status_index(s: CpuState, n: int) -> int {
    (s.ram_bank % 4) * 64 + (s.ram_addr / 16) * 4 + n
}

/// The RAM data character that the RAM address selects in the current bank.
pub open spec fn ram_index(s: CpuState) -> int {
    (s.ram_bank % 4) * 256 + s.ram_addr
}

/// The selected RAM data character, as a 4-bit value.
pub open spec fn ram_character(s: CpuState) -> u8 {
    (s.ram_d[ram_index(s)] % 16) as u8
}

/// WRM: write the accumulator to the selected RAM data character.
pub open spec fn wrm_spec(s: CpuState) -> Option<CpuState> {
    Some(advance(CpuState { ram_d: s.ram_d.update(ram_index(s), s.acc), ..s }, 1))
}

/// WMP: write the accumulator to the output port of the RAM chip that the
/// RAM address selects (its two high bits).
pub open spec fn wmp_spec(s: CpuState) -> Option<CpuState> {
    Some(advance(CpuState { ram_o: s.ram_o.update((s.ram_addr / 64) as int, s.acc), ..s }, 1))
}

/// WRR: write the accumulator to the I/O lines of the ROM chip that the
/// RAM address selects (its high nibble).
pub open spec fn wrr_spec(s: CpuState) -> Option<CpuState> {
    Some(advance(CpuState { rom_io: s.rom_io.update((s.ram_addr / 16) as int, s.acc), ..s }, 1))
}

/// WR0..WR3: write the accumulator to status character `n`.
pub open spec fn wrn_spec(s: CpuState, n: int) -> Option<CpuState> {
    Some(advance(CpuState { ram_s: s.ram_s.update(status_index(s, n), s.acc), ..s }, 1))
}

/// SBM: as SUB, with the RAM data character in place of a register.
pub open spec fn sbm_spec(s: CpuState) -> Option<CpuState> {
    let diff = wrapped_sum(s.acc, -(ram_character(s) as int));
    if 0 < diff <= 15 {
        Some(advance(CpuState { acc: diff as u8, carry: 1, ..s }, 1))
    } else {
        Some(advance(CpuState { acc: 0, carry: 0, ..s }, 1))
    }
}

/// RDM: load the RAM data character into the accumulator.
pub open spec fn rdm_spec(s: CpuState) -> Option<CpuState> {
    Some(advance(CpuState { acc: ram_character(s), ..s }, 1))
}

/// RDR: load the I/O lines of the selected ROM chip into the accumulator.
pub open spec fn rdr_spec(s: CpuState) -> Option<CpuState> {
    Some(advance(CpuState { acc: (s.rom_io[(s.ram_addr / 16) as int] % 16) as u8, ..s }, 1))
}

/// ADM: as ADD, with the RAM data character in place of a register.
pub open spec fn adm_spec(s: CpuState) -> Option<CpuState> {
    let sum = wrapped_sum(s.acc, ram_character(s) as int);
    if sum <= 15 {
        Some(advance(CpuState { acc: sum as u8, carry: 0, ..s }, 1))
    } else {
        Some(advance(CpuState { acc: 0, carry: 1, ..s }, 1))
    }
}

/// RD0..RD3: load status character `n` into the accumulator.
pub open spec fn rdn_spec(s: CpuState, n: int) -> Option<CpuState> {
    Some(advance(CpuState { acc: (s.ram_s[status_index(s, n)] % 16) as u8, ..s }, 1))
}

/// The effect of an I/O and RAM instruction `0xE?`; `None` for WPM (`0xE3`),
/// which the emulator does not implement.
pub open spec fn io_group_spec(s: CpuState, op: u8) -> Option<CpuState> {
    let l = low_nibble(op);
    if l == 0x0 {
        wrm_spec(s)
    } else if l == 0x1 {
        wmp_spec(s)
    } else if l == 0x2 {
        wrr_spec(s)
    } else if l == 0x3 {
        None
    } else if l <= 0x7 {
        wrn_spec(s, l - 4)
    } else if l == 0x8 {
        sbm_spec(s)
    } else if l == 0x9 {
        rdm_spec(s)
    } else if l == 0xA {
        rdr_spec(s)
    } else if l == 0xB {
        adm_spec(s)
    } else {
        rdn_spec(s, l - 12)
    }
}

/// Whether an opcode takes two ROM words (JCN, FIM, JUN, JMS, ISZ).
pub open spec fn is_two_word(op: u8) -> bool {
    let g = high_nibble(op);
    g == 1 || (g == 2 && op % 2 == 0) || g == 4 || g == 5 || g == 7
}

/// How many ROM words an instruction with this opcode takes.
pub open spec fn instruction_width(op: u8) -> int {
    if is_two_word(op) {
        2
    } else {
        1
    }
}

/// The effect of a two-word instruction.
pub open spec fn two_word_spec(s: CpuState, op: u8, next: u8) -> Option<CpuState> {
    let g = high_nibble(op);
    if g == 1 {
        jcn_spec(s, op, next)
    } else if g == 2 {
        fim_spec(s, op, next)
    } else if g == 4 {
        jun_spec(s, op, next)
    } else if g == 5 {
        jms_spec(s, op, next)
    } else {
        isz_spec(s, op, next)
    }
}

/// The effect of an accumulator-group instruction `0xF?`.
pub open spec fn accumulator_group_spec(s: CpuState, op: u8) -> Option<CpuState> {
    let l = low_nibble(op);
    if l == 0x0 {
        clb_spec(s)
    } else if l == 0x1 {
        clc_spec(s)
    } else if l == 0x2 {
        iac_spec(s)
    } else if l == 0x3 {
        cmc_spec(s)
    } else if l == 0x4 {
        cma_spec(s)
    } else if l == 0x5 {
        ral_spec(s)
    } else if l == 0x6 {
        rar_spec(s)
    } else if l == 0x7 {
        tcc_spec(s)
    } else if l == 0x8 {
        dac_spec(s)
    } else if l == 0x9 {
        tcs_spec(s)
    } else if l == 0xA {
        stc_spec(s)
    } else if l == 0xB {
        daa_spec(s)
    } else if l == 0xC {
        kbp_spec(s)
    } else if l == 0xD {
        dcl_spec(s)
    } else {
        None
    }
}

/// The effect of a one-word instruction; `None` for the opcodes the
/// emulator does not implement (`0xE3`, `0xFE`, `0xFF`).
pub open spec fn one_word_spec(s: CpuState, op: u8) -> Option<CpuState> {
    let g = high_nibble(op);
    if g == 0x0 {
        nop_spec(s)
    } else if g == 0x2 {
        src_spec(s, op)
    } else if g == 0x3 {
        if op % 2 == 0 {
            fin_spec(s, op)
        } else {
            jin_spec(s, op)
        }
    } else if g == 0x6 {
        inc_spec(s, op)
    } else if g == 0x8 {
        add_spec(s, op)
    } else if g == 0x9 {
        sub_spec(s, op)
    } else if g == 0xA {
        ld_spec(s, op)
    } else if g == 0xB {
        xch_spec(s, op)
    } else if g == 0xC {
        bbl_spec(s, op)
    } else if g == 0xD {
        ldm_spec(s, op)
    } else if g == 0xE {
        io_group_spec(s, op)
    } else if g == 0xF {
        accumulator_group_spec(s, op)
    } else {
        None
    }
}

/// The opcode at the program counter.
pub open spec fn opcode(s: CpuState) -> u8 {
    s.rom[s.pc as int]
}

/// The state after the instruction at the program counter (its second word,
/// if any, at the next address, wrapping at the end of ROM), or `None` when
/// it cannot complete. The cycle count is left as it is.
#[verifier::opaque]
pub open spec fn step(s: CpuState) -> Option<CpuState> {
    if s.pc < 4096 {
        let op = opcode(s);
        if is_two_word(op) {
            two_word_spec(s, op, s.rom[pc_plus(s.pc, 1) as int])
        } else {
            one_word_spec(s, op)
        }
    } else {
        None
    }
}

/// Runs instructions until the cycle count reaches `max`; each instruction
/// adds its number of words to the count. `Err(t)` is the state `t` before
/// the instruction that could not complete.
pub open spec fn run_from(s: CpuState, max: int) -> Result<CpuState, CpuState>
    decreases max + 1 - s.cycle,
{
    if s.cycle >= max {
        Ok(s)
    } else {
        match step(s) {
            Some(t) => run_from(CpuState { cycle: s.cycle + instruction_width(opcode(s)), ..t }, max),
            None => Err(s),
        }
    }
}

/// The byte an instruction prints: FIM prints its second word.
pub open spec fn instruction_output(s: CpuState) -> Seq<u8> {
    if s.pc < 4096 && high_nibble(opcode(s)) == 2 && opcode(s) % 2 == 0 {
        seq![s.rom[pc_plus(s.pc, 1) as int]]
    } else {
        Seq::empty()
    }
}

/// The bytes a run prints, in order, up to its end or to the instruction that
/// could not complete.
pub open spec fn run_output(s: CpuState, max: int) -> Seq<u8>
    decreases max + 1 - s.cycle,
{
    if s.cycle >= max {
        Seq::empty()
    } else {
        match step(s) {
            Some(t) => instruction_output(s) + run_output(
                CpuState { cycle: s.cycle + instruction_width(opcode(s)), ..t },
                max,
            ),
            None => Seq::empty(),
        }
    }
}

/// The bytes `CPU::execute` prints.
pub open spec fn execution_output(s: CpuState, max: int) -> Seq<u8> {
    run_output(CpuState { pc: 0, cycle: 0, ..s }, max)
}

/// What `CPU::execute` computes: program counter and cycle count are reset
/// to 0, then instructions run until the cycle count reaches `max`.
pub open spec fn execution(s: CpuState, max: int) -> Result<CpuState, CpuState> {
    run_from(CpuState { pc: 0, cycle: 0, ..s }, max)
}

} // verus!
