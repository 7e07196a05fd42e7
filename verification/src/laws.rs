//! Properties of the instruction set model that hold for every state.
use vstd::prelude::*;
use crate::machine::{
    accumulator_group_spec, io_group_spec, one_word_spec, two_word_spec, src_spec, fin_spec,
    jin_spec, add_spec, sub_spec, ld_spec, ldm_spec, nop_spec,
    advance, bbl_spec, cma_spec, cmc_spec, CpuState, execution, inc_spec, instruction_width,
    jms_spec, low_nibble, opcode, pair_base, pc_plus, ral_spec, rar_spec, run_from, step, valid,
    xch_spec,
};

verus! {

/// What no instruction changes: the ROM, the ROM page and the test pin; the array lengths; and register values the 4004 can hold stay
/// such values.
pub open spec fn keeps_memory(before: CpuState, after: CpuState) -> bool {
    &&& after.wf()
    &&& after.rom == before.rom
    &&& after.rom_page == before.rom_page
    &&& after.test == before.test
    &&& valid(before) ==> valid(after)
}

/// The state a run ends in, whether it finished or stopped at a fault.
pub open spec fn final_state(outcome: Result<CpuState, CpuState>) -> CpuState {
    match outcome {
        Ok(t) => t,
        Err(t) => t,
    }
}

/// A register pair named by an instruction byte lies inside the 16 registers.
proof fn lemma_pair_in_range(b: u8)
    ensures
        0 <= pair_base(b) <= 14,
        pair_base(b) % 2 == 0,
{
}

/// The rotations keep a 4-bit accumulator and a carry bit.
proof fn lemma_rotation_bounds(a: u8, c: u8)
    by (bit_vector)
    requires
        a <= 15,
        c <= 1,
    ensures
        ((a << 1) & 0xF) | c <= 15,
        (a & 0x8) >> 3 <= 1,
        ((a >> 1) & 0xF) | (c << 3) <= 15,
        a & 0x1 <= 1,
{
}

proof fn lemma_two_word_keeps_memory(s: CpuState, op: u8, next: u8)
    requires
        s.wf(),
        s.pc < 4096,
    ensures
        two_word_spec(s, op, next) matches Some(t) ==> keeps_memory(s, t),
{
    lemma_pair_in_range(op);
}

proof fn lemma_accumulator_group_keeps_memory(s: CpuState, op: u8)
    requires
        s.wf(),
        s.pc < 4096,
    ensures
        accumulator_group_spec(s, op) matches Some(t) ==> keeps_memory(s, t),
{
    if valid(s) {
        lemma_rotation_bounds(s.acc, s.carry);
    }
}

proof fn lemma_register_ops_keep_memory(s: CpuState, op: u8)
    requires
        s.wf(),
        s.pc < 4096,
    ensures
        src_spec(s, op) matches Some(t) ==> keeps_memory(s, t),
        fin_spec(s, op) matches Some(t) ==> keeps_memory(s, t),
        jin_spec(s, op) matches Some(t) ==> keeps_memory(s, t),
        inc_spec(s, op) matches Some(t) ==> keeps_memory(s, t),
        add_spec(s, op) matches Some(t) ==> keeps_memory(s, t),
        sub_spec(s, op) matches Some(t) ==> keeps_memory(s, t),
        ld_spec(s, op) matches Some(t) ==> keeps_memory(s, t),
        xch_spec(s, op) matches Some(t) ==> keeps_memory(s, t),
        bbl_spec(s, op) matches Some(t) ==> keeps_memory(s, t),
        ldm_spec(s, op) matches Some(t) ==> keeps_memory(s, t),
        nop_spec(s) matches Some(t) ==> keeps_memory(s, t),
{
    lemma_pair_in_range(op);
}

#[verifier::spinoff_prover]
proof fn lemma_one_word_keeps_memory(s: CpuState, op: u8)
    requires
        s.wf(),
        s.pc < 4096,
    ensures
        one_word_spec(s, op) matches Some(t) ==> keeps_memory(s, t),
{
    lemma_register_ops_keep_memory(s, op);
    lemma_accumulator_group_keeps_memory(s, op);
    lemma_io_group_keeps_memory(s, op);
}

proof fn lemma_io_group_keeps_memory(s: CpuState, op: u8)
    requires
        s.wf(),
        s.pc < 4096,
    ensures
        io_group_spec(s, op) matches Some(t) ==> keeps_memory(s, t),
{
}

/// Every instruction that completes keeps ROM, ROM page and test pin as they
/// were, and keeps 4-bit registers and
/// accumulator, a carry bit, a 12-bit program counter and a stack pointer
/// inside the stack.
pub proof fn law_step_keeps_memory(s: CpuState)
    requires
        s.wf(),
    ensures
        step(s) matches Some(t) ==> keeps_memory(s, t),
{
    reveal(step);
    if s.pc < 4096 {
        lemma_two_word_keeps_memory(s, opcode(s), s.rom[pc_plus(s.pc, 1) as int]);
        lemma_one_word_keeps_memory(s, opcode(s));
    }
}

proof fn lemma_run_keeps_memory(s: CpuState, max: int)
    requires
        s.wf(),
    ensures
        keeps_memory(s, final_state(run_from(s, max))),
    decreases max + 1 - s.cycle,
{
    if s.cycle < max {
        law_step_keeps_memory(s);
        if let Some(t) = step(s) {
            let u = CpuState { cycle: s.cycle + instruction_width(opcode(s)), ..t };
            lemma_run_keeps_memory(u, max);
        }
    }
}

/// `CPU::execute` and `CPU::try_execute` never change ROM, ROM page or
/// test pin, and a run from registers the 4004 can hold
/// (4-bit registers and accumulator, a carry bit, a stack pointer inside
/// the stack) ends with such registers and a 12-bit program counter.
pub proof fn law_execution_keeps_memory(s: CpuState, max: int)
    requires
        s.wf(),
    ensures
        keeps_memory(CpuState { pc: 0, ..s }, final_state(execution(s, max))),
{
    lemma_run_keeps_memory(CpuState { pc: 0, cycle: 0, ..s }, max);
}

/// A run from registers the 4004 can hold (4-bit index registers and
/// accumulator, a carry bit, a 12-bit program counter, a stack pointer
/// inside the stack) ends, finished or stopped at a fault, with such registers.
pub proof fn law_execution_keeps_4004_registers(s: CpuState, max: int)
    requires
        valid(s),
    ensures
        valid(final_state(execution(s, max))),
{
    law_execution_keeps_memory(s, max);
}

proof fn lemma_run_fault_is_final(s: CpuState, m1: int, m2: int)
    requires
        m1 <= m2,
        run_from(s, m1) is Err,
    ensures
        run_from(s, m2) == run_from(s, m1),
    decreases m1 + 1 - s.cycle,
{
    if let Some(t) = step(s) {
        let u = CpuState { cycle: s.cycle + instruction_width(opcode(s)), ..t };
        lemma_run_fault_is_final(u, m1, m2);
    }
}

/// A run that stops at a fault stops at the same fault, in the same state,
/// with any larger cycle limit.
pub proof fn law_fault_is_final(s: CpuState, m1: int, m2: int)
    requires
        m1 <= m2,
        execution(s, m1) is Err,
    ensures
        execution(s, m2) == execution(s, m1),
{
    lemma_run_fault_is_final(CpuState { pc: 0, cycle: 0, ..s }, m1, m2);
}

proof fn lemma_run_prefix_completes(s: CpuState, m1: int, m2: int)
    requires
        m1 <= m2,
        run_from(s, m2) is Ok,
    ensures
        run_from(s, m1) is Ok,
    decreases m1 + 1 - s.cycle,
{
    if s.cycle < m1 {
        if let Some(t) = step(s) {
            let u = CpuState { cycle: s.cycle + instruction_width(opcode(s)), ..t };
            lemma_run_prefix_completes(u, m1, m2);
        }
    }
}

/// A run that completes with a cycle limit completes with every smaller limit.
pub proof fn law_shorter_run_completes(s: CpuState, m1: int, m2: int)
    requires
        m1 <= m2,
        execution(s, m2) is Ok,
    ensures
        execution(s, m1) is Ok,
{
    lemma_run_prefix_completes(CpuState { pc: 0, cycle: 0, ..s }, m1, m2);
}

/// A run does not depend on the program counter or cycle count it starts
/// with: both are reset to 0 first.
pub proof fn law_start_is_reset(s: CpuState, pc: u16, cycle: int, max: int)
    ensures
        execution(CpuState { pc: pc, cycle: cycle, ..s }, max) == execution(s, max),
{
    assert(CpuState { pc: 0, cycle: 0, ..CpuState { pc: pc, cycle: cycle, ..s } } == CpuState {
        pc: 0,
        cycle: 0,
        ..s
    });
}

/// XCH with the same register twice restores register and accumulator;
/// only the program counter has moved on by two.
pub proof fn law_xch_twice_restores(s: CpuState, w: u8)
    requires
        s.wf(),
        s.pc < 4096,
    ensures
        xch_spec(s, w) matches Some(t) && xch_spec(t, w) == Some(advance(s, 2)),
{
    let t = xch_spec(s, w)->0;
    assert(t.ixr.update(low_nibble(w), t.acc) =~= s.ixr);
}

/// CMA twice restores a 4-bit accumulator, CMC twice a carry bit; only the
/// program counter has moved on by two.
pub proof fn law_complement_twice_restores(s: CpuState)
    requires
        s.acc <= 15,
        s.carry <= 1,
        s.pc < 4096,
    ensures
        cma_spec(s) matches Some(t) && cma_spec(t) == Some(advance(s, 2)),
        cmc_spec(s) matches Some(t) && cmc_spec(t) == Some(advance(s, 2)),
{
}

/// RAL followed by RAR restores a 4-bit accumulator and a carry bit; only
/// the program counter has moved on by two.
pub proof fn law_ral_then_rar_restores(s: CpuState)
    requires
        s.acc <= 15,
        s.carry <= 1,
        s.pc < 4096,
    ensures
        ral_spec(s) matches Some(t) && rar_spec(t) == Some(advance(s, 2)),
{
    let a = s.acc;
    let c = s.carry;
    assert(((((a << 1) & 0xF) | c) >> 1) & 0xF | (((a & 0x8) >> 3) << 3) == a && (((a << 1)
        & 0xF) | c) & 0x1 == c) by (bit_vector)
        requires
            a <= 15,
            c <= 1,
    ;
}

/// `n` RAL instructions in a row.
pub open spec fn ral_times(s: CpuState, n: nat) -> CpuState
    decreases n,
{
    if n == 0 {
        s
    } else {
        ral_times(ral_spec(s)->0, (n - 1) as nat)
    }
}

/// Five RALs rotate the five bits of accumulator and carry back to where
/// they were; only the program counter has moved on by five.
#[verifier::spinoff_prover]
#[verifier::rlimit(40)]
pub proof fn law_five_rals_restore(s: CpuState)
    requires
        s.acc <= 15,
        s.carry <= 1,
        s.pc < 4096,
    ensures
        ral_times(s, 5) == advance(s, 5),
{
    reveal_with_fuel(ral_times, 6);
    let a0 = s.acc;
    let c0 = s.carry;
    let a1 = ((a0 << 1) & 0xF) | c0;
    let c1 = (a0 & 0x8) >> 3;
    let a2 = ((a1 << 1) & 0xF) | c1;
    let c2 = (a1 & 0x8) >> 3;
    let a3 = ((a2 << 1) & 0xF) | c2;
    let c3 = (a2 & 0x8) >> 3;
    let a4 = ((a3 << 1) & 0xF) | c3;
    let c4 = (a3 & 0x8) >> 3;
    let a5 = ((a4 << 1) & 0xF) | c4;
    let c5 = (a4 & 0x8) >> 3;
    let t1 = ral_spec(s)->0;
    let t2 = ral_spec(t1)->0;
    let t3 = ral_spec(t2)->0;
    let t4 = ral_spec(t3)->0;
    let t5 = ral_spec(t4)->0;
    assert(t1.acc == a1 && t1.carry == c1);
    assert(t2.acc == a2 && t2.carry == c2);
    assert(t3.acc == a3 && t3.carry == c3);
    assert(t4.acc == a4 && t4.carry == c4);
    assert(t5.acc == a5 && t5.carry == c5);
    assert(ral_times(s, 5) == t5);
    assert(a5 == a0 && c5 == c0) by (bit_vector)
        requires
            a0 <= 15,
            c0 <= 1,
            a1 == ((a0 << 1) & 0xF) | c0,
            c1 == (a0 & 0x8) >> 3,
            a2 == ((a1 << 1) & 0xF) | c1,
            c2 == (a1 & 0x8) >> 3,
            a3 == ((a2 << 1) & 0xF) | c2,
            c3 == (a2 & 0x8) >> 3,
            a4 == ((a3 << 1) & 0xF) | c3,
            c4 == (a3 & 0x8) >> 3,
            a5 == ((a4 << 1) & 0xF) | c4,
            c5 == (a4 & 0x8) >> 3,
    ;
}

/// `n` INC instructions on the same register in a row.
pub open spec fn inc_times(s: CpuState, w: u8, n: nat) -> CpuState
    decreases n,
{
    if n == 0 {
        s
    } else {
        inc_times(inc_spec(s, w)->0, w, (n - 1) as nat)
    }
}

#[verifier::spinoff_prover]
#[verifier::rlimit(40)]
proof fn lemma_inc_times(s: CpuState, w: u8, n: nat)
    requires
        s.wf(),
        s.ixr[low_nibble(w)] <= 15,
        s.pc < 4096,
    ensures
        inc_times(s, w, n) == (CpuState {
            ixr: s.ixr.update(low_nibble(w), ((s.ixr[low_nibble(w)] + n) % 16) as u8),
            pc: pc_plus(s.pc, n as int),
            ..s
        }),
    decreases n,
{
    let r = low_nibble(w);
    if n == 0 {
        assert(s.ixr.update(r, ((s.ixr[r] + n) % 16) as u8) =~= s.ixr);
    } else {
        let t = inc_spec(s, w)->0;
        lemma_inc_times(t, w, (n - 1) as nat);
        assert(t.ixr.update(r, ((t.ixr[r] + (n - 1)) % 16) as u8) =~= s.ixr.update(
            r,
            ((s.ixr[r] + n) % 16) as u8,
        ));
    }
}

/// Sixteen INCs of a 4-bit register bring it back to its value; only the
/// program counter has moved on by sixteen.
pub proof fn law_sixteen_incs_restore(s: CpuState, w: u8)
    requires
        s.wf(),
        s.ixr[low_nibble(w)] <= 15,
        s.pc < 4096,
    ensures
        inc_times(s, w, 16) == advance(s, 16),
{
    lemma_inc_times(s, w, 16);
    assert(s.ixr.update(low_nibble(w), ((s.ixr[low_nibble(w)] + 16) % 16) as u8) =~= s.ixr);
}

/// JMS followed by BBL returns one word past the address JMS saved, with
/// the stack pointer back where it was and the data nibble in the
/// accumulator; registers and carry are as they were.
pub proof fn law_jms_then_bbl_returns(s: CpuState, w0: u8, w1: u8, d: u8)
    requires
        s.wf(),
        s.stack_ptr < 2,
        s.pc < 4095,
    ensures
        jms_spec(s, w0, w1) matches Some(t) && bbl_spec(t, d) matches Some(u) && u.pc == s.pc + 1
            && u.stack_ptr == s.stack_ptr && u.acc == low_nibble(d) && u.ixr == s.ixr && u.carry
            == s.carry,
{
}

} // verus!
