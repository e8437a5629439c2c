//! The engine's general laws, each proved once and for all over the
//! transition functions of `isa`: condition-flag policy, ADD's
//! modular arithmetic, BRANCH's program-counter discipline, the
//! return address of JUMP-REGISTER, and HALT being the only way the
//! machine stops.

use crate::isa::KEYBOARD_STATUS_REGISTER;
use crate::isa::NEGATIVE;
use crate::isa::POSITIVE;
use crate::isa::R_COND;
use crate::isa::R_PC;
use crate::isa::TRAP_HALT;
use crate::isa::VmError;
use crate::isa::VmView;
use crate::isa::ZERO;
use crate::isa::cond_mask;
use crate::isa::dr;
use crate::isa::farewell_bytes;
use crate::isa::flag_for;
use crate::isa::imm5;
use crate::isa::imm_mode;
use crate::isa::lemma_instruction_fields;
use crate::isa::machine_step;
use crate::isa::off9;
use crate::isa::op_add;
use crate::isa::op_and;
use crate::isa::op_jump_register;
use crate::isa::op_not;
use crate::isa::opcode;
use crate::isa::read_cell;
use crate::isa::sr1;
use crate::isa::sr2;
use crate::isa::trap_code;
use crate::isa::trap_halt;
use vstd::prelude::*;

verus! {

/// Exactly one condition flag is ever set, and it matches the signed
/// reading of the register value it was derived from: zero for 0, the
/// negative flag when the high bit is set, the positive flag
/// otherwise.
pub proof fn lemma_flag_exclusive(val: u16)
    ensures
        flag_for(val) == POSITIVE || flag_for(val) == ZERO || flag_for(val) == NEGATIVE,
        flag_for(val) == ZERO <==> val == 0,
        flag_for(val) == NEGATIVE <==> val >= 0x8000,
        flag_for(val) == POSITIVE <==> 0 < val < 0x8000,
{
    assert(val >> 15 > 0 <==> val >= 0x8000) by (bit_vector);
    assert((1u16 << 0) == 1 && (1u16 << 1) == 2 && (1u16 << 2) == 4) by (bit_vector);
}

/// ADD in immediate mode: for every 5-bit immediate and register
/// pair, the destination receives the first operand plus the
/// sign-extended immediate, modulo 2^16, and the condition flags
/// become exactly one of the three values, consistent with the signed
/// reading of the stored result. Nothing but the register file
/// changes.
pub proof fn lemma_add_immediate(v: VmView, instr: u16)
    requires
        v.wf(),
        imm_mode(instr),
    ensures
        ({
            let after = op_add(v, instr);
            let val = after.regs[dr(instr)];
            &&& val == (v.regs[sr1(instr)] + imm5(instr)) % 0x10000
            &&& after.regs[R_COND as int] == flag_for(val)
            &&& (after.regs[R_COND as int] == ZERO <==> val == 0)
            &&& (after.regs[R_COND as int] == NEGATIVE <==> val >= 0x8000)
            &&& (after.regs[R_COND as int] == POSITIVE <==> 0 < val < 0x8000)
            &&& after.mem == v.mem
            &&& after.input == v.input
            &&& after.output == v.output
            &&& after.running == v.running
        }),
{
    lemma_instruction_fields(instr);
    let a = v.regs[sr1(instr)];
    let b = imm5(instr);
    lemma_flag_exclusive(a.wrapping_add(b));
    assert(a.wrapping_add(b) == (a + b) % 0x10000) by {
        if a + b <= 0xFFFF {
            assert((a + b) % 0x10000 == a + b);
        } else {
            assert((a + b) % 0x10000 == a + b - 0x10000);
        }
    }
}

/// AND and NOT compute what their names say: with register
/// addressing, the destination of AND receives the bitwise AND of the
/// two source registers, and the destination of NOT the bitwise
/// complement of its source.
pub proof fn lemma_and_not_results(v: VmView, instr: u16)
    requires
        v.wf(),
    ensures
        !imm_mode(instr) ==> op_and(v, instr).regs[dr(instr)] == (v.regs[sr1(instr)] & v.regs[sr2(
            instr,
        )]),
        op_not(v, instr).regs[dr(instr)] == !v.regs[sr1(instr)],
{
    lemma_instruction_fields(instr);
}

/// BRANCH leaves the program counter exactly at the address after the
/// branch when its condition mask misses the current flags, and at
/// that same base plus the sign-extended 9-bit offset when it hits.
pub proof fn lemma_branch_pc(v: VmView)
    requires
        v.wf(),
        !v.awaiting_input,
        v.regs[R_PC as int] != KEYBOARD_STATUS_REGISTER,
        opcode(v.mem[v.regs[R_PC as int] as int]) == 0,
    ensures
        ({
            let instr = v.mem[v.regs[R_PC as int] as int];
            let base = v.regs[R_PC as int].wrapping_add(1);
            let (v2, r) = machine_step(v);
            &&& r == Ok::<(), VmError>(())
            &&& (cond_mask(instr) & v.regs[R_COND as int] == 0 ==> v2.regs[R_PC as int] == base)
            &&& (cond_mask(instr) & v.regs[R_COND as int] > 0 ==> v2.regs[R_PC as int]
                == base.wrapping_add(off9(instr)))
        }),
{
    let instr = v.mem[v.regs[R_PC as int] as int];
    lemma_instruction_fields(instr);
}

/// JUMP-REGISTER always writes the incremented program counter — the
/// address of the next instruction — into R7, whichever addressing
/// mode the instruction selects.
pub proof fn lemma_jump_register_saves_return(v: VmView, instr: u16)
    requires
        v.wf(),
    ensures
        op_jump_register(v, instr).regs[7] == v.regs[R_PC as int],
{
    lemma_instruction_fields(instr);
}

/// The step-level reading of the same law: a cycle that executes a
/// JUMP-REGISTER leaves the pre-call next-instruction address in R7.
pub proof fn lemma_jump_register_step(v: VmView)
    requires
        v.wf(),
        !v.awaiting_input,
        v.regs[R_PC as int] != KEYBOARD_STATUS_REGISTER,
        opcode(v.mem[v.regs[R_PC as int] as int]) == 4,
    ensures
        machine_step(v).0.regs[7] == v.regs[R_PC as int].wrapping_add(1),
{
    let instr = v.mem[v.regs[R_PC as int] as int];
    lemma_instruction_fields(instr);
}

/// What the HALT service routine does, in full: it clears the running
/// flag, appends the farewell line to the output queue, and leaves
/// the registers, the memory and the input queue untouched.
pub proof fn lemma_halt_effect(v: VmView)
    ensures
        !trap_halt(v).running,
        trap_halt(v).output == v.output + farewell_bytes(),
        trap_halt(v).regs == v.regs,
        trap_halt(v).mem == v.mem,
        trap_halt(v).input == v.input,
        trap_halt(v).awaiting_input == v.awaiting_input,
{
}

/// HALT is the only way the machine stops: a cycle after which the
/// running flag is clear was a TRAP carrying the HALT code, and such a
/// cycle always clears the flag.
pub proof fn lemma_halt_only(v: VmView)
    requires
        v.wf(),
        v.running,
    ensures
        ({
            let fetched = read_cell(v.mem, v.input, v.regs[R_PC as int]).2;
            let (v2, r) = machine_step(v);
            &&& (!v2.running ==> !v.awaiting_input && opcode(fetched) == 15 && trap_code(fetched)
                == TRAP_HALT && r == Ok::<(), VmError>(()))
            &&& (!v.awaiting_input && opcode(fetched) == 15 && trap_code(fetched) == TRAP_HALT
                ==> !v2.running)
        }),
{
    let fetched = read_cell(v.mem, v.input, v.regs[R_PC as int]).2;
    lemma_instruction_fields(fetched);
}

} // verus!
