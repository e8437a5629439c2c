//! The mathematical model of the machine: the view of the machine
//! state, the decoding of instruction fields, and one transition
//! function per instruction and trap service routine. The executable
//! engine in `vm` is verified against these definitions.

use crate::bits::be16;
use crate::bits::sign_extend16;
use vstd::prelude::*;

verus! {

/// Memory-mapped keyboard status register: reading it polls the input
/// queue.
pub const KEYBOARD_STATUS_REGISTER: u16 = 0xFE00;

/// Memory-mapped keyboard data register: holds the last polled byte.
pub const KEYBOARD_DATA_REGISTER: u16 = 0xFE02;

/// Condition-flag value for a positive result.
pub const POSITIVE: u16 = 1 << 0;

/// Condition-flag value for a zero result.
pub const ZERO: u16 = 1 << 1;

/// Condition-flag value for a negative result.
pub const NEGATIVE: u16 = 1 << 2;

/// Index of the program counter in the register file.
pub const R_PC: usize = 8;

/// Index of the condition-flags register in the register file.
pub const R_COND: usize = 9;

/// Number of slots in the register file: R0-R7, the program counter,
/// the condition-flags register, and one spare slot.
pub const REGISTER_SLOTS: usize = 11;

/// Number of 16-bit cells in the memory.
pub const MEMORY_SIZE: usize = 0x10000;

/// The address at which execution starts.
pub const PROGRAM_START: u16 = 0x3000;

pub const TRAP_GET_CHARACTER: u16 = 0x20;

pub const TRAP_OUT: u16 = 0x21;

pub const TRAP_PUTS: u16 = 0x22;

pub const TRAP_IN: u16 = 0x23;

pub const TRAP_PUTS_TWO: u16 = 0x24;

pub const TRAP_HALT: u16 = 0x25;

/// The operation selected by an instruction's high nibble. All sixteen
/// bit patterns are representable; two are reserved and have no
/// defined behaviour.
#[derive(Debug, Clone, Copy, PartialEq, Eq, Structural)]
pub enum OperationCodes {
    Branch,
    Add,
    Load,
    Store,
    JumpRegister,
    And,
    LoadRegister,
    StoreRegister,
    Unused,
    Not,
    LoadIndirect,
    StoreIndirect,
    Jump,
    Reserved,
    LoadEffectiveAddress,
    Trap,
}

/// The operation code denoted by a 4-bit opcode value.
pub open spec fn opcode_variant(x: u16) -> OperationCodes {
    if x == 0 {
        OperationCodes::Branch
    } else if x == 1 {
        OperationCodes::Add
    } else if x == 2 {
        OperationCodes::Load
    } else if x == 3 {
        OperationCodes::Store
    } else if x == 4 {
        OperationCodes::JumpRegister
    } else if x == 5 {
        OperationCodes::And
    } else if x == 6 {
        OperationCodes::LoadRegister
    } else if x == 7 {
        OperationCodes::StoreRegister
    } else if x == 8 {
        OperationCodes::Unused
    } else if x == 9 {
        OperationCodes::Not
    } else if x == 10 {
        OperationCodes::LoadIndirect
    } else if x == 11 {
        OperationCodes::StoreIndirect
    } else if x == 12 {
        OperationCodes::Jump
    } else if x == 13 {
        OperationCodes::Reserved
    } else if x == 14 {
        OperationCodes::LoadEffectiveAddress
    } else {
        OperationCodes::Trap
    }
}

impl OperationCodes {
    /// Total decoding of a 4-bit opcode value; every bit pattern maps
    /// to a variant, the reserved slots included.
    pub fn from_integer(x: u16) -> (r: OperationCodes)
        requires
            x < 16,
        ensures
            r == opcode_variant(x),
    {
        match x {
            0 => OperationCodes::Branch,
            1 => OperationCodes::Add,
            2 => OperationCodes::Load,
            3 => OperationCodes::Store,
            4 => OperationCodes::JumpRegister,
            5 => OperationCodes::And,
            6 => OperationCodes::LoadRegister,
            7 => OperationCodes::StoreRegister,
            8 => OperationCodes::Unused,
            9 => OperationCodes::Not,
            10 => OperationCodes::LoadIndirect,
            11 => OperationCodes::StoreIndirect,
            12 => OperationCodes::Jump,
            13 => OperationCodes::Reserved,
            14 => OperationCodes::LoadEffectiveAddress,
            _ => OperationCodes::Trap,
        }
    }
}

/// A fatal engine error: a malformed program image, an instruction
/// whose opcode has no defined handler, or a trap code outside the
/// defined service routines.
#[derive(Debug, Clone, Copy, PartialEq, Eq, Structural)]
pub enum VmError {
    /// The image ends before a full 16-bit origin word.
    ShortOrigin,
    /// The image ends with an odd trailing byte: a truncated word.
    TruncatedWord,
    /// The fetched instruction's opcode is one of the reserved slots.
    UnknownOpcode { instr: u16, addr: u16 },
    /// The trap code selects no defined service routine.
    UnknownTrap { code: u16 },
}

/// Why a run of the engine came to rest without a fatal error.
#[derive(Debug, Clone, Copy, PartialEq, Eq, Structural)]
pub enum RunExit {
    /// The HALT service routine cleared the running flag.
    Halted,
    /// A read of the input queue found it empty; execution resumes
    /// once a byte is supplied.
    NeedsInput,
    /// The cycle allowance given to this call ran out; the machine is
    /// still running and can be resumed as it stands.
    OutOfCycles,
}

/// The machine state as the contracts speak of it: the register file,
/// the memory, the lifecycle flag, the pending-read flag, and the two
/// byte queues standing for the console.
#[verifier::ext_equal]
pub struct VmView {
    pub regs: Seq<u16>,
    pub mem: Seq<u16>,
    pub running: bool,
    pub awaiting_input: bool,
    pub input: Seq<u8>,
    pub output: Seq<u8>,
}

impl VmView {
    /// Well-formedness: the register file and the memory have their
    /// fixed sizes.
    pub open spec fn wf(self) -> bool {
        &&& self.regs.len() == REGISTER_SLOTS
        &&& self.mem.len() == MEMORY_SIZE
    }
}

/// The 4-bit opcode in an instruction's high nibble.
pub open spec fn opcode(instr: u16) -> u16 {
    instr >> 12
}

/// The register field in bits 11-9: the destination of loads and ALU
/// operations, the source of stores.
pub open spec fn dr(instr: u16) -> int {
    ((instr >> 9) & 0x7) as int
}

/// The register field in bits 8-6: the first ALU operand, or the base
/// register of register-offset addressing.
pub open spec fn sr1(instr: u16) -> int {
    ((instr >> 6) & 0x7) as int
}

/// The register field in bits 2-0: the second ALU operand.
pub open spec fn sr2(instr: u16) -> int {
    (instr & 0x7) as int
}

/// Bit 5: whether the second ALU operand is an immediate.
pub open spec fn imm_mode(instr: u16) -> bool {
    (instr >> 5) & 1 == 1
}

/// The sign-extended 5-bit immediate in bits 4-0.
pub open spec fn imm5(instr: u16) -> u16 {
    sign_extend16(instr & 0x1F, 5)
}

/// The sign-extended 6-bit offset in bits 5-0.
pub open spec fn off6(instr: u16) -> u16 {
    sign_extend16(instr & 0x3F, 6)
}

/// The sign-extended 9-bit PC-relative offset in bits 8-0.
pub open spec fn off9(instr: u16) -> u16 {
    sign_extend16(instr & 0x1FF, 9)
}

/// The sign-extended 11-bit offset in bits 10-0.
pub open spec fn off11(instr: u16) -> u16 {
    sign_extend16(instr & 0x7FF, 11)
}

/// The 3-bit condition mask of a BRANCH instruction, bits 11-9.
pub open spec fn cond_mask(instr: u16) -> u16 {
    (instr >> 9) & 0x7
}

/// The 8-bit service-routine code of a TRAP instruction.
pub open spec fn trap_code(instr: u16) -> u16 {
    instr & 0xFF
}

/// The condition flag derived from a freshly written register value:
/// exactly one of {POSITIVE, ZERO, NEGATIVE}, by the signed reading of
/// the value.
pub open spec fn flag_for(val: u16) -> u16 {
    if val == 0 {
        ZERO
    } else if val >> 15 > 0 {
        NEGATIVE
    } else {
        POSITIVE
    }
}

/// Writes `val` to register `d` and recomputes the condition flags
/// from it.
pub open spec fn with_result(v: VmView, d: int, val: u16) -> VmView {
    VmView { regs: v.regs.update(d, val).update(R_COND as int, flag_for(val)), ..v }
}

/// The keyboard poll a read of the status register performs: an empty
/// queue or a pending newline clears the status; any other byte is
/// consumed into the data register with the ready bit set.
pub open spec fn poll_keyboard(mem: Seq<u16>, input: Seq<u8>) -> (Seq<u16>, Seq<u8>) {
    if input.len() == 0 {
        (mem.update(KEYBOARD_STATUS_REGISTER as int, 0), input)
    } else if input[0] == 10 {
        (mem.update(KEYBOARD_STATUS_REGISTER as int, 0), input.skip(1))
    } else {
        (
            mem.update(KEYBOARD_STATUS_REGISTER as int, 0x8000).update(
                KEYBOARD_DATA_REGISTER as int,
                input[0] as u16,
            ),
            input.skip(1),
        )
    }
}

/// A memory read: the polling side effect when the address is the
/// keyboard status register, then the cell's (possibly refreshed)
/// value. Yields the new memory, the new input queue, and the value
/// read.
pub open spec fn read_cell(mem: Seq<u16>, input: Seq<u8>, addr: u16) -> (Seq<u16>, Seq<u8>, u16)
    recommends
        mem.len() == MEMORY_SIZE,
{
    if addr == KEYBOARD_STATUS_REGISTER {
        let (m2, i2) = poll_keyboard(mem, input);
        (m2, i2, m2[addr as int])
    } else {
        (mem, input, mem[addr as int])
    }
}

/// ADD: destination := first operand plus either a register or a
/// sign-extended immediate, wrapping modulo 2^16; flags updated.
pub open spec fn op_add(v: VmView, instr: u16) -> VmView {
    let a = v.regs[sr1(instr)];
    let b = if imm_mode(instr) {
        imm5(instr)
    } else {
        v.regs[sr2(instr)]
    };
    with_result(v, dr(instr), a.wrapping_add(b))
}

/// AND: destination := bitwise AND of the two operands; flags updated.
pub open spec fn op_and(v: VmView, instr: u16) -> VmView {
    let a = v.regs[sr1(instr)];
    let b = if imm_mode(instr) {
        imm5(instr)
    } else {
        v.regs[sr2(instr)]
    };
    with_result(v, dr(instr), a & b)
}

/// NOT: destination := bitwise complement of the source; flags
/// updated.
pub open spec fn op_not(v: VmView, instr: u16) -> VmView {
    with_result(v, dr(instr), !v.regs[sr1(instr)])
}

/// BRANCH: adds the sign-extended 9-bit offset to the program counter
/// when the condition mask intersects the current flags; no flag
/// update.
pub open spec fn op_branch(v: VmView, instr: u16) -> VmView {
    if cond_mask(instr) & v.regs[R_COND as int] > 0 {
        VmView {
            regs: v.regs.update(
                R_PC as int,
                v.regs[R_PC as int].wrapping_add(off9(instr)),
            ),
            ..v
        }
    } else {
        v
    }
}

/// JUMP (and RETURN): program counter := the named register's value.
pub open spec fn op_jump(v: VmView, instr: u16) -> VmView {
    VmView { regs: v.regs.update(R_PC as int, v.regs[sr1(instr)]), ..v }
}

/// JUMP-REGISTER: saves the incremented program counter into R7, then
/// either adds the sign-extended 11-bit offset to the program counter
/// or takes the base register's value.
pub open spec fn op_jump_register(v: VmView, instr: u16) -> VmView {
    let saved = v.regs[R_PC as int];
    let r1 = v.regs.update(7, saved);
    if (instr >> 11) & 1 == 1 {
        VmView { regs: r1.update(R_PC as int, saved.wrapping_add(off11(instr))), ..v }
    } else {
        VmView { regs: r1.update(R_PC as int, r1[sr1(instr)]), ..v }
    }
}

/// LOAD: destination := memory at program counter plus offset; flags
/// updated. The read may poll the keyboard.
pub open spec fn op_load(v: VmView, instr: u16) -> VmView {
    let addr = v.regs[R_PC as int].wrapping_add(off9(instr));
    let (m2, i2, val) = read_cell(v.mem, v.input, addr);
    with_result(VmView { mem: m2, input: i2, ..v }, dr(instr), val)
}

/// LOAD-INDIRECT: two chained memory reads; flags updated.
pub open spec fn op_load_indirect(v: VmView, instr: u16) -> VmView {
    let addr = v.regs[R_PC as int].wrapping_add(off9(instr));
    let (m2, i2, pointer) = read_cell(v.mem, v.input, addr);
    let (m3, i3, val) = read_cell(m2, i2, pointer);
    with_result(VmView { mem: m3, input: i3, ..v }, dr(instr), val)
}

/// LOAD-REGISTER: destination := memory at base register plus 6-bit
/// offset; flags updated.
pub open spec fn op_load_register(v: VmView, instr: u16) -> VmView {
    let addr = v.regs[sr1(instr)].wrapping_add(off6(instr));
    let (m2, i2, val) = read_cell(v.mem, v.input, addr);
    with_result(VmView { mem: m2, input: i2, ..v }, dr(instr), val)
}

/// LOAD-EFFECTIVE-ADDRESS: destination := program counter plus offset,
/// with no memory access; flags updated.
pub open spec fn op_load_effective_address(v: VmView, instr: u16) -> VmView {
    with_result(v, dr(instr), v.regs[R_PC as int].wrapping_add(off9(instr)))
}

/// STORE: memory at program counter plus offset := source register; no
/// flag update.
pub open spec fn op_store(v: VmView, instr: u16) -> VmView {
    let addr = v.regs[R_PC as int].wrapping_add(off9(instr));
    VmView { mem: v.mem.update(addr as int, v.regs[dr(instr)]), ..v }
}

/// STORE-INDIRECT: reads the pointer at program counter plus offset
/// (which may poll the keyboard), then writes the source register
/// through it.
pub open spec fn op_store_indirect(v: VmView, instr: u16) -> VmView {
    let addr = v.regs[R_PC as int].wrapping_add(off9(instr));
    let (m2, i2, pointer) = read_cell(v.mem, v.input, addr);
    VmView { mem: m2.update(pointer as int, v.regs[dr(instr)]), input: i2, ..v }
}

/// STORE-REGISTER: memory at base register plus 6-bit offset := source
/// register; no flag update.
pub open spec fn op_store_register(v: VmView, instr: u16) -> VmView {
    let addr = v.regs[sr1(instr)].wrapping_add(off6(instr));
    VmView { mem: v.mem.update(addr as int, v.regs[dr(instr)]), ..v }
}

/// At most `budget` more words of the character string at `addr`: the
/// low byte of each word up to but excluding the first zero word, the
/// scan address wrapping modulo 2^16.
pub open spec fn string_bytes_from(mem: Seq<u16>, addr: u16, budget: nat) -> Seq<u8>
    recommends
        mem.len() == MEMORY_SIZE,
    decreases budget,
{
    if budget == 0 {
        seq![]
    } else if mem[addr as int] == 0 {
        seq![]
    } else {
        seq![(mem[addr as int] & 0xFF) as u8] + string_bytes_from(
            mem,
            addr.wrapping_add(1),
            (budget - 1) as nat,
        )
    }
}

/// The character string starting at `addr`: the low byte of each word
/// up to but excluding the first zero word, the address wrapping
/// modulo 2^16. Where no terminator exists the scan stops after one
/// full pass of memory.
pub open spec fn string_bytes(mem: Seq<u16>, addr: u16) -> Seq<u8>
    recommends
        mem.len() == MEMORY_SIZE,
{
    string_bytes_from(mem, addr, MEMORY_SIZE as nat)
}

/// At most `budget` more words of the packed character string at
/// `addr`: two characters per word, low byte first, the scan address
/// wrapping modulo 2^16. A word with a zero low byte ends the string;
/// a zero high byte ends it after that word's low byte.
pub open spec fn packed_bytes_from(mem: Seq<u16>, addr: u16, budget: nat) -> Seq<u8>
    recommends
        mem.len() == MEMORY_SIZE,
    decreases budget,
{
    if budget == 0 {
        seq![]
    } else if mem[addr as int] & 0xFF == 0 {
        seq![]
    } else if mem[addr as int] >> 8 == 0 {
        seq![(mem[addr as int] & 0xFF) as u8]
    } else {
        seq![(mem[addr as int] & 0xFF) as u8, (mem[addr as int] >> 8) as u8] + packed_bytes_from(
            mem,
            addr.wrapping_add(1),
            (budget - 1) as nat,
        )
    }
}

/// The packed character string starting at `addr`: two characters per
/// word, low byte first, the address wrapping modulo 2^16. A word
/// with a zero low byte ends the string; a zero high byte ends it
/// after that word's low byte. Where no terminator exists the scan
/// stops after one full pass of memory.
pub open spec fn packed_bytes(mem: Seq<u16>, addr: u16) -> Seq<u8>
    recommends
        mem.len() == MEMORY_SIZE,
{
    packed_bytes_from(mem, addr, MEMORY_SIZE as nat)
}

/// The prompt the IN service routine writes before reading a
/// character.
pub open spec fn prompt_bytes() -> Seq<u8> {
    seq![
        69u8, 110u8, 116u8, 101u8, 114u8, 32u8, 97u8, 32u8, 99u8, 104u8, 97u8, 114u8, 97u8, 99u8,
        116u8, 101u8, 114u8, 58u8, 32u8,
    ]
}

/// The farewell line the HALT service routine writes.
pub open spec fn farewell_bytes() -> Seq<u8> {
    seq![71u8, 111u8, 111u8, 100u8, 98u8, 121u8, 101u8, 33u8, 10u8]
}

/// GETC: consumes one byte of the input queue into R0, or records that
/// the machine awaits input when the queue is empty. No flag update,
/// no echo.
pub open spec fn trap_getc(v: VmView) -> VmView {
    if v.input.len() > 0 {
        VmView { regs: v.regs.update(0, v.input[0] as u16), input: v.input.skip(1), ..v }
    } else {
        VmView { awaiting_input: true, ..v }
    }
}

/// OUT: appends the low byte of R0 to the output queue.
pub open spec fn trap_out(v: VmView) -> VmView {
    VmView { output: v.output.push((v.regs[0] & 0xFF) as u8), ..v }
}

/// PUTS: appends the character string addressed by R0 to the output
/// queue.
pub open spec fn trap_puts(v: VmView) -> VmView {
    VmView { output: v.output + string_bytes(v.mem, v.regs[0]), ..v }
}

/// IN: writes the prompt, then behaves as GETC.
pub open spec fn trap_in(v: VmView) -> VmView {
    trap_getc(VmView { output: v.output + prompt_bytes(), ..v })
}

/// PUTSP: appends the packed character string addressed by R0 to the
/// output queue.
pub open spec fn trap_putsp(v: VmView) -> VmView {
    VmView { output: v.output + packed_bytes(v.mem, v.regs[0]), ..v }
}

/// HALT: writes the farewell line and clears the running flag.
pub open spec fn trap_halt(v: VmView) -> VmView {
    VmView { output: v.output + farewell_bytes(), running: false, ..v }
}

/// TRAP: dispatches on the low 8 bits to one of the six service
/// routines; any other code is a fatal error that leaves the state
/// unchanged.
pub open spec fn op_trap(v: VmView, instr: u16) -> (VmView, Result<(), VmError>) {
    let code = trap_code(instr);
    if code == TRAP_GET_CHARACTER {
        (trap_getc(v), Ok(()))
    } else if code == TRAP_OUT {
        (trap_out(v), Ok(()))
    } else if code == TRAP_PUTS {
        (trap_puts(v), Ok(()))
    } else if code == TRAP_IN {
        (trap_in(v), Ok(()))
    } else if code == TRAP_PUTS_TWO {
        (trap_putsp(v), Ok(()))
    } else if code == TRAP_HALT {
        (trap_halt(v), Ok(()))
    } else {
        (v, Err(VmError::UnknownTrap { code }))
    }
}

/// Completes a pending GETC: the first byte of the (non-empty) input
/// queue moves into R0 and the machine stops awaiting input.
pub open spec fn deliver_pending_input(v: VmView) -> VmView
    recommends
        v.input.len() > 0,
{
    VmView {
        regs: v.regs.update(0, v.input[0] as u16),
        input: v.input.skip(1),
        awaiting_input: false,
        ..v
    }
}

/// One cycle of the engine. A machine awaiting input first completes
/// the pending read (a no-op while the queue is empty). Otherwise:
/// fetch through the ordinary read path, increment the program counter
/// with wraparound, decode the high nibble, execute. The two reserved
/// opcode slots are a fatal decode error identifying the instruction
/// and its address.
pub open spec fn machine_step(v: VmView) -> (VmView, Result<(), VmError>) {
    if v.awaiting_input {
        if v.input.len() == 0 {
            (v, Ok(()))
        } else {
            (deliver_pending_input(v), Ok(()))
        }
    } else {
        let pc = v.regs[R_PC as int];
        let (m2, i2, instr) = read_cell(v.mem, v.input, pc);
        let v1 = VmView {
            mem: m2,
            input: i2,
            regs: v.regs.update(R_PC as int, pc.wrapping_add(1)),
            ..v
        };
        let op = opcode(instr);
        if op == 0 {
            (op_branch(v1, instr), Ok(()))
        } else if op == 1 {
            (op_add(v1, instr), Ok(()))
        } else if op == 2 {
            (op_load(v1, instr), Ok(()))
        } else if op == 3 {
            (op_store(v1, instr), Ok(()))
        } else if op == 4 {
            (op_jump_register(v1, instr), Ok(()))
        } else if op == 5 {
            (op_and(v1, instr), Ok(()))
        } else if op == 6 {
            (op_load_register(v1, instr), Ok(()))
        } else if op == 7 {
            (op_store_register(v1, instr), Ok(()))
        } else if op == 9 {
            (op_not(v1, instr), Ok(()))
        } else if op == 10 {
            (op_load_indirect(v1, instr), Ok(()))
        } else if op == 11 {
            (op_store_indirect(v1, instr), Ok(()))
        } else if op == 12 {
            (op_jump(v1, instr), Ok(()))
        } else if op == 14 {
            (op_load_effective_address(v1, instr), Ok(()))
        } else if op == 15 {
            op_trap(v1, instr)
        } else {
            (v1, Err(VmError::UnknownOpcode { instr, addr: pc }))
        }
    }
}

/// Whether a cycle can make progress: the machine is running and is
/// not blocked on an empty input queue.
pub open spec fn can_step(v: VmView) -> bool {
    v.running && !(v.awaiting_input && v.input.len() == 0)
}

/// The machine reaches `b` from `a` in exactly `n` error-free cycles.
pub open spec fn runs_to(a: VmView, b: VmView, n: nat) -> bool
    decreases n,
{
    if n == 0 {
        a == b
    } else {
        &&& can_step(a)
        &&& machine_step(a).1 == Ok::<(), VmError>(())
        &&& runs_to(machine_step(a).0, b, (n - 1) as nat)
    }
}

/// The machine reaches `b` from `a` in some number of error-free
/// cycles.
pub open spec fn reaches(a: VmView, b: VmView) -> bool {
    exists|n: nat| runs_to(a, b, n)
}

/// From `a`, some number of error-free cycles leads to a state whose
/// next cycle stops with the fatal error `e`, leaving the machine at
/// `b`.
pub open spec fn faults_to(a: VmView, b: VmView, e: VmError) -> bool {
    exists|w: VmView, n: nat|
        runs_to(a, w, n) && machine_step(w) == (b, Err::<(), VmError>(e))
}

/// A run of `n` error-free cycles followed by one more is a run of
/// `n + 1`.
pub proof fn lemma_runs_to_snoc(a: VmView, b: VmView, n: nat)
    requires
        runs_to(a, b, n),
        can_step(b),
        machine_step(b).1 == Ok::<(), VmError>(()),
    ensures
        runs_to(a, machine_step(b).0, n + 1),
    decreases n,
{
    if n == 0 {
        assert(a == b);
        assert(runs_to(machine_step(b).0, machine_step(b).0, 0));
    } else {
        lemma_runs_to_snoc(machine_step(a).0, b, (n - 1) as nat);
    }
}

/// Placing a word sequence that starts with `w` first writes `w` at
/// the origin, then places the rest from the next address on.
pub proof fn lemma_store_words_cons(m: Seq<u16>, o: u16, w: u16, ws: Seq<u16>)
    ensures
        store_words(m, o, seq![w] + ws) == store_words(
            m.update(o as int, w),
            o.wrapping_add(1),
            ws,
        ),
{
    let s = seq![w] + ws;
    assert(s.len() == 1 + ws.len());
    assert(s[0] == w);
    assert(s.drop_first() =~= ws);
}

/// Bounds of the bit fields extracted from an instruction: register
/// numbers are below 8, immediates and offsets fit their field width,
/// and single-bit fields are 0 or 1.
pub proof fn lemma_instruction_fields(instr: u16)
    by (bit_vector)
    ensures
        instr >> 12 < 16,
        (instr >> 9) & 0x7 < 8,
        (instr >> 6) & 0x7 < 8,
        instr & 0x7 < 8,
        (instr >> 5) & 1 <= 1,
        (instr >> 11) & 1 <= 1,
        instr & 0x1F < 0x20,
        instr & 0x3F < 0x40,
        instr & 0xFF < 0x100,
        instr & 0x1FF < 0x200,
        instr & 0x7FF < 0x800,
        (instr & 0x1F) >> 5 == 0,
        (instr & 0x3F) >> 6 == 0,
        (instr & 0x1FF) >> 9 == 0,
        (instr & 0x7FF) >> 11 == 0,
{
}

/// The two bytes of a word each fit in eight bits.
pub proof fn lemma_word_bytes(w: u16)
    by (bit_vector)
    ensures
        w & 0xFF < 256,
        w >> 8 < 256,
{
}

/// The words of a big-endian byte stream, a truncated trailing byte
/// discarded.
pub open spec fn image_words(bytes: Seq<u8>) -> Seq<u16>
    decreases bytes.len(),
{
    if bytes.len() < 2 {
        seq![]
    } else {
        seq![be16(bytes[0], bytes[1])] + image_words(bytes.skip(2))
    }
}

/// Memory after placing `words` contiguously from `origin` on, the
/// address wrapping modulo 2^16.
pub open spec fn store_words(mem: Seq<u16>, origin: u16, words: Seq<u16>) -> Seq<u16>
    recommends
        mem.len() == MEMORY_SIZE,
    decreases words.len(),
{
    if words.len() == 0 {
        mem
    } else {
        store_words(mem.update(origin as int, words[0]), origin.wrapping_add(1), words.drop_first())
    }
}

} // verus!
