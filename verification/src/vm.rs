//! The executable machine: the register file, the memory, the
//! lifecycle flag and the console byte queues, with one verified
//! method per instruction and service routine. Every method's
//! behaviour is pinned to the transition functions of `isa`.

use crate::bits::be16;
use crate::bits::sign_extend;
use crate::bits::swap_endian;
use crate::isa::KEYBOARD_DATA_REGISTER;
use crate::isa::KEYBOARD_STATUS_REGISTER;
use crate::isa::MEMORY_SIZE;
use crate::isa::NEGATIVE;
use crate::isa::OperationCodes;
use crate::isa::POSITIVE;
use crate::isa::PROGRAM_START;
use crate::isa::REGISTER_SLOTS;
use crate::isa::R_COND;
use crate::isa::R_PC;
use crate::isa::RunExit;
use crate::isa::TRAP_GET_CHARACTER;
use crate::isa::TRAP_HALT;
use crate::isa::TRAP_IN;
use crate::isa::TRAP_OUT;
use crate::isa::TRAP_PUTS;
use crate::isa::TRAP_PUTS_TWO;
use crate::isa::VmError;
use crate::isa::VmView;
use crate::isa::ZERO;
use crate::isa::deliver_pending_input;
use crate::isa::farewell_bytes;
use crate::isa::faults_to;
use crate::isa::flag_for;
use crate::isa::image_words;
use crate::isa::lemma_instruction_fields;
use crate::isa::lemma_runs_to_snoc;
use crate::isa::lemma_store_words_cons;
use crate::isa::lemma_word_bytes;
use crate::isa::machine_step;
use crate::isa::op_add;
use crate::isa::op_and;
use crate::isa::op_branch;
use crate::isa::op_jump;
use crate::isa::op_jump_register;
use crate::isa::op_load;
use crate::isa::op_load_effective_address;
use crate::isa::op_load_indirect;
use crate::isa::op_load_register;
use crate::isa::op_not;
use crate::isa::op_store;
use crate::isa::op_store_indirect;
use crate::isa::op_store_register;
use crate::isa::op_trap;
use crate::isa::packed_bytes;
use crate::isa::packed_bytes_from;
use crate::isa::prompt_bytes;
use crate::isa::reaches;
use crate::isa::read_cell;
use crate::isa::runs_to;
use crate::isa::store_words;
use crate::isa::string_bytes;
use crate::isa::string_bytes_from;
use crate::isa::trap_getc;
use crate::isa::trap_halt;
use crate::isa::trap_in;
use crate::isa::trap_out;
use crate::isa::trap_puts;
use crate::isa::trap_putsp;
use vstd::prelude::*;

verus! {

/// The names of the register-file slots: eight general-purpose
/// registers, the program counter, the condition-flags register, and
/// the slot count.
#[allow(dead_code)]
pub enum Registers {
    R0,
    R1,
    R2,
    R3,
    R4,
    R5,
    R6,
    R7,
    ProgramCounter,
    Condition,
    Count,
}

/// The machine: exclusive owner of its registers, memory and console
/// queues. A host feeds `input` and drains `output`; everything in
/// between is the verified engine.
pub struct VM {
    memory: Vec<u16>,
    registers: Vec<u16>,
    running: bool,
    awaiting_input: bool,
    input: Vec<u8>,
    output: Vec<u8>,
}

impl View for VM {
    type V = VmView;

    closed spec fn view(&self) -> VmView {
        VmView {
            regs: self.registers@,
            mem: self.memory@,
            running: self.running,
            awaiting_input: self.awaiting_input,
            input: self.input@,
            output: self.output@,
        }
    }
}

/// A vector of `n` zero words.
fn zero_words(n: usize) -> (v: Vec<u16>)
    ensures
        v@ == Seq::new(n as nat, |i: int| 0u16),
{
    let mut v: Vec<u16> = Vec::new();
    let mut i: usize = 0;
    while i < n
        invariant
            i <= n,
            v@.len() == i,
            forall|j: int| 0 <= j < i ==> v@[j] == 0u16,
        decreases n - i,
    {
        v.push(0);
        i = i + 1;
    }
    proof {
        assert(v@ =~= Seq::new(n as nat, |i: int| 0u16));
    }
    v
}

impl VM {
    /// Well-formedness: the register file and the memory have their
    /// fixed sizes.
    pub open spec fn wf(self) -> bool {
        self@.wf()
    }

    /// A powered-off machine: all registers and memory cells zero, not
    /// running, console queues empty.
    pub fn new() -> (vm: VM)
        ensures
            vm.wf(),
            vm@.regs == Seq::new(REGISTER_SLOTS as nat, |i: int| 0u16),
            vm@.mem == Seq::new(MEMORY_SIZE as nat, |i: int| 0u16),
            !vm@.running,
            !vm@.awaiting_input,
            vm@.input == Seq::<u8>::empty(),
            vm@.output == Seq::<u8>::empty(),
    {
        VM {
            registers: zero_words(REGISTER_SLOTS),
            memory: zero_words(MEMORY_SIZE),
            running: false,
            awaiting_input: false,
            input: Vec::new(),
            output: Vec::new(),
        }
    }

    /// The value of register `r`.
    pub fn register(&self, r: u16) -> (val: u16)
        requires
            self.wf(),
            (r as usize) < REGISTER_SLOTS,
        ensures
            val == self@.regs[r as int],
    {
        self.registers[r as usize]
    }

    /// Writes `val` to register `r`, touching nothing else.
    pub fn set_register(&mut self, r: u16, val: u16)
        requires
            old(self).wf(),
            (r as usize) < REGISTER_SLOTS,
        ensures
            final(self).wf(),
            final(self)@ == (VmView { regs: old(self)@.regs.update(r as int, val), ..old(self)@ }),
    {
        self.registers[r as usize] = val;
    }

    /// Writes `val` to the memory cell at `address`. Writes never
    /// trigger the keyboard poll.
    pub fn mem_write(&mut self, address: u16, val: u16)
        requires
            old(self).wf(),
        ensures
            final(self).wf(),
            final(self)@ == (VmView {
                mem: old(self)@.mem.update(address as int, val),
                ..old(self)@
            }),
    {
        self.memory[address as usize] = val;
    }

    /// Reads the memory cell at `address` through the single read
    /// primitive: a read of the keyboard status register first polls
    /// the input queue, refreshing the status and data registers.
    pub fn mem_read(&mut self, address: u16) -> (r: u16)
        requires
            old(self).wf(),
        ensures
            final(self).wf(),
            ({
                let (m2, i2, val) = read_cell(old(self)@.mem, old(self)@.input, address);
                final(self)@ == (VmView { mem: m2, input: i2, ..old(self)@ }) && r == val
            }),
    {
        if address == KEYBOARD_STATUS_REGISTER {
            if self.input.len() == 0 {
                self.memory[KEYBOARD_STATUS_REGISTER as usize] = 0;
            } else {
                let character = self.input.remove(0);
                proof {
                    assert(old(self)@.input.remove(0) =~= old(self)@.input.skip(1));
                }
                if character != 10 {
                    self.memory[KEYBOARD_STATUS_REGISTER as usize] = 0x8000;
                    self.memory[KEYBOARD_DATA_REGISTER as usize] = character as u16;
                } else {
                    self.memory[KEYBOARD_STATUS_REGISTER as usize] = 0;
                }
            }
        }
        self.memory[address as usize]
    }

    /// Recomputes the condition flags from register `r`'s value:
    /// exactly one of {POSITIVE, ZERO, NEGATIVE}.
    pub fn update_flags(&mut self, r: u16)
        requires
            old(self).wf(),
            (r as usize) < REGISTER_SLOTS,
        ensures
            final(self).wf(),
            final(self)@ == (VmView {
                regs: old(self)@.regs.update(
                    R_COND as int,
                    flag_for(old(self)@.regs[r as int]),
                ),
                ..old(self)@
            }),
    {
        let r_val = self.registers[r as usize];
        self.registers[R_COND] = if r_val == 0 {
            ZERO
        } else if (r_val >> 15) > 0 {
            NEGATIVE
        } else {
            POSITIVE
        };
    }

    /// ADD: destination := first operand plus a register or a
    /// sign-extended 5-bit immediate, wrapping modulo 2^16; flags
    /// updated from the stored result.
    pub fn add(&mut self, instr: u16)
        requires
            old(self).wf(),
        ensures
            final(self).wf(),
            final(self)@ == op_add(old(self)@, instr),
    {
        proof {
            lemma_instruction_fields(instr);
        }
        let r0 = (instr >> 9) & 0x7;
        let r1 = (instr >> 6) & 0x7;
        let imm_flag = (instr >> 5) & 0x1;
        if imm_flag > 0 {
            let imm = sign_extend(instr & 0x1F, 5);
            self.registers[r0 as usize] = self.registers[r1 as usize].wrapping_add(imm);
        } else {
            let r2 = instr & 0x7;
            self.registers[r0 as usize] = self.registers[r1 as usize].wrapping_add(
                self.registers[r2 as usize],
            );
        }
        self.update_flags(r0);
    }

    /// AND: destination := bitwise AND of the first operand with a
    /// register or a sign-extended 5-bit immediate; flags updated.
    pub fn and(&mut self, instr: u16)
        requires
            old(self).wf(),
        ensures
            final(self).wf(),
            final(self)@ == op_and(old(self)@, instr),
    {
        proof {
            lemma_instruction_fields(instr);
        }
        let r0 = (instr >> 9) & 0x7;
        let r1 = (instr >> 6) & 0x7;
        let imm_flag = (instr >> 5) & 0x1;
        if imm_flag > 0 {
            let imm = sign_extend(instr & 0x1F, 5);
            self.registers[r0 as usize] = self.registers[r1 as usize] & imm;
        } else {
            let r2 = instr & 0x7;
            self.registers[r0 as usize] = self.registers[r1 as usize]
                & self.registers[r2 as usize];
        }
        self.update_flags(r0);
    }

    /// NOT: destination := bitwise complement of the source; flags
    /// updated.
    pub fn not(&mut self, instr: u16)
        requires
            old(self).wf(),
        ensures
            final(self).wf(),
            final(self)@ == op_not(old(self)@, instr),
    {
        proof {
            lemma_instruction_fields(instr);
        }
        let r0 = (instr >> 9) & 0x7;
        let r1 = (instr >> 6) & 0x7;
        self.registers[r0 as usize] = !(self.registers[r1 as usize]);
        self.update_flags(r0);
    }

    /// BRANCH: adds the sign-extended 9-bit offset to the program
    /// counter when the condition mask intersects the current flags;
    /// no flag update.
    pub fn branch(&mut self, instr: u16)
        requires
            old(self).wf(),
        ensures
            final(self).wf(),
            final(self)@ == op_branch(old(self)@, instr),
    {
        proof {
            lemma_instruction_fields(instr);
        }
        let pc_offset = sign_extend(instr & 0x1FF, 9);
        let cond_flag = (instr >> 9) & 0x7;
        if cond_flag & self.registers[R_COND] > 0 {
            self.registers[R_PC] = self.registers[R_PC].wrapping_add(pc_offset);
        }
    }

    /// JUMP (and RETURN): program counter := the named register's
    /// value; no flag update.
    pub fn jump(&mut self, instr: u16)
        requires
            old(self).wf(),
        ensures
            final(self).wf(),
            final(self)@ == op_jump(old(self)@, instr),
    {
        proof {
            lemma_instruction_fields(instr);
        }
        let r1 = (instr >> 6) & 0x7;
        self.registers[R_PC] = self.registers[r1 as usize];
    }

    /// JUMP-REGISTER: saves the incremented program counter into R7,
    /// then either adds the sign-extended 11-bit offset to the program
    /// counter or takes the base register's value; no flag update.
    pub fn jump_register(&mut self, instr: u16)
        requires
            old(self).wf(),
        ensures
            final(self).wf(),
            final(self)@ == op_jump_register(old(self)@, instr),
    {
        proof {
            lemma_instruction_fields(instr);
        }
        let saved = self.registers[R_PC];
        self.registers[7] = saved;
        let jsr = (instr >> 11) & 1;
        if jsr > 0 {
            let pc_offset = sign_extend(instr & 0x7FF, 11);
            self.registers[R_PC] = saved.wrapping_add(pc_offset);
        } else {
            let r1 = (instr >> 6) & 0x7;
            self.registers[R_PC] = self.registers[r1 as usize];
        }
    }

    /// LOAD: destination := memory at program counter plus offset;
    /// flags updated.
    pub fn load(&mut self, instr: u16)
        requires
            old(self).wf(),
        ensures
            final(self).wf(),
            final(self)@ == op_load(old(self)@, instr),
    {
        proof {
            lemma_instruction_fields(instr);
        }
        let r0 = (instr >> 9) & 0x7;
        let pc_offset = sign_extend(instr & 0x1FF, 9);
        let addr = self.registers[R_PC].wrapping_add(pc_offset);
        let loaded = self.mem_read(addr);
        self.registers[r0 as usize] = loaded;
        self.update_flags(r0);
    }

    /// LOAD-INDIRECT: destination := memory at the address held in the
    /// cell at program counter plus offset — two sequential reads;
    /// flags updated.
    pub fn load_indirect(&mut self, instr: u16)
        requires
            old(self).wf(),
        ensures
            final(self).wf(),
            final(self)@ == op_load_indirect(old(self)@, instr),
    {
        proof {
            lemma_instruction_fields(instr);
        }
        let r0 = (instr >> 9) & 0x7;
        let pc_offset = sign_extend(instr & 0x1FF, 9);
        let pointer = self.mem_read(self.registers[R_PC].wrapping_add(pc_offset));
        let loaded = self.mem_read(pointer);
        self.registers[r0 as usize] = loaded;
        self.update_flags(r0);
    }

    /// LOAD-REGISTER: destination := memory at base register plus
    /// 6-bit offset; flags updated.
    pub fn load_register(&mut self, instr: u16)
        requires
            old(self).wf(),
        ensures
            final(self).wf(),
            final(self)@ == op_load_register(old(self)@, instr),
    {
        proof {
            lemma_instruction_fields(instr);
        }
        let offset = sign_extend(instr & 0x3F, 6);
        let dr = (instr >> 9) & 0x7;
        let baser = (instr >> 6) & 0x7;
        let loaded = self.mem_read(self.registers[baser as usize].wrapping_add(offset));
        self.registers[dr as usize] = loaded;
        self.update_flags(dr);
    }

    /// LOAD-EFFECTIVE-ADDRESS: destination := program counter plus
    /// offset, with no memory access; flags updated.
    pub fn load_effective_address(&mut self, instr: u16)
        requires
            old(self).wf(),
        ensures
            final(self).wf(),
            final(self)@ == op_load_effective_address(old(self)@, instr),
    {
        proof {
            lemma_instruction_fields(instr);
        }
        let r0 = (instr >> 9) & 0x7;
        let pc_offset = sign_extend(instr & 0x1FF, 9);
        self.registers[r0 as usize] = self.registers[R_PC].wrapping_add(pc_offset);
        self.update_flags(r0);
    }

    /// STORE: memory at program counter plus offset := source
    /// register; no flag update.
    pub fn store(&mut self, instr: u16)
        requires
            old(self).wf(),
        ensures
            final(self).wf(),
            final(self)@ == op_store(old(self)@, instr),
    {
        proof {
            lemma_instruction_fields(instr);
        }
        let sr = (instr >> 9) & 0x7;
        let pc_offset = sign_extend(instr & 0x1FF, 9);
        self.mem_write(
            self.registers[R_PC].wrapping_add(pc_offset),
            self.registers[sr as usize],
        );
    }

    /// STORE-INDIRECT: reads the pointer at program counter plus
    /// offset, then writes the source register through it; no flag
    /// update.
    pub fn store_indirect(&mut self, instr: u16)
        requires
            old(self).wf(),
        ensures
            final(self).wf(),
            final(self)@ == op_store_indirect(old(self)@, instr),
    {
        proof {
            lemma_instruction_fields(instr);
        }
        let sr = (instr >> 9) & 0x7;
        let pc_offset = sign_extend(instr & 0x1FF, 9);
        let pointer = self.mem_read(self.registers[R_PC].wrapping_add(pc_offset));
        self.mem_write(pointer, self.registers[sr as usize]);
    }

    /// STORE-REGISTER: memory at base register plus 6-bit offset :=
    /// source register; no flag update.
    pub fn store_register(&mut self, instr: u16)
        requires
            old(self).wf(),
        ensures
            final(self).wf(),
            final(self)@ == op_store_register(old(self)@, instr),
    {
        proof {
            lemma_instruction_fields(instr);
        }
        let sr = (instr >> 9) & 0x7;
        let offset = sign_extend(instr & 0x3F, 6);
        let baser = (instr >> 6) & 0x7;
        self.mem_write(
            self.registers[baser as usize].wrapping_add(offset),
            self.registers[sr as usize],
        );
    }

    /// GETC: consumes one byte of the input queue into the low byte of
    /// R0, or records a pending read when the queue is empty. No echo,
    /// no flag update.
    fn get_character(&mut self)
        requires
            old(self).wf(),
        ensures
            final(self).wf(),
            final(self)@ == trap_getc(old(self)@),
    {
        if self.input.len() > 0 {
            let byte = self.input.remove(0);
            self.registers[0] = byte as u16;
            proof {
                assert(old(self)@.input.remove(0) =~= old(self)@.input.skip(1));
            }
        } else {
            self.awaiting_input = true;
        }
    }

    /// OUT: appends the low byte of R0 to the output queue as one
    /// character.
    fn out(&mut self)
        requires
            old(self).wf(),
        ensures
            final(self).wf(),
            final(self)@ == trap_out(old(self)@),
    {
        let c = self.registers[0];
        proof {
            lemma_word_bytes(c);
        }
        self.output.push((c & 0xFF) as u8);
    }

    /// PUTS: R0 addresses a sequence of words, one character in each
    /// low byte; emits characters up to but excluding the first zero
    /// word, the address wrapping modulo 2^16. Where no terminator
    /// exists, the scan stops after one full pass of memory.
    fn puts(&mut self)
        requires
            old(self).wf(),
        ensures
            final(self).wf(),
            final(self)@ == trap_puts(old(self)@),
    {
        let ghost orig = self@;
        let mut addr: u16 = self.registers[0];
        let mut budget: usize = MEMORY_SIZE;
        loop
            invariant_except_break
                self.wf(),
                self@.regs == orig.regs,
                self@.mem == orig.mem,
                self@.running == orig.running,
                self@.awaiting_input == orig.awaiting_input,
                self@.input == orig.input,
                budget <= MEMORY_SIZE,
                self@.output + string_bytes_from(orig.mem, addr, budget as nat) == orig.output
                    + string_bytes(orig.mem, orig.regs[0]),
            ensures
                self.wf(),
                self@ == trap_puts(orig),
            decreases budget,
        {
            if budget == 0 {
                proof {
                    assert(self@.output + string_bytes_from(orig.mem, addr, 0) =~= self@.output);
                    assert(self@ =~= trap_puts(orig));
                }
                break;
            }
            let character = self.memory[addr as usize];
            if character == 0 {
                proof {
                    assert(self@.output + string_bytes_from(orig.mem, addr, budget as nat)
                        =~= self@.output);
                    assert(self@ =~= trap_puts(orig));
                }
                break;
            }
            proof {
                lemma_word_bytes(character);
            }
            let ghost pre = self@;
            self.output.push((character & 0xFF) as u8);
            proof {
                let c = (character & 0xFF) as u8;
                let rest = string_bytes_from(orig.mem, addr.wrapping_add(1), (budget - 1) as nat);
                assert(string_bytes_from(orig.mem, addr, budget as nat) == seq![c] + rest);
                assert(pre.output.push(c) =~= pre.output + seq![c]);
                assert((pre.output + seq![c]) + rest =~= pre.output + (seq![c] + rest));
            }
            addr = addr.wrapping_add(1);
            budget = budget - 1;
        }
    }

    /// IN: writes the prompt to the output queue, then behaves as
    /// GETC.
    fn scan(&mut self)
        requires
            old(self).wf(),
        ensures
            final(self).wf(),
            final(self)@ == trap_in(old(self)@),
    {
        self.output.push(69);
        self.output.push(110);
        self.output.push(116);
        self.output.push(101);
        self.output.push(114);
        self.output.push(32);
        self.output.push(97);
        self.output.push(32);
        self.output.push(99);
        self.output.push(104);
        self.output.push(97);
        self.output.push(114);
        self.output.push(97);
        self.output.push(99);
        self.output.push(116);
        self.output.push(101);
        self.output.push(114);
        self.output.push(58);
        self.output.push(32);
        proof {
            assert(self@.output =~= old(self)@.output + prompt_bytes());
            assert(self@ =~= (VmView {
                output: old(self)@.output + prompt_bytes(),
                ..old(self)@
            }));
        }
        self.get_character();
    }

    /// PUTSP: like PUTS but two packed characters per word, low byte
    /// first, the address wrapping modulo 2^16; a zero low byte ends
    /// the string, a zero high byte ends it after that word's low
    /// byte. Where no terminator exists, the scan stops after one
    /// full pass of memory.
    fn putsp(&mut self)
        requires
            old(self).wf(),
        ensures
            final(self).wf(),
            final(self)@ == trap_putsp(old(self)@),
    {
        let ghost orig = self@;
        let mut addr: u16 = self.registers[0];
        let mut budget: usize = MEMORY_SIZE;
        loop
            invariant_except_break
                self.wf(),
                self@.regs == orig.regs,
                self@.mem == orig.mem,
                self@.running == orig.running,
                self@.awaiting_input == orig.awaiting_input,
                self@.input == orig.input,
                budget <= MEMORY_SIZE,
                self@.output + packed_bytes_from(orig.mem, addr, budget as nat) == orig.output
                    + packed_bytes(orig.mem, orig.regs[0]),
            ensures
                self.wf(),
                self@ == trap_putsp(orig),
            decreases budget,
        {
            if budget == 0 {
                proof {
                    assert(self@.output + packed_bytes_from(orig.mem, addr, 0) =~= self@.output);
                    assert(self@ =~= trap_putsp(orig));
                }
                break;
            }
            let character = self.memory[addr as usize];
            if character & 0xFF == 0 {
                proof {
                    assert(self@.output + packed_bytes_from(orig.mem, addr, budget as nat)
                        =~= self@.output);
                    assert(self@ =~= trap_putsp(orig));
                }
                break;
            }
            proof {
                lemma_word_bytes(character);
            }
            let ghost pre = self@;
            self.output.push((character & 0xFF) as u8);
            let second_part = character >> 8;
            if second_part == 0 {
                proof {
                    let c = (character & 0xFF) as u8;
                    assert(packed_bytes_from(orig.mem, addr, budget as nat) == seq![c]);
                    assert(pre.output.push(c) =~= pre.output + seq![c]);
                    assert(self@ =~= trap_putsp(orig));
                }
                break;
            }
            self.output.push(second_part as u8);
            proof {
                let c = (character & 0xFF) as u8;
                let h = (character >> 8) as u8;
                let rest = packed_bytes_from(orig.mem, addr.wrapping_add(1), (budget - 1) as nat);
                assert(packed_bytes_from(orig.mem, addr, budget as nat) == seq![c, h] + rest);
                assert(pre.output.push(c).push(h) =~= pre.output + seq![c, h]);
                assert((pre.output + seq![c, h]) + rest =~= pre.output + (seq![c, h] + rest));
            }
            addr = addr.wrapping_add(1);
            budget = budget - 1;
        }
    }

    /// HALT: writes the farewell line to the output queue and clears
    /// the running flag — the engine's one terminal transition.
    fn halt(&mut self)
        requires
            old(self).wf(),
        ensures
            final(self).wf(),
            final(self)@ == trap_halt(old(self)@),
    {
        self.output.push(71);
        self.output.push(111);
        self.output.push(111);
        self.output.push(100);
        self.output.push(98);
        self.output.push(121);
        self.output.push(101);
        self.output.push(33);
        self.output.push(10);
        self.running = false;
        proof {
            assert(self@.output =~= old(self)@.output + farewell_bytes());
            assert(self@ =~= trap_halt(old(self)@));
        }
    }

    /// TRAP: dispatches the low 8 bits to one of the six service
    /// routines; any other code is a fatal error and changes nothing.
    pub fn trap(&mut self, instr: u16) -> (r: Result<(), VmError>)
        requires
            old(self).wf(),
        ensures
            final(self).wf(),
            final(self)@ == op_trap(old(self)@, instr).0,
            r == op_trap(old(self)@, instr).1,
    {
        let code = instr & 0xFF;
        if code == TRAP_GET_CHARACTER {
            self.get_character();
            Ok(())
        } else if code == TRAP_OUT {
            self.out();
            Ok(())
        } else if code == TRAP_PUTS {
            self.puts();
            Ok(())
        } else if code == TRAP_IN {
            self.scan();
            Ok(())
        } else if code == TRAP_PUTS_TWO {
            self.putsp();
            Ok(())
        } else if code == TRAP_HALT {
            self.halt();
            Ok(())
        } else {
            Err(VmError::UnknownTrap { code })
        }
    }

    /// One cycle of the engine: completes a pending input request if
    /// one is open, and otherwise fetches the word the program counter
    /// addresses, increments the counter with wraparound, decodes the
    /// high nibble, and executes. A reserved opcode is a fatal error
    /// identifying the instruction and its address.
    pub fn step(&mut self) -> (r: Result<(), VmError>)
        requires
            old(self).wf(),
            old(self)@.running,
        ensures
            final(self).wf(),
            final(self)@ == machine_step(old(self)@).0,
            r == machine_step(old(self)@).1,
    {
        if self.awaiting_input {
            if self.input.len() == 0 {
                return Ok(());
            }
            let byte = self.input.remove(0);
            self.registers[0] = byte as u16;
            self.awaiting_input = false;
            proof {
                assert(old(self)@.input.remove(0) =~= old(self)@.input.skip(1));
                assert(self@ =~= deliver_pending_input(old(self)@));
            }
            return Ok(());
        }
        let pc = self.registers[R_PC];
        let instr = self.mem_read(pc);
        self.registers[R_PC] = pc.wrapping_add(1);
        proof {
            lemma_instruction_fields(instr);
            let (m2, i2, fetched) = read_cell(old(self)@.mem, old(self)@.input, pc);
            assert(self@ =~= (VmView {
                mem: m2,
                input: i2,
                regs: old(self)@.regs.update(R_PC as int, pc.wrapping_add(1)),
                ..old(self)@
            }));
        }
        let op = instr >> 12;
        match OperationCodes::from_integer(op) {
            OperationCodes::Branch => {
                self.branch(instr);
                Ok(())
            },
            OperationCodes::Add => {
                self.add(instr);
                Ok(())
            },
            OperationCodes::Load => {
                self.load(instr);
                Ok(())
            },
            OperationCodes::Store => {
                self.store(instr);
                Ok(())
            },
            OperationCodes::JumpRegister => {
                self.jump_register(instr);
                Ok(())
            },
            OperationCodes::And => {
                self.and(instr);
                Ok(())
            },
            OperationCodes::LoadRegister => {
                self.load_register(instr);
                Ok(())
            },
            OperationCodes::StoreRegister => {
                self.store_register(instr);
                Ok(())
            },
            OperationCodes::Not => {
                self.not(instr);
                Ok(())
            },
            OperationCodes::LoadIndirect => {
                self.load_indirect(instr);
                Ok(())
            },
            OperationCodes::StoreIndirect => {
                self.store_indirect(instr);
                Ok(())
            },
            OperationCodes::Jump => {
                self.jump(instr);
                Ok(())
            },
            OperationCodes::LoadEffectiveAddress => {
                self.load_effective_address(instr);
                Ok(())
            },
            OperationCodes::Trap => self.trap(instr),
            _ => Err(VmError::UnknownOpcode { instr, addr: pc }),
        }
    }

    /// Drives the fetch-decode-execute loop for at most `max_cycles`
    /// cycles. Comes to rest when the HALT routine clears the running
    /// flag, when a read waits on an empty input queue, when the cycle
    /// allowance runs out, or — fatally — when decode or dispatch
    /// fails; every state on the way is reached by the cycle
    /// transition alone.
    pub fn run(&mut self, max_cycles: u64) -> (r: Result<RunExit, VmError>)
        requires
            old(self).wf(),
        ensures
            final(self).wf(),
            r matches Ok(e) ==> reaches(old(self)@, final(self)@) && (match e {
                RunExit::Halted => !final(self)@.running,
                RunExit::NeedsInput => final(self)@.running && final(self)@.awaiting_input
                    && final(self)@.input.len() == 0,
                RunExit::OutOfCycles => final(self)@.running && runs_to(
                    old(self)@,
                    final(self)@,
                    max_cycles as nat,
                ),
            }),
            r matches Err(e) ==> final(self)@.running && faults_to(old(self)@, final(self)@, e),
    {
        let ghost start_v = self@;
        let mut cycles: u64 = 0;
        loop
            invariant
                self.wf(),
                cycles <= max_cycles,
                start_v == old(self)@,
                runs_to(start_v, self@, cycles as nat),
            decreases max_cycles - cycles,
        {
            if !self.running {
                return Ok(RunExit::Halted);
            }
            if self.awaiting_input && self.input.len() == 0 {
                return Ok(RunExit::NeedsInput);
            }
            if cycles >= max_cycles {
                return Ok(RunExit::OutOfCycles);
            }
            let ghost prev = self@;
            let r = self.step();
            match r {
                Ok(()) => {
                    proof {
                        lemma_runs_to_snoc(start_v, prev, cycles as nat);
                    }
                    cycles = cycles + 1;
                },
                Err(e) => {
                    proof {
                        assert(machine_step(prev) == (self@, Err::<(), VmError>(e)));
                        assert(faults_to(start_v, self@, e));
                    }
                    return Err(e);
                },
            }
        }
    }

    /// Readies the machine for execution: program counter at the fixed
    /// start address, running flag set.
    pub fn start(&mut self)
        requires
            old(self).wf(),
        ensures
            final(self).wf(),
            final(self)@ == (VmView {
                regs: old(self)@.regs.update(R_PC as int, PROGRAM_START),
                running: true,
                ..old(self)@
            }),
    {
        self.registers[R_PC] = PROGRAM_START;
        self.running = true;
    }

    /// Loads a program image: one big-endian origin word, then
    /// big-endian words placed contiguously from the origin on, the
    /// address wrapping modulo 2^16. An image without a full origin
    /// word, or with a truncated final word, is rejected whole and
    /// changes nothing.
    pub fn load_image(&mut self, image: &Vec<u8>) -> (r: Result<(), VmError>)
        requires
            old(self).wf(),
        ensures
            final(self).wf(),
            image@.len() < 2 ==> r == Err::<(), VmError>(VmError::ShortOrigin) && final(self)@
                == old(self)@,
            image@.len() >= 2 && image@.len() % 2 != 0 ==> r == Err::<(), VmError>(
                VmError::TruncatedWord,
            ) && final(self)@ == old(self)@,
            image@.len() >= 2 && image@.len() % 2 == 0 ==> r == Ok::<(), VmError>(())
                && final(self)@ == (VmView {
                mem: store_words(
                    old(self)@.mem,
                    be16(image@[0], image@[1]),
                    image_words(image@.skip(2)),
                ),
                ..old(self)@
            }),
    {
        let ghost orig = self@;
        if image.len() < 2 {
            return Err(VmError::ShortOrigin);
        }
        if image.len() % 2 != 0 {
            return Err(VmError::TruncatedWord);
        }
        let origin0 = swap_endian([image[0], image[1]]);
        let mut origin: u16 = origin0;
        let mut i: usize = 2;
        while i < image.len()
            invariant
                self.wf(),
                orig.wf(),
                self@.regs == orig.regs,
                self@.running == orig.running,
                self@.awaiting_input == orig.awaiting_input,
                self@.input == orig.input,
                self@.output == orig.output,
                2 <= i <= image@.len(),
                i % 2 == 0,
                image@.len() % 2 == 0,
                origin0 == be16(image@[0], image@[1]),
                store_words(orig.mem, origin0, image_words(image@.skip(2))) == store_words(
                    self@.mem,
                    origin,
                    image_words(image@.skip(i as int)),
                ),
            decreases image@.len() - i,
        {
            let hi = image[i];
            let lo = image[i + 1];
            let w = swap_endian([hi, lo]);
            let ghost pre_mem = self@.mem;
            self.mem_write(origin, w);
            proof {
                let rest = image@.skip(i as int);
                assert(rest.len() >= 2);
                assert(rest[0] == image@[i as int]);
                assert(rest[1] == image@[i as int + 1]);
                assert(rest.skip(2) =~= image@.skip(i as int + 2));
                assert(image_words(rest) == seq![w] + image_words(image@.skip(i as int + 2)));
                lemma_store_words_cons(pre_mem, origin, w, image_words(image@.skip(i as int + 2)));
            }
            origin = origin.wrapping_add(1);
            i = i + 2;
        }
        proof {
            assert(image@.skip(i as int).len() == 0);
            assert(image_words(image@.skip(i as int)) =~= Seq::<u16>::empty());
            assert(store_words(self@.mem, origin, image_words(image@.skip(i as int))) == self@.mem);
            assert(self@ =~= (VmView {
                mem: store_words(orig.mem, origin0, image_words(image@.skip(2))),
                ..orig
            }));
        }
        Ok(())
    }

    /// Appends one byte of console input to the input queue.
    pub fn push_input(&mut self, byte: u8)
        requires
            old(self).wf(),
        ensures
            final(self).wf(),
            final(self)@ == (VmView { input: old(self)@.input.push(byte), ..old(self)@ }),
    {
        self.input.push(byte);
    }

    /// Hands over everything written to the output queue so far,
    /// leaving it empty.
    pub fn take_output(&mut self) -> (out: Vec<u8>)
        requires
            old(self).wf(),
        ensures
            final(self).wf(),
            out@ == old(self)@.output,
            final(self)@ == (VmView { output: Seq::<u8>::empty(), ..old(self)@ }),
    {
        let out = self.output.split_off(0);
        proof {
            assert(out@ =~= old(self)@.output);
            assert(self@.output =~= Seq::<u8>::empty());
        }
        out
    }

    /// Whether the fetch-decode-execute loop is live.
    pub fn is_running(&self) -> (b: bool)
        ensures
            b == self@.running,
    {
        self.running
    }

    /// Whether a GETC or IN request is waiting for a byte of input.
    pub fn is_awaiting_input(&self) -> (b: bool)
        ensures
            b == self@.awaiting_input,
    {
        self.awaiting_input
    }
}

} // verus!
