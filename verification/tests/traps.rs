use lc3_vm::VM;
use lc3_vm::isa::RunExit;
use lc3_vm::isa::VmError;

#[test]
fn getc_reads_one_byte_into_r0() {
    let mut vm = VM::new();
    vm.push_input(97);
    assert_eq!(vm.trap(0xF020), Ok(()));
    assert_eq!(vm.register(0), 97);
    assert!(!vm.is_awaiting_input());
}

#[test]
fn getc_waits_when_queue_is_empty() {
    let mut vm = VM::new();
    assert_eq!(vm.trap(0xF020), Ok(()));
    assert!(vm.is_awaiting_input());
}

#[test]
fn run_pauses_for_input_and_resumes() {
    let mut vm = VM::new();
    vm.start();
    vm.mem_write(0x3000, 0xF020); // TRAP GETC
    vm.mem_write(0x3001, 0xF025); // TRAP HALT
    assert_eq!(vm.run(100), Ok(RunExit::NeedsInput));
    vm.push_input(65);
    assert_eq!(vm.run(100), Ok(RunExit::Halted));
    assert_eq!(vm.register(0), 65);
}

#[test]
fn out_emits_low_byte_of_r0() {
    let mut vm = VM::new();
    vm.set_register(0, 0x0141);
    assert_eq!(vm.trap(0xF021), Ok(()));
    assert_eq!(vm.take_output(), vec![0x41]);
}

#[test]
fn puts_emits_until_zero_word() {
    let mut vm = VM::new();
    vm.mem_write(0x4000, 0x48);
    vm.mem_write(0x4001, 0x49);
    vm.mem_write(0x4002, 0x00);
    vm.mem_write(0x4003, 0x5A); // past the terminator, never read
    vm.set_register(0, 0x4000);
    assert_eq!(vm.trap(0xF022), Ok(()));
    assert_eq!(vm.take_output(), vec![0x48, 0x49]);
}

#[test]
fn putsp_emits_packed_pairs() {
    let mut vm = VM::new();
    vm.mem_write(0x4000, 0x4948); // "H" low, "I" high
    vm.mem_write(0x4001, 0x0000);
    vm.set_register(0, 0x4000);
    assert_eq!(vm.trap(0xF024), Ok(()));
    assert_eq!(vm.take_output(), vec![0x48, 0x49]);
}

#[test]
fn putsp_stops_after_low_byte_when_high_is_zero() {
    let mut vm = VM::new();
    vm.mem_write(0x4000, 0x0048); // "H" low, zero high ends the string
    vm.mem_write(0x4001, 0x5A5A);
    vm.set_register(0, 0x4000);
    assert_eq!(vm.trap(0xF024), Ok(()));
    assert_eq!(vm.take_output(), vec![0x48]);
}

#[test]
fn puts_wraps_past_top_of_memory() {
    let mut vm = VM::new();
    vm.mem_write(0xFFFF, 0x48);
    vm.mem_write(0x0000, 0x49);
    vm.mem_write(0x0001, 0x00);
    vm.set_register(0, 0xFFFF);
    assert_eq!(vm.trap(0xF022), Ok(()));
    assert_eq!(vm.take_output(), vec![0x48, 0x49]);
}

#[test]
fn putsp_wraps_past_top_of_memory() {
    let mut vm = VM::new();
    vm.mem_write(0xFFFF, 0x4948);
    vm.mem_write(0x0000, 0x0000);
    vm.set_register(0, 0xFFFF);
    assert_eq!(vm.trap(0xF024), Ok(()));
    assert_eq!(vm.take_output(), vec![0x48, 0x49]);
}

#[test]
fn scan_prompts_then_reads() {
    let mut vm = VM::new();
    vm.push_input(120);
    assert_eq!(vm.trap(0xF023), Ok(()));
    assert_eq!(vm.take_output(), b"Enter a character: ".to_vec());
    assert_eq!(vm.register(0), 120);
}

#[test]
fn halt_stops_the_machine() {
    let mut vm = VM::new();
    vm.start();
    assert!(vm.is_running());
    vm.mem_write(0x3000, 0xF025);
    // Even with a reserved opcode next, the run ends cleanly at HALT.
    vm.mem_write(0x3001, 0x8000);
    assert_eq!(vm.run(100), Ok(RunExit::Halted));
    assert!(!vm.is_running());
    assert_eq!(vm.take_output(), b"Goodbye!\n".to_vec());
}

#[test]
fn unknown_trap_faults_and_stops_the_run() {
    let mut vm = VM::new();
    vm.start();
    vm.mem_write(0x3000, 0xF099);
    vm.mem_write(0x3001, 0xF025); // never reached
    assert_eq!(vm.run(100), Err(VmError::UnknownTrap { code: 0x99 }));
    assert!(vm.take_output().is_empty());

    let mut vm2 = VM::new();
    assert_eq!(vm2.trap(0xF099), Err(VmError::UnknownTrap { code: 0x99 }));
}

#[test]
fn keyboard_status_poll_consumes_a_byte() {
    let mut vm = VM::new();
    vm.push_input(97);
    assert_eq!(vm.mem_read(0xFE00), 0x8000);
    assert_eq!(vm.mem_read(0xFE02), 97);
}

#[test]
fn keyboard_status_poll_suppresses_newline() {
    let mut vm = VM::new();
    vm.push_input(10);
    assert_eq!(vm.mem_read(0xFE00), 0);
}

#[test]
fn keyboard_status_poll_empty_queue() {
    let mut vm = VM::new();
    assert_eq!(vm.mem_read(0xFE00), 0);
    // Reads of other addresses do not poll.
    vm.push_input(97);
    assert_eq!(vm.mem_read(0x3000), 0);
    assert_eq!(vm.mem_read(0xFE00), 0x8000);
}

#[test]
fn run_respects_the_cycle_allowance() {
    let mut vm = VM::new();
    vm.start();
    // All-zero memory decodes as BRANCH never taken: runs forever.
    assert_eq!(vm.run(100), Ok(RunExit::OutOfCycles));
    assert!(vm.is_running());
    // Exactly 100 cycles executed, each advancing the program counter.
    assert_eq!(vm.register(8), 0x3064);
}

#[test]
fn take_output_leaves_the_queue_empty() {
    let mut vm = VM::new();
    vm.set_register(0, 0x41);
    vm.trap(0xF021).unwrap();
    assert_eq!(vm.take_output(), vec![0x41]);
    assert!(vm.take_output().is_empty());
}
