use lc3_vm::Registers;
use lc3_vm::VM;
use lc3_vm::isa::NEGATIVE;
use lc3_vm::isa::OperationCodes;
use lc3_vm::isa::POSITIVE;
use lc3_vm::isa::VmError;
use lc3_vm::isa::ZERO;

#[test]
fn can_add_indirect() {
    let mut vm = VM::new();
    vm.set_register(Registers::R2 as u16, 0);
    vm.set_register(Registers::R3 as u16, 1);
    vm.set_register(Registers::R4 as u16, 3);
    vm.add(0b0001_010_011_0_00_100);

    assert_eq!(vm.register(Registers::R2 as u16), 4, "Could not add indirectly!");
    assert_eq!(
        vm.register(Registers::Condition as u16),
        POSITIVE,
        "Condition register not updated correctly!"
    )
}

#[test]
fn can_add_immediate() {
    let mut vm = VM::new();
    vm.set_register(Registers::R2 as u16, 0);
    vm.set_register(Registers::R3 as u16, 1);
    vm.add(0b0001_010_011_1_10010);

    assert_eq!(vm.register(Registers::R2 as u16), 65523, "Could not add immediately!"); //Two's complement
    assert_eq!(
        vm.register(Registers::Condition as u16),
        NEGATIVE,
        "Condition register not updated correctly!"
    )
}

#[test]
fn add_sets_zero_flag() {
    let mut vm = VM::new();
    vm.set_register(3, 5);
    // ADD R2, R3, #-5
    vm.add(0b0001_010_011_1_11011);
    assert_eq!(vm.register(2), 0);
    assert_eq!(vm.register(9), ZERO);
}

#[test]
fn and_register_mode() {
    let mut vm = VM::new();
    vm.set_register(3, 0b1100);
    vm.set_register(4, 0b1010);
    // AND R2, R3, R4
    vm.and(0b0101_010_011_0_00_100);
    assert_eq!(vm.register(2), 0b1000);
    assert_eq!(vm.register(9), POSITIVE);
}

#[test]
fn and_immediate_mode() {
    let mut vm = VM::new();
    vm.set_register(3, 0xFFFF);
    // AND R2, R3, #0 clears the register.
    vm.and(0b0101_010_011_1_00000);
    assert_eq!(vm.register(2), 0);
    assert_eq!(vm.register(9), ZERO);
}

#[test]
fn not_complements() {
    let mut vm = VM::new();
    vm.set_register(3, 0x00FF);
    // NOT R2, R3
    vm.not(0b1001_010_011_1_11111);
    assert_eq!(vm.register(2), 0xFF00);
    assert_eq!(vm.register(9), NEGATIVE);
}

#[test]
fn update_flags_is_exclusive() {
    let mut vm = VM::new();
    vm.set_register(0, 0);
    vm.update_flags(0);
    assert_eq!(vm.register(9), ZERO);
    vm.set_register(0, 0x8000);
    vm.update_flags(0);
    assert_eq!(vm.register(9), NEGATIVE);
    vm.set_register(0, 1);
    vm.update_flags(0);
    assert_eq!(vm.register(9), POSITIVE);
}

#[test]
fn branch_not_taken_leaves_pc_at_next() {
    let mut vm = VM::new();
    vm.start();
    vm.set_register(9, POSITIVE);
    // BRz #5: zero mask does not intersect the positive flag.
    vm.mem_write(0x3000, 0b0000_010_000000101);
    vm.step().unwrap();
    assert_eq!(vm.register(8), 0x3001);
}

#[test]
fn branch_taken_adds_offset() {
    let mut vm = VM::new();
    vm.start();
    vm.set_register(9, POSITIVE);
    // BRp #5.
    vm.mem_write(0x3000, 0b0000_001_000000101);
    vm.step().unwrap();
    assert_eq!(vm.register(8), 0x3006);
}

#[test]
fn branch_backwards_offset() {
    let mut vm = VM::new();
    vm.start();
    vm.set_register(9, ZERO);
    // BRnzp #-1 loops back onto the branch itself.
    vm.mem_write(0x3000, 0b0000_111_111111111);
    vm.step().unwrap();
    assert_eq!(vm.register(8), 0x3000);
}

#[test]
fn jump_register_call_saves_return_address() {
    let mut vm = VM::new();
    vm.start();
    // JSR #16.
    vm.mem_write(0x3000, 0b0100_1_00000010000);
    vm.step().unwrap();
    assert_eq!(vm.register(7), 0x3001);
    assert_eq!(vm.register(8), 0x3011);
}

#[test]
fn jump_register_register_form_saves_return_address() {
    let mut vm = VM::new();
    vm.start();
    vm.set_register(3, 0x4000);
    // JSRR R3.
    vm.mem_write(0x3000, 0b0100_0_00_011_000000);
    vm.step().unwrap();
    assert_eq!(vm.register(7), 0x3001);
    assert_eq!(vm.register(8), 0x4000);
}

#[test]
fn jump_takes_register_value() {
    let mut vm = VM::new();
    vm.start();
    vm.set_register(3, 0x1234);
    // JMP R3.
    vm.mem_write(0x3000, 0b1100_000_011_000000);
    vm.step().unwrap();
    assert_eq!(vm.register(8), 0x1234);
}

#[test]
fn load_reads_pc_relative() {
    let mut vm = VM::new();
    vm.start();
    vm.mem_write(0x3005, 0xBEEF);
    // LD R2, #4.
    vm.mem_write(0x3000, 0b0010_010_000000100);
    vm.step().unwrap();
    assert_eq!(vm.register(2), 0xBEEF);
    assert_eq!(vm.register(9), NEGATIVE);
}

#[test]
fn load_indirect_follows_pointer() {
    let mut vm = VM::new();
    vm.start();
    vm.mem_write(0x3002, 0x4000);
    vm.mem_write(0x4000, 0x0042);
    // LDI R2, #1.
    vm.mem_write(0x3000, 0b1010_010_000000001);
    vm.step().unwrap();
    assert_eq!(vm.register(2), 0x0042);
    assert_eq!(vm.register(9), POSITIVE);
}

#[test]
fn load_register_uses_base_and_offset() {
    let mut vm = VM::new();
    vm.start();
    vm.set_register(3, 0x4000);
    vm.mem_write(0x4002, 7);
    // LDR R2, R3, #2.
    vm.mem_write(0x3000, 0b0110_010_011_000010);
    vm.step().unwrap();
    assert_eq!(vm.register(2), 7);
}

#[test]
fn load_effective_address_computes_address() {
    let mut vm = VM::new();
    vm.start();
    // LEA R2, #3.
    vm.mem_write(0x3000, 0b1110_010_000000011);
    vm.step().unwrap();
    assert_eq!(vm.register(2), 0x3004);
    assert_eq!(vm.register(9), POSITIVE);
}

#[test]
fn store_writes_pc_relative() {
    let mut vm = VM::new();
    vm.start();
    vm.set_register(2, 0x1234);
    // ST R2, #2.
    vm.mem_write(0x3000, 0b0011_010_000000010);
    vm.step().unwrap();
    assert_eq!(vm.mem_read(0x3003), 0x1234);
}

#[test]
fn store_indirect_writes_through_pointer() {
    let mut vm = VM::new();
    vm.start();
    vm.mem_write(0x3002, 0x5000);
    vm.set_register(2, 0xABCD);
    // STI R2, #1.
    vm.mem_write(0x3000, 0b1011_010_000000001);
    vm.step().unwrap();
    assert_eq!(vm.mem_read(0x5000), 0xABCD);
}

#[test]
fn store_register_uses_base_and_offset() {
    let mut vm = VM::new();
    vm.start();
    vm.set_register(3, 0x4000);
    vm.set_register(2, 9);
    // STR R2, R3, #1.
    vm.mem_write(0x3000, 0b0111_010_011_000001);
    vm.step().unwrap();
    assert_eq!(vm.mem_read(0x4001), 9);
}

#[test]
fn decode_is_total() {
    assert_eq!(OperationCodes::from_integer(0), OperationCodes::Branch);
    assert_eq!(OperationCodes::from_integer(1), OperationCodes::Add);
    assert_eq!(OperationCodes::from_integer(2), OperationCodes::Load);
    assert_eq!(OperationCodes::from_integer(3), OperationCodes::Store);
    assert_eq!(OperationCodes::from_integer(4), OperationCodes::JumpRegister);
    assert_eq!(OperationCodes::from_integer(5), OperationCodes::And);
    assert_eq!(OperationCodes::from_integer(6), OperationCodes::LoadRegister);
    assert_eq!(OperationCodes::from_integer(7), OperationCodes::StoreRegister);
    assert_eq!(OperationCodes::from_integer(8), OperationCodes::Unused);
    assert_eq!(OperationCodes::from_integer(9), OperationCodes::Not);
    assert_eq!(OperationCodes::from_integer(10), OperationCodes::LoadIndirect);
    assert_eq!(OperationCodes::from_integer(11), OperationCodes::StoreIndirect);
    assert_eq!(OperationCodes::from_integer(12), OperationCodes::Jump);
    assert_eq!(OperationCodes::from_integer(13), OperationCodes::Reserved);
    assert_eq!(OperationCodes::from_integer(14), OperationCodes::LoadEffectiveAddress);
    assert_eq!(OperationCodes::from_integer(15), OperationCodes::Trap);
}

#[test]
fn reserved_opcodes_fault() {
    let mut vm = VM::new();
    vm.start();
    vm.mem_write(0x3000, 0x8123);
    assert_eq!(vm.step(), Err(VmError::UnknownOpcode { instr: 0x8123, addr: 0x3000 }));

    let mut vm2 = VM::new();
    vm2.start();
    vm2.mem_write(0x3000, 0xD000);
    assert_eq!(vm2.step(), Err(VmError::UnknownOpcode { instr: 0xD000, addr: 0x3000 }));
}

#[test]
fn can_load_image() {
    let mut vm = VM::new();
    let image: Vec<u8> = vec![0x30, 0x00, 0x12, 0x34];
    assert_eq!(vm.load_image(&image), Ok(()));
    assert_eq!(vm.mem_read(0x3000), 0x1234);
}

#[test]
fn load_image_places_words_contiguously() {
    let mut vm = VM::new();
    let image: Vec<u8> = vec![0x30, 0x00, 0x12, 0x34, 0xAB, 0xCD, 0x00, 0x07];
    assert_eq!(vm.load_image(&image), Ok(()));
    assert_eq!(vm.mem_read(0x3000), 0x1234);
    assert_eq!(vm.mem_read(0x3001), 0xABCD);
    assert_eq!(vm.mem_read(0x3002), 0x0007);
}

#[test]
fn odd_image_fails_load() {
    let mut vm = VM::new();
    let image: Vec<u8> = vec![0x30, 0x00, 0x12];
    assert_eq!(vm.load_image(&image), Err(VmError::TruncatedWord));
    // Nothing was placed.
    assert_eq!(vm.mem_read(0x3000), 0);
}

#[test]
fn short_origin_fails_load() {
    let mut vm = VM::new();
    let image: Vec<u8> = vec![0x30];
    assert_eq!(vm.load_image(&image), Err(VmError::ShortOrigin));
    let empty: Vec<u8> = Vec::new();
    assert_eq!(vm.load_image(&empty), Err(VmError::ShortOrigin));
}
