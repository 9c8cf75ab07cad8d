use toy_machines::instruction::{Instruction, Opcode};
use toy_machines::vm::VM;

#[test]
fn mod_test_create_vm() {
    let test_vm = VM::new();
    assert_eq!(test_vm.register(0), 0)
}

#[test]
fn mod_test_opcode_hlt() {
    let mut test_vm = VM::new();
    let test_bytes = vec![0, 0, 0, 0];
    test_vm.set_program(test_bytes);
    test_vm.run();
    assert_eq!(test_vm.pc(), 1);
}

#[test]
fn mod_test_opcode_igl() {
    let mut test_vm = VM::new();
    let test_bytes = vec![200, 0, 0, 0];
    test_vm.set_program(test_bytes);
    test_vm.run();
    assert_eq!(test_vm.pc(), 1);
}

#[test]
fn mod_test_opcode_load() {
    let mut vm = VM::new();
    vm.set_program(vec![Opcode::LOAD as u8, 10, 1, 244]);
    vm.execute_instruction();
    assert_eq!(vm.register(10), 500);
}

#[test]
fn test_opcode_jmp() {
    let mut vm = VM::new();
    vm.set_register(0, 99);
    vm.set_program(vec![Opcode::JMP as u8, 0, 0, 0]);
    vm.execute_instruction();
    assert_eq!(vm.pc(), 99);
}

#[test]
fn test_opcode_jmpf() {
    let mut vm = VM::new();
    vm.set_program(vec![Opcode::JMPF as u8, 10, 0, 0]);
    vm.execute_instruction();
    assert_eq!(vm.pc(), 2 + 10);
}

#[test]
fn test_opcode_jmpb() {
    let mut vm = VM::new();
    // The 2 moves us up to JMPB, then the 6 moves us back to the start.
    vm.set_program(vec![Opcode::JMPF as u8, 2, 0, 0, Opcode::JMPB as u8, 6, 0, 0]);
    vm.execute_instruction();
    vm.execute_instruction();
    assert_eq!(vm.pc(), 0);
    // This means we should be able to loop.
    vm.execute_instruction();
    vm.execute_instruction();
    assert_eq!(vm.pc(), 0);
}

#[test]
fn test_eq_opcode() {
    let mut vm = VM::new();
    vm.set_register(0, 10);
    vm.set_register(1, 10);
    vm.set_program(vec![Opcode::EQ as u8, 0, 1, 0, Opcode::EQ as u8, 0, 1, 0]);
    vm.execute_instruction();
    assert_eq!(vm.equal_flag(), true);
    vm.set_register(1, 20);
    vm.execute_instruction();
    assert_eq!(vm.equal_flag(), false);
}

#[test]
fn mod_test_u8_to_u16_conversion() {
    let mut vm = VM::new();
    vm.set_program(vec![0, u8::MAX]);
    assert_eq!(vm.next_u16(), u8::MAX as u16);

    vm.extend_program(&[2, 0]);
    assert_eq!(vm.next_u16(), (u8::MAX as u16 + 1) * 2);

    vm.extend_program(&[u8::MAX, u8::MAX]);
    assert_eq!(vm.next_u16(), u16::MAX);
}

#[test]
fn vm_test_create_vm() {
    let test_vm = VM::new();
    assert_eq!(test_vm.register(0), 0)
}

#[test]
fn vm_test_opcode_hlt() {
    let mut test_vm = VM::new();
    let test_bytes = vec![0, 0, 0, 0];
    test_vm.set_program(test_bytes);
    test_vm.run();
    assert_eq!(test_vm.pc(), 1);
}

#[test]
fn vm_test_opcode_igl() {
    let mut test_vm = VM::new();
    let test_bytes = vec![200, 0, 0, 0];
    test_vm.set_program(test_bytes);
    test_vm.run();
    assert_eq!(test_vm.pc(), 1);
}

#[test]
fn vm_test_opcode_load() {
    let mut test_vm = VM::new();
    let test_bytes = vec![200, 0, 0, 0];
    test_vm.set_program(test_bytes);
    test_vm.run();
    assert_eq!(test_vm.pc(), 1);
}

#[test]
fn vm_test_u8_to_u16_conversion() {
    let mut vm = VM::new();
    vm.set_program(vec![0, u8::MAX]);
    assert_eq!(vm.next_u16(), u8::MAX as u16);

    vm.extend_program(&[2, 0]);
    assert_eq!(vm.next_u16(), (u8::MAX as u16 + 1) * 2);

    vm.extend_program(&[u8::MAX, u8::MAX]);
    assert_eq!(vm.next_u16(), u16::MAX);
}

#[test]
fn test_create_hlt() {
    let opcode = Opcode::HLT;
    assert_eq!(opcode, Opcode::HLT);
}

#[test]
fn test_create_instruction() {
    let instruction = Instruction::new(Opcode::HLT);
    assert_eq!(instruction.opcode, Opcode::HLT);
}

#[test]
fn test_new_vm_state_is_zeroed() {
    let vm = VM::new();
    for i in 0..32 {
        assert_eq!(vm.register(i), 0);
    }
    assert_eq!(vm.pc(), 0);
    assert_eq!(vm.remainder(), 0);
    assert_eq!(vm.equal_flag(), false);
}

#[test]
fn test_opcode_add() {
    let mut vm = VM::new();
    vm.set_register(0, 12);
    vm.set_register(1, 30);
    vm.set_program(vec![Opcode::ADD as u8, 0, 1, 2]);
    vm.execute_instruction();
    assert_eq!(vm.register(2), 42);
    assert_eq!(vm.pc(), 4);
}

#[test]
fn test_opcode_add_wraps() {
    let mut vm = VM::new();
    vm.set_register(0, i32::MAX);
    vm.set_register(1, 1);
    vm.set_program(vec![Opcode::ADD as u8, 0, 1, 2]);
    vm.execute_instruction();
    assert_eq!(vm.register(2), i32::MIN);
}

#[test]
fn test_opcode_sub() {
    let mut vm = VM::new();
    vm.set_register(0, 10);
    vm.set_register(1, 25);
    vm.set_program(vec![Opcode::SUB as u8, 0, 1, 2]);
    vm.execute_instruction();
    assert_eq!(vm.register(2), -15);
}

#[test]
fn test_opcode_mul() {
    let mut vm = VM::new();
    vm.set_register(0, -6);
    vm.set_register(1, 7);
    vm.set_program(vec![Opcode::MUL as u8, 0, 1, 2]);
    vm.execute_instruction();
    assert_eq!(vm.register(2), -42);
}

#[test]
fn test_opcode_div_and_remainder() {
    let mut vm = VM::new();
    vm.set_register(0, 7);
    vm.set_register(1, 2);
    vm.set_program(vec![Opcode::DIV as u8, 0, 1, 2]);
    vm.execute_instruction();
    assert_eq!(vm.register(2), 3);
    assert_eq!(vm.remainder(), 1);
}

#[test]
fn test_opcode_div_negative_dividend() {
    let mut vm = VM::new();
    vm.set_register(0, -7);
    vm.set_register(1, 2);
    vm.set_program(vec![Opcode::DIV as u8, 0, 1, 2]);
    vm.execute_instruction();
    // Truncating division, remainder stored as its 32-bit unsigned pattern.
    assert_eq!(vm.register(2), -3);
    assert_eq!(vm.remainder(), (-1i32) as u32);
}

#[test]
fn test_opcode_jeq_taken_and_skipped() {
    let mut vm = VM::new();
    vm.set_register(0, 10);
    vm.set_register(1, 10);
    vm.set_register(2, 20);
    vm.set_program(vec![
        Opcode::EQ as u8,
        0,
        1,
        0,
        Opcode::JEQ as u8,
        2,
        0,
        0,
    ]);
    vm.execute_instruction();
    assert_eq!(vm.equal_flag(), true);
    vm.execute_instruction();
    assert_eq!(vm.pc(), 20);

    let mut vm = VM::new();
    vm.set_register(0, 1);
    vm.set_register(1, 2);
    vm.set_register(2, 20);
    vm.set_program(vec![
        Opcode::EQ as u8,
        0,
        1,
        0,
        Opcode::JEQ as u8,
        2,
        0,
        0,
    ]);
    vm.execute_instruction();
    assert_eq!(vm.equal_flag(), false);
    vm.execute_instruction();
    // Not taken: the counter skips the fixed four-byte instruction.
    assert_eq!(vm.pc(), 8);
}

#[test]
fn test_run_load_then_halt() {
    let mut vm = VM::new();
    vm.set_program(vec![Opcode::LOAD as u8, 3, 0x01, 0xF4, Opcode::HLT as u8]);
    vm.run();
    assert_eq!(vm.register(3), 500);
    assert_eq!(vm.pc(), 5);
}

#[test]
fn test_opcode_round_trip() {
    for b in 0u8..=10 {
        assert_eq!(Opcode::from_byte(b).to_byte(), b);
    }
    assert_eq!(Opcode::from_byte(11), Opcode::IGL);
    assert_eq!(Opcode::from_byte(200), Opcode::IGL);
}
