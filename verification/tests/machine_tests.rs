use toy_machines::allocator::MyAllocator;
use toy_machines::bits::Bit::{self, I, O};
use toy_machines::bits::Bits;
use toy_machines::bytes::Bytes;
use toy_machines::calculator::{double_all, simplest_calculator};
use toy_machines::lc3::Instruction::{AddImm, AddReg, AndReg, Not};
use toy_machines::lc3::LC3;
use toy_machines::stack_machine::{LangInterpreter, LineOutcome, StackMachine};

#[test]
/// In the context of being &-masked to get the least significant bit.
fn bits_can_safely_transmute_for_0_and_1() {
    assert_eq!(Bit::O as u8, 0);
    assert_eq!(Bit::I as u8, 1);

    // Sanity-check that all u8 values when &-ed with 1u8 result in either 0
    // or 1.
    for n in u8::MIN..=u8::MAX {
        assert!((n & 1u8) <= 1);
    }
}

#[test]
fn test_push_u8() {
    let mut bits = Bits::new();
    bits.push_u8(3);
    assert_eq!(&bits.0, &[O, O, O, O, O, O, I, I]);
    bits.clear();
    bits.push_u8(3 + 2u8.pow(2));
    assert_eq!(&bits.0, &[O, O, O, O, O, I, I, I]);
    bits.clear();
    bits.push_u8(3 + 2u8.pow(2) + 2u8.pow(3));
    assert_eq!(&bits.0, &[O, O, O, O, I, I, I, I]);

    bits.clear();
    bits.push_u8(u8::MAX - 2);
    assert_eq!(&bits.0, &[I, I, I, I, I, I, O, I]);
}

#[test]
fn test_push_u32() {
    let mut bits = Bits::new();
    bits.push_u32(u32::MAX - 1);
    assert_eq!(u8::MAX - 1, bits.pop_u8().unwrap());
    assert_eq!(u8::MAX, bits.pop_u8().unwrap());
    assert_eq!(u8::MAX, bits.pop_u8().unwrap());
    assert_eq!(u8::MAX, bits.pop_u8().unwrap());
    assert_eq!(None, bits.pop_u8());
}

#[test]
fn test_pop_u8() {
    let mut bits = Bits::new();
    bits.push_u8(10);
    assert_eq!(Some(10), bits.pop_u8());
    assert_eq!(None, bits.pop_u8());
}

#[test]
fn test_push_u16_round_trip() {
    let mut bits = Bits::new();
    bits.push_u16(0x01F4);
    assert_eq!(bits.len(), 16);
    assert_eq!(Some(0xF4), bits.pop_u8());
    assert_eq!(Some(0x01), bits.pop_u8());
    assert_eq!(None, bits.pop_u8());
}

#[test]
fn adding_16bit_works() {
    let mut sm = StackMachine::new();
    // Overflow to 0.
    sm.extend_from_slice(&[255, 255, 0, 1]);
    sm.add(2);
    assert_eq!(&sm.stack, &[0, 0]);
    // Overflow to n u8.
    for n in 0..u8::MAX {
        sm.clear();
        sm.extend_from_slice(&[255, 255, 0, 1 + n]);
        sm.add(2);
        assert_eq!(&sm.stack, &[0, n], "failed on {}", n);
    }
    // Overflow to n, u16.
    for n in (u8::MAX as u16)..u16::MAX {
        sm.clear();
        sm.extend_from_slice(&[255, 255]);
        sm.extend_from_slice(&(n + 1).to_be_bytes());
        sm.add(2);
        assert_eq!(&sm.stack, &n.to_be_bytes());
    }
}

#[test]
fn test_stack_machine_basics() {
    let mut sm = StackMachine::new();
    assert_eq!(sm.bp(), 0);
    assert_eq!(sm.sp(), 0);
    sm.push(7);
    sm.push(8);
    assert_eq!(sm.sp(), 2);
    sm.dup();
    assert_eq!(&sm.stack, &[7, 8, 8]);
    assert_eq!(sm.pop(), Some(8));
    assert_eq!(sm.pop(), Some(8));
    assert_eq!(sm.pop(), Some(7));
    assert_eq!(sm.pop(), None);
}

#[test]
fn test_interpreter_push_and_add() {
    let mut sm = StackMachine::new();
    let mut line = LangInterpreter::from_line("3");
    assert_eq!(line.interpret(&mut sm), LineOutcome::Nothing);
    let mut line = LangInterpreter::from_line("4");
    line.interpret(&mut sm);
    let mut line = LangInterpreter::from_line("add");
    line.interpret(&mut sm);
    assert_eq!(&sm.stack, &[7]);
}

#[test]
fn test_interpreter_pointers_and_pop() {
    let mut sm = StackMachine::new();
    let mut line = LangInterpreter::from_line("0x2a");
    line.interpret(&mut sm);
    assert_eq!(&sm.stack, &[42]);
    let mut line = LangInterpreter::from_line("bp");
    assert_eq!(line.interpret(&mut sm), LineOutcome::Bp(0));
    let mut line = LangInterpreter::from_line("sp");
    assert_eq!(line.interpret(&mut sm), LineOutcome::Sp(1));
    let mut line = LangInterpreter::from_line("pop");
    assert_eq!(line.interpret(&mut sm), LineOutcome::Popped(Some(42)));
    assert_eq!(sm.sp(), 0);
}

#[test]
fn test_interpreter_add_needs_stack() {
    let mut sm = StackMachine::new();
    sm.push(1);
    let mut line = LangInterpreter::from_line("add 2");
    assert_eq!(line.interpret(&mut sm), LineOutcome::Stuck);
    assert_eq!(&sm.stack, &[1]);
}

#[test]
fn add_works() {
    // add r6 r2 r6
    let test_program = vec![AddReg(1, 0, 1), AddImm(0, 1, 13)];
    let mut lc3 = LC3::new_test(test_program);
    lc3.registers[0] = 15;
    lc3.registers[1] = 5;
    lc3.run_once();
    assert_eq!(lc3.registers[0], 15);
    assert_eq!(lc3.registers[1], 20);
    lc3.run_once();
    assert_eq!(lc3.registers[0], 33);
    assert_eq!(lc3.registers[1], 20);
}

#[test]
fn test_lc3_and_not() {
    let mut lc3 = LC3::new_test(vec![AndReg(2, 0, 1), Not(3, 2)]);
    lc3.registers[0] = 0b1100;
    lc3.registers[1] = 0b1010;
    lc3.run_once();
    assert_eq!(lc3.registers[2], 0b1000);
    lc3.run_once();
    assert_eq!(lc3.registers[3], !0b1000u16);
}

#[test]
fn test_lc3_add_imm_sign_extends() {
    // 0b11111 in five bits is -1.
    let mut lc3 = LC3::new_test(vec![AddImm(0, 1, 0b11111)]);
    lc3.registers[1] = 10;
    lc3.run_once();
    assert_eq!(lc3.registers[0], 9);
}

#[test]
fn simplest_calculator_works() {
    let code = "9+3";
    assert_eq!(simplest_calculator(code), 12);
    let code = "5-9";
    assert_eq!(simplest_calculator(code), -4);
    let code = "7*7";
    assert_eq!(simplest_calculator(code), 49);
    let code = "5/3";
    assert_eq!(simplest_calculator(code), 1);
}

#[test]
fn test_double_all() {
    assert_eq!(double_all(&[1, -2, 0, 21]), vec![2, -4, 0, 42]);
    assert_eq!(double_all(&[]), Vec::<i32>::new());
}

#[test]
fn test_bytes_edit() {
    let mut bytes = Bytes::from_slice(&[1, 2, 3]);
    bytes.insert(1, 9);
    assert_eq!(bytes.len(), 4);
    assert_eq!(bytes.byte_at(1), 9);
    bytes.remove(0);
    assert_eq!(bytes.len(), 3);
    assert_eq!(bytes.byte_at(0), 9);
    let from_text = Bytes::from_str("AB");
    assert_eq!(from_text.len(), 2);
    assert_eq!(from_text.byte_at(0), 65);
    assert_eq!(from_text.byte_at(1), 66);
    assert_eq!(Bytes::cow_to_bytes("hi"), vec![104, 105]);
}

#[test]
fn test_allocator_starts_off() {
    let allocator = MyAllocator::new();
    assert!(!allocator.is_on());
}
