use clox::chunk::Chunk;
use clox::vm::{Arithmetic, Step, Vm, INTERPRETRESULT};

fn program() -> Chunk {
    let mut c = Chunk::new();
    let a = c.add_constants(1.5f64.to_bits());
    let b = c.add_constants(4.0f64.to_bits());
    c.write_opcode(0, 1);
    c.write(a as u8, 1);
    c.write_opcode(0, 1);
    c.write(b as u8, 1);
    c.write_opcode(4, 1);
    c.write_opcode(1, 1);
    c.write_opcode(2, 1);
    c
}

#[test]
fn steps_of_a_program() {
    let c = program();
    let mut vm = Vm::new_vm();
    assert!(vm.can_step(&c));
    assert_eq!(vm.step(&c), Step::Pushed(1.5f64.to_bits()));
    assert_eq!(vm.ip, 2);
    assert_eq!(vm.step(&c), Step::Pushed(4.0f64.to_bits()));
    assert_eq!(vm.stack, vec![1.5f64.to_bits(), 4.0f64.to_bits()]);
    let s = vm.step(&c);
    assert_eq!(s, Step::Binary(Arithmetic::SUB, 4.0f64.to_bits(), 1.5f64.to_bits()));
    assert!(vm.stack.is_empty());
    assert!(!vm.can_step(&c));
    vm.push_value((4.0f64 - 1.5).to_bits());
    assert_eq!(vm.step(&c), Step::Negate(2.5f64.to_bits()));
    vm.push_value((-2.5f64).to_bits());
    assert_eq!(vm.step(&c), Step::Returned((-2.5f64).to_bits()));
    assert!(vm.stack.is_empty());
    assert!(!vm.can_step(&c));
}

#[test]
fn reading_bytes_and_constants() {
    let c = program();
    let mut vm = Vm::new_vm();
    vm.ip = 1;
    assert_eq!(vm.read_constants(&c), 1.5f64.to_bits());
    assert_eq!(vm.ip, 2);
    vm.ip = 4;
    assert_eq!(vm.read_byte(&c), clox::chunk::OPCODE::OPSUB);
    assert_eq!(vm.ip, 5);
}

#[test]
fn binary_op_pops_top_first() {
    let mut vm = Vm::new_vm();
    vm.push_value(10);
    vm.push_value(20);
    vm.push_value(30);
    assert_eq!(vm.binary_op(), (30, 20));
    assert_eq!(vm.stack, vec![10]);
    vm.reset_stack();
    assert!(vm.stack.is_empty());
    vm.free_vm();
}

#[test]
fn interpret_lists_the_tokens() {
    let mut vm = Vm::new_vm();
    let (result, listing) = vm.interpret("1 + \"x".to_string());
    assert_eq!(result, INTERPRETRESULT::INTERPRETOK);
    assert!(listing.reached_eof);
    assert_eq!(listing.entries.len(), 3);
    assert_eq!(vm.ip, 0);
}

#[test]
fn cannot_step_past_the_code_or_on_a_bad_byte() {
    let mut c = Chunk::new();
    c.write_opcode(8, 1);
    let vm = Vm::new_vm();
    assert!(!vm.can_step(&c));
    assert!(!Vm::new_vm().can_step(&Chunk::new()));
}
