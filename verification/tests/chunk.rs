use clox::chunk::{Chunk, ValueArr, OPCODE};

#[test]
fn opcode_bytes_round_trip() {
    for b in 0u8..7 {
        assert_eq!(u8::from(OPCODE::from(b)), b);
    }
    assert_eq!(OPCODE::from(0), OPCODE::OPCONSTANT);
    assert_eq!(OPCODE::from(6), OPCODE::OPDIVIDE);
    assert_eq!(u8::from(OPCODE::OPRETURN), 2);
}

#[test]
fn values_read_back() {
    let mut arr = ValueArr::new();
    assert_eq!(arr.write_value(1.5f64.to_bits()), 0);
    assert_eq!(arr.write_value((-2.0f64).to_bits()), 1);
    assert_eq!(f64::from_bits(arr.read_value(0)), 1.5);
    assert_eq!(f64::from_bits(arr.read_value(1)), -2.0);
    arr.free();
    assert!(arr.values.is_empty());
}

#[test]
fn code_reads_back() {
    let mut c = Chunk::new();
    c.write(2, 7);
    c.write_opcode(3, 8);
    assert_eq!(c.read_chunk_byte(0), 2);
    assert_eq!(c.read_chunk_byte(1), 3);
    assert_eq!(c.lines, vec![7, 8]);
    assert_eq!(c.add_constants(3.25f64.to_bits()), 0);
    assert_eq!(f64::from_bits(c.get_constant(0)), 3.25);
}

#[test]
fn free_keeps_the_line_table() {
    let mut c = Chunk::new();
    c.write(1, 4);
    c.add_constants(0);
    c.free();
    assert!(c.code.is_empty());
    assert!(c.constants.values.is_empty());
    assert_eq!(c.lines, vec![4]);
}

fn sample() -> Chunk {
    let mut c = Chunk::new();
    let k = c.add_constants(1.2f64.to_bits());
    c.write_opcode(0, 123);
    c.write(k as u8, 123);
    c.write_opcode(1, 123);
    c.write_opcode(2, 124);
    c
}

#[test]
fn disassemble_constant_instruction() {
    let c = sample();
    let d = c.disassemble_instruction(0).unwrap();
    assert_eq!(d.offset, 0);
    assert_eq!(d.line, Some(123));
    assert_eq!(d.op, OPCODE::OPCONSTANT);
    assert_eq!(d.constant, Some((0, 1.2f64.to_bits())));
    assert_eq!(d.next, 2);
    assert_eq!(c.constant_instruction(0), (2, 0, 1.2f64.to_bits()));
}

#[test]
fn disassemble_simple_instruction_on_the_same_line() {
    let c = sample();
    let d = c.disassemble_instruction(2).unwrap();
    assert_eq!(d.line, None);
    assert_eq!(d.op, OPCODE::OPNEGATE);
    assert_eq!(d.constant, None);
    assert_eq!(d.next, 3);
    let d = c.disassemble_instruction(3).unwrap();
    assert_eq!(d.line, Some(124));
    assert_eq!(d.op, OPCODE::OPRETURN);
    assert_eq!(c.simple_instruction(&OPCODE::OPRETURN, 3), 4);
}

#[test]
fn disassemble_whole_chunk() {
    let c = sample();
    let listing = c.disassemble_chunk();
    assert!(listing.complete);
    let offsets: Vec<usize> = listing.instructions.iter().map(|d| d.offset).collect();
    assert_eq!(offsets, vec![0, 2, 3]);
}

#[test]
fn disassembly_stops_at_an_undecodable_instruction() {
    let mut c = Chunk::new();
    c.write_opcode(2, 1);
    c.write(9, 1);
    c.write_opcode(2, 1);
    assert!(c.is_decodable(0));
    assert!(!c.is_decodable(1));
    let listing = c.disassemble_chunk();
    assert!(!listing.complete);
    assert_eq!(listing.instructions.len(), 1);

    let mut c = Chunk::new();
    c.write_opcode(0, 1);
    assert!(!c.is_decodable(0));
    assert!(!c.disassemble_chunk().complete);
}
