use rulox::bytecode::{BinaryOp, Chunk, OpCode};
use rulox::disassembler::{disassemble, disassemble_instruction, mnemonic};

fn sample() -> Chunk<f64> {
    let mut chunk = Chunk::new();
    chunk.add_constant(1.25);
    chunk.add_instruction(OpCode::Constant(0), 1);
    chunk.add_instruction(OpCode::Negate, 1);
    chunk.add_instruction(OpCode::Constant(4), 2);
    chunk.add_instruction(OpCode::Binary(BinaryOp::Divide), 2);
    chunk.add_instruction(OpCode::Return, 3);
    chunk
}

#[test]
fn listing_has_one_line_per_instruction_in_order() {
    let chunk = sample();
    let listing = disassemble(&chunk);
    assert_eq!(listing.len(), 5);
    for (i, line) in listing.iter().enumerate() {
        assert_eq!(line.offset, i);
        assert_eq!(line.instruction.op, chunk.get(i));
    }
}

#[test]
fn listing_is_deterministic() {
    let chunk = sample();
    assert_eq!(disassemble(&chunk), disassemble(&chunk));
    let listing = disassemble(&chunk);
    let text_a: Vec<String> = listing.iter().map(|l| format!("{:?}", l)).collect();
    let text_b: Vec<String> = disassemble(&chunk).iter().map(|l| format!("{:?}", l)).collect();
    assert_eq!(text_a, text_b);
}

#[test]
fn listing_elides_repeated_lines() {
    let listing = disassemble(&sample());
    let lines: Vec<Option<usize>> = listing.iter().map(|l| l.line).collect();
    assert_eq!(lines, vec![Some(1), None, Some(2), None, Some(3)]);
}

#[test]
fn listing_of_empty_chunk_is_empty() {
    let chunk: Chunk<f64> = Chunk::new();
    assert!(disassemble(&chunk).is_empty());
}

#[test]
fn constant_is_resolved_when_in_pool() {
    let chunk = sample();
    let listing = disassemble(&chunk);
    assert_eq!(listing[0].instruction.constant, Some(1.25));
    assert_eq!(listing[2].instruction.constant, None);
    assert_eq!(listing[1].instruction.constant, None);
    let single = disassemble_instruction(OpCode::Constant(0), &chunk);
    assert_eq!(single.constant, Some(1.25));
}

#[test]
fn mnemonics() {
    assert_eq!(mnemonic(OpCode::Return), "OP_RETURN");
    assert_eq!(mnemonic(OpCode::Constant(3)), "OP_CONSTANT");
    assert_eq!(mnemonic(OpCode::Negate), "OP_NEGATE");
    assert_eq!(mnemonic(OpCode::Binary(BinaryOp::Add)), "OP_ADD");
    assert_eq!(mnemonic(OpCode::Binary(BinaryOp::Subtract)), "OP_SUBTRACT");
    assert_eq!(mnemonic(OpCode::Binary(BinaryOp::Multiply)), "OP_MULTIPLY");
    assert_eq!(mnemonic(OpCode::Binary(BinaryOp::Divide)), "OP_DIVIDE");
}
