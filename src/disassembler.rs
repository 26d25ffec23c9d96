//! A read-only description of instructions and chunks, for diagnostics.
//!
//! Instructions are described as records; rendering them as text is left to
//! the host, which alone knows how to print a constant.
use vstd::prelude::*;
use crate::bytecode::{BinaryOp, Chunk, OpCode};

verus! {

/// One instruction, with the constant it refers to resolved.
#[derive(Debug, PartialEq)]
pub struct Instruction<N> {
    pub op: OpCode,
    /// For a `Constant` whose offset lies in the pool, the value there.
    pub constant: Option<N>,
}

/// One line of a chunk's listing.
#[derive(Debug, PartialEq)]
pub struct ListingLine<N> {
    /// The index of the instruction in the stream.
    pub offset: usize,
    /// The instruction's source line, given only where it differs from the
    /// line of the instruction before it.
    pub line: Option<usize>,
    pub instruction: Instruction<N>,
}

/// The description of `op` against the constant pool `pool`.
pub open spec fn describe<N>(op: OpCode, pool: Seq<N>) -> Instruction<N> {
    Instruction {
        op,
        constant: match op {
            OpCode::Constant(offset) => if offset < pool.len() {
                Some(pool[offset as int])
            } else {
                None
            },
            _ => None,
        },
    }
}

/// The source line shown for instruction `i`.
pub open spec fn shown_line(lines: Seq<usize>, i: int) -> Option<usize> {
    if i == 0 || lines[i] != lines[i - 1] {
        Some(lines[i])
    } else {
        None
    }
}

/// The listing of a chunk: one line per instruction, in stream order.
pub open spec fn listing<N>(chunk: &Chunk<N>) -> Seq<ListingLine<N>> {
    Seq::new(
        chunk.ops().len(),
        |i: int|
            ListingLine {
                offset: i as usize,
                line: shown_line(chunk.lines(), i),
                instruction: describe(chunk.ops()[i], chunk.pool()),
            },
    )
}

/// The mnemonic of an instruction.
pub open spec fn mnemonic_of(op: OpCode) -> Seq<char> {
    match op {
        OpCode::Return => "OP_RETURN"@,
        OpCode::Constant(_) => "OP_CONSTANT"@,
        OpCode::Negate => "OP_NEGATE"@,
        OpCode::Binary(BinaryOp::Add) => "OP_ADD"@,
        OpCode::Binary(BinaryOp::Subtract) => "OP_SUBTRACT"@,
        OpCode::Binary(BinaryOp::Multiply) => "OP_MULTIPLY"@,
        OpCode::Binary(BinaryOp::Divide) => "OP_DIVIDE"@,
    }
}

pub fn mnemonic(op: OpCode) -> (r: &'static str)
    ensures
        r@ == mnemonic_of(op),
{
    match op {
        OpCode::Return => "OP_RETURN",
        OpCode::Constant(_) => "OP_CONSTANT",
        OpCode::Negate => "OP_NEGATE",
        OpCode::Binary(BinaryOp::Add) => "OP_ADD",
        OpCode::Binary(BinaryOp::Subtract) => "OP_SUBTRACT",
        OpCode::Binary(BinaryOp::Multiply) => "OP_MULTIPLY",
        OpCode::Binary(BinaryOp::Divide) => "OP_DIVIDE",
    }
}

/// Describes `op`, resolving its constant in `chunk`'s pool. An offset
/// beyond the pool is described without a value.
pub fn disassemble_instruction<N: Copy>(op: OpCode, chunk: &Chunk<N>) -> (r: Instruction<N>)
    ensures
        r == describe(op, chunk.pool()),
{
    let constant = match op {
        OpCode::Constant(offset) => if offset < chunk.values_count() {
            Some(chunk.get_value(offset))
        } else {
            None
        },
        _ => None,
    };
    Instruction { op, constant }
}

/// Describes every instruction of `chunk`, in order.
pub fn disassemble<N: Copy>(chunk: &Chunk<N>) -> (r: Vec<ListingLine<N>>)
    ensures
        r@ == listing(chunk),
{
    proof {
        chunk.lemma_sizes();
    }
    let count = chunk.instruction_count();
    let mut r: Vec<ListingLine<N>> = Vec::new();
    let mut i: usize = 0;
    while i < count
        invariant
            count == chunk.ops().len(),
            chunk.lines().len() == chunk.ops().len(),
            i <= count,
            r@ =~= listing(chunk).subrange(0, i as int),
        decreases count - i,
    {
        let line = if i == 0 || chunk.line(i) != chunk.line(i - 1) {
            Some(chunk.line(i))
        } else {
            None
        };
        let instruction = disassemble_instruction(chunk.get(i), chunk);
        r.push(ListingLine { offset: i, line, instruction });
        i = i + 1;
    }
    r
}

/// Disassembly depends on the chunk's contents alone: two chunks with the
/// same instructions, lines and constants have the same listing, which has
/// one line per instruction, in stream order.
pub proof fn lemma_listing_deterministic<N>(a: &Chunk<N>, b: &Chunk<N>)
    requires
        a.ops() == b.ops(),
        a.lines() == b.lines(),
        a.pool() == b.pool(),
    ensures
        listing(a) == listing(b),
        listing(a).len() == a.ops().len(),
        forall|i: int| 0 <= i < a.ops().len() ==> (#[trigger] listing(a)[i]).offset == i
            && listing(a)[i].instruction.op == a.ops()[i],
{
    a.lemma_sizes();
    assert(listing(a) =~= listing(b));
}

} // verus!
