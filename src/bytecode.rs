//! The bytecode container: an instruction stream with its source lines and a
//! constant pool, filled once by a compiler and read-only afterwards.
use vstd::prelude::*;

verus! {

/// The four arithmetic operators of a `Binary` instruction.
#[derive(Clone, Copy, Debug, PartialEq, Eq, Structural)]
pub enum BinaryOp {
    Add,
    Subtract,
    Multiply,
    Divide,
}

/// One instruction of the stream.
#[derive(Clone, Copy, Debug, PartialEq, Eq, Structural)]
pub enum OpCode {
    /// Ends execution, reporting the value on top of the stack if there is one.
    Return,
    /// Pushes the constant at this offset of the pool.
    Constant(usize),
    /// Replaces the top of the stack by its negation.
    Negate,
    /// Replaces the two topmost values by their combination; the topmost one
    /// is the right-hand operand.
    Binary(BinaryOp),
}

/// A unit of bytecode over constants of type `N`.
///
/// Each instruction is stored with its source line, so the instruction
/// stream and the line sequence always have the same length. Nothing is ever
/// removed or changed once appended.
pub struct Chunk<N> {
    code: Vec<(OpCode, usize)>,
    values: Vec<N>,
}

impl<N> Chunk<N> {
    /// The instruction stream.
    pub closed spec fn ops(&self) -> Seq<OpCode> {
        self.code@.map_values(|e: (OpCode, usize)| e.0)
    }

    /// The source line of each instruction.
    pub closed spec fn lines(&self) -> Seq<usize> {
        self.code@.map_values(|e: (OpCode, usize)| e.1)
    }

    /// The constant pool.
    pub closed spec fn pool(&self) -> Seq<N> {
        self.values@
    }

    /// Every instruction has a source line, and the stream fits in memory.
    pub proof fn lemma_sizes(&self)
        ensures
            self.lines().len() == self.ops().len(),
            self.ops().len() <= usize::MAX,
            self.pool().len() <= usize::MAX,
    {
        assert(self.code@.len() == self.code.len());
        assert(self.values@.len() == self.values.len());
    }

    pub fn new() -> (r: Chunk<N>)
        ensures
            r.ops() == Seq::<OpCode>::empty(),
            r.lines() == Seq::<usize>::empty(),
            r.pool() == Seq::<N>::empty(),
    {
        let r = Chunk { code: Vec::new(), values: Vec::new() };
        assert(r.ops() =~= Seq::<OpCode>::empty());
        assert(r.lines() =~= Seq::<usize>::empty());
        r
    }

    /// Appends an instruction with its source line; returns its index.
    pub fn add_instruction(&mut self, op: OpCode, line: usize) -> (r: usize)
        ensures
            r == old(self).ops().len(),
            final(self).ops() == old(self).ops().push(op),
            final(self).lines() == old(self).lines().push(line),
            final(self).pool() == old(self).pool(),
    {
        let r = self.code.len();
        self.code.push((op, line));
        assert(self.ops() =~= old(self).ops().push(op));
        assert(self.lines() =~= old(self).lines().push(line));
        r
    }

    /// Appends a constant to the pool; returns its offset.
    pub fn add_constant(&mut self, value: N) -> (r: usize)
        ensures
            r == old(self).pool().len(),
            final(self).pool() == old(self).pool().push(value),
            final(self).ops() == old(self).ops(),
            final(self).lines() == old(self).lines(),
    {
        let r = self.values.len();
        self.values.push(value);
        r
    }

    /// The instruction at `index`.
    pub fn get(&self, index: usize) -> (r: OpCode)
        requires
            index < self.ops().len(),
        ensures
            r == self.ops()[index as int],
    {
        self.code[index].0
    }

    /// The source line of the instruction at `index`.
    pub fn line(&self, index: usize) -> (r: usize)
        requires
            index < self.lines().len(),
        ensures
            r == self.lines()[index as int],
    {
        self.code[index].1
    }

    pub fn instruction_count(&self) -> (r: usize)
        ensures
            r == self.ops().len(),
    {
        self.code.len()
    }

    pub fn values_count(&self) -> (r: usize)
        ensures
            r == self.pool().len(),
    {
        self.values.len()
    }
}

impl<N: Copy> Chunk<N> {
    /// The constant at `offset`.
    pub fn get_value(&self, offset: usize) -> (r: N)
        requires
            offset < self.pool().len(),
        ensures
            r == self.pool()[offset as int],
    {
        self.values[offset]
    }
}

} // verus!
