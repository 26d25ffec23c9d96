//! The execution engine: a program counter and an operand stack driven over
//! a borrowed chunk, one instruction at a time.
use vstd::prelude::*;
use crate::bytecode::{BinaryOp, Chunk, OpCode};
use crate::disassembler::{describe, disassemble_instruction, Instruction};
use crate::value::Value;

verus! {

/// Why execution stopped early.
#[derive(Clone, Copy, Debug, PartialEq, Eq, Structural)]
pub enum RuntimeError {
    /// A host writing a trace could not write to its sink. The engine itself
    /// never raises it; it keeps a failing diagnostic sink apart from a
    /// misbehaving program.
    TracingError,
    /// An operator needed more operands than the stack held.
    StackUnderflow,
    /// The program counter ran past the end of the stream without a `Return`.
    InstructionOutOfBound,
    /// A `Constant` named an offset beyond the constant pool.
    ValueOutOfBound,
}

/// The error raised by executing the instruction at `pc` on `stack`, if any.
pub open spec fn step_error<N>(ops: Seq<OpCode>, pool: Seq<N>, pc: nat, stack: Seq<Value<N>>) -> Option<RuntimeError> {
    if pc >= ops.len() {
        Some(RuntimeError::InstructionOutOfBound)
    } else {
        match ops[pc as int] {
            OpCode::Return => None,
            OpCode::Constant(offset) => if offset >= pool.len() {
                Some(RuntimeError::ValueOutOfBound)
            } else {
                None
            },
            OpCode::Negate => if stack.len() < 1 {
                Some(RuntimeError::StackUnderflow)
            } else {
                None
            },
            OpCode::Binary(_) => if stack.len() < 2 {
                Some(RuntimeError::StackUnderflow)
            } else {
                None
            },
        }
    }
}

/// Whether the instruction at `pc` is a `Return`.
pub open spec fn halts_at(ops: Seq<OpCode>, pc: nat) -> bool {
    pc < ops.len() && ops[pc as int] == OpCode::Return
}

/// What a `Return` reports: the top of the stack, if there is one.
pub open spec fn reported<N>(stack: Seq<Value<N>>) -> Option<Value<N>> {
    if stack.len() == 0 {
        None
    } else {
        Some(stack.last())
    }
}

/// The stack after the instruction at `pc` ran without error and without
/// halting.
pub open spec fn next_stack<N>(ops: Seq<OpCode>, pool: Seq<N>, pc: nat, stack: Seq<Value<N>>) -> Seq<Value<N>> {
    match ops[pc as int] {
        OpCode::Constant(offset) => stack.push(Value::Number(pool[offset as int])),
        OpCode::Negate => stack.drop_last().push(Value::Negation(Box::new(stack.last()))),
        OpCode::Binary(op) => stack.subrange(0, stack.len() - 2).push(
            Value::Binary(op, Box::new(stack[stack.len() - 2]), Box::new(stack.last())),
        ),
        OpCode::Return => stack,
    }
}

/// The outcome of running from `pc` with `stack`: the value reported by the
/// first `Return` reached, or the first error.
pub open spec fn run_from<N>(ops: Seq<OpCode>, pool: Seq<N>, pc: nat, stack: Seq<Value<N>>) -> Result<Option<Value<N>>, RuntimeError>
    decreases ops.len() - pc,
{
    if pc >= ops.len() {
        Err(RuntimeError::InstructionOutOfBound)
    } else if let Some(e) = step_error(ops, pool, pc, stack) {
        Err(e)
    } else if halts_at(ops, pc) {
        Ok(reported(stack))
    } else {
        run_from(ops, pool, pc + 1, next_stack(ops, pool, pc, stack))
    }
}

/// The outcome of running a chunk from its first instruction on an empty
/// stack.
pub open spec fn run<N>(chunk: &Chunk<N>) -> Result<Option<Value<N>>, RuntimeError> {
    run_from(chunk.ops(), chunk.pool(), 0, Seq::empty())
}

/// What the tracer records before the instruction at `pc` runs: the stack,
/// bottom first, and the instruction unless `pc` is past the end.
pub open spec fn snapshot<N>(ops: Seq<OpCode>, pool: Seq<N>, pc: nat, stack: Seq<Value<N>>) -> (Seq<Value<N>>, Option<Instruction<N>>) {
    (stack, if pc < ops.len() {
        Some(describe(ops[pc as int], pool))
    } else {
        None
    })
}

/// The records of a traced run from `pc` with `stack`: one before each step,
/// the last one before the step that halts or fails.
pub open spec fn trace_from<N>(ops: Seq<OpCode>, pool: Seq<N>, pc: nat, stack: Seq<Value<N>>) -> Seq<(Seq<Value<N>>, Option<Instruction<N>>)>
    decreases ops.len() - pc,
{
    if pc >= ops.len() || step_error(ops, pool, pc, stack) is Some || halts_at(ops, pc) {
        seq![snapshot(ops, pool, pc, stack)]
    } else {
        seq![snapshot(ops, pool, pc, stack)] + trace_from(ops, pool, pc + 1, next_stack(ops, pool, pc, stack))
    }
}

/// The records of a traced run of a chunk.
pub open spec fn trace_of<N>(chunk: &Chunk<N>) -> Seq<(Seq<Value<N>>, Option<Instruction<N>>)> {
    trace_from(chunk.ops(), chunk.pool(), 0, Seq::empty())
}

/// The state of the machine just before one step.
#[derive(Debug, PartialEq)]
pub struct TraceStep<N> {
    /// The operand stack, bottom first.
    pub stack: Vec<Value<N>>,
    /// The instruction about to run; `None` once the program counter is past
    /// the end of the stream.
    pub instruction: Option<Instruction<N>>,
}

impl<N> View for TraceStep<N> {
    type V = (Seq<Value<N>>, Option<Instruction<N>>);

    open spec fn view(&self) -> Self::V {
        (self.stack@, self.instruction)
    }
}

/// A traced run: the record before each step, and how the run ended.
#[derive(Debug, PartialEq)]
pub struct Trace<N> {
    pub steps: Vec<TraceStep<N>>,
    pub outcome: Result<Option<Value<N>>, RuntimeError>,
}

/// The views of a sequence of trace records.
pub open spec fn step_views<N>(steps: Seq<TraceStep<N>>) -> Seq<(Seq<Value<N>>, Option<Instruction<N>>)> {
    steps.map_values(|s: TraceStep<N>| s@)
}

/// A `Binary` instruction on a stack `[..., a, b]` succeeds and leaves
/// `[..., a op b]`: the topmost value is the right-hand operand.
pub proof fn lemma_binary_operand_order<N>(
    ops: Seq<OpCode>,
    pool: Seq<N>,
    pc: nat,
    op: BinaryOp,
    rest: Seq<Value<N>>,
    a: Value<N>,
    b: Value<N>,
)
    requires
        pc < ops.len(),
        ops[pc as int] == OpCode::Binary(op),
    ensures
        step_error(ops, pool, pc, rest.push(a).push(b)) is None,
        next_stack(ops, pool, pc, rest.push(a).push(b)) == rest.push(Value::Binary(op, Box::new(a), Box::new(b))),
{
    let s = rest.push(a).push(b);
    assert(s.subrange(0, s.len() - 2) =~= rest);
}

/// Without a `Return` from `pc` on, a run never succeeds; it ends with
/// `InstructionOutOfBound` exactly when every step succeeded until the
/// program counter passed the end of the stream.
pub proof fn lemma_no_return_from<N>(ops: Seq<OpCode>, pool: Seq<N>, pc: nat, stack: Seq<Value<N>>)
    requires
        forall|i: int| pc <= i < ops.len() ==> ops[i] != OpCode::Return,
    ensures
        run_from(ops, pool, pc, stack) is Err,
        (run_from(ops, pool, pc, stack) == Err::<Option<Value<N>>, RuntimeError>(RuntimeError::InstructionOutOfBound))
            <==> trace_from(ops, pool, pc, stack).last().1 is None,
    decreases ops.len() - pc,
{
    if pc < ops.len() && step_error(ops, pool, pc, stack) is None {
        let next = next_stack(ops, pool, pc, stack);
        lemma_no_return_from(ops, pool, pc + 1, next);
        let tail = trace_from(ops, pool, pc + 1, next);
        assert((seq![snapshot(ops, pool, pc, stack)] + tail).last() == tail.last());
    }
}

/// A chunk without a `Return` never runs successfully; it fails with
/// `InstructionOutOfBound` exactly when its trace ends past the end of the
/// stream, with no instruction left to show.
pub proof fn lemma_missing_return<N>(chunk: &Chunk<N>)
    requires
        !chunk.ops().contains(OpCode::Return),
    ensures
        run(chunk) is Err,
        (run(chunk) == Err::<Option<Value<N>>, RuntimeError>(RuntimeError::InstructionOutOfBound))
            <==> trace_of(chunk).last().1 is None,
{
    assert forall|i: int| 0 <= i < chunk.ops().len() implies chunk.ops()[i] != OpCode::Return by {
        if chunk.ops()[i] == OpCode::Return {
            assert(chunk.ops().contains(OpCode::Return));
        }
    }
    lemma_no_return_from(chunk.ops(), chunk.pool(), 0, Seq::empty());
}

/// A traced run from `pc` takes at most one step per remaining instruction,
/// plus the step that finds the stream exhausted.
pub proof fn lemma_trace_bounded<N>(ops: Seq<OpCode>, pool: Seq<N>, pc: nat, stack: Seq<Value<N>>)
    requires
        pc <= ops.len(),
    ensures
        1 <= trace_from(ops, pool, pc, stack).len() <= ops.len() - pc + 1,
    decreases ops.len() - pc,
{
    if pc < ops.len() && step_error(ops, pool, pc, stack) is None && !halts_at(ops, pc) {
        lemma_trace_bounded(ops, pool, pc + 1, next_stack(ops, pool, pc, stack));
    }
}

/// Every run terminates: a chunk's trace has at most one record per
/// instruction, plus one.
pub proof fn lemma_run_terminates<N>(chunk: &Chunk<N>)
    ensures
        1 <= trace_of(chunk).len() <= chunk.ops().len() + 1,
{
    lemma_trace_bounded(chunk.ops(), chunk.pool(), 0, Seq::empty());
}

/// Whether the machine goes on after a step, or halted with the reported
/// value.
enum Status<N> {
    Running,
    Halted(Option<Value<N>>),
}

struct Vm<'a, N> {
    chunk: &'a Chunk<N>,
    program_counter: usize,
    stack: Vec<Value<N>>,
}

impl<'a, N: Copy> Vm<'a, N> {
    fn new(chunk: &'a Chunk<N>) -> (r: Vm<'a, N>)
        ensures
            r.chunk == chunk,
            r.program_counter == 0,
            r.stack@ == Seq::<Value<N>>::empty(),
    {
        Vm { chunk, program_counter: 0, stack: Vec::new() }
    }

    fn pop(&mut self) -> (r: Result<Value<N>, RuntimeError>)
        ensures
            final(self).chunk == old(self).chunk,
            final(self).program_counter == old(self).program_counter,
            old(self).stack@.len() == 0 ==> r == Err::<Value<N>, RuntimeError>(RuntimeError::StackUnderflow)
                && final(self).stack@ == old(self).stack@,
            old(self).stack@.len() > 0 ==> r == Ok::<Value<N>, RuntimeError>(old(self).stack@.last())
                && final(self).stack@ == old(self).stack@.drop_last(),
    {
        if let Some(value) = self.stack.pop() {
            Ok(value)
        } else {
            Err(RuntimeError::StackUnderflow)
        }
    }

    /// Records the stack and the instruction about to run.
    fn trace(&self) -> (r: TraceStep<N>)
        ensures
            r@ == snapshot(self.chunk.ops(), self.chunk.pool(), self.program_counter as nat, self.stack@),
    {
        let mut stack: Vec<Value<N>> = Vec::new();
        let mut i: usize = 0;
        while i < self.stack.len()
            invariant
                i <= self.stack@.len(),
                stack@ =~= self.stack@.subrange(0, i as int),
            decreases self.stack@.len() - i,
        {
            stack.push(self.stack[i].clone());
            i = i + 1;
        }
        let instruction = if self.program_counter < self.chunk.instruction_count() {
            Some(disassemble_instruction(self.chunk.get(self.program_counter), self.chunk))
        } else {
            None
        };
        TraceStep { stack, instruction }
    }

    /// Executes the instruction at the program counter.
    fn interpret_next(&mut self) -> (r: Result<Status<N>, RuntimeError>)
        ensures
            final(self).chunk == old(self).chunk,
            ({
                let ops = old(self).chunk.ops();
                let pool = old(self).chunk.pool();
                let pc = old(self).program_counter as nat;
                let stack = old(self).stack@;
                match r {
                    Err(e) => step_error(ops, pool, pc, stack) == Some(e),
                    Ok(Status::Halted(v)) => step_error(ops, pool, pc, stack) is None
                        && halts_at(ops, pc) && v == reported(stack),
                    Ok(Status::Running) => step_error(ops, pool, pc, stack) is None
                        && !halts_at(ops, pc)
                        && final(self).program_counter == pc + 1
                        && final(self).stack@ == next_stack(ops, pool, pc, stack),
                }
            }),
    {
        if self.program_counter >= self.chunk.instruction_count() {
            return Err(RuntimeError::InstructionOutOfBound);
        }
        let op = self.chunk.get(self.program_counter);
        self.program_counter = self.program_counter + 1;
        match op {
            OpCode::Return => {
                let value = self.stack.pop();
                return Ok(Status::Halted(value));
            },
            OpCode::Constant(offset) => {
                if offset >= self.chunk.values_count() {
                    return Err(RuntimeError::ValueOutOfBound);
                }
                self.stack.push(Value::Number(self.chunk.get_value(offset)));
            },
            OpCode::Negate => {
                let value = self.pop()?;
                self.stack.push(Value::Negation(Box::new(value)));
            },
            OpCode::Binary(operator) => {
                if self.stack.len() < 2 {
                    return Err(RuntimeError::StackUnderflow);
                }
                // The topmost value is the right-hand operand.
                let right = self.pop()?;
                let left = self.pop()?;
                self.stack.push(Value::Binary(operator, Box::new(left), Box::new(right)));
            },
        }
        proof {
            let ghost stack = old(self).stack@;
            assert(self.stack@ =~= next_stack(old(self).chunk.ops(), old(self).chunk.pool(), old(self).program_counter as nat, stack));
        }
        Ok(Status::Running)
    }
}

/// Executes `chunk` until it returns or fails.
///
/// On `Return` the result is the popped value (`None` when the stack was
/// empty); otherwise the first error.
pub fn interpret<N: Copy>(chunk: &Chunk<N>) -> (r: Result<Option<Value<N>>, RuntimeError>)
    ensures
        r == run(chunk),
{
    let mut vm = Vm::new(chunk);
    loop
        invariant
            vm.chunk == chunk,
            vm.program_counter <= chunk.ops().len(),
            run_from(chunk.ops(), chunk.pool(), vm.program_counter as nat, vm.stack@) == run(chunk),
        decreases chunk.ops().len() - vm.program_counter,
    {
        match vm.interpret_next() {
            Err(e) => return Err(e),
            Ok(Status::Halted(value)) => return Ok(value),
            Ok(Status::Running) => {},
        }
    }
}

/// Executes `chunk` as `interpret` does, recording before each step the
/// stack and the instruction about to run.
pub fn trace<N: Copy>(chunk: &Chunk<N>) -> (r: Trace<N>)
    ensures
        step_views(r.steps@) == trace_of(chunk),
        r.outcome == run(chunk),
{
    let mut vm = Vm::new(chunk);
    let mut steps: Vec<TraceStep<N>> = Vec::new();
    loop
        invariant
            vm.chunk == chunk,
            vm.program_counter <= chunk.ops().len(),
            run_from(chunk.ops(), chunk.pool(), vm.program_counter as nat, vm.stack@) == run(chunk),
            step_views(steps@) + trace_from(chunk.ops(), chunk.pool(), vm.program_counter as nat, vm.stack@)
                == trace_of(chunk),
        decreases chunk.ops().len() - vm.program_counter,
    {
        let ghost ops = chunk.ops();
        let ghost pool = chunk.pool();
        let ghost pc = vm.program_counter as nat;
        let ghost stack = vm.stack@;
        let ghost before = steps@;
        steps.push(vm.trace());
        assert(step_views(steps@) =~= step_views(before).push(snapshot(ops, pool, pc, stack)));
        match vm.interpret_next() {
            Err(e) => {
                assert(step_views(steps@) =~= trace_of(chunk));
                return Trace { steps, outcome: Err(e) };
            },
            Ok(Status::Halted(value)) => {
                assert(step_views(steps@) =~= trace_of(chunk));
                return Trace { steps, outcome: Ok(value) };
            },
            Ok(Status::Running) => {
                assert(step_views(before) + trace_from(ops, pool, pc, stack) =~= step_views(steps@)
                    + trace_from(ops, pool, pc + 1, vm.stack@));
            },
        }
    }
}

} // verus!
