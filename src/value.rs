//! Runtime values of the machine.
use vstd::prelude::*;
use crate::bytecode::BinaryOp;

verus! {

/// A value on the operand stack, kept as the arithmetic that produced it
/// from the chunk's constants.
///
/// The engine never needs to look inside a number: which instruction fails,
/// and where execution stops, depend only on how many values the stack holds.
/// Keeping the arithmetic as a term lets the engine be exact for any number
/// type; a host evaluates the term with its own arithmetic (IEEE-754 doubles
/// for the language itself).
#[derive(Debug, PartialEq)]
pub enum Value<N> {
    /// A constant of the pool.
    Number(N),
    /// The negation of a value.
    Negation(Box<Value<N>>),
    /// `left op right`.
    Binary(BinaryOp, Box<Value<N>>, Box<Value<N>>),
}

impl<N: Copy> Clone for Value<N> {
    fn clone(&self) -> (r: Self)
        ensures
            r == *self,
        decreases self,
    {
        match self {
            Value::Number(n) => Value::Number(*n),
            Value::Negation(v) => Value::Negation(Box::new((**v).clone())),
            Value::Binary(op, l, r) => Value::Binary(*op, Box::new((**l).clone()), Box::new((**r).clone())),
        }
    }
}

} // verus!
