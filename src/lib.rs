//! The runtime core of a small scripting language: a bytecode chunk, a
//! stack machine that executes it, and a disassembler and tracer that
//! describe it.
use vstd::prelude::*;

pub mod bytecode;
pub mod disassembler;
pub mod value;
pub mod vm;

verus! {

/// The bytecode implementation of the language, as one handle that a host
/// program drives.
pub struct RuloxVm {}

impl RuloxVm {
    pub fn new() -> (r: RuloxVm)
        ensures
            r == (RuloxVm {}),
    {
        RuloxVm {}
    }
}

} // verus!
