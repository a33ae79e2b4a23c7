//! Decoding single instructions of a method's code.
#![allow(non_camel_case_types)]

use vstd::prelude::*;

verus! {

/// What `javap` shows for one instruction.
pub struct InstructionInfo {
    /// The mnemonic.
    pub name: &'static str,
    /// The opcode byte.
    pub code: u8,
    /// The constant-pool index the instruction refers to, 0 for none.
    pub icp: usize,
}

/// An instruction decoder.
pub trait Instruction {
    /// Decodes the instruction at `pc`: what to show, and where the next
    /// instruction starts.
    fn run(&self, codes: &[u8], pc: usize) -> (r: (InstructionInfo, usize))
        requires
            pc < codes@.len(),
        ensures
            r.0.code == codes@[pc as int],
            r.1 > pc,
    ;
}

/// `dreturn`: return a `double` from the method.
pub struct Dreturn;

impl Instruction for Dreturn {
    fn run(&self, codes: &[u8], pc: usize) -> (r: (InstructionInfo, usize))
        ensures
            r.0.name@ == "dreturn"@,
            r.0.icp == 0,
            r.1 == pc + 1,
    {
        let info = InstructionInfo { name: "dreturn", code: codes[pc], icp: 0 };
        (info, pc + 1)
    }
}

/// `dstore_1`: store a `double` into local variable 1.
pub struct Dstore_1;

impl Instruction for Dstore_1 {
    fn run(&self, codes: &[u8], pc: usize) -> (r: (InstructionInfo, usize))
        ensures
            r.0.name@ == "dstore_1"@,
            r.0.icp == 0,
            r.1 == pc + 1,
    {
        let info = InstructionInfo { name: "dstore_1", code: codes[pc], icp: 0 };
        (info, pc + 1)
    }
}

} // verus!
