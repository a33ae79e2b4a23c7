//! Instruction decoders of the `javap` disassembler.
pub mod instruction;
