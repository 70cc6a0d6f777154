//! A verified implementation of a 16-bit virtual machine with a fixed,
//! closed instruction set, together with a disassembler that sweeps raw
//! memory into instructions and data, and the state machine of an
//! interactive tracer that drives execution step by step.

pub mod binary;
pub mod disasm;
pub mod labels;
pub mod numbers;
pub mod tracer;
pub mod vm;
