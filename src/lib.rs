//! An interpreter for the CHIP-8 virtual machine: instruction decoding, the
//! opcode semantics, and the memory, display, stack and timers they act on.

pub mod instruction;
pub mod memory;
pub mod stack;
pub mod timer;
pub mod display;
pub mod machine;
pub mod computer;
pub mod laws;
