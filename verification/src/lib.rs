//! A virtual machine for the CHIP-8 instruction set: instruction decoding,
//! addressable memory, a monochrome framebuffer and the execution engine,
//! each with a machine-checked contract.

pub mod control;
pub mod cpu;
pub mod display;
pub mod fault;
pub mod keyboard;
pub mod laws;
pub mod machine;
pub mod memory;
pub mod opcode;
