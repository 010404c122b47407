//! An interpreted emulator for the RISC-V general-purpose instruction set
//! (RV64 base integer ISA with the M, A, Zicsr and Zifencei extensions),
//! executing flat binary images against a memory-mapped bus of read-only
//! boot memory and writable main memory.

pub mod alu;
pub mod bus;
pub mod cpu;
pub mod decode;
pub mod emulator;
pub mod exception;
pub mod fpu;
pub mod laws;
pub mod ram;
pub mod rom;
