//! An interpreter core for the CHIP-8 virtual machine: memory image,
//! instruction decoder and executor, each specified and verified.

pub mod cpu;
pub mod instruction;
pub mod laws;
pub mod ram;
