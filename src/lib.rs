//! An interpreter for the CHIP-8 virtual machine: memory, registers, call
//! stack, timers, keypad and a monochrome framebuffer, driven one instruction
//! per cycle by its host.

use vstd::prelude::*;

pub mod cpu;
pub mod instruction;
pub mod laws;
pub mod machine;

pub use cpu::Cpu;
pub use instruction::{decode, Instruction};
pub use machine::Fault;

verus! {

} // verus!
