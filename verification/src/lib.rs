//! A CHIP-8 interpreter core with machine-checked instruction semantics.
//!
//! [`machine`] and [`sprite`] describe the machine as a mathematical value
//! and say what one step does to it; [`instruction`] says which instruction
//! a word stands for. [`cpu`] holds the executable machine, which is proved
//! to follow that description, and [`laws`] holds what follows from it for
//! every machine. [`keypad`], [`render`] and [`text`] serve a host that
//! gives the machine a keyboard, a window and a prompt.

#![allow(unused_imports)]

pub mod consts;
pub mod cpu;
pub mod fault;
pub mod instruction;
pub mod keypad;
pub mod laws;
pub mod machine;
pub mod render;
pub mod rng;
pub mod sprite;
pub mod text;

pub use cpu::Cpu;
pub use fault::Fault;
pub use instruction::{decode, Instruction, InstructionOrd};
