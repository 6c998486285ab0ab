//! An interpreter for the CHIP-8 virtual machine whose instruction semantics
//! are stated over a mathematical model of the machine and proved.

pub mod bit_ops;
pub mod chip8;
pub mod chip8_runner;
pub mod cli;
pub mod error;
pub mod input;
pub mod laws;
pub mod instructions;
pub mod machine;
pub mod quirks;
pub mod registers;
pub mod sprite;
pub mod version;
