//! An interpreter for the CHIP-8 instruction set: machine state, instruction
//! decoding and the semantics of every instruction, each stated as a
//! function on a mathematical model of the machine.
//!
//! - `machine`: the machine's state, its model, and loading and display.
//! - `instruction`: instruction words and their decoding.
//! - `semantics`: what each instruction does, on the model.
//! - `ops`: one method per instruction.
//! - `cpu`: the fetch-decode-execute cycle.
//! - `laws`: properties that hold across instructions.
pub mod cpu;
pub mod instruction;
pub mod laws;
pub mod machine;
pub mod ops;
mod random;
pub mod semantics;
