//! A CHIP-8 and SUPER-CHIP virtual machine core, verified with Verus.
//!
//! - `cpu`: the machine state `Cpu`, its model `Machine`, timers and keypad
//! - `display`: the bitmap in its two resolutions
//! - `memory`: fonts and program loading
//! - `quirk`: the table of behaviours on which interpreters differ
//! - `semantics`: what each instruction does, as functions on `Machine`
//! - `draw`: sprites, and the squares that show the bitmap in a window
//! - `interp`: fetch, decode and execute, proved against `semantics`
//! - `laws`: theorems about the instruction set
//! - `random`: the generator behind the random instruction
//! - `error`: the faults that a step reports

pub mod cpu;
pub mod display;
pub mod draw;
pub mod error;
pub mod interp;
pub mod laws;
pub mod memory;
pub mod quirk;
pub mod random;
pub mod semantics;
