//! An interpreter core for the CHIP-8 instruction set: memory, registers,
//! call stack, timers, keypad and frame buffer, with every instruction's
//! effect stated as a contract.

pub mod chip8;
pub mod lemmas;
pub mod host;
