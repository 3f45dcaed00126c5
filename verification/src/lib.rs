//! An interpreter for the CHIP-8 instruction set: memory, registers, call
//! stack, timers, keypad and display, and the fetch-decode-execute cycle
//! that drives them.
pub mod chip8;
pub mod display;
pub mod font;
pub mod laws;
pub mod machine;
pub mod opcode;
pub mod random;
pub mod sprite;
