//! A verified CHIP-8 virtual machine core: fetch-decode-execute over a
//! 4096-byte memory, sixteen 8-bit registers, a 16-entry call stack, two
//! timers and a 64x32 monochrome display.
//!
//! The machine's semantics are stated as spec-level transition functions over
//! an abstract [`model::State`]; every executable handler is proved to follow
//! them. Windowing, keyboard polling and ROM-file input are left to the
//! embedding program, which hands the core plain values.

pub mod cpu;
pub mod decode;
pub mod exec;
pub mod laws;
pub mod model;
mod rng;
