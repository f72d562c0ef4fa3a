//! The execution core of an 8-bit handheld-console processor: the register
//! file, the bus it talks to, and the instruction engine that turns
//! prefetched opcodes into register changes and machine cycles on the bus.
//!
//! Every instruction is specified by what it does to the registers and by
//! the bus events it causes, in order; the engine is proved to do exactly
//! that, whatever device sits behind the bus.

pub mod registers;
pub mod memory;
pub mod cpu;
pub mod alu;
pub mod shifts;
pub mod ld;
pub mod stack;
pub mod jumps;
