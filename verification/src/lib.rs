//! A verified CHIP-8 / SuperCHIP instruction execution core.
//!
//! The crate models the machine state (registers, memory, call stack,
//! timers, framebuffer) and proves that each instruction handler, and the
//! fetch-decode-execute cycle built from them, matches a mathematical
//! transition function over that state.

pub mod graphics;
pub mod io;
pub mod cpu;
