//! A verified core for a small fixed-architecture virtual CPU: 16 8-bit
//! registers, a 16-bit index register, 4KB of memory, two 8-bit timers and a
//! 64x32 monochrome framebuffer, executing 2-byte instructions loaded at a
//! fixed offset. The presentation side (display, keyboard, audio) is an
//! independent thread connected only through bounded channels.

pub mod channels;
pub mod cpu;
pub mod keyboard;
pub mod laws;
pub mod rng;
pub mod program;
pub mod opcode;
