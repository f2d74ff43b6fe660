//! A small virtual machine: a decoder for its 16-bit instruction words, the
//! machine state those instructions act on, and the 64x32 one-bit framebuffer
//! that sprites are drawn into.

pub mod alu;
pub mod instruction;
pub mod machine;
mod peripherals;
pub mod screen;
