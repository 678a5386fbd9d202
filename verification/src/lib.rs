//! A CHIP-8 virtual machine core: instruction decoding, the
//! fetch-decode-execute cycle, the XOR-composited monochrome framebuffer,
//! the delay timer and the keypad model.

pub mod display;
pub mod emulator;
pub mod fault;
pub mod keypad;
pub mod machine;
pub mod opcode;
