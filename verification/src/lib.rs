use vstd::prelude::*;

pub mod error;
pub mod instr;
pub mod laws;
pub mod machine;
pub mod semantics;
pub mod state;

pub use error::Chip8Error;
pub use instr::Instr;
pub use machine::Emulator;

verus! {

/// Bytes of addressable memory.
pub const RAM_SIZE: usize = 4096;

/// Width of the monochrome framebuffer, in pixels.
pub const SCREEN_WIDTH: usize = 64;

/// Height of the monochrome framebuffer, in pixels.
pub const SCREEN_HEIGHT: usize = 32;

/// Number of general-purpose registers.
pub const NUM_REGS: usize = 16;

/// Capacity of the call stack, in return addresses.
pub const STACK_DEPTH: usize = 16;

/// Number of keys on the input surface.
pub const NUM_KEYS: usize = 16;

/// Bytes occupied by the built-in font: sixteen glyphs of five bytes each.
pub const FONT_BYTES: usize = 80;

/// Address at which loaded programs begin; also the initial program counter.
pub const START_ADDR: u16 = 0x200;

} // verus!
