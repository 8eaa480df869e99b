//! A verified CHIP-8 interpreter core: a 4 KiB byte-addressable memory, a
//! 16-register byte machine with a 16-bit index register and program counter,
//! a 16-level call stack, two countdown timers, a 16-key pad, and a 64x32
//! monochrome framebuffer.
//!
//! The host is expected to load a program once, then repeatedly advance the
//! machine one instruction at a time, feeding key state in and reading the
//! framebuffer out between steps.

use vstd::prelude::*;

pub mod cpu;
pub mod decode;
pub mod semantics;
pub mod laws;
pub mod step;

verus! {

/// Screen width in cells.
pub const VIDEO_WIDTH: usize = 64;

/// Screen height in cells.
pub const VIDEO_HEIGHT: usize = 32;

} // verus!
