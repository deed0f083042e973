//! An interpreter engine for a CHIP-8 style virtual machine: sixteen byte
//! registers, 4 KiB of memory, a 64x32 display, two timers, a keypad and a
//! bounded call stack. Every instruction is given as a pure function on a
//! mathematical machine state, and the executable machine is proved to follow it.

pub mod error;
pub mod chip8_util;
pub mod machine;
pub mod chip8;
pub mod display;
pub mod dispatch;
pub mod laws;
pub mod chip8_gui;
pub mod chip8_sdl2_gui;

use vstd::prelude::*;

verus! {

/// The configuration of a session: where the program image is read from.
pub struct Config {
    pub rom_filename: String,
}

} // verus!
