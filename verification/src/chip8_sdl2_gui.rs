//! What the windowed front end computes before it draws: its
//! configuration and where on the canvas a display cell goes.

use vstd::prelude::*;
use crate::chip8::Chip8;
use crate::machine::MachineState;

verus! {

/// The key code of the escape key, which ends the session.
pub const KEYCODE_ESCAPE: i32 = 27;

/// What the window reports to the driving loop, as far as the machine cares.
/// Keys are given by their key code, which for a character key is its
/// lower-case ASCII code.
#[derive(Debug, Clone, Copy, PartialEq, Eq, Structural)]
pub enum InputEvent {
    /// The window was closed.
    Quit,
    /// A keyboard key went down.
    KeyDown(i32),
    /// A keyboard key came up.
    KeyUp(i32),
    /// Anything else.
    Other,
}

/// The keypad key that a keyboard key stands for: the digit keys are the
/// keys 0 to 9, the letters `a` to `f` the keys 10 to 15.
pub open spec fn keypad_key(keycode: i32) -> Option<u8> {
    if 48 <= keycode <= 57 {
        Some((keycode - 48) as u8)
    } else if 97 <= keycode <= 102 {
        Some((keycode - 87) as u8)
    } else {
        None
    }
}

/// Whether an event ends the session: closing the window or pressing escape.
pub open spec fn ends_session(event: InputEvent) -> bool {
    event is Quit || event == InputEvent::KeyDown(KEYCODE_ESCAPE)
}

/// The machine after an event: a keypad key that goes down sets its bit in
/// the keypad mask, one that comes up clears it, and nothing else changes.
pub open spec fn after_event(m: MachineState, event: InputEvent) -> MachineState {
    match event {
        InputEvent::KeyDown(keycode) => match keypad_key(keycode) {
            Some(key) => MachineState { keys: m.keys | (0x8000u16 >> key), ..m },
            None => m,
        },
        InputEvent::KeyUp(keycode) => match keypad_key(keycode) {
            Some(key) => MachineState { keys: m.keys & !(0x8000u16 >> key), ..m },
            None => m,
        },
        _ => m,
    }
}

pub fn key_of_keycode(keycode: i32) -> (key: Option<u8>)
    ensures
        key == keypad_key(keycode),
{
    if 48 <= keycode && keycode <= 57 {
        Some((keycode - 48) as u8)
    } else if 97 <= keycode && keycode <= 102 {
        Some((keycode - 87) as u8)
    } else {
        None
    }
}

/// Takes one event of the window into the machine, and tells whether the
/// driving loop is to go on.
pub fn handle_event(chip8: &mut Chip8, event: InputEvent) -> (running: bool)
    ensures
        running == !ends_session(event),
        final(chip8)@ == after_event(old(chip8)@, event),
        old(chip8).wf() ==> final(chip8).wf(),
{
    match event {
        InputEvent::Quit => false,
        InputEvent::KeyDown(keycode) => {
            if keycode == KEYCODE_ESCAPE {
                return false;
            }
            match key_of_keycode(keycode) {
                Some(key) => {
                    let pressed = chip8.press_key(key);
                    assert(pressed is Ok);
                },
                None => {},
            }
            true
        },
        InputEvent::KeyUp(keycode) => {
            match key_of_keycode(keycode) {
                Some(key) => {
                    let released = chip8.release_key(key);
                    assert(released is Ok);
                },
                None => {},
            }
            true
        },
        InputEvent::Other => true,
    }
}

/// The side of the square, in canvas pixels, that one display cell is drawn as.
pub const PIXEL_SIZE: u32 = 10;

pub struct Config {
    pub cartridge_rom_filename: String,
    pub console_rom_filename: String,
}

impl Config {
    /// Reads the program image's path from the command line: the argument
    /// after the program's own name. The font image is always `console_rom.dat`.
    pub fn new(args: &[String]) -> (res: Result<Config, &'static str>)
        ensures
            args@.len() < 2 <==> res is Err,
            res matches Err(message) ==> message@ == "not enough arguments"@,
            res matches Ok(config) ==> config.cartridge_rom_filename@ == args@[1]@
                && config.console_rom_filename@ == "console_rom.dat"@,
    {
        if args.len() < 2 {
            return Err("not enough arguments");
        }
        let cartridge_rom_filename = args[1].clone();
        Ok(
            Config {
                cartridge_rom_filename: cartridge_rom_filename,
                console_rom_filename: String::from_str("console_rom.dat"),
            },
        )
    }
}

/// The quotient of `index` by 64, rounded towards zero.
pub open spec fn row_of(index: int) -> int {
    if index >= 0 {
        index / 64
    } else {
        -((-index) / 64)
    }
}

/// What is left of `index` after that division; it has the sign of `index`.
pub open spec fn column_of(index: int) -> int {
    if index >= 0 {
        index % 64
    } else {
        -((-index) % 64)
    }
}

/// The top left corner, on the canvas, of the display cell `index`: cells
/// run along rows of 64, and each is `PIXEL_SIZE` wide and high.
pub fn index_to_point(index: i32) -> (point: (i32, i32))
    ensures
        point.0 == column_of(index as int) * PIXEL_SIZE,
        point.1 == row_of(index as int) * PIXEL_SIZE,
{
    if index >= 0 {
        ((index % 64) * 10, (index / 64) * 10)
    } else {
        let distance: i64 = -(index as i64);
        ((-((distance % 64) * 10)) as i32, (-((distance / 64) * 10)) as i32)
    }
}

} // verus!
