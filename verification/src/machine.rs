//! The machine as a mathematical value, and every instruction as a function
//! from one such value to the next.

use vstd::prelude::*;
use crate::error::Chip8Error;

verus! {

/// Everything an instruction can read or change.
pub struct MachineState {
    /// The 4096-byte address space.
    pub memory: Seq<u8>,
    /// The sixteen general registers; the last one is the flag register.
    pub registers: Seq<u8>,
    /// The index register.
    pub index: u16,
    /// The program counter.
    pub pc: u16,
    /// The 64x32 display, row by row; a cell is lit when it is not zero.
    pub display: Seq<u8>,
    /// The delay timer.
    pub delay: u8,
    /// The sound timer.
    pub sound: u8,
    /// The return addresses, oldest first.
    pub stack: Seq<u16>,
    /// The keypad: key `k` is held down when bit `15 - k` is set.
    pub keys: u16,
    /// The register that a pending key wait will fill, if one is pending.
    pub waiting: Option<u8>,
}

/// What an operation is to report and leave behind: on success the expected
/// machine, on failure the error and the machine untouched.
pub open spec fn carried_out(
    before: MachineState,
    expected: Result<MachineState, Chip8Error>,
    res: Result<(), Chip8Error>,
    after: MachineState,
) -> bool {
    match expected {
        Ok(m) => res is Ok && after == m,
        Err(e) => res == Err::<(), Chip8Error>(e) && after == before,
    }
}

/// Whether the sprite row `byte` has its pixel at `position` set, the
/// leftmost pixel being position 0 and the most significant bit.
pub open spec fn sprite_bit(byte: u8, position: u8) -> bool {
    (byte >> ((7 - position) as u8)) & 1 == 1
}

/// A display cell after a set sprite pixel is composed onto it.
pub open spec fn flipped(cell: u8) -> u8 {
    if cell != 0 { 0u8 } else { 255u8 }
}

/// Whether key `key` (0 to 15) is held down in the keypad mask `keys`.
pub open spec fn key_down(keys: u16, key: u8) -> bool {
    keys & (0x8000u16 >> key) != 0
}

/// The lowest key from `from` upwards that is held down, if there is one.
pub open spec fn first_key_down(keys: u16, from: u8) -> Option<u8>
    decreases 16 - from,
{
    if from >= 16 {
        None
    } else if key_down(keys, from) {
        Some(from)
    } else {
        first_key_down(keys, (from + 1) as u8)
    }
}

/// Whether the first `width` pixels of the sprite row `byte`, drawn with its
/// left edge at column `x` of row `y` (both wrapping), set a pixel on `cell`.
#[verifier::opaque]
pub open spec fn row_covers(x: u8, y: u8, byte: u8, width: int, cell: int) -> bool {
    let column = (cell % 64 + 64 - x % 64) % 64;
    &&& cell / 64 == y % 32
    &&& column < width
    &&& sprite_bit(byte, column as u8)
}

impl MachineState {
    /// The sizes and bounds that every machine keeps.
    pub open spec fn wf(self) -> bool {
        &&& self.memory.len() == 4096
        &&& self.registers.len() == 16
        &&& self.display.len() == 2048
        &&& self.stack.len() <= 16
        &&& self.index <= 0xFFF
        &&& (self.waiting matches Some(r) ==> r <= 0xF)
    }

    /// The machine as it is created: everything zero, the program counter
    /// at the entry address 0x200, the stack empty and no key wait pending.
    pub open spec fn initial() -> MachineState {
        MachineState {
            memory: Seq::new(4096, |a: int| 0u8),
            registers: Seq::new(16, |r: int| 0u8),
            index: 0,
            pc: 0x200,
            display: Seq::new(2048, |c: int| 0u8),
            delay: 0,
            sound: 0,
            stack: Seq::empty(),
            keys: 0,
            waiting: None,
        }
    }

    pub open spec fn with_register(self, r: int, value: u8) -> MachineState {
        MachineState { registers: self.registers.update(r, value), ..self }
    }

    pub open spec fn with_flag(self, value: u8) -> MachineState {
        self.with_register(15, value)
    }

    pub open spec fn with_pc(self, pc: u16) -> MachineState {
        MachineState { pc, ..self }
    }

    /// A program image copied into memory from address `start` on.
    pub open spec fn load_image(self, image: Seq<u8>, start: int) -> Result<
        MachineState,
        Chip8Error,
    > {
        if start + image.len() > 4096 {
            Err(Chip8Error::MemoryOutOfBounds)
        } else {
            Ok(
                MachineState {
                    memory: Seq::new(
                        4096,
                        |a: int|
                            if start <= a < start + image.len() {
                                image[a - start]
                            } else {
                                self.memory[a]
                            },
                    ),
                    ..self
                },
            )
        }
    }

    /// One external timer tick: each timer that is not zero goes down by one.
    pub open spec fn tick(self) -> MachineState {
        MachineState {
            delay: if self.delay > 0 { (self.delay - 1) as u8 } else { 0 },
            sound: if self.sound > 0 { (self.sound - 1) as u8 } else { 0 },
            ..self
        }
    }

    /// Every display cell unlit.
    pub open spec fn clear_display(self) -> MachineState {
        MachineState { display: Seq::new(2048, |c: int| 0u8), ..self }
    }

    /// Return from a subroutine: the newest return address becomes the
    /// program counter.
    pub open spec fn return_from_call(self) -> Result<MachineState, Chip8Error> {
        if self.stack.len() == 0 {
            Err(Chip8Error::StackUnderflow)
        } else {
            Ok(MachineState { pc: self.stack.last(), stack: self.stack.drop_last(), ..self })
        }
    }

    pub open spec fn jump(self, address: u16) -> Result<MachineState, Chip8Error> {
        if address > 0xFFF {
            Err(Chip8Error::ArgumentOutOfRange)
        } else {
            Ok(self.with_pc(address))
        }
    }

    /// Call a subroutine: the program counter is pushed, then replaced.
    pub open spec fn call(self, address: u16) -> Result<MachineState, Chip8Error> {
        if address > 0xFFF {
            Err(Chip8Error::ArgumentOutOfRange)
        } else if self.stack.len() >= 16 {
            Err(Chip8Error::StackOverflow)
        } else {
            Ok(MachineState { pc: address, stack: self.stack.push(self.pc), ..self })
        }
    }

    /// Skip the next instruction when `holds`: the program counter moves on
    /// by one more instruction width. A counter that would leave its 16 bits
    /// is reported instead of wrapped.
    pub open spec fn skip_when(self, holds: bool) -> Result<MachineState, Chip8Error> {
        if !holds {
            Ok(self)
        } else if self.pc > 0xFFFD {
            Err(Chip8Error::MemoryOutOfBounds)
        } else {
            Ok(self.with_pc((self.pc + 2) as u16))
        }
    }

    pub open spec fn skip_if_equals_byte(self, x: u8, byte: u8) -> Result<
        MachineState,
        Chip8Error,
    > {
        if x > 0xF {
            Err(Chip8Error::ArgumentOutOfRange)
        } else {
            self.skip_when(self.registers[x as int] == byte)
        }
    }

    pub open spec fn skip_if_differs_from_byte(self, x: u8, byte: u8) -> Result<
        MachineState,
        Chip8Error,
    > {
        if x > 0xF {
            Err(Chip8Error::ArgumentOutOfRange)
        } else {
            self.skip_when(self.registers[x as int] != byte)
        }
    }

    pub open spec fn skip_if_registers_equal(self, x: u8, y: u8) -> Result<
        MachineState,
        Chip8Error,
    > {
        if x > 0xF || y > 0xF {
            Err(Chip8Error::ArgumentOutOfRange)
        } else {
            self.skip_when(self.registers[x as int] == self.registers[y as int])
        }
    }

    pub open spec fn skip_if_registers_differ(self, x: u8, y: u8) -> Result<
        MachineState,
        Chip8Error,
    > {
        if x > 0xF || y > 0xF {
            Err(Chip8Error::ArgumentOutOfRange)
        } else {
            self.skip_when(self.registers[x as int] != self.registers[y as int])
        }
    }

    pub open spec fn set_register(self, x: u8, byte: u8) -> Result<MachineState, Chip8Error> {
        if x > 0xF {
            Err(Chip8Error::ArgumentOutOfRange)
        } else {
            Ok(self.with_register(x as int, byte))
        }
    }

    /// Add an immediate byte to a register, wrapping past 255; no flag.
    pub open spec fn add_immediate(self, x: u8, byte: u8) -> Result<MachineState, Chip8Error> {
        if x > 0xF {
            Err(Chip8Error::ArgumentOutOfRange)
        } else {
            Ok(self.with_register(x as int, ((self.registers[x as int] + byte) % 256) as u8))
        }
    }

    pub open spec fn copy_register(self, x: u8, y: u8) -> Result<MachineState, Chip8Error> {
        if x > 0xF || y > 0xF {
            Err(Chip8Error::ArgumentOutOfRange)
        } else {
            Ok(self.with_register(x as int, self.registers[y as int]))
        }
    }

    pub open spec fn or_registers(self, x: u8, y: u8) -> Result<MachineState, Chip8Error> {
        if x > 0xF || y > 0xF {
            Err(Chip8Error::ArgumentOutOfRange)
        } else {
            Ok(self.with_register(x as int, self.registers[x as int] | self.registers[y as int]))
        }
    }

    pub open spec fn and_registers(self, x: u8, y: u8) -> Result<MachineState, Chip8Error> {
        if x > 0xF || y > 0xF {
            Err(Chip8Error::ArgumentOutOfRange)
        } else {
            Ok(self.with_register(x as int, self.registers[x as int] & self.registers[y as int]))
        }
    }

    pub open spec fn xor_registers(self, x: u8, y: u8) -> Result<MachineState, Chip8Error> {
        if x > 0xF || y > 0xF {
            Err(Chip8Error::ArgumentOutOfRange)
        } else {
            Ok(self.with_register(x as int, self.registers[x as int] ^ self.registers[y as int]))
        }
    }

    /// Register `x` receives the low eight bits of `x + y`; the flag is 1
    /// when the sum exceeds 255. The flag is written last.
    pub open spec fn add_registers(self, x: u8, y: u8) -> Result<MachineState, Chip8Error> {
        if x > 0xF || y > 0xF {
            Err(Chip8Error::ArgumentOutOfRange)
        } else {
            let sum = self.registers[x as int] + self.registers[y as int];
            Ok(
                self.with_register(x as int, (sum % 256) as u8).with_flag(
                    if sum > 255 { 1 } else { 0 },
                ),
            )
        }
    }

    /// Register `x` receives `x - y`, wrapped; the flag is 1 when nothing was
    /// borrowed. The flag is written last.
    pub open spec fn subtract_registers(self, x: u8, y: u8) -> Result<MachineState, Chip8Error> {
        if x > 0xF || y > 0xF {
            Err(Chip8Error::ArgumentOutOfRange)
        } else {
            let a = self.registers[x as int];
            let b = self.registers[y as int];
            Ok(
                self.with_register(x as int, ((256 + a - b) % 256) as u8).with_flag(
                    if a >= b { 1 } else { 0 },
                ),
            )
        }
    }

    /// The subtraction the other way round: register `x` receives `y - x`,
    /// wrapped; the flag is 1 when nothing was borrowed. The flag is written
    /// last.
    pub open spec fn subtract_reversed(self, x: u8, y: u8) -> Result<MachineState, Chip8Error> {
        if x > 0xF || y > 0xF {
            Err(Chip8Error::ArgumentOutOfRange)
        } else {
            let a = self.registers[x as int];
            let b = self.registers[y as int];
            Ok(
                self.with_register(x as int, ((256 + b - a) % 256) as u8).with_flag(
                    if b >= a { 1 } else { 0 },
                ),
            )
        }
    }

    /// Register `x` is halved; the flag receives the bit that fell out.
    pub open spec fn shift_right(self, x: u8) -> Result<MachineState, Chip8Error> {
        if x > 0xF {
            Err(Chip8Error::ArgumentOutOfRange)
        } else {
            let value = self.registers[x as int];
            Ok(self.with_register(x as int, (value / 2) as u8).with_flag((value % 2) as u8))
        }
    }

    /// Register `x` is doubled, wrapping; the flag receives the bit that fell out.
    pub open spec fn shift_left(self, x: u8) -> Result<MachineState, Chip8Error> {
        if x > 0xF {
            Err(Chip8Error::ArgumentOutOfRange)
        } else {
            let value = self.registers[x as int];
            Ok(
                self.with_register(x as int, ((2 * value) % 256) as u8).with_flag(
                    (value / 128) as u8,
                ),
            )
        }
    }

    pub open spec fn set_index(self, value: u16) -> Result<MachineState, Chip8Error> {
        if value > 0xFFF {
            Err(Chip8Error::ArgumentOutOfRange)
        } else {
            Ok(MachineState { index: value, ..self })
        }
    }

    pub open spec fn jump_plus_v0(self, address: u16) -> Result<MachineState, Chip8Error> {
        if address > 0xFFF {
            Err(Chip8Error::ArgumentOutOfRange)
        } else {
            Ok(self.with_pc((address + self.registers[0]) as u16))
        }
    }

    /// Register `x` receives the random byte `random` masked by `byte`.
    pub open spec fn set_masked_random(self, x: u8, byte: u8, random: u8) -> Result<
        MachineState,
        Chip8Error,
    > {
        if x > 0xF {
            Err(Chip8Error::ArgumentOutOfRange)
        } else {
            Ok(self.with_register(x as int, byte & random))
        }
    }

    /// Whether a sprite of `rows` rows, read from memory at the index
    /// register and drawn with its top left corner at column `vx` of row
    /// `vy` (both wrapping), sets a pixel on `cell`.
    #[verifier::opaque]
    pub open spec fn sprite_covers(self, vx: u8, vy: u8, rows: int, cell: int) -> bool {
        let line = (cell / 64 + 32 - vy % 32) % 32;
        let column = (cell % 64 + 64 - vx % 64) % 64;
        &&& line < rows
        &&& column < 8
        &&& sprite_bit(self.memory[self.index + line], column as u8)
    }

    /// Whether drawing that sprite turns a lit cell off.
    pub open spec fn sprite_collides(self, vx: u8, vy: u8, rows: int) -> bool {
        exists|cell: int|
            0 <= cell < 2048 && #[trigger] self.sprite_covers(vx, vy, rows, cell)
                && self.display[cell] != 0
    }

    /// The display after that sprite is composed onto it.
    pub open spec fn sprite_drawn(self, vx: u8, vy: u8, rows: int) -> Seq<u8> {
        Seq::new(
            2048,
            |cell: int|
                if self.sprite_covers(vx, vy, rows, cell) {
                    flipped(self.display[cell])
                } else {
                    self.display[cell]
                },
        )
    }

    /// Draw the sprite of `rows` rows at the position held in registers `x`
    /// and `y`; the flag tells whether a lit cell was turned off.
    pub open spec fn draw_sprite(self, x: u8, y: u8, rows: u8) -> Result<
        MachineState,
        Chip8Error,
    > {
        if x > 0xF || y > 0xF || rows > 0xF {
            Err(Chip8Error::ArgumentOutOfRange)
        } else if self.index + rows > 4096 {
            Err(Chip8Error::MemoryOutOfBounds)
        } else {
            let vx = self.registers[x as int];
            let vy = self.registers[y as int];
            Ok(
                MachineState {
                    display: self.sprite_drawn(vx, vy, rows as int),
                    ..self
                }.with_flag(if self.sprite_collides(vx, vy, rows as int) { 1 } else { 0 }),
            )
        }
    }

    /// Whether one sprite row turns a lit cell off.
    pub open spec fn row_collides(self, x: u8, y: u8, byte: u8, width: int) -> bool {
        exists|cell: int|
            0 <= cell < 2048 && #[trigger] row_covers(x, y, byte, width, cell)
                && self.display[cell] != 0
    }

    /// One sprite row composed onto the display.
    pub open spec fn draw_row(self, x: u8, y: u8, byte: u8, width: int) -> MachineState {
        MachineState {
            display: Seq::new(
                2048,
                |cell: int|
                    if row_covers(x, y, byte, width, cell) {
                        flipped(self.display[cell])
                    } else {
                        self.display[cell]
                    },
            ),
            ..self
        }
    }

    /// Skip the next instruction when the key named by register `x` is, or
    /// is not, held down as `down` asks.
    pub open spec fn skip_on_key(self, x: u8, down: bool) -> Result<MachineState, Chip8Error> {
        if x > 0xF || self.registers[x as int] > 0xF {
            Err(Chip8Error::ArgumentOutOfRange)
        } else {
            self.skip_when(key_down(self.keys, self.registers[x as int]) == down)
        }
    }

    pub open spec fn read_delay(self, x: u8) -> Result<MachineState, Chip8Error> {
        if x > 0xF {
            Err(Chip8Error::ArgumentOutOfRange)
        } else {
            Ok(self.with_register(x as int, self.delay))
        }
    }

    /// Enter the key wait: no instruction runs until a key is seen, and
    /// register `x` then receives that key.
    pub open spec fn await_key(self, x: u8) -> Result<MachineState, Chip8Error> {
        if x > 0xF {
            Err(Chip8Error::ArgumentOutOfRange)
        } else {
            Ok(MachineState { waiting: Some(x), ..self })
        }
    }

    pub open spec fn set_delay(self, x: u8) -> Result<MachineState, Chip8Error> {
        if x > 0xF {
            Err(Chip8Error::ArgumentOutOfRange)
        } else {
            Ok(MachineState { delay: self.registers[x as int], ..self })
        }
    }

    pub open spec fn set_sound(self, x: u8) -> Result<MachineState, Chip8Error> {
        if x > 0xF {
            Err(Chip8Error::ArgumentOutOfRange)
        } else {
            Ok(MachineState { sound: self.registers[x as int], ..self })
        }
    }

    /// Add register `x` to the index register, which must stay an address.
    pub open spec fn add_to_index(self, x: u8) -> Result<MachineState, Chip8Error> {
        if x > 0xF {
            Err(Chip8Error::ArgumentOutOfRange)
        } else if self.index + self.registers[x as int] > 0xFFF {
            Err(Chip8Error::MemoryOutOfBounds)
        } else {
            Ok(MachineState { index: (self.index + self.registers[x as int]) as u16, ..self })
        }
    }

    /// Point the index register at the five-byte font sprite of a digit.
    pub open spec fn point_at_digit(self, digit: u8) -> Result<MachineState, Chip8Error> {
        if digit > 0xF {
            Err(Chip8Error::ArgumentOutOfRange)
        } else {
            Ok(MachineState { index: (5 * digit) as u16, ..self })
        }
    }

    /// Store the hundreds, tens and ones of register `x` at the index
    /// register's address and the two after it.
    pub open spec fn store_decimal(self, x: u8) -> Result<MachineState, Chip8Error> {
        if x > 0xF {
            Err(Chip8Error::ArgumentOutOfRange)
        } else if self.index + 2 > 4095 {
            Err(Chip8Error::MemoryOutOfBounds)
        } else {
            let value = self.registers[x as int];
            let at = self.index as int;
            Ok(
                MachineState {
                    memory: self.memory.update(at, (value / 100) as u8).update(
                        at + 1,
                        ((value / 10) % 10) as u8,
                    ).update(at + 2, (value % 10) as u8),
                    ..self
                },
            )
        }
    }

    /// Copy registers 0 to `last` into memory from the index register's address on.
    pub open spec fn store_block(self, last: u8) -> Result<MachineState, Chip8Error> {
        if last > 0xF {
            Err(Chip8Error::ArgumentOutOfRange)
        } else if self.index + last > 4095 {
            Err(Chip8Error::MemoryOutOfBounds)
        } else {
            Ok(
                MachineState {
                    memory: Seq::new(
                        4096,
                        |a: int|
                            if self.index <= a <= self.index + last {
                                self.registers[a - self.index]
                            } else {
                                self.memory[a]
                            },
                    ),
                    ..self
                },
            )
        }
    }

    /// Fill registers 0 to `last` from memory at the index register's address on.
    pub open spec fn load_block(self, last: u8) -> Result<MachineState, Chip8Error> {
        if last > 0xF {
            Err(Chip8Error::ArgumentOutOfRange)
        } else if self.index + last > 4095 {
            Err(Chip8Error::MemoryOutOfBounds)
        } else {
            Ok(
                MachineState {
                    registers: Seq::new(
                        16,
                        |r: int|
                            if r <= last {
                                self.memory[self.index + r]
                            } else {
                                self.registers[r]
                            },
                    ),
                    ..self
                },
            )
        }
    }
}

} // verus!
