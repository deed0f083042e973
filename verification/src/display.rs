//! Composing sprites onto the display.

use vstd::prelude::*;
use crate::chip8::Chip8;
use crate::chip8_util::validate_nibble;
use crate::error::Chip8Error;
use crate::machine::{carried_out, flipped, row_covers, sprite_bit, MachineState};

verus! {

/// The one cell that pixel `position` of a sprite row lands on, when the
/// row is drawn with its left edge at column `x` of row `y`.
pub open spec fn pixel_cell(x: u8, y: u8, position: int) -> int {
    (y % 32) * 64 + (x + position) % 64
}

/// On a row of 64 columns, a cell lies `offset` columns to the right of
/// column `x`, wrapping, exactly when it is the column of `x + offset`.
proof fn lemma_wrap_column(column: int, x: int, offset: int)
    requires
        0 <= column < 64,
        0 <= x,
        0 <= offset < 64,
    ensures
        ((column + 64 - x % 64) % 64 == offset) <==> (column == (x + offset) % 64),
{
    let b = x % 64;
    assert(0 <= b < 64);
    assert(x == 64 * (x / 64) + b);
    if column >= b {
        assert((column + 64 - b) % 64 == column - b);
    } else {
        assert((column + 64 - b) % 64 == column + 64 - b);
    }
    if b + offset < 64 {
        assert((x + offset) % 64 == b + offset);
    } else {
        assert((x + offset) % 64 == b + offset - 64);
    }
}

/// The same on a column of 32 rows.
proof fn lemma_wrap_line(row: int, y: int, offset: int)
    requires
        0 <= row < 32,
        0 <= y,
        0 <= offset < 32,
    ensures
        ((row + 32 - y % 32) % 32 == offset) <==> (row == (y + offset) % 32),
{
    let b = y % 32;
    assert(0 <= b < 32);
    assert(y == 32 * (y / 32) + b);
    if row >= b {
        assert((row + 32 - b) % 32 == row - b);
    } else {
        assert((row + 32 - b) % 32 == row + 32 - b);
    }
    if b + offset < 32 {
        assert((y + offset) % 32 == b + offset);
    } else {
        assert((y + offset) % 32 == b + offset - 32);
    }
}

/// A sprite row of no pixels, and a sprite of no rows, cover nothing.
pub proof fn lemma_empty_sprite(m: MachineState, x: u8, y: u8, byte: u8)
    ensures
        forall|cell: int| !#[trigger] row_covers(x, y, byte, 0, cell),
        forall|cell: int| !#[trigger] m.sprite_covers(x, y, 0, cell),
        !m.row_collides(x, y, byte, 0),
        !m.sprite_collides(x, y, 0),
{
    reveal(row_covers);
    reveal(MachineState::sprite_covers);
}

/// Widening a sprite row by one pixel adds at most the cell of that pixel.
pub proof fn lemma_row_grows(x: u8, y: u8, byte: u8, position: u8, cell: int)
    requires
        position < 8,
        0 <= cell < 2048,
    ensures
        row_covers(x, y, byte, position + 1, cell) <==> (row_covers(
            x,
            y,
            byte,
            position as int,
            cell,
        ) || (cell == pixel_cell(x, y, position as int) && sprite_bit(byte, position))),
        !row_covers(x, y, byte, position as int, pixel_cell(x, y, position as int)),
        0 <= pixel_cell(x, y, position as int) < 2048,
{
    reveal(row_covers);
    let target = pixel_cell(x, y, position as int);
    let target_column = (x + position) % 64;
    assert(target == (y % 32) * 64 + target_column);
    assert(target / 64 == y % 32 && target % 64 == target_column);
    lemma_wrap_column(target_column, x as int, position as int);
    lemma_wrap_column(cell % 64, x as int, position as int);
    assert(cell == 64 * (cell / 64) + cell % 64);
    let column = (cell % 64 + 64 - x % 64) % 64;
    if cell / 64 == y % 32 && column == position {
        assert(cell == target);
    }
    if cell == target {
        assert(column == position);
    }
}

/// Lengthening a sprite by one row adds exactly what that row covers.
pub proof fn lemma_sprite_grows(m: MachineState, vx: u8, vy: u8, line: u8, cell: int)
    requires
        line < 16,
        0 <= cell < 2048,
    ensures
        m.sprite_covers(vx, vy, line + 1, cell) <==> (m.sprite_covers(vx, vy, line as int, cell)
            || row_covers(
            vx,
            ((vy + line) % 32) as u8,
            m.memory[m.index + line],
            8,
            cell,
        )),
        !(m.sprite_covers(vx, vy, line as int, cell) && row_covers(
            vx,
            ((vy + line) % 32) as u8,
            m.memory[m.index + line],
            8,
            cell,
        )),
{
    reveal(row_covers);
    reveal(MachineState::sprite_covers);
    let row = cell / 64;
    assert(0 <= row < 32);
    lemma_wrap_line(row, vy as int, line as int);
    let wrapped = ((vy + line) % 32) as u8;
    assert(wrapped % 32 == (vy + line) % 32);
    let found = (row + 32 - vy % 32) % 32;
    assert((row == wrapped % 32) <==> (found == line));
}

impl Chip8 {
    /// Composes one sprite row onto the display, its left edge at column `x`
    /// of row `y`, both wrapping. Each set pixel turns its cell from unlit
    /// to lit or from lit to unlit; the result tells whether a lit cell was
    /// turned off.
    pub fn draw_byte(&mut self, x: u8, y: u8, byte: u8) -> (pixel_was_erased: bool)
        ensures
            old(self).wf() ==> final(self).wf(),
            final(self)@ == old(self)@.draw_row(x, y, byte, 8),
            pixel_was_erased == old(self)@.row_collides(x, y, byte, 8),
    {
        let row: usize = (y % 32) as usize;
        let mut pixel_was_erased: bool = false;
        let mut i: u8 = 0;
        proof {
            lemma_empty_sprite(self@, x, y, byte);
        }
        while i < 8
            invariant
                i <= 8,
                row == y % 32,
                self@ == (MachineState { display: self.gfx@, ..old(self)@ }),
                forall|cell: int|
                    0 <= cell < 2048 ==> self.gfx@[cell] == if row_covers(
                        x,
                        y,
                        byte,
                        i as int,
                        cell,
                    ) {
                        flipped(old(self).gfx@[cell])
                    } else {
                        old(self).gfx@[cell]
                    },
                pixel_was_erased == old(self)@.row_collides(x, y, byte, i as int),
            decreases 8 - i,
        {
            let index: usize = row * 64 + (x as usize + i as usize) % 64;
            proof {
                assert(index == pixel_cell(x, y, i as int));
                assert forall|cell: int| 0 <= cell < 2048 implies (row_covers(
                    x,
                    y,
                    byte,
                    i + 1,
                    cell,
                ) <==> (row_covers(x, y, byte, i as int, cell) || (cell == index && sprite_bit(
                    byte,
                    i,
                )))) by {
                    lemma_row_grows(x, y, byte, i, cell);
                }
                lemma_row_grows(x, y, byte, i, index as int);
            }
            let ghost erased_before = pixel_was_erased;
            if (byte >> (7 - i)) & 1 == 1 {
                if self.gfx[index] != 0 {
                    self.gfx[index] = 0;
                    pixel_was_erased = true;
                } else {
                    self.gfx[index] = 255;
                }
            }
            proof {
                let lit = sprite_bit(byte, i) && old(self).gfx@[index as int] != 0;
                assert(pixel_was_erased == (erased_before || lit));
                if old(self)@.row_collides(x, y, byte, i + 1) {
                    let cell = choose|cell: int|
                        0 <= cell < 2048 && #[trigger] row_covers(x, y, byte, i + 1, cell)
                            && old(self)@.display[cell] != 0;
                    if row_covers(x, y, byte, i as int, cell) {
                        assert(old(self)@.row_collides(x, y, byte, i as int));
                    }
                }
                if lit {
                    assert(row_covers(x, y, byte, i + 1, index as int));
                }
                if old(self)@.row_collides(x, y, byte, i as int) {
                    let cell = choose|cell: int|
                        0 <= cell < 2048 && #[trigger] row_covers(x, y, byte, i as int, cell)
                            && old(self)@.display[cell] != 0;
                    assert(row_covers(x, y, byte, i + 1, cell));
                }
            }
            i += 1;
        }
        proof {
            assert(self.gfx@ =~= old(self)@.draw_row(x, y, byte, 8).display);
        }
        pixel_was_erased
    }

    /// DXYN: composes the N-row sprite at the index register's address onto
    /// the display at the position held in registers X and Y; the flag
    /// register tells whether a lit cell was turned off.
    pub fn draw(&mut self, reg_x: u8, reg_y: u8, bytes_to_read: u8) -> (res: Result<
        (),
        Chip8Error,
    >)
        ensures
            old(self).wf() ==> final(self).wf(),
            carried_out(
                old(self)@,
                old(self)@.draw_sprite(reg_x, reg_y, bytes_to_read),
                res,
                final(self)@,
            ),
    {
        let rx = validate_nibble(reg_x)?;
        let ry = validate_nibble(reg_y)?;
        validate_nibble(bytes_to_read)?;
        let reading_address: usize = self.index_register as usize;
        if reading_address + bytes_to_read as usize > 4096 {
            return Err(Chip8Error::MemoryOutOfBounds);
        }
        let x: u8 = self.cpu_registers[rx];
        let y: u8 = self.cpu_registers[ry];
        let mut pixel_was_erased: bool = false;
        let mut i: u8 = 0;
        proof {
            lemma_empty_sprite(self@, x, y, 0);
        }
        while i < bytes_to_read
            invariant
                i <= bytes_to_read <= 0xF,
                reading_address == old(self).index_register,
                reading_address + bytes_to_read <= 4096,
                self@ == (MachineState { display: self.gfx@, ..old(self)@ }),
                forall|cell: int|
                    0 <= cell < 2048 ==> self.gfx@[cell] == if old(self)@.sprite_covers(
                        x,
                        y,
                        i as int,
                        cell,
                    ) {
                        flipped(old(self).gfx@[cell])
                    } else {
                        old(self).gfx@[cell]
                    },
                pixel_was_erased == old(self)@.sprite_collides(x, y, i as int),
            decreases bytes_to_read - i,
        {
            let y_wrapped: u8 = ((y as u16 + i as u16) % 32) as u8;
            let byte: u8 = self.memory[reading_address + i as usize];
            let ghost before = self@;
            let ghost erased_before = pixel_was_erased;
            let row_erased = self.draw_byte(x, y_wrapped, byte);
            if row_erased {
                pixel_was_erased = true;
            }
            proof {
                let start = old(self)@;
                assert forall|cell: int| 0 <= cell < 2048 implies (start.sprite_covers(
                    x,
                    y,
                    i + 1,
                    cell,
                ) <==> (start.sprite_covers(x, y, i as int, cell) || row_covers(
                    x,
                    y_wrapped,
                    byte,
                    8,
                    cell,
                ))) && !(start.sprite_covers(x, y, i as int, cell) && row_covers(
                    x,
                    y_wrapped,
                    byte,
                    8,
                    cell,
                )) by {
                    lemma_sprite_grows(start, x, y, i, cell);
                }
                if before.row_collides(x, y_wrapped, byte, 8) {
                    let cell = choose|cell: int|
                        0 <= cell < 2048 && #[trigger] row_covers(x, y_wrapped, byte, 8, cell)
                            && before.display[cell] != 0;
                    assert(start.sprite_covers(x, y, i + 1, cell));
                    assert(start.display[cell] != 0);
                }
                if start.sprite_collides(x, y, i as int) {
                    let cell = choose|cell: int|
                        0 <= cell < 2048 && #[trigger] start.sprite_covers(x, y, i as int, cell)
                            && start.display[cell] != 0;
                    assert(start.sprite_covers(x, y, i + 1, cell));
                }
                if start.sprite_collides(x, y, i + 1) {
                    let cell = choose|cell: int|
                        0 <= cell < 2048 && #[trigger] start.sprite_covers(x, y, i + 1, cell)
                            && start.display[cell] != 0;
                    if start.sprite_covers(x, y, i as int, cell) {
                        assert(start.sprite_collides(x, y, i as int));
                    } else {
                        assert(row_covers(x, y_wrapped, byte, 8, cell));
                        assert(before.display[cell] == start.display[cell]);
                        assert(before.row_collides(x, y_wrapped, byte, 8));
                    }
                }
                assert(pixel_was_erased == start.sprite_collides(x, y, i + 1));
            }
            i += 1;
        }
        proof {
            assert(self.gfx@ =~= old(self)@.sprite_drawn(x, y, bytes_to_read as int));
        }
        self.cpu_registers[0xF] = if pixel_was_erased { 1 } else { 0 };
        Ok(())
    }
}

} // verus!
