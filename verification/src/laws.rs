//! Laws of the instruction set, proved of the machine model that the
//! executable operations are specified against.

use vstd::prelude::*;
use crate::dispatch::{family, field_kk, field_nnn, field_x};
use crate::error::Chip8Error;
use crate::machine::{first_key_down, key_down, MachineState};

verus! {

/// Adding the immediates `v` and then `w` to register `r` leaves it holding
/// its first value plus `v` plus `w`, modulo 256, and changes nothing else.
pub proof fn law_add_immediate_twice(m: MachineState, r: u8, v: u8, w: u8)
    requires
        m.wf(),
        r <= 0xF,
    ensures
        m.add_immediate(r, v) is Ok,
        m.add_immediate(r, v)->Ok_0.add_immediate(r, w) == Ok::<MachineState, Chip8Error>(
            m.with_register(r as int, ((m.registers[r as int] + v + w) % 256) as u8),
        ),
{
    let m1 = m.add_immediate(r, v)->Ok_0;
    let m2 = m1.add_immediate(r, w)->Ok_0;
    let expected = m.with_register(r as int, ((m.registers[r as int] + v + w) % 256) as u8);
    assert(m2.registers =~= expected.registers);
}

/// An instruction of family A sets the index register to exactly the low
/// twelve bits of its word, and changes nothing else.
pub proof fn law_index_set(m: MachineState, opcode: u16, random: u8)
    requires
        family(opcode) == 0xA,
    ensures
        m.execute(opcode, random) == Ok::<MachineState, Chip8Error>(
            MachineState { index: (opcode % 0x1000) as u16, ..m },
        ),
{
}

/// After the display is cleared every cell is unlit, whatever it held before.
pub proof fn law_clear_screen(m: MachineState, opcode: u16, random: u8)
    requires
        opcode == 0x00E0,
    ensures
        m.execute(opcode, random) == Ok::<MachineState, Chip8Error>(m.clear_display()),
        m.clear_display().display.len() == 2048,
        forall|cell: int| 0 <= cell < 2048 ==> m.clear_display().display[cell] == 0,
{
}

/// A call that succeeds, followed at once by a return, brings the program
/// counter and the stack back to what they were before the call.
pub proof fn law_call_then_return(m: MachineState, address: u16)
    requires
        m.call(address) is Ok,
    ensures
        m.call(address)->Ok_0.return_from_call() == Ok::<MachineState, Chip8Error>(m),
{
    let called = m.call(address)->Ok_0;
    let back = called.return_from_call()->Ok_0;
    assert(back.stack =~= m.stack);
}

/// The same of whole steps: when the step at the program counter is a call
/// and the step at its target is a return, the two together leave the
/// program counter just behind the call instruction and the stack as it was.
pub proof fn law_call_step_then_return_step(m: MachineState, random: u8)
    requires
        m.wf(),
        m.waiting is None,
        family(m.next_opcode()) == 0x2,
        m.step(random) is Ok,
        m.step(random)->Ok_0.next_opcode() == 0x00EE,
        m.step(random)->Ok_0.pc < 4094,
    ensures
        m.step(random)->Ok_0.step(random) == Ok::<MachineState, Chip8Error>(
            m.with_pc((m.pc + 2) as u16),
        ),
{
    let fetched = m.fetch()->Ok_0;
    let called = m.step(random)->Ok_0;
    assert(called == fetched.call(field_nnn(m.next_opcode()))->Ok_0);
    law_call_then_return(fetched, field_nnn(m.next_opcode()));
    let at_return = called.fetch()->Ok_0;
    assert(at_return.stack == called.stack);
    assert(at_return.return_from_call()->Ok_0.stack =~= m.stack);
}

/// A return on an empty stack fails with a stack underflow, as an
/// operation of its own and as the instruction 00EE.
pub proof fn law_return_on_empty_stack(m: MachineState, random: u8)
    requires
        m.stack.len() == 0,
    ensures
        m.return_from_call() == Err::<MachineState, Chip8Error>(Chip8Error::StackUnderflow),
        m.execute(0x00EE, random) == Err::<MachineState, Chip8Error>(
            Chip8Error::StackUnderflow,
        ),
{
}

/// A step whose instruction is "skip if register X equals KK" moves the
/// program counter on by 4 when the register holds KK, and by 2 when it
/// does not; nothing else changes.
pub proof fn law_skip_if_equal_step(m: MachineState, random: u8)
    requires
        m.wf(),
        m.waiting is None,
        m.pc < 4094,
        family(m.next_opcode()) == 0x3,
    ensures
        m.step(random) == Ok::<MachineState, Chip8Error>(
            m.with_pc(
                if m.registers[field_x(m.next_opcode()) as int] == field_kk(m.next_opcode()) {
                    (m.pc + 4) as u16
                } else {
                    (m.pc + 2) as u16
                },
            ),
        ),
{
}

/// Only the draw instruction and the clear instruction change the display.
pub proof fn law_display_changes_only_on_draw_and_clear(m: MachineState, opcode: u16, random: u8)
    requires
        family(opcode) != 0xD,
        opcode != 0x00E0,
        m.execute(opcode, random) is Ok,
    ensures
        m.execute(opcode, random)->Ok_0.display == m.display,
{
}

/// No instruction and no step changes the keypad mask, and no instruction
/// changes a timer unless it is one of the two that set a timer.
pub proof fn law_keypad_and_timers_are_left_alone(m: MachineState, opcode: u16, random: u8)
    ensures
        m.execute(opcode, random) matches Ok(after) ==> after.keys == m.keys,
        m.step(random) matches Ok(after) ==> after.keys == m.keys,
        m.execute(opcode, random) matches Ok(after) ==> (after.delay == m.delay || (family(opcode)
            == 0xF && field_kk(opcode) == 0x15)) && (after.sound == m.sound || (family(opcode)
            == 0xF && field_kk(opcode) == 0x18)),
{
}

/// A timer tick lowers each timer by one and stops at zero.
pub proof fn law_tick(m: MachineState)
    ensures
        m.tick().delay == if m.delay == 0 { 0 } else { m.delay - 1 },
        m.tick().sound == if m.sound == 0 { 0 } else { m.sound - 1 },
        m.tick() == (MachineState { delay: m.tick().delay, sound: m.tick().sound, ..m }),
{
}

/// Drawing the same sprite twice at the same place brings back the
/// display, when every cell was either unlit (0) or fully lit (255) and
/// neither position register is the flag register.
pub proof fn law_draw_twice(m: MachineState, x: u8, y: u8, rows: u8)
    requires
        m.wf(),
        x < 0xF,
        y < 0xF,
        m.draw_sprite(x, y, rows) is Ok,
        forall|cell: int| 0 <= cell < 2048 ==> m.display[cell] == 0 || m.display[cell] == 255,
    ensures
        m.draw_sprite(x, y, rows)->Ok_0.draw_sprite(x, y, rows) is Ok,
        m.draw_sprite(x, y, rows)->Ok_0.draw_sprite(x, y, rows)->Ok_0.display == m.display,
        m.draw_sprite(x, y, rows)->Ok_0.registers[15] == 0 && (exists|cell: int|
            0 <= cell < 2048 && #[trigger] m.sprite_covers(
                m.registers[x as int],
                m.registers[y as int],
                rows as int,
                cell,
            )) ==> m.draw_sprite(x, y, rows)->Ok_0.draw_sprite(x, y, rows)->Ok_0.registers[15]
            == 1,
{
    let once = m.draw_sprite(x, y, rows)->Ok_0;
    let twice = once.draw_sprite(x, y, rows)->Ok_0;
    let vx = m.registers[x as int];
    let vy = m.registers[y as int];
    assert forall|cell: int| 0 <= cell < 2048 implies once.sprite_covers(
        vx,
        vy,
        rows as int,
        cell,
    ) == m.sprite_covers(vx, vy, rows as int, cell) by {
        reveal(MachineState::sprite_covers);
    }
    assert(twice.display =~= m.display);
    if once.registers[15] == 0 && (exists|cell: int|
        0 <= cell < 2048 && #[trigger] m.sprite_covers(vx, vy, rows as int, cell)) {
        let cell = choose|cell: int|
            0 <= cell < 2048 && #[trigger] m.sprite_covers(vx, vy, rows as int, cell);
        assert(!m.sprite_collides(vx, vy, rows as int));
        assert(m.display[cell] == 0);
        assert(once.sprite_covers(vx, vy, rows as int, cell));
        assert(once.display[cell] != 0);
        assert(once.sprite_collides(vx, vy, rows as int));
    }
}

/// No instruction takes a well-formed machine to one that is not: the
/// stack stays within sixteen entries, the index register within the
/// address space, and memory, registers and display keep their sizes.
pub proof fn law_execute_keeps_wf(m: MachineState, opcode: u16, random: u8)
    requires
        m.wf(),
        m.execute(opcode, random) is Ok,
    ensures
        m.execute(opcode, random)->Ok_0.wf(),
{
}

/// Nor does a whole step, in or out of a key wait.
pub proof fn law_step_keeps_wf(m: MachineState, random: u8)
    requires
        m.wf(),
        m.step(random) is Ok,
    ensures
        m.step(random)->Ok_0.wf(),
{
    if m.waiting is None {
        law_execute_keeps_wf(m.fetch()->Ok_0, m.next_opcode(), random);
    }
}

/// Only an instruction of family C looks at the random byte.
pub proof fn law_random_only_in_family_c(m: MachineState, opcode: u16, r1: u8, r2: u8)
    requires
        family(opcode) != 0xC,
    ensures
        m.execute(opcode, r1) == m.execute(opcode, r2),
{
}

/// The scan of the keypad finds the lowest key that is held down, and
/// finds none only when none is held down.
pub proof fn law_first_key_down(keys: u16, from: u8)
    requires
        from <= 16,
    ensures
        match first_key_down(keys, from) {
            Some(key) => from <= key < 16 && key_down(keys, key) && forall|k: u8|
                from <= k < key ==> !key_down(keys, k),
            None => forall|k: u8| from <= k < 16 ==> !key_down(keys, k),
        },
    decreases 16 - from,
{
    if from < 16 && !key_down(keys, from) {
        law_first_key_down(keys, (from + 1) as u8);
    }
}

/// While the machine waits for a key and none is held down, a step
/// changes nothing; with a key held down, the step ends the wait and runs
/// no instruction.
pub proof fn law_key_wait(m: MachineState, x: u8, random: u8)
    requires
        m.wf(),
        m.waiting == Some(x),
    ensures
        m.keys == 0 ==> m.step(random) == Ok::<MachineState, Chip8Error>(m),
        m.step(random) is Ok,
        m.step(random)->Ok_0.pc == m.pc,
        first_key_down(m.keys, 0) is Some ==> m.step(random)->Ok_0.waiting is None,
{
    if m.keys == 0 {
        lemma_no_key(m.keys, 0);
    }
}

/// With an empty keypad mask the scan finds nothing.
proof fn lemma_no_key(keys: u16, from: u8)
    requires
        keys == 0,
        from <= 16,
    ensures
        first_key_down(keys, from) is None,
    decreases 16 - from,
{
    if from < 16 {
        assert(0u16 & (0x8000u16 >> from) == 0) by (bit_vector);
        lemma_no_key(keys, (from + 1) as u8);
    }
}

/// Pressing a key makes that key, and no other, held down; releasing it
/// makes that key, and no other, released.
pub proof fn law_press_and_release(keys: u16, key: u8, other: u8)
    requires
        key <= 0xF,
        other <= 0xF,
    ensures
        key_down(keys | (0x8000u16 >> key), key),
        !key_down(keys & !(0x8000u16 >> key), key),
        other != key ==> key_down(keys | (0x8000u16 >> key), other) == key_down(keys, other),
        other != key ==> key_down(keys & !(0x8000u16 >> key), other) == key_down(keys, other),
{
    assert((keys | (0x8000u16 >> key)) & (0x8000u16 >> key) != 0) by (bit_vector)
        requires
            key <= 0xF,
    ;
    assert((keys & !(0x8000u16 >> key)) & (0x8000u16 >> key) == 0) by (bit_vector);
    if other != key {
        assert((keys | (0x8000u16 >> key)) & (0x8000u16 >> other) == keys & (0x8000u16 >> other))
            by (bit_vector)
            requires
                key <= 0xF,
                other <= 0xF,
                other != key,
        ;
        assert((keys & !(0x8000u16 >> key)) & (0x8000u16 >> other) == keys & (0x8000u16 >> other))
            by (bit_vector)
            requires
                key <= 0xF,
                other <= 0xF,
                other != key,
        ;
    }
}

/// The three bytes that the decimal store writes are decimal digits, and
/// they spell the value of the register.
pub proof fn law_decimal_digits(m: MachineState, x: u8)
    requires
        m.wf(),
        m.store_decimal(x) is Ok,
    ensures
        ({
            let after = m.store_decimal(x)->Ok_0;
            let at = m.index as int;
            &&& after.memory[at] <= 9
            &&& after.memory[at + 1] <= 9
            &&& after.memory[at + 2] <= 9
            &&& 100 * after.memory[at] + 10 * after.memory[at + 1] + after.memory[at + 2]
                == m.registers[x as int]
        }),
{
}

/// Storing registers 0 to `last` and loading them back from the same
/// address changes no register.
pub proof fn law_store_then_load(m: MachineState, last: u8)
    requires
        m.wf(),
        m.store_block(last) is Ok,
    ensures
        m.store_block(last)->Ok_0.load_block(last) == Ok::<MachineState, Chip8Error>(
            m.store_block(last)->Ok_0,
        ),
{
    let stored = m.store_block(last)->Ok_0;
    let loaded = stored.load_block(last)->Ok_0;
    assert(loaded.registers =~= stored.registers);
}

} // verus!
