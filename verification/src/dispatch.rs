//! Fetching an instruction word, taking it apart and running the one
//! operation it selects; and the execution step built from these.

use vstd::prelude::*;
use crate::chip8::Chip8;
use crate::error::Chip8Error;
use crate::machine::{carried_out, first_key_down, MachineState};

verus! {

/// The high nibble of an instruction word, which selects the family.
pub open spec fn family(opcode: u16) -> u16 {
    opcode / 0x1000
}

/// The second nibble: the first register number.
pub open spec fn field_x(opcode: u16) -> u8 {
    ((opcode / 0x100) % 16) as u8
}

/// The third nibble: the second register number.
pub open spec fn field_y(opcode: u16) -> u8 {
    ((opcode / 0x10) % 16) as u8
}

/// The low nibble.
pub open spec fn field_n(opcode: u16) -> u8 {
    (opcode % 16) as u8
}

/// The low byte: an immediate value.
pub open spec fn field_kk(opcode: u16) -> u8 {
    (opcode % 0x100) as u8
}

/// The low twelve bits: an address.
pub open spec fn field_nnn(opcode: u16) -> u16 {
    opcode % 0x1000
}

impl MachineState {
    /// What the instruction word `opcode` does to the machine. `random` is
    /// the byte that the one instruction of family C draws; no other family
    /// looks at it.
    pub open spec fn execute(self, opcode: u16, random: u8) -> Result<MachineState, Chip8Error> {
        let x = field_x(opcode);
        let y = field_y(opcode);
        let n = field_n(opcode);
        let kk = field_kk(opcode);
        let nnn = field_nnn(opcode);
        let unknown = Err::<MachineState, Chip8Error>(Chip8Error::UnknownInstruction(opcode));
        if family(opcode) == 0x0 {
            if opcode == 0x0000 {
                Ok(self)
            } else if opcode == 0x00E0 {
                Ok(self.clear_display())
            } else if opcode == 0x00EE {
                self.return_from_call()
            } else {
                unknown
            }
        } else if family(opcode) == 0x1 {
            self.jump(nnn)
        } else if family(opcode) == 0x2 {
            self.call(nnn)
        } else if family(opcode) == 0x3 {
            self.skip_if_equals_byte(x, kk)
        } else if family(opcode) == 0x4 {
            self.skip_if_differs_from_byte(x, kk)
        } else if family(opcode) == 0x5 {
            self.skip_if_registers_equal(x, y)
        } else if family(opcode) == 0x6 {
            self.set_register(x, kk)
        } else if family(opcode) == 0x7 {
            self.add_immediate(x, kk)
        } else if family(opcode) == 0x8 {
            if n == 0x0 {
                self.copy_register(x, y)
            } else if n == 0x1 {
                self.or_registers(x, y)
            } else if n == 0x2 {
                self.and_registers(x, y)
            } else if n == 0x3 {
                self.xor_registers(x, y)
            } else if n == 0x4 {
                self.add_registers(x, y)
            } else if n == 0x5 {
                self.subtract_registers(x, y)
            } else if n == 0x6 {
                self.shift_right(x)
            } else if n == 0x7 {
                self.subtract_reversed(x, y)
            } else if n == 0xE {
                self.shift_left(x)
            } else {
                unknown
            }
        } else if family(opcode) == 0x9 {
            self.skip_if_registers_differ(x, y)
        } else if family(opcode) == 0xA {
            self.set_index(nnn)
        } else if family(opcode) == 0xB {
            self.jump_plus_v0(nnn)
        } else if family(opcode) == 0xC {
            self.set_masked_random(x, kk, random)
        } else if family(opcode) == 0xD {
            self.draw_sprite(x, y, n)
        } else if family(opcode) == 0xE {
            if kk == 0x9E {
                self.skip_on_key(x, true)
            } else if kk == 0xA1 {
                self.skip_on_key(x, false)
            } else {
                unknown
            }
        } else {
            if kk == 0x07 {
                self.read_delay(x)
            } else if kk == 0x0A {
                self.await_key(x)
            } else if kk == 0x15 {
                self.set_delay(x)
            } else if kk == 0x18 {
                self.set_sound(x)
            } else if kk == 0x1E {
                self.add_to_index(x)
            } else if kk == 0x29 {
                self.point_at_digit(x)
            } else if kk == 0x33 {
                self.store_decimal(x)
            } else if kk == 0x55 {
                self.store_block(x)
            } else if kk == 0x65 {
                self.load_block(x)
            } else {
                unknown
            }
        }
    }

    /// The instruction word at the program counter, high byte first.
    pub open spec fn next_opcode(self) -> u16 {
        (self.memory[self.pc as int] * 256 + self.memory[self.pc + 1]) as u16
    }

    /// The fetch: the word at the program counter, and the counter moved
    /// past it. The counter must still be an address after the move.
    pub open spec fn fetch(self) -> Result<MachineState, Chip8Error> {
        if self.pc >= 4094 {
            Err(Chip8Error::MemoryOutOfBounds)
        } else {
            Ok(self.with_pc((self.pc + 2) as u16))
        }
    }

    /// One poll of the keypad during a key wait into register `x`: the
    /// lowest key held down ends the wait and lands in the register.
    pub open spec fn poll_keys(self, x: u8) -> Result<MachineState, Chip8Error> {
        if x > 0xF {
            Err(Chip8Error::ArgumentOutOfRange)
        } else {
            match first_key_down(self.keys, 0) {
                Some(key) => Ok(
                    MachineState { waiting: None, ..self.with_register(x as int, key) },
                ),
                None => Ok(self),
            }
        }
    }

    /// One execution step. During a key wait the keypad is polled and no
    /// instruction runs; otherwise one instruction is fetched and executed.
    pub open spec fn step(self, random: u8) -> Result<MachineState, Chip8Error> {
        match self.waiting {
            Some(x) => self.poll_keys(x),
            None => match self.fetch() {
                Ok(fetched) => fetched.execute(self.next_opcode(), random),
                Err(e) => Err(e),
            },
        }
    }
}

impl Chip8 {
    /// Runs the operation that `opcode` selects. A word that selects none
    /// is reported with the word itself.
    pub fn execute_instruction(&mut self, opcode: u16) -> (res: Result<(), Chip8Error>)
        ensures
            old(self).wf() ==> final(self).wf(),
            exists|random: u8|
                carried_out(
                    old(self)@,
                    #[trigger] old(self)@.execute(opcode, random),
                    res,
                    final(self)@,
                ),
            family(opcode) != 0xC ==> forall|random: u8|
                carried_out(
                    old(self)@,
                    #[trigger] old(self)@.execute(opcode, random),
                    res,
                    final(self)@,
                ),
    {
        let reg_x: u8 = ((opcode & 0x0F00) >> 8) as u8;
        let reg_y: u8 = ((opcode & 0x00F0) >> 4) as u8;
        let nibble: u8 = (opcode & 0x000F) as u8;
        let byte: u8 = (opcode & 0x00FF) as u8;
        let address: u16 = opcode & 0x0FFF;
        let selector: u16 = opcode & 0xF000;
        proof {
            assert((opcode & 0x0F00) >> 8 == (opcode / 0x100) % 16) by (bit_vector);
            assert((opcode & 0x00F0) >> 4 == (opcode / 0x10) % 16) by (bit_vector);
            assert(opcode & 0x000F == opcode % 16) by (bit_vector);
            assert(opcode & 0x00FF == opcode % 0x100) by (bit_vector);
            assert(opcode & 0x0FFF == opcode % 0x1000) by (bit_vector);
            assert(opcode & 0xF000 == (opcode / 0x1000) * 0x1000) by (bit_vector);
        }
        let ghost start = old(self)@;
        let res = match selector {
            0x0000 => match opcode {
                0x0000 => Ok(()),
                0x00E0 => {
                    self.clear_screen();
                    Ok(())
                },
                0x00EE => self.subroutine_return(),
                _ => Err(Chip8Error::UnknownInstruction(opcode)),
            },
            0x1000 => self.jump_to_address(address),
            0x2000 => self.call_address(address),
            0x3000 => self.skip_next_if_byte_is_vx(reg_x, byte),
            0x4000 => self.skip_next_if_byte_is_not_vx(reg_x, byte),
            0x5000 => self.skip_next_if_vx_eql_vy(reg_x, reg_y),
            0x6000 => self.set_register_value(reg_x, byte),
            0x7000 => self.add(reg_x, byte),
            0x8000 => match nibble {
                0x0 => self.load(reg_x, reg_y),
                0x1 => self.bit_or(reg_x, reg_y),
                0x2 => self.bit_and(reg_x, reg_y),
                0x3 => self.bit_xor(reg_x, reg_y),
                0x4 => self.add_registers(reg_x, reg_y),
                0x5 => self.sub_registers(reg_x, reg_y),
                0x6 => self.shift_right_register(reg_x),
                0x7 => self.sub_registers_not(reg_x, reg_y),
                0xE => self.shift_left_register(reg_x),
                _ => Err(Chip8Error::UnknownInstruction(opcode)),
            },
            0x9000 => self.skip_next_if_vx_not_eql_vy(reg_x, reg_y),
            0xA000 => self.set_index_register(address),
            0xB000 => self.jump_to_address_plus_v0(address),
            0xC000 => {
                let res = self.set_rand(reg_x, byte);
                proof {
                    let random = choose|random: u8|
                        carried_out(
                            start,
                            #[trigger] start.set_masked_random(reg_x, byte, random),
                            res,
                            self@,
                        );
                    assert(carried_out(start, start.execute(opcode, random), res, self@));
                }
                res
            },
            0xD000 => self.draw(reg_x, reg_y, nibble),
            0xE000 => match byte {
                0x9E => self.skip_if_key_down(reg_x),
                0xA1 => self.skip_if_key_up(reg_x),
                _ => Err(Chip8Error::UnknownInstruction(opcode)),
            },
            _ => match byte {
                0x07 => self.read_delay_timer(reg_x),
                0x0A => self.wait_for_key(reg_x),
                0x15 => self.set_delay_timer(reg_x),
                0x18 => self.set_sound_timer(reg_x),
                0x1E => self.index_reg_add(reg_x),
                0x29 => self.set_index_to_character_address(reg_x),
                0x33 => self.store_bcd(reg_x),
                0x55 => self.store_registers(reg_x),
                0x65 => self.read_memory(reg_x),
                _ => Err(Chip8Error::UnknownInstruction(opcode)),
            },
        };
        proof {
            if family(opcode) != 0xC {
                assert(carried_out(start, start.execute(opcode, 0), res, self@));
            }
        }
        res
    }

    /// Reads the instruction word at the program counter, high byte first,
    /// and moves the counter past it.
    pub fn fetch_next(&mut self) -> (res: Result<u16, Chip8Error>)
        ensures
            old(self).wf() ==> final(self).wf(),
            match old(self)@.fetch() {
                Ok(fetched) => res == Ok::<u16, Chip8Error>(old(self)@.next_opcode())
                    && final(self)@ == fetched,
                Err(e) => res == Err::<u16, Chip8Error>(e) && final(self)@ == old(self)@,
            },
    {
        if self.program_counter >= 4094 {
            return Err(Chip8Error::MemoryOutOfBounds);
        }
        let at: usize = self.program_counter as usize;
        let high: u16 = self.memory[at] as u16;
        let low: u16 = self.memory[at + 1] as u16;
        assert(high << 8 | low == high * 256 + low) by (bit_vector)
            requires
                high < 256,
                low < 256,
        ;
        let opcode: u16 = high << 8 | low;
        self.program_counter += 2;
        Ok(opcode)
    }

    /// The lowest key that is held down, if any is.
    pub fn first_pressed_key(&self) -> (key: Option<u8>)
        ensures
            key == first_key_down(self@.keys, 0),
    {
        let mut i: u8 = 0;
        while i < 16
            invariant
                i <= 16,
                first_key_down(self@.keys, 0) == first_key_down(self@.keys, i),
            decreases 16 - i,
        {
            if self.key_states & (0x8000u16 >> i) != 0 {
                return Some(i);
            }
            i += 1;
        }
        None
    }

    /// One execution step. During a key wait the keypad is polled: a key
    /// that is held down ends the wait and lands in the waiting register,
    /// and no instruction runs. Otherwise one instruction is fetched and
    /// executed. A step that fails leaves the machine as it was, the program
    /// counter still at the failing instruction.
    pub fn fetch_cycle(&mut self) -> (res: Result<(), Chip8Error>)
        ensures
            old(self).wf() ==> final(self).wf(),
            exists|random: u8|
                carried_out(old(self)@, #[trigger] old(self)@.step(random), res, final(self)@),
            old(self)@.waiting is Some || family(old(self)@.next_opcode()) != 0xC ==> forall|
                random: u8,
            |
                carried_out(old(self)@, #[trigger] old(self)@.step(random), res, final(self)@),
    {
        let ghost start = old(self)@;
        match self.wait_key_state {
            Some(reg_x) => {
                if reg_x > 0xF {
                    assert(carried_out(
                        start,
                        start.step(0),
                        Err::<(), Chip8Error>(Chip8Error::ArgumentOutOfRange),
                        self@,
                    ));
                    return Err(Chip8Error::ArgumentOutOfRange);
                }
                match self.first_pressed_key() {
                    Some(key) => {
                        self.cpu_registers[reg_x as usize] = key;
                        self.wait_key_state = None;
                    },
                    None => {},
                }
                assert(carried_out(start, start.step(0), Ok::<(), Chip8Error>(()), self@));
                Ok(())
            },
            None => {
                let counter: u16 = self.program_counter;
                match self.fetch_next() {
                    Err(e) => {
                        assert(carried_out(start, start.step(0), Err::<(), Chip8Error>(e), self@));
                        Err(e)
                    },
                    Ok(opcode) => {
                        let ghost fetched = self@;
                        let res = self.execute_instruction(opcode);
                        let ghost executed = self@;
                        if res.is_err() {
                            self.program_counter = counter;
                        }
                        proof {
                            let random = choose|random: u8|
                                carried_out(
                                    fetched,
                                    #[trigger] fetched.execute(opcode, random),
                                    res,
                                    executed,
                                );
                            assert(carried_out(start, start.step(random), res, self@));
                            if family(opcode) != 0xC {
                                assert forall|random: u8|
                                    carried_out(
                                        start,
                                        #[trigger] start.step(random),
                                        res,
                                        self@,
                                    ) by {
                                    assert(carried_out(
                                        fetched,
                                        fetched.execute(opcode, random),
                                        res,
                                        executed,
                                    ));
                                }
                            }
                        }
                        res
                    },
                }
            },
        }
    }
}

} // verus!
