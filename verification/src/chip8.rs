//! The executable machine. Each operation is proved to do what the
//! function of the same purpose in `machine` says.

use vstd::prelude::*;
use crate::chip8_util::{checked_add_u8, checked_sub_u8, validate_address, validate_nibble};
use crate::error::Chip8Error;
use crate::machine::{carried_out, MachineState};
use rand::Rng;

verus! {

/// The machine. Its fields are open to the host: the renderer reads `gfx`,
/// the input side writes `key_states`, a loader may write `memory`. No
/// operation relies on what they hold.
pub struct Chip8 {
    /// The address space. Addresses 0x000 to 0x04F are kept for the font,
    /// programs start at 0x200.
    pub memory: [u8; 4096],
    /// The general registers V0 to VF; VF is the flag register.
    pub cpu_registers: [u8; 16],
    pub index_register: u16,
    pub program_counter: u16,
    /// The display, row by row, 64 cells to a row: 0 is unlit, 255 lit.
    pub gfx: [u8; 2048],
    pub delay_timer: u8,
    pub sound_timer: u8,
    /// The return addresses of the calls under way, at most sixteen.
    pub stack_data: Vec<u16>,
    /// The keypad: key `k` is held down when bit `15 - k` is set.
    pub key_states: u16,
    /// The register a pending key wait will fill; `None` while instructions run.
    pub wait_key_state: Option<u8>,
}

impl View for Chip8 {
    type V = MachineState;

    open spec fn view(&self) -> MachineState {
        MachineState {
            memory: self.memory@,
            registers: self.cpu_registers@,
            index: self.index_register,
            pc: self.program_counter,
            display: self.gfx@,
            delay: self.delay_timer,
            sound: self.sound_timer,
            stack: self.stack_data@,
            keys: self.key_states,
            waiting: self.wait_key_state,
        }
    }
}

/// One byte from `rand::thread_rng()`, drawn with `Rng::gen`. Trusted, and
/// nothing is claimed of the byte: it may be any value.
#[verifier::external_body]
fn random_byte() -> u8 {
    rand::thread_rng().gen()
}

impl Chip8 {
    /// The bounds the machine keeps: at most sixteen return addresses, an
    /// index register inside the address space, a key wait on a real register.
    pub open spec fn wf(&self) -> bool {
        self@.wf()
    }

    pub fn new() -> (machine: Chip8)
        ensures
            machine@ == MachineState::initial(),
            machine.wf(),
    {
        let machine = Chip8 {
            memory: [0; 4096],
            cpu_registers: [0; 16],
            index_register: 0,
            program_counter: 0x200,
            gfx: [0; 2048],
            delay_timer: 0,
            sound_timer: 0,
            stack_data: Vec::new(),
            key_states: 0,
            wait_key_state: None,
        };
        proof {
            let m = MachineState::initial();
            assert(machine@.memory =~= m.memory);
            assert(machine@.registers =~= m.registers);
            assert(machine@.display =~= m.display);
            assert(machine@.stack =~= m.stack);
        }
        machine
    }

    /// Copies a program image into memory from `start_index` on. An image
    /// that does not fit is refused and nothing is written.
    pub fn init_memory(&mut self, read_only_memory: &[u8], start_index: usize) -> (res: Result<
        (),
        Chip8Error,
    >)
        ensures
            old(self).wf() ==> final(self).wf(),
            carried_out(
                old(self)@,
                old(self)@.load_image(read_only_memory@, start_index as int),
                res,
                final(self)@,
            ),
    {
        let rom_length: usize = read_only_memory.len();
        if start_index > 4096 || rom_length > 4096 - start_index {
            return Err(Chip8Error::MemoryOutOfBounds);
        }
        let mut i: usize = 0;
        while i < rom_length
            invariant
                rom_length == read_only_memory@.len(),
                start_index + rom_length <= 4096,
                i <= rom_length,
                self@ == (MachineState { memory: self.memory@, ..old(self)@ }),
                forall|a: int|
                    0 <= a < 4096 ==> self.memory@[a] == if start_index <= a < start_index + i {
                        read_only_memory@[a - start_index]
                    } else {
                        old(self).memory@[a]
                    },
            decreases rom_length - i,
        {
            self.memory[start_index + i] = read_only_memory[i];
            i += 1;
        }
        proof {
            assert(self.memory@ =~= old(self)@.load_image(
                read_only_memory@,
                start_index as int,
            )->Ok_0.memory);
        }
        Ok(())
    }

    /// One external timer tick.
    pub fn decrement_timers(&mut self)
        ensures
            old(self).wf() ==> final(self).wf(),
            final(self)@ == old(self)@.tick(),
    {
        if self.delay_timer > 0 {
            self.delay_timer -= 1;
        }
        if self.sound_timer > 0 {
            self.sound_timer -= 1;
        }
    }

    pub fn is_sound_active(&self) -> (active: bool)
        ensures
            active == (self@.sound > 0),
    {
        self.sound_timer > 0
    }

    /// Marks key `key` (0 to 15) as held down.
    pub fn press_key(&mut self, key: u8) -> (res: Result<(), Chip8Error>)
        ensures
            old(self).wf() ==> final(self).wf(),
            carried_out(
                old(self)@,
                if key > 0xF {
                    Err(Chip8Error::ArgumentOutOfRange)
                } else {
                    Ok(MachineState { keys: old(self)@.keys | (0x8000u16 >> key), ..old(self)@ })
                },
                res,
                final(self)@,
            ),
    {
        validate_nibble(key)?;
        self.key_states = self.key_states | (0x8000u16 >> key);
        Ok(())
    }

    /// Marks key `key` (0 to 15) as released.
    pub fn release_key(&mut self, key: u8) -> (res: Result<(), Chip8Error>)
        ensures
            old(self).wf() ==> final(self).wf(),
            carried_out(
                old(self)@,
                if key > 0xF {
                    Err(Chip8Error::ArgumentOutOfRange)
                } else {
                    Ok(
                        MachineState {
                            keys: old(self)@.keys & !(0x8000u16 >> key),
                            ..old(self)@
                        },
                    )
                },
                res,
                final(self)@,
            ),
    {
        validate_nibble(key)?;
        self.key_states = self.key_states & !(0x8000u16 >> key);
        Ok(())
    }

    /// 00E0: every display cell becomes unlit.
    pub fn clear_screen(&mut self)
        ensures
            old(self).wf() ==> final(self).wf(),
            final(self)@ == old(self)@.clear_display(),
    {
        self.gfx = [0; 2048];
        proof {
            assert(self.gfx@ =~= old(self)@.clear_display().display);
        }
    }

    /// 00EE: return from a subroutine.
    pub fn subroutine_return(&mut self) -> (res: Result<(), Chip8Error>)
        ensures
            old(self).wf() ==> final(self).wf(),
            carried_out(old(self)@, old(self)@.return_from_call(), res, final(self)@),
    {
        match self.stack_data.pop() {
            Some(address) => {
                self.program_counter = address;
                Ok(())
            },
            None => Err(Chip8Error::StackUnderflow),
        }
    }

    /// 1NNN: jump to an address.
    pub fn jump_to_address(&mut self, address: u16) -> (res: Result<(), Chip8Error>)
        ensures
            old(self).wf() ==> final(self).wf(),
            carried_out(old(self)@, old(self)@.jump(address), res, final(self)@),
    {
        self.program_counter = validate_address(address)?;
        Ok(())
    }

    /// 2NNN: call the subroutine at an address.
    pub fn call_address(&mut self, address: u16) -> (res: Result<(), Chip8Error>)
        ensures
            old(self).wf() ==> final(self).wf(),
            carried_out(old(self)@, old(self)@.call(address), res, final(self)@),
    {
        let target = validate_address(address)?;
        if self.stack_data.len() >= 16 {
            return Err(Chip8Error::StackOverflow);
        }
        self.stack_data.push(self.program_counter);
        self.program_counter = target;
        Ok(())
    }

    /// Moves the program counter past the next instruction when `holds`.
    fn skip_next_if(&mut self, holds: bool) -> (res: Result<(), Chip8Error>)
        ensures
            old(self).wf() ==> final(self).wf(),
            carried_out(old(self)@, old(self)@.skip_when(holds), res, final(self)@),
    {
        if holds {
            if self.program_counter > 0xFFFD {
                return Err(Chip8Error::MemoryOutOfBounds);
            }
            self.program_counter += 2;
        }
        Ok(())
    }

    /// 3XKK: skip the next instruction if register X holds KK.
    pub fn skip_next_if_byte_is_vx(&mut self, reg_x: u8, byte_value: u8) -> (res: Result<
        (),
        Chip8Error,
    >)
        ensures
            old(self).wf() ==> final(self).wf(),
            carried_out(
                old(self)@,
                old(self)@.skip_if_equals_byte(reg_x, byte_value),
                res,
                final(self)@,
            ),
    {
        let x = validate_nibble(reg_x)?;
        self.skip_next_if(self.cpu_registers[x] == byte_value)
    }

    /// 4XKK: skip the next instruction if register X does not hold KK.
    pub fn skip_next_if_byte_is_not_vx(&mut self, reg_x: u8, byte_value: u8) -> (res: Result<
        (),
        Chip8Error,
    >)
        ensures
            old(self).wf() ==> final(self).wf(),
            carried_out(
                old(self)@,
                old(self)@.skip_if_differs_from_byte(reg_x, byte_value),
                res,
                final(self)@,
            ),
    {
        let x = validate_nibble(reg_x)?;
        self.skip_next_if(self.cpu_registers[x] != byte_value)
    }

    /// 5XY0: skip the next instruction if registers X and Y are equal.
    pub fn skip_next_if_vx_eql_vy(&mut self, reg_x: u8, reg_y: u8) -> (res: Result<
        (),
        Chip8Error,
    >)
        ensures
            old(self).wf() ==> final(self).wf(),
            carried_out(
                old(self)@,
                old(self)@.skip_if_registers_equal(reg_x, reg_y),
                res,
                final(self)@,
            ),
    {
        let x = validate_nibble(reg_x)?;
        let y = validate_nibble(reg_y)?;
        self.skip_next_if(self.cpu_registers[x] == self.cpu_registers[y])
    }

    /// 9XY0: skip the next instruction if registers X and Y differ.
    pub fn skip_next_if_vx_not_eql_vy(&mut self, reg_x: u8, reg_y: u8) -> (res: Result<
        (),
        Chip8Error,
    >)
        ensures
            old(self).wf() ==> final(self).wf(),
            carried_out(
                old(self)@,
                old(self)@.skip_if_registers_differ(reg_x, reg_y),
                res,
                final(self)@,
            ),
    {
        let x = validate_nibble(reg_x)?;
        let y = validate_nibble(reg_y)?;
        self.skip_next_if(self.cpu_registers[x] != self.cpu_registers[y])
    }

    /// 6XKK: register X receives KK.
    pub fn set_register_value(&mut self, reg_x: u8, byte_value: u8) -> (res: Result<
        (),
        Chip8Error,
    >)
        ensures
            old(self).wf() ==> final(self).wf(),
            carried_out(
                old(self)@,
                old(self)@.set_register(reg_x, byte_value),
                res,
                final(self)@,
            ),
    {
        let x = validate_nibble(reg_x)?;
        self.cpu_registers[x] = byte_value;
        Ok(())
    }

    /// 7XKK: KK is added to register X, wrapping past 255; no flag is written.
    pub fn add(&mut self, reg_x: u8, byte_value: u8) -> (res: Result<(), Chip8Error>)
        ensures
            old(self).wf() ==> final(self).wf(),
            carried_out(
                old(self)@,
                old(self)@.add_immediate(reg_x, byte_value),
                res,
                final(self)@,
            ),
    {
        let x = validate_nibble(reg_x)?;
        let mut result: u16 = byte_value as u16 + self.cpu_registers[x] as u16;
        if result > 255 {
            result -= 256;
        }
        self.cpu_registers[x] = result as u8;
        Ok(())
    }

    /// 8XY0: register X receives the value of register Y.
    pub fn load(&mut self, reg_x: u8, reg_y: u8) -> (res: Result<(), Chip8Error>)
        ensures
            old(self).wf() ==> final(self).wf(),
            carried_out(old(self)@, old(self)@.copy_register(reg_x, reg_y), res, final(self)@),
    {
        let x = validate_nibble(reg_x)?;
        let y = validate_nibble(reg_y)?;
        self.cpu_registers[x] = self.cpu_registers[y];
        Ok(())
    }

    /// 8XY1: register X receives X OR Y.
    pub fn bit_or(&mut self, reg_x: u8, reg_y: u8) -> (res: Result<(), Chip8Error>)
        ensures
            old(self).wf() ==> final(self).wf(),
            carried_out(old(self)@, old(self)@.or_registers(reg_x, reg_y), res, final(self)@),
    {
        let x = validate_nibble(reg_x)?;
        let y = validate_nibble(reg_y)?;
        self.cpu_registers[x] = self.cpu_registers[x] | self.cpu_registers[y];
        Ok(())
    }

    /// 8XY2: register X receives X AND Y.
    pub fn bit_and(&mut self, reg_x: u8, reg_y: u8) -> (res: Result<(), Chip8Error>)
        ensures
            old(self).wf() ==> final(self).wf(),
            carried_out(old(self)@, old(self)@.and_registers(reg_x, reg_y), res, final(self)@),
    {
        let x = validate_nibble(reg_x)?;
        let y = validate_nibble(reg_y)?;
        self.cpu_registers[x] = self.cpu_registers[x] & self.cpu_registers[y];
        Ok(())
    }

    /// 8XY3: register X receives X XOR Y.
    pub fn bit_xor(&mut self, reg_x: u8, reg_y: u8) -> (res: Result<(), Chip8Error>)
        ensures
            old(self).wf() ==> final(self).wf(),
            carried_out(old(self)@, old(self)@.xor_registers(reg_x, reg_y), res, final(self)@),
    {
        let x = validate_nibble(reg_x)?;
        let y = validate_nibble(reg_y)?;
        self.cpu_registers[x] = self.cpu_registers[x] ^ self.cpu_registers[y];
        Ok(())
    }

    /// 8XY4: register X receives X + Y; the flag register tells of a carry.
    pub fn add_registers(&mut self, reg_x: u8, reg_y: u8) -> (res: Result<(), Chip8Error>)
        ensures
            old(self).wf() ==> final(self).wf(),
            carried_out(old(self)@, old(self)@.add_registers(reg_x, reg_y), res, final(self)@),
    {
        let x = validate_nibble(reg_x)?;
        let y = validate_nibble(reg_y)?;
        let reg_x_val: u8 = self.cpu_registers[x];
        let reg_y_val: u8 = self.cpu_registers[y];
        match checked_add_u8(reg_x_val, reg_y_val) {
            Some(sum) => {
                self.cpu_registers[x] = sum;
                self.cpu_registers[0xF] = 0;
            },
            None => {
                self.cpu_registers[x] = (reg_x_val as u16 + reg_y_val as u16 - 256) as u8;
                self.cpu_registers[0xF] = 1;
            },
        }
        Ok(())
    }

    /// 8XY5: register X receives X - Y; the flag register is 1 unless a
    /// borrow was needed.
    pub fn sub_registers(&mut self, reg_x: u8, reg_y: u8) -> (res: Result<(), Chip8Error>)
        ensures
            old(self).wf() ==> final(self).wf(),
            carried_out(
                old(self)@,
                old(self)@.subtract_registers(reg_x, reg_y),
                res,
                final(self)@,
            ),
    {
        let x = validate_nibble(reg_x)?;
        let y = validate_nibble(reg_y)?;
        let reg_x_val: u8 = self.cpu_registers[x];
        let reg_y_val: u8 = self.cpu_registers[y];
        match checked_sub_u8(reg_x_val, reg_y_val) {
            Some(difference) => {
                self.cpu_registers[x] = difference;
                self.cpu_registers[0xF] = 1;
            },
            None => {
                self.cpu_registers[x] = 255 - ((reg_y_val - reg_x_val) - 1);
                self.cpu_registers[0xF] = 0;
            },
        }
        Ok(())
    }

    /// 8XY6: register X is shifted right by one; the flag register receives
    /// the bit that fell out.
    pub fn shift_right_register(&mut self, reg_x: u8) -> (res: Result<(), Chip8Error>)
        ensures
            old(self).wf() ==> final(self).wf(),
            carried_out(old(self)@, old(self)@.shift_right(reg_x), res, final(self)@),
    {
        let x = validate_nibble(reg_x)?;
        let value: u8 = self.cpu_registers[x];
        let shifted_out: u8 = value & 1;
        assert(value & 1 == value % 2) by (bit_vector);
        assert(value >> 1 == value / 2) by (bit_vector);
        self.cpu_registers[x] = value >> 1;
        self.cpu_registers[0xF] = shifted_out;
        Ok(())
    }

    /// 8XY7: register X receives Y - X; the flag register is 1 unless a
    /// borrow was needed.
    pub fn sub_registers_not(&mut self, reg_x: u8, reg_y: u8) -> (res: Result<(), Chip8Error>)
        ensures
            old(self).wf() ==> final(self).wf(),
            carried_out(
                old(self)@,
                old(self)@.subtract_reversed(reg_x, reg_y),
                res,
                final(self)@,
            ),
    {
        let x = validate_nibble(reg_x)?;
        let y = validate_nibble(reg_y)?;
        let reg_x_val: u8 = self.cpu_registers[x];
        let reg_y_val: u8 = self.cpu_registers[y];
        match checked_sub_u8(reg_y_val, reg_x_val) {
            Some(difference) => {
                self.cpu_registers[x] = difference;
                self.cpu_registers[0xF] = 1;
            },
            None => {
                self.cpu_registers[x] = 255 - ((reg_x_val - reg_y_val) - 1);
                self.cpu_registers[0xF] = 0;
            },
        }
        Ok(())
    }

    /// 8XYE: register X is shifted left by one; the flag register receives
    /// the bit that fell out.
    pub fn shift_left_register(&mut self, reg_x: u8) -> (res: Result<(), Chip8Error>)
        ensures
            old(self).wf() ==> final(self).wf(),
            carried_out(old(self)@, old(self)@.shift_left(reg_x), res, final(self)@),
    {
        let x = validate_nibble(reg_x)?;
        let value: u8 = self.cpu_registers[x];
        let shifted_out: u8 = value >> 7;
        assert(value >> 7 == value / 128) by (bit_vector);
        assert((value & 0x7F) << 1 == (2 * value) % 256) by (bit_vector);
        self.cpu_registers[x] = (value & 0x7F) << 1;
        self.cpu_registers[0xF] = shifted_out;
        Ok(())
    }

    /// ANNN: the index register receives an address.
    pub fn set_index_register(&mut self, value: u16) -> (res: Result<(), Chip8Error>)
        ensures
            old(self).wf() ==> final(self).wf(),
            carried_out(old(self)@, old(self)@.set_index(value), res, final(self)@),
    {
        self.index_register = validate_address(value)?;
        Ok(())
    }

    /// BNNN: jump to an address plus the value of register 0.
    pub fn jump_to_address_plus_v0(&mut self, value: u16) -> (res: Result<(), Chip8Error>)
        ensures
            old(self).wf() ==> final(self).wf(),
            carried_out(old(self)@, old(self)@.jump_plus_v0(value), res, final(self)@),
    {
        let base = validate_address(value)?;
        self.program_counter = base + (self.cpu_registers[0] as u16);
        Ok(())
    }

    /// CXKK: register X receives a random byte masked by KK. Whatever byte
    /// is drawn, the machine ends as `set_rand_with` leaves it for that byte.
    pub fn set_rand(&mut self, reg_x: u8, value: u8) -> (res: Result<(), Chip8Error>)
        ensures
            old(self).wf() ==> final(self).wf(),
            exists|random: u8|
                carried_out(
                    old(self)@,
                    #[trigger] old(self)@.set_masked_random(reg_x, value, random),
                    res,
                    final(self)@,
                ),
    {
        let random_num: u8 = random_byte();
        self.set_rand_with(reg_x, value, random_num)
    }

    /// Register X receives the byte `random` masked by `value`.
    pub fn set_rand_with(&mut self, reg_x: u8, value: u8, random: u8) -> (res: Result<
        (),
        Chip8Error,
    >)
        ensures
            old(self).wf() ==> final(self).wf(),
            carried_out(
                old(self)@,
                old(self)@.set_masked_random(reg_x, value, random),
                res,
                final(self)@,
            ),
    {
        let x = validate_nibble(reg_x)?;
        self.cpu_registers[x] = value & random;
        Ok(())
    }

    /// Looks up the key named by register X and skips the next instruction
    /// when it is held down, or released, as `down` asks.
    fn skip_by_key(&mut self, reg_x: u8, down: bool) -> (res: Result<(), Chip8Error>)
        ensures
            old(self).wf() ==> final(self).wf(),
            carried_out(old(self)@, old(self)@.skip_on_key(reg_x, down), res, final(self)@),
    {
        let x = validate_nibble(reg_x)?;
        let key: u8 = self.cpu_registers[x];
        validate_nibble(key)?;
        let is_key_pressed: bool = self.key_states & (0x8000u16 >> key) != 0;
        self.skip_next_if(is_key_pressed == down)
    }

    /// EX9E: skip the next instruction if the key named by register X is held down.
    pub fn skip_if_key_down(&mut self, reg_x: u8) -> (res: Result<(), Chip8Error>)
        ensures
            old(self).wf() ==> final(self).wf(),
            carried_out(old(self)@, old(self)@.skip_on_key(reg_x, true), res, final(self)@),
    {
        self.skip_by_key(reg_x, true)
    }

    /// EXA1: skip the next instruction if the key named by register X is not held down.
    pub fn skip_if_key_up(&mut self, reg_x: u8) -> (res: Result<(), Chip8Error>)
        ensures
            old(self).wf() ==> final(self).wf(),
            carried_out(old(self)@, old(self)@.skip_on_key(reg_x, false), res, final(self)@),
    {
        self.skip_by_key(reg_x, false)
    }

    /// FX07: register X receives the delay timer.
    pub fn read_delay_timer(&mut self, reg_x: u8) -> (res: Result<(), Chip8Error>)
        ensures
            old(self).wf() ==> final(self).wf(),
            carried_out(old(self)@, old(self)@.read_delay(reg_x), res, final(self)@),
    {
        let x = validate_nibble(reg_x)?;
        self.cpu_registers[x] = self.delay_timer;
        Ok(())
    }

    /// FX0A: the machine starts to wait for a key, which register X will receive.
    pub fn wait_for_key(&mut self, reg_x: u8) -> (res: Result<(), Chip8Error>)
        ensures
            old(self).wf() ==> final(self).wf(),
            carried_out(old(self)@, old(self)@.await_key(reg_x), res, final(self)@),
    {
        validate_nibble(reg_x)?;
        self.wait_key_state = Some(reg_x);
        Ok(())
    }

    /// FX15: the delay timer receives register X.
    pub fn set_delay_timer(&mut self, reg_x: u8) -> (res: Result<(), Chip8Error>)
        ensures
            old(self).wf() ==> final(self).wf(),
            carried_out(old(self)@, old(self)@.set_delay(reg_x), res, final(self)@),
    {
        let x = validate_nibble(reg_x)?;
        self.delay_timer = self.cpu_registers[x];
        Ok(())
    }

    /// FX18: the sound timer receives register X.
    pub fn set_sound_timer(&mut self, reg_x: u8) -> (res: Result<(), Chip8Error>)
        ensures
            old(self).wf() ==> final(self).wf(),
            carried_out(old(self)@, old(self)@.set_sound(reg_x), res, final(self)@),
    {
        let x = validate_nibble(reg_x)?;
        self.sound_timer = self.cpu_registers[x];
        Ok(())
    }

    /// FX1E: register X is added to the index register.
    pub fn index_reg_add(&mut self, reg_x: u8) -> (res: Result<(), Chip8Error>)
        ensures
            old(self).wf() ==> final(self).wf(),
            carried_out(old(self)@, old(self)@.add_to_index(reg_x), res, final(self)@),
    {
        let x = validate_nibble(reg_x)?;
        let sum: u32 = self.index_register as u32 + self.cpu_registers[x] as u32;
        if sum > 0xFFF {
            return Err(Chip8Error::MemoryOutOfBounds);
        }
        self.index_register = sum as u16;
        Ok(())
    }

    /// FX29: the index register receives the address of a digit's font sprite.
    pub fn set_index_to_character_address(&mut self, value: u8) -> (res: Result<
        (),
        Chip8Error,
    >)
        ensures
            old(self).wf() ==> final(self).wf(),
            carried_out(old(self)@, old(self)@.point_at_digit(value), res, final(self)@),
    {
        validate_nibble(value)?;
        let address: u16 = (value * 5) as u16;
        self.index_register = address;
        Ok(())
    }

    /// FX33: the decimal digits of register X are stored at the index
    /// register's address.
    pub fn store_bcd(&mut self, reg_x: u8) -> (res: Result<(), Chip8Error>)
        ensures
            old(self).wf() ==> final(self).wf(),
            carried_out(old(self)@, old(self)@.store_decimal(reg_x), res, final(self)@),
    {
        let x = validate_nibble(reg_x)?;
        if self.index_register > 4093 {
            return Err(Chip8Error::MemoryOutOfBounds);
        }
        let value: u8 = self.cpu_registers[x];
        let hundreds: u8 = value / 100;
        let tens: u8 = (value - hundreds * 100) / 10;
        let digits: u8 = (value - hundreds * 100) - tens * 10;
        let index: usize = self.index_register as usize;
        self.memory[index] = hundreds;
        self.memory[index + 1] = tens;
        self.memory[index + 2] = digits;
        Ok(())
    }

    /// FX55: registers 0 to X are stored from the index register's address on.
    pub fn store_registers(&mut self, value: u8) -> (res: Result<(), Chip8Error>)
        ensures
            old(self).wf() ==> final(self).wf(),
            carried_out(old(self)@, old(self)@.store_block(value), res, final(self)@),
    {
        let last = validate_nibble(value)?;
        let base: usize = self.index_register as usize;
        if base + last > 4095 {
            return Err(Chip8Error::MemoryOutOfBounds);
        }
        let mut index: usize = 0;
        while index <= last
            invariant
                last <= 0xF,
                base + last <= 4095,
                base == old(self).index_register,
                index <= last + 1,
                self@ == (MachineState { memory: self.memory@, ..old(self)@ }),
                forall|a: int|
                    0 <= a < 4096 ==> self.memory@[a] == if base <= a < base + index {
                        old(self).cpu_registers@[a - base]
                    } else {
                        old(self).memory@[a]
                    },
            decreases last + 1 - index,
        {
            self.memory[base + index] = self.cpu_registers[index];
            index += 1;
        }
        proof {
            assert(self.memory@ =~= old(self)@.store_block(value)->Ok_0.memory);
        }
        Ok(())
    }

    /// FX65: registers 0 to X are filled from the index register's address on.
    pub fn read_memory(&mut self, value: u8) -> (res: Result<(), Chip8Error>)
        ensures
            old(self).wf() ==> final(self).wf(),
            carried_out(old(self)@, old(self)@.load_block(value), res, final(self)@),
    {
        let last = validate_nibble(value)?;
        let base: usize = self.index_register as usize;
        if base + last > 4095 {
            return Err(Chip8Error::MemoryOutOfBounds);
        }
        let mut index: usize = 0;
        while index <= last
            invariant
                last <= 0xF,
                base + last <= 4095,
                base == old(self).index_register,
                index <= last + 1,
                self@ == (MachineState { registers: self.cpu_registers@, ..old(self)@ }),
                forall|r: int|
                    0 <= r < 16 ==> self.cpu_registers@[r] == if r < index {
                        old(self).memory@[base + r]
                    } else {
                        old(self).cpu_registers@[r]
                    },
            decreases last + 1 - index,
        {
            self.cpu_registers[index] = self.memory[base + index];
            index += 1;
        }
        proof {
            assert(self.cpu_registers@ =~= old(self)@.load_block(value)->Ok_0.registers);
        }
        Ok(())
    }
}

} // verus!
