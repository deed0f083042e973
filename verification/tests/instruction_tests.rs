use rusty_chip::chip8::Chip8;
use rusty_chip::chip8_util::{validate_address, validate_argument, validate_nibble};
use rusty_chip::error::Chip8Error;

fn machine_with(program: &[u8]) -> Chip8 {
    let mut c = Chip8::new();
    c.init_memory(program, 0x200).unwrap();
    c
}

#[test]
fn new_machine_is_zeroed_with_entry_address() {
    let c = Chip8::new();
    assert!(c.memory.iter().all(|b| *b == 0));
    assert!(c.cpu_registers.iter().all(|b| *b == 0));
    assert!(c.gfx.iter().all(|b| *b == 0));
    assert_eq!(c.index_register, 0);
    assert_eq!(c.program_counter, 0x200);
    assert_eq!(c.delay_timer, 0);
    assert_eq!(c.sound_timer, 0);
    assert!(c.stack_data.is_empty());
    assert_eq!(c.key_states, 0);
    assert_eq!(c.wait_key_state, None);
}

#[test]
fn validate_argument_rejects_value_outside_mask() {
    assert_eq!(validate_argument(0x254, 0xFF), Err(Chip8Error::ArgumentOutOfRange));
    assert_eq!(validate_argument(0x54, 0x53), Err(Chip8Error::ArgumentOutOfRange));
    assert_eq!(validate_nibble(15), Ok(15));
    assert_eq!(validate_nibble(16), Err(Chip8Error::ArgumentOutOfRange));
    assert_eq!(validate_address(0xFFF), Ok(0xFFF));
    assert_eq!(validate_address(0x1000), Err(Chip8Error::ArgumentOutOfRange));
}

#[test]
fn unknown_words_are_reported_with_the_word() {
    let mut c = Chip8::new();
    assert_eq!(c.execute_instruction(0x68), Err(Chip8Error::UnknownInstruction(0x68)));
    assert_eq!(c.execute_instruction(0x8128), Err(Chip8Error::UnknownInstruction(0x8128)));
    assert_eq!(c.execute_instruction(0xE19F), Err(Chip8Error::UnknownInstruction(0xE19F)));
    assert_eq!(c.execute_instruction(0xF1FF), Err(Chip8Error::UnknownInstruction(0xF1FF)));
    assert_eq!(c.execute_instruction(0x0000), Ok(()));
    assert_eq!(c.program_counter, 0x200);
}

#[test]
fn init_memory_copies_and_checks_bounds() {
    let mut c = Chip8::new();
    assert_eq!(c.init_memory(&[1, 2, 3], 0x200), Ok(()));
    assert_eq!(&c.memory[0x1FF..0x204], &[0, 1, 2, 3, 0]);
    assert_eq!(c.init_memory(&[9, 9], 4094), Ok(()));
    assert_eq!(c.memory[4095], 9);
    assert_eq!(c.init_memory(&[7, 7], 4095), Err(Chip8Error::MemoryOutOfBounds));
    assert_eq!(c.memory[4095], 9);
    assert_eq!(c.init_memory(&[], 4096), Ok(()));
    assert_eq!(c.init_memory(&[], 4097), Err(Chip8Error::MemoryOutOfBounds));
}

#[test]
fn timers_count_down_to_zero_and_stay() {
    let mut c = Chip8::new();
    c.delay_timer = 2;
    c.sound_timer = 1;
    assert!(c.is_sound_active());
    c.decrement_timers();
    assert_eq!((c.delay_timer, c.sound_timer), (1, 0));
    assert!(!c.is_sound_active());
    c.decrement_timers();
    c.decrement_timers();
    assert_eq!((c.delay_timer, c.sound_timer), (0, 0));
}

#[test]
fn add_immediate_twice_wraps_modulo_256() {
    let mut c = Chip8::new();
    c.cpu_registers[7] = 200;
    c.add(7, 100).unwrap();
    assert_eq!(c.cpu_registers[7], 44);
    c.add(7, 250).unwrap();
    assert_eq!(c.cpu_registers[7], ((200u32 + 100 + 250) % 256) as u8);
    assert_eq!(c.cpu_registers[0xF], 0);
    c.cpu_registers[1] = 255;
    c.add(1, 1).unwrap();
    assert_eq!(c.cpu_registers[1], 0);
    assert_eq!(c.add(16, 1), Err(Chip8Error::ArgumentOutOfRange));
}

#[test]
fn add_registers_carry_and_no_carry() {
    let mut c = Chip8::new();
    c.cpu_registers[0] = 0xFF;
    c.cpu_registers[1] = 0x01;
    c.execute_instruction(0x8014).unwrap();
    assert_eq!(c.cpu_registers[0], 0x00);
    assert_eq!(c.cpu_registers[0xF], 1);
    c.cpu_registers[2] = 0x04;
    c.cpu_registers[3] = 0x03;
    c.execute_instruction(0x8234).unwrap();
    assert_eq!(c.cpu_registers[2], 0x07);
    assert_eq!(c.cpu_registers[0xF], 0);
    c.cpu_registers[4] = 200;
    c.cpu_registers[5] = 100;
    c.add_registers(4, 5).unwrap();
    assert_eq!(c.cpu_registers[4], 44);
    assert_eq!(c.cpu_registers[5], 100);
    assert_eq!(c.cpu_registers[0xF], 1);
}

#[test]
fn sub_registers_borrow_and_no_borrow() {
    let mut c = Chip8::new();
    c.cpu_registers[0] = 4;
    c.cpu_registers[1] = 3;
    c.execute_instruction(0x8015).unwrap();
    assert_eq!(c.cpu_registers[0], 1);
    assert_eq!(c.cpu_registers[0xF], 1);
    c.cpu_registers[0] = 3;
    c.cpu_registers[1] = 4;
    c.execute_instruction(0x8015).unwrap();
    assert_eq!(c.cpu_registers[0], 255);
    assert_eq!(c.cpu_registers[0xF], 0);
    c.cpu_registers[2] = 9;
    c.cpu_registers[3] = 9;
    c.sub_registers(2, 3).unwrap();
    assert_eq!(c.cpu_registers[2], 0);
    assert_eq!(c.cpu_registers[0xF], 1);
}

#[test]
fn sub_registers_not_subtracts_the_other_way() {
    let mut c = Chip8::new();
    c.cpu_registers[0] = 3;
    c.cpu_registers[1] = 10;
    c.execute_instruction(0x8017).unwrap();
    assert_eq!(c.cpu_registers[0], 7);
    assert_eq!(c.cpu_registers[1], 10);
    assert_eq!(c.cpu_registers[0xF], 1);
    c.cpu_registers[0] = 10;
    c.cpu_registers[1] = 3;
    c.sub_registers_not(0, 1).unwrap();
    assert_eq!(c.cpu_registers[0], 249);
    assert_eq!(c.cpu_registers[1], 3);
    assert_eq!(c.cpu_registers[0xF], 0);
    c.cpu_registers[2] = 5;
    c.cpu_registers[3] = 5;
    c.sub_registers_not(2, 3).unwrap();
    assert_eq!(c.cpu_registers[2], 0);
    assert_eq!(c.cpu_registers[0xF], 1);
}

#[test]
fn shifts_keep_the_operand_and_flag_the_lost_bit() {
    let mut c = Chip8::new();
    c.cpu_registers[3] = 0b1011_0101;
    c.execute_instruction(0x8306).unwrap();
    assert_eq!(c.cpu_registers[3], 0b0101_1010);
    assert_eq!(c.cpu_registers[0xF], 1);
    c.execute_instruction(0x8306).unwrap();
    assert_eq!(c.cpu_registers[3], 0b0010_1101);
    assert_eq!(c.cpu_registers[0xF], 0);
    c.cpu_registers[4] = 0b1011_0101;
    c.execute_instruction(0x840E).unwrap();
    assert_eq!(c.cpu_registers[4], 0b0110_1010);
    assert_eq!(c.cpu_registers[0xF], 1);
    c.shift_left_register(4).unwrap();
    assert_eq!(c.cpu_registers[4], 0b1101_0100);
    assert_eq!(c.cpu_registers[0xF], 0);
}

#[test]
fn logic_and_load_leave_the_flag_alone() {
    let mut c = Chip8::new();
    c.cpu_registers[0xF] = 9;
    c.cpu_registers[0] = 0b1100;
    c.cpu_registers[1] = 0b1010;
    c.execute_instruction(0x8012).unwrap();
    assert_eq!(c.cpu_registers[0], 0b1000);
    c.cpu_registers[0] = 0b1100;
    c.execute_instruction(0x8013).unwrap();
    assert_eq!(c.cpu_registers[0], 0b0110);
    c.execute_instruction(0x8011).unwrap();
    assert_eq!(c.cpu_registers[0], 0b1110);
    c.execute_instruction(0x8510).unwrap();
    assert_eq!(c.cpu_registers[5], 0b1010);
    c.execute_instruction(0x6A42).unwrap();
    assert_eq!(c.cpu_registers[0xA], 0x42);
    assert_eq!(c.cpu_registers[0xF], 9);
}

#[test]
fn set_rand_stays_inside_the_mask() {
    let mut c = Chip8::new();
    for _ in 0..64 {
        c.cpu_registers[3] = 0xFF;
        c.execute_instruction(0xC30F).unwrap();
        assert_eq!(c.cpu_registers[3] & 0xF0, 0);
        c.set_rand(4, 0x00).unwrap();
        assert_eq!(c.cpu_registers[4], 0);
    }
    c.set_rand_with(5, 0x3C, 0xF0).unwrap();
    assert_eq!(c.cpu_registers[5], 0x30);
    assert_eq!(c.set_rand(16, 0xFF), Err(Chip8Error::ArgumentOutOfRange));
}

#[test]
fn call_then_return_restores_the_counter() {
    let mut c = machine_with(&[0x23, 0x00]);
    c.init_memory(&[0x00, 0xEE], 0x300).unwrap();
    c.fetch_cycle().unwrap();
    assert_eq!(c.program_counter, 0x300);
    assert_eq!(c.stack_data, vec![0x202]);
    c.fetch_cycle().unwrap();
    assert_eq!(c.program_counter, 0x202);
    assert!(c.stack_data.is_empty());
}

#[test]
fn return_on_empty_stack_is_an_underflow() {
    let mut c = Chip8::new();
    assert_eq!(c.subroutine_return(), Err(Chip8Error::StackUnderflow));
    assert_eq!(c.program_counter, 0x200);
    assert_eq!(c.execute_instruction(0x00EE), Err(Chip8Error::StackUnderflow));
    assert_eq!(c.program_counter, 0x200);
}

#[test]
fn seventeenth_call_is_an_overflow() {
    let mut c = Chip8::new();
    for depth in 0..16 {
        assert_eq!(c.call_address(0x300 + depth), Ok(()));
    }
    assert_eq!(c.stack_data.len(), 16);
    assert_eq!(c.call_address(0x400), Err(Chip8Error::StackOverflow));
    assert_eq!(c.program_counter, 0x30F);
    assert_eq!(c.stack_data.len(), 16);
    assert_eq!(c.call_address(0x1000), Err(Chip8Error::ArgumentOutOfRange));
}

#[test]
fn jump_sets_the_counter() {
    let mut c = Chip8::new();
    c.execute_instruction(0x1ABC).unwrap();
    assert_eq!(c.program_counter, 0xABC);
    assert_eq!(c.jump_to_address(0x1000), Err(Chip8Error::ArgumentOutOfRange));
    assert_eq!(c.program_counter, 0xABC);
    c.cpu_registers[0] = 0xFF;
    c.execute_instruction(0xBFFF).unwrap();
    assert_eq!(c.program_counter, 0x10FE);
}

#[test]
fn skip_if_equal_advances_by_four_or_two() {
    let mut c = machine_with(&[0x31, 0x2A, 0x00, 0x00, 0x31, 0x2B]);
    c.cpu_registers[1] = 0x2A;
    c.fetch_cycle().unwrap();
    assert_eq!(c.program_counter, 0x204);
    c.fetch_cycle().unwrap();
    assert_eq!(c.program_counter, 0x206);
}

#[test]
fn the_four_skips() {
    let mut c = Chip8::new();
    c.cpu_registers[1] = 5;
    c.cpu_registers[2] = 5;
    c.cpu_registers[3] = 6;
    c.execute_instruction(0x4105).unwrap();
    assert_eq!(c.program_counter, 0x200);
    c.execute_instruction(0x4106).unwrap();
    assert_eq!(c.program_counter, 0x202);
    c.execute_instruction(0x5120).unwrap();
    assert_eq!(c.program_counter, 0x204);
    c.execute_instruction(0x5130).unwrap();
    assert_eq!(c.program_counter, 0x204);
    c.execute_instruction(0x9130).unwrap();
    assert_eq!(c.program_counter, 0x206);
    c.execute_instruction(0x9120).unwrap();
    assert_eq!(c.program_counter, 0x206);
    c.program_counter = 0xFFFE;
    assert_eq!(c.skip_next_if_byte_is_vx(1, 5), Err(Chip8Error::MemoryOutOfBounds));
    assert_eq!(c.program_counter, 0xFFFE);
    assert_eq!(c.skip_next_if_byte_is_vx(1, 6), Ok(()));
    assert_eq!(c.skip_next_if_vx_eql_vy(1, 16), Err(Chip8Error::ArgumentOutOfRange));
}

#[test]
fn fetch_needs_an_addressable_counter() {
    let mut c = Chip8::new();
    c.program_counter = 4092;
    c.memory[4092] = 0x12;
    c.memory[4093] = 0x34;
    assert_eq!(c.fetch_next(), Ok(0x1234));
    assert_eq!(c.program_counter, 4094);
    assert_eq!(c.fetch_next(), Err(Chip8Error::MemoryOutOfBounds));
    assert_eq!(c.program_counter, 4094);
    assert_eq!(c.fetch_cycle(), Err(Chip8Error::MemoryOutOfBounds));
}

#[test]
fn failed_step_leaves_the_machine_at_the_instruction() {
    let mut c = machine_with(&[0x00, 0xEE]);
    assert_eq!(c.fetch_cycle(), Err(Chip8Error::StackUnderflow));
    assert_eq!(c.program_counter, 0x200);
    let mut d = machine_with(&[0xFF, 0xFF]);
    assert_eq!(d.fetch_cycle(), Err(Chip8Error::UnknownInstruction(0xFFFF)));
    assert_eq!(d.program_counter, 0x200);
}

#[test]
fn timers_move_through_registers() {
    let mut c = Chip8::new();
    c.cpu_registers[2] = 30;
    c.execute_instruction(0xF215).unwrap();
    c.execute_instruction(0xF218).unwrap();
    assert_eq!((c.delay_timer, c.sound_timer), (30, 30));
    c.decrement_timers();
    c.execute_instruction(0xF307).unwrap();
    assert_eq!(c.cpu_registers[3], 29);
}

#[test]
fn index_add_accumulates_and_stays_an_address() {
    let mut c = Chip8::new();
    c.set_index_register(0x100).unwrap();
    c.cpu_registers[1] = 0x20;
    c.execute_instruction(0xF11E).unwrap();
    assert_eq!(c.index_register, 0x120);
    c.set_index_register(0xFFF).unwrap();
    c.cpu_registers[1] = 1;
    assert_eq!(c.index_reg_add(1), Err(Chip8Error::MemoryOutOfBounds));
    assert_eq!(c.index_register, 0xFFF);
    assert_eq!(c.set_index_register(0x1000), Err(Chip8Error::ArgumentOutOfRange));
}

#[test]
fn character_address_is_five_bytes_per_digit() {
    let mut c = Chip8::new();
    c.execute_instruction(0xFF29).unwrap();
    assert_eq!(c.index_register, 75);
    assert_eq!(c.set_index_to_character_address(16), Err(Chip8Error::ArgumentOutOfRange));
}

#[test]
fn bcd_stores_three_digits() {
    let mut c = Chip8::new();
    c.cpu_registers[4] = 254;
    c.set_index_register(0x400).unwrap();
    c.execute_instruction(0xF433).unwrap();
    assert_eq!(&c.memory[0x400..0x403], &[2, 5, 4]);
    c.cpu_registers[4] = 7;
    c.store_bcd(4).unwrap();
    assert_eq!(&c.memory[0x400..0x403], &[0, 0, 7]);
    c.set_index_register(4093).unwrap();
    c.store_bcd(4).unwrap();
    c.set_index_register(4094).unwrap();
    assert_eq!(c.store_bcd(4), Err(Chip8Error::MemoryOutOfBounds));
    assert_eq!(c.memory[4094], 0);
}

#[test]
fn block_store_and_load_include_the_last_register() {
    let mut c = Chip8::new();
    for r in 0..16 {
        c.cpu_registers[r] = (r as u8) + 1;
    }
    c.set_index_register(0x500).unwrap();
    c.execute_instruction(0xF255).unwrap();
    assert_eq!(&c.memory[0x500..0x504], &[1, 2, 3, 0]);
    let mut d = Chip8::new();
    d.init_memory(&[9, 8, 7, 6], 0x500).unwrap();
    d.set_index_register(0x500).unwrap();
    d.execute_instruction(0xF265).unwrap();
    assert_eq!(&d.cpu_registers[0..4], &[9, 8, 7, 0]);
    d.set_index_register(4094).unwrap();
    assert_eq!(d.read_memory(2), Err(Chip8Error::MemoryOutOfBounds));
    assert_eq!(d.store_registers(2), Err(Chip8Error::MemoryOutOfBounds));
    assert_eq!(d.store_registers(1), Ok(()));
    assert_eq!(&d.memory[4094..4096], &[9, 8]);
}
