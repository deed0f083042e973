use rusty_chip::chip8::Chip8;
use rusty_chip::chip8_util::validate_argument;

#[test]
pub fn fetch_cycle_test() {
    let mut c: Chip8 = Chip8::new();
    c.memory[c.program_counter as usize] = 0xA2;
    c.memory[(c.program_counter + 1) as usize] = 0xF0;
    c.fetch_cycle().unwrap();
    assert_eq!(c.index_register, 0x02F0);
}

#[test]
pub fn draw_test() {
    let mut c: Chip8 = Chip8::new();
    let mut gfx: [u8; 64 * 32] = [0; 64 * 32];

    assert_eq!(
        gfx.len(),
        c.gfx.len(),
        "Arrays do not have the same length! {} vs {}",
        gfx.len(),
        c.gfx.len()
    );
    assert!(
        gfx.iter().zip(gfx.iter()).all(|(a, b)| a == b),
        "Arrays are not equal"
    );

    c.memory[0x300] = 0xFF;
    c.memory[0x301] = 0x55;

    c.execute_instruction(0x60FF).unwrap();
    c.execute_instruction(0x6155).unwrap();
    c.execute_instruction(0xA300).unwrap();
    c.execute_instruction(0xF155).unwrap();
    c.execute_instruction(0x6000).unwrap();
    c.execute_instruction(0x6100).unwrap();
    c.execute_instruction(0xD012).unwrap();

    for i in 0..8 {
        gfx[i] = 0xFF;
    }

    gfx[64] = 0;
    gfx[65] = 0xFF;
    gfx[66] = 0;
    gfx[67] = 0xFF;
    gfx[68] = 0;
    gfx[69] = 0xFF;
    gfx[70] = 0;
    gfx[71] = 0xFF;

    assert_eq!(
        gfx.len(),
        c.gfx.len(),
        "Arrays do not have the same length! {} vs {}",
        gfx.len(),
        c.gfx.len()
    );
    assert!(
        gfx.iter().zip(c.gfx.iter()).all(|(a, b)| a == b),
        "Arrays are not equal"
    );
    assert_eq!(c.cpu_registers[0xF], 0);
}

#[test]
pub fn clear_screen_test() {
    let mut c: Chip8 = Chip8::new();
    c.gfx[0] = 1;
    c.clear_screen();

    let expected_gfx = [0; 64 * 32];
    assert_eq!(
        c.gfx.len(),
        expected_gfx.len(),
        "Arrays don't have the same length"
    );
    assert!(
        c.gfx.iter().zip(expected_gfx.iter()).all(|(a, b)| a == b),
        "Arrays are not equal"
    );
}

#[test]
pub fn load_index_test() {
    let mut c: Chip8 = Chip8::new();
    c.execute_instruction(0xA123).unwrap();
    assert_eq!(c.index_register, 0x0123);
}

#[test]
pub fn jump_to_address_plus_v0_test() {
    let mut c: Chip8 = Chip8::new();
    c.cpu_registers[0] = 0x68;
    c.jump_to_address_plus_v0(0x0123).unwrap();
    assert_eq!(c.program_counter, 0x0123 + 0x68);
    c.jump_to_address_plus_v0(0x0433).unwrap();
    assert_eq!(c.program_counter, 0x0433 + 0x68);
}

#[test]
pub fn set_index_register_test() {
    let mut c: Chip8 = Chip8::new();
    c.set_index_register(100 as u16).unwrap();
    assert_eq!(c.index_register, 100);
}

#[test]
pub fn set_index_to_character_address_test() {
    let mut c: Chip8 = Chip8::new();
    c.set_index_to_character_address(0).unwrap();
    assert_eq!(c.index_register, 0);

    c.set_index_to_character_address(1).unwrap();
    assert_eq!(c.index_register, 5);

    c.set_index_to_character_address(2).unwrap();
    assert_eq!(c.index_register, 10);
}

#[test]
pub fn add_test() {
    let mut c: Chip8 = Chip8::new();
    c.add(10 as u8, 12 as u8).unwrap();
    assert_eq!(c.cpu_registers[10 as usize], 12);

    c.add(10 as u8, 3 as u8).unwrap();
    assert_eq!(c.cpu_registers[10 as usize], 15);

    c.add(4 as u8, 3 as u8).unwrap();
    assert_eq!(c.cpu_registers[4 as usize], 3);
}

#[test]
pub fn add_registers_test() {
    let mut c: Chip8 = Chip8::new();
    c.cpu_registers[0] = 4;
    c.cpu_registers[2] = 3;
    c.cpu_registers[4] = 3;
    c.cpu_registers[5] = 1;
    c.cpu_registers[6] = 0xFF;

    assert_eq!(c.cpu_registers[0xF], 0);

    c.add_registers(0, 2).unwrap();
    assert_eq!(c.cpu_registers[0], 7);
    assert_eq!(c.cpu_registers[2], 3);
    assert_eq!(c.cpu_registers[0xF], 0);

    c.add_registers(6, 5).unwrap();
    assert_eq!(c.cpu_registers[6], 0);
    assert_eq!(c.cpu_registers[0xF], 1);

    c.add_registers(6, 5).unwrap();
    assert_eq!(c.cpu_registers[6], 1);
    assert_eq!(c.cpu_registers[0xF], 0);
}

#[test]
pub fn sub_registers_test() {
    let mut c: Chip8 = Chip8::new();
    c.cpu_registers[0] = 4;
    c.cpu_registers[1] = 4;
    c.cpu_registers[2] = 3;
    c.cpu_registers[4] = 3;
    c.cpu_registers[5] = 1;
    c.cpu_registers[6] = 0xFF;

    c.sub_registers(0, 2).unwrap();
    assert_eq!(c.cpu_registers[0], 1);
    assert_eq!(c.cpu_registers[2], 3);
    assert_eq!(c.cpu_registers[0xF], 1);

    c.sub_registers(4, 5).unwrap();
    assert_eq!(c.cpu_registers[4], 2);
    assert_eq!(c.cpu_registers[5], 1);
    assert_eq!(c.cpu_registers[0xF], 1);

    c.sub_registers(2, 1).unwrap();
    assert_eq!(c.cpu_registers[1], 4);
    assert_eq!(c.cpu_registers[2], 255);
    assert_eq!(c.cpu_registers[0xF], 0);
}

#[test]
pub fn bit_or_test() {
    let mut c: Chip8 = Chip8::new();
    c.cpu_registers[0] = 4;
    c.cpu_registers[2] = 3;
    c.cpu_registers[4] = 3;
    c.cpu_registers[5] = 1;

    c.bit_or(2 as u8, 0 as u8).unwrap();
    assert_eq!(c.cpu_registers[2], 7);

    c.bit_or(3 as u8, 4 as u8).unwrap();
    assert_eq!(c.cpu_registers[3], 3);

    c.bit_or(5 as u8, 4 as u8).unwrap();
    assert_eq!(c.cpu_registers[5], 3);
}

#[test]
pub fn validate_argument_test() {
    assert_eq!(validate_argument(0x54, 0xFF), Ok(0x54));
    assert_eq!(validate_argument(0x132, 0xFFF), Ok(0x132));
    assert_eq!(validate_argument(0x5, 0xFF), Ok(0x5));
    assert_eq!(validate_argument(0x3, 0xF), Ok(0x3));
    assert_eq!(validate_argument(0xFFF, 0xFFF), Ok(0xFFF));
}
