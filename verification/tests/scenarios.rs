use chip8_vm::chip8::{Chip8, DecodeError};

fn machine_with(program: &[u8]) -> Chip8 {
    let mut chip = Chip8::new().init_font();
    chip.load_rom(Some(program)).unwrap();
    chip
}

fn run(chip: &mut Chip8, cycles: usize) {
    for _ in 0..cycles {
        assert!(chip.can_execute());
        chip.execute_with(0).unwrap();
    }
}

fn lit_cells(chip: &Chip8) -> usize {
    let mut count = 0;
    for y in 0..32 {
        for x in 0..64 {
            if chip.pixel(x, y) {
                count += 1;
            }
        }
    }
    count
}

#[test]
fn add_immediate_wraps_in_every_register() {
    for x in 0..16u8 {
        // VF = 0x55, Vx = 250, Vx += 10
        let mut chip = machine_with(&[0x6F, 0x55, 0x60 | x, 250, 0x70 | x, 10]);
        run(&mut chip, 3);
        assert_eq!(chip.register(x as usize), 4);
        if x != 0xF {
            assert_eq!(chip.register(0xF), 0x55);
        }
        assert_eq!(chip.program_counter(), 0x206);
    }
}

#[test]
fn add_immediate_without_wrap() {
    let mut chip = machine_with(&[0x63, 20, 0x73, 22]);
    run(&mut chip, 2);
    assert_eq!(chip.register(3), 42);
    assert_eq!(chip.register(0xF), 0);
}

#[test]
fn add_registers_with_carry() {
    let mut chip = machine_with(&[0x60, 200, 0x61, 100, 0x80, 0x14]);
    run(&mut chip, 3);
    assert_eq!(chip.register(0), 44);
    assert_eq!(chip.register(1), 100);
    assert_eq!(chip.register(0xF), 1);
}

#[test]
fn add_registers_without_carry() {
    let mut chip = machine_with(&[0x6F, 9, 0x60, 10, 0x61, 5, 0x80, 0x14]);
    run(&mut chip, 4);
    assert_eq!(chip.register(0), 15);
    assert_eq!(chip.register(0xF), 0);
}

#[test]
fn add_registers_sum_of_255_is_no_carry() {
    let mut chip = machine_with(&[0x60, 255, 0x61, 0, 0x80, 0x14]);
    run(&mut chip, 3);
    assert_eq!(chip.register(0), 255);
    assert_eq!(chip.register(0xF), 0);
}

#[test]
fn add_into_flag_register_leaves_the_carry() {
    // VF = 200, V1 = 100, VF += V1: the sum is written first, the carry last
    let mut chip = machine_with(&[0x6F, 200, 0x61, 100, 0x8F, 0x14]);
    run(&mut chip, 3);
    assert_eq!(chip.register(0xF), 1);
    assert_eq!(chip.register(1), 100);
    // VF = 20, V1 = 30: no carry
    let mut chip = machine_with(&[0x6F, 20, 0x61, 30, 0x8F, 0x14]);
    run(&mut chip, 3);
    assert_eq!(chip.register(0xF), 0);
}

#[test]
fn add_with_flag_register_as_operand_uses_its_value_before() {
    // V1 = 200, VF = 100, V1 += VF
    let mut chip = machine_with(&[0x61, 200, 0x6F, 100, 0x81, 0xF4]);
    run(&mut chip, 3);
    assert_eq!(chip.register(1), 44);
    assert_eq!(chip.register(0xF), 1);
    // V1 = 10, VF = 5, V1 += VF
    let mut chip = machine_with(&[0x61, 10, 0x6F, 5, 0x81, 0xF4]);
    run(&mut chip, 3);
    assert_eq!(chip.register(1), 15);
    assert_eq!(chip.register(0xF), 0);
}

#[test]
fn subtract_with_flag_register_as_operand_uses_its_value_before() {
    // V1 = 10, VF = 5, V1 -= VF
    let mut chip = machine_with(&[0x61, 10, 0x6F, 5, 0x81, 0xF5]);
    run(&mut chip, 3);
    assert_eq!(chip.register(1), 5);
    assert_eq!(chip.register(0xF), 1);
    // V1 = 5, VF = 10, V1 -= VF
    let mut chip = machine_with(&[0x61, 5, 0x6F, 10, 0x81, 0xF5]);
    run(&mut chip, 3);
    assert_eq!(chip.register(1), 251);
    assert_eq!(chip.register(0xF), 0);
}

#[test]
fn subtract_from_flag_register_leaves_the_flag() {
    // VF = 5, V1 = 10, VF -= V1: a borrow
    let mut chip = machine_with(&[0x6F, 5, 0x61, 10, 0x8F, 0x15]);
    run(&mut chip, 3);
    assert_eq!(chip.register(0xF), 0);
    // VF = 10, V1 = 5, VF -= V1: no borrow
    let mut chip = machine_with(&[0x6F, 10, 0x61, 5, 0x8F, 0x15]);
    run(&mut chip, 3);
    assert_eq!(chip.register(0xF), 1);
}

#[test]
fn subtract_into_with_the_flag_register_uses_its_value_before() {
    // VF = 5, V1 = 10: V1 = V1 - VF, then VF = 1
    let mut chip = machine_with(&[0x6F, 5, 0x61, 10, 0x8F, 0x17]);
    run(&mut chip, 3);
    assert_eq!(chip.register(1), 5);
    assert_eq!(chip.register(0xF), 1);
    // V1 = 3, VF = 10: VF = VF - V1 would be 7, but the flag is written last: 1
    let mut chip = machine_with(&[0x61, 3, 0x6F, 10, 0x81, 0xF7]);
    run(&mut chip, 3);
    assert_eq!(chip.register(1), 3);
    assert_eq!(chip.register(0xF), 1);
    // V1 = 10, VF = 3: V1 exceeds VF, the flag is 0
    let mut chip = machine_with(&[0x61, 10, 0x6F, 3, 0x81, 0xF7]);
    run(&mut chip, 3);
    assert_eq!(chip.register(0xF), 0);
}

#[test]
fn subtract_with_borrow() {
    let mut chip = machine_with(&[0x6F, 7, 0x60, 5, 0x61, 10, 0x80, 0x15]);
    run(&mut chip, 4);
    assert_eq!(chip.register(0), 251);
    assert_eq!(chip.register(0xF), 0);
}

#[test]
fn subtract_without_borrow() {
    let mut chip = machine_with(&[0x60, 10, 0x61, 5, 0x80, 0x15]);
    run(&mut chip, 3);
    assert_eq!(chip.register(0), 5);
    assert_eq!(chip.register(0xF), 1);
}

#[test]
fn subtract_equal_values_is_no_borrow() {
    let mut chip = machine_with(&[0x60, 9, 0x61, 9, 0x80, 0x15]);
    run(&mut chip, 3);
    assert_eq!(chip.register(0), 0);
    assert_eq!(chip.register(0xF), 1);
}

#[test]
fn clear_screen_turns_every_cell_off() {
    // draw the glyph for 0 at (0, 0), then clear
    let mut chip = machine_with(&[0xD0, 0x05, 0x00, 0xE0]);
    run(&mut chip, 1);
    assert!(lit_cells(&chip) > 0);
    run(&mut chip, 1);
    for y in 0..32 {
        for x in 0..64 {
            assert!(!chip.pixel(x, y));
        }
    }
    let cells = chip.display_data();
    assert!(cells.iter().all(|row| row.iter().all(|cell| !cell)));
    assert_eq!(chip.program_counter(), 0x204);
}

#[test]
fn call_then_return_comes_back_after_the_call() {
    // 0x200: call 0x206; 0x206: return
    let mut chip = machine_with(&[0x22, 0x06, 0x00, 0x00, 0x00, 0x00, 0x00, 0xEE]);
    run(&mut chip, 1);
    assert_eq!(chip.program_counter(), 0x206);
    assert_eq!(chip.stack_depth(), 1);
    run(&mut chip, 1);
    assert_eq!(chip.program_counter(), 0x202);
    assert_eq!(chip.stack_depth(), 0);
}

#[test]
fn nested_calls_return_in_reverse_order() {
    // 0x200: call 0x204; 0x202: jump 0x202; 0x204: call 0x208; 0x206: return; 0x208: return
    let mut chip = machine_with(&[0x22, 0x04, 0x12, 0x02, 0x22, 0x08, 0x00, 0xEE, 0x00, 0xEE]);
    run(&mut chip, 2);
    assert_eq!(chip.program_counter(), 0x208);
    assert_eq!(chip.stack_depth(), 2);
    run(&mut chip, 1);
    assert_eq!(chip.program_counter(), 0x206);
    run(&mut chip, 1);
    assert_eq!(chip.program_counter(), 0x202);
    assert_eq!(chip.stack_depth(), 0);
}

#[test]
fn return_with_empty_stack_only_moves_on() {
    let mut chip = machine_with(&[0x00, 0xEE]);
    run(&mut chip, 1);
    assert_eq!(chip.program_counter(), 0x202);
    assert_eq!(chip.stack_depth(), 0);
}

#[test]
fn drawing_twice_cancels_and_collides() {
    // V0 = 10, V1 = 7, I = glyph of 0; draw 5 rows at (V0, V1), twice
    let mut chip = machine_with(&[0x60, 10, 0x61, 7, 0xD0, 0x15, 0xD0, 0x15]);
    run(&mut chip, 3);
    assert_eq!(chip.register(0xF), 0);
    // the glyph for 0 has 14 set pixels
    assert_eq!(lit_cells(&chip), 14);
    run(&mut chip, 1);
    assert_eq!(chip.register(0xF), 1);
    assert_eq!(lit_cells(&chip), 0);
}

#[test]
fn drawing_an_empty_sprite_twice_never_collides() {
    // I = 0x300, where memory is zero
    let mut chip = machine_with(&[0xA3, 0x00, 0xD0, 0x05, 0xD0, 0x05]);
    run(&mut chip, 3);
    assert_eq!(chip.register(0xF), 0);
    assert_eq!(lit_cells(&chip), 0);
}

#[test]
fn wait_key_blocks_until_a_key_is_down() {
    let mut chip = machine_with(&[0xF3, 0x0A]);
    for _ in 0..5 {
        run(&mut chip, 1);
        assert_eq!(chip.program_counter(), 0x200);
        assert_eq!(chip.register(3), 0);
    }
    chip.key_press(7);
    run(&mut chip, 1);
    assert_eq!(chip.register(3), 7);
    assert_eq!(chip.program_counter(), 0x202);
}

#[test]
fn wait_key_takes_the_lowest_key() {
    let mut chip = machine_with(&[0xF3, 0x0A]);
    chip.key_press(12);
    chip.key_press(4);
    chip.key_press(9);
    run(&mut chip, 1);
    assert_eq!(chip.register(3), 4);
}

#[test]
fn wait_key_sees_key_zero() {
    let mut chip = machine_with(&[0x65, 9, 0xF5, 0x0A]);
    chip.key_press(0);
    run(&mut chip, 2);
    assert_eq!(chip.register(5), 0);
    assert_eq!(chip.program_counter(), 0x204);
}

#[test]
fn store_decimal_digits() {
    // V2 = 157, I = 0x300
    let mut chip = machine_with(&[0x62, 157, 0xA3, 0x00, 0xF2, 0x33]);
    run(&mut chip, 3);
    assert_eq!(chip.memory(0x300), 1);
    assert_eq!(chip.memory(0x301), 5);
    assert_eq!(chip.memory(0x302), 7);
    assert_eq!(chip.address_register(), 0x300);
}

#[test]
fn store_decimal_digits_of_small_and_large_values() {
    let mut chip = machine_with(&[0x62, 7, 0xA3, 0x00, 0xF2, 0x33, 0x62, 255, 0xA3, 0x10, 0xF2, 0x33]);
    run(&mut chip, 6);
    assert_eq!([chip.memory(0x300), chip.memory(0x301), chip.memory(0x302)], [0, 0, 7]);
    assert_eq!([chip.memory(0x310), chip.memory(0x311), chip.memory(0x312)], [2, 5, 5]);
}

#[test]
fn glyph_lookup_finds_the_letter_a() {
    let mut chip = machine_with(&[0x64, 0x0A, 0xF4, 0x29]);
    run(&mut chip, 2);
    assert_eq!(chip.address_register(), 50);
    let at = chip.address_register() as usize;
    let rows: Vec<u8> = (0..5).map(|k| chip.memory(at + k)).collect();
    assert_eq!(rows, vec![0xF0, 0x90, 0xF0, 0x90, 0x90]);
}

#[test]
fn glyph_lookup_does_not_wrap_at_a_byte() {
    let mut chip = machine_with(&[0x64, 200, 0xF4, 0x29]);
    run(&mut chip, 2);
    assert_eq!(chip.address_register(), 1000);
}

#[test]
fn unknown_opcode_is_an_error_and_does_not_advance() {
    for word in [
        0x8008u16, 0x800F, 0x0000, 0x00E1, 0x0123, 0x01E0, 0x5121, 0x512F, 0x9AB3, 0x9001, 0xE000,
        0xE19F, 0xF000, 0xF0FF, 0xF1FF, 0xF166,
    ] {
        let mut chip = machine_with(&[0x61, 0x11, (word >> 8) as u8, word as u8]);
        run(&mut chip, 1);
        assert!(chip.can_execute());
        assert_eq!(chip.execute_with(0), Err(DecodeError { opcode: word }));
        assert_eq!(chip.program_counter(), 0x202);
        assert_eq!(chip.register(1), 0x11);
        assert_eq!(chip.execute_instruction(), Err(DecodeError { opcode: word }));
        assert_eq!(chip.program_counter(), 0x202);
        assert_eq!(chip.stack_depth(), 0);
        assert_eq!(lit_cells(&chip), 0);
        assert_eq!(chip.address_register(), 0);
        assert_eq!(chip.memory(0x202), (word >> 8) as u8);
        assert_eq!(chip.memory(0x203), word as u8);
        assert_eq!((chip.delay_timer(), chip.sound_timer()), (0, 0));
    }
}
