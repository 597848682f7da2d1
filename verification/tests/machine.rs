//! End-to-end tests driving whole programs through the machine.

use chip8::model::Mode;
use chip8::vm::Chip8;

/// A machine with `program` loaded at the 0x200 entry.
fn boot(program: &[u8]) -> Chip8 {
    let mut vm = Chip8::new();
    vm.load_program(program).expect("program fits in memory");
    vm
}

#[test]
fn fresh_machine_state() {
    let vm = Chip8::new();
    assert_eq!(vm.program_counter(), 0x200);
    assert_eq!(vm.index_register(), 0);
    assert_eq!(vm.stack_depth(), 0);
    assert_eq!(vm.dt, 0);
    assert_eq!(vm.st, 0);
    assert_eq!(vm.mode(), Mode::Running);
    assert!(!vm.display_changed);
    for x in 0..16 {
        assert_eq!(vm.register(x), 0);
    }
    let d = vm.display();
    assert_eq!(d.len(), 32);
    for row in d {
        assert_eq!(row.len(), 64);
        assert!(row.iter().all(|&px| px == 0));
    }
}

#[test]
fn load_immediate_then_add_registers() {
    // LD V1, 0x05; LD V2, 0x03; ADD V1, V2
    let mut vm = boot(&[0x61, 0x05, 0x62, 0x03, 0x81, 0x24]);
    vm.execute_next_instruction().unwrap();
    vm.execute_next_instruction().unwrap();
    vm.execute_next_instruction().unwrap();
    assert_eq!(vm.register(1), 8);
    assert_eq!(vm.register(0xF), 0);
    assert_eq!(vm.program_counter(), 0x206);
}

#[test]
fn clear_then_draw_single_pixel_and_collide() {
    // CLS; LD I, 0x20A; DRW V0,V1,1; DRW V0,V1,1; two pad bytes; the
    // sprite byte 0x80 at 0x20A.
    let mut vm = boot(&[0x00, 0xE0, 0xA2, 0x0A, 0xD0, 0x11, 0xD0, 0x11, 0x00, 0x00, 0x80]);
    vm.execute_next_instruction().unwrap();
    vm.execute_next_instruction().unwrap();
    vm.execute_next_instruction().unwrap();
    assert_eq!(vm.display()[0][0], 1);
    assert_eq!(vm.register(0xF), 0);
    vm.execute_next_instruction().unwrap();
    assert_eq!(vm.display()[0][0], 0);
    assert_eq!(vm.register(0xF), 1);
}

#[test]
fn call_and_return_resume_after_the_call() {
    // At 0x200: CALL 0x300.  At 0x300: RET.
    let mut program = vec![0u8; 0x102];
    program[0] = 0x23;
    program[1] = 0x00;
    program[0x100] = 0x00;
    program[0x101] = 0xEE;
    let mut vm = boot(&program);
    vm.execute_next_instruction().unwrap();
    assert_eq!(vm.program_counter(), 0x300);
    assert_eq!(vm.stack_depth(), 1);
    vm.execute_next_instruction().unwrap();
    assert_eq!(vm.program_counter(), 0x202);
    assert_eq!(vm.stack_depth(), 0);
}

#[test]
fn jump_lands_on_target() {
    let mut vm = boot(&[0x1A, 0xBC]);
    vm.execute_next_instruction().unwrap();
    assert_eq!(vm.program_counter(), 0xABC);
}

#[test]
fn indexed_jump_adds_v0() {
    // LD V0, 4; JP V0, 0x300
    let mut vm = boot(&[0x60, 0x04, 0xB3, 0x00]);
    vm.execute_next_instruction().unwrap();
    vm.execute_next_instruction().unwrap();
    assert_eq!(vm.program_counter(), 0x304);
}

#[test]
fn skip_if_equal_value_skips() {
    // LD V3, 7; SE V3, 7; LD V4, 1 (skipped); LD V5, 2
    let mut vm = boot(&[0x63, 0x07, 0x33, 0x07, 0x64, 0x01, 0x65, 0x02]);
    for _ in 0..3 {
        vm.execute_next_instruction().unwrap();
    }
    assert_eq!(vm.register(4), 0);
    assert_eq!(vm.register(5), 2);
}

#[test]
fn skip_if_not_equal_value_falls_through() {
    // LD V3, 7; SNE V3, 7; LD V4, 1 (executed)
    let mut vm = boot(&[0x63, 0x07, 0x43, 0x07, 0x64, 0x01]);
    for _ in 0..3 {
        vm.execute_next_instruction().unwrap();
    }
    assert_eq!(vm.register(4), 1);
}

#[test]
fn skip_register_comparisons() {
    // LD V1, 9; LD V2, 9; SE V1, V2; pad; SNE V1, V2; LD V6, 3
    let mut vm = boot(&[0x61, 0x09, 0x62, 0x09, 0x51, 0x20, 0x00, 0x00, 0x91, 0x20, 0x66, 0x03]);
    for _ in 0..5 {
        vm.execute_next_instruction().unwrap();
    }
    // SE skipped the pad, SNE (equal registers) fell through to LD V6.
    assert_eq!(vm.register(6), 3);
}

#[test]
fn system_call_is_a_no_op() {
    let mut vm = boot(&[0x01, 0x23]);
    vm.execute_next_instruction().unwrap();
    assert_eq!(vm.program_counter(), 0x202);
}

#[test]
fn wait_for_key_parks_until_a_key_arrives() {
    // LD V0, K
    let mut vm = boot(&[0xF0, 0x0A]);
    vm.execute_next_instruction().unwrap();
    assert_eq!(vm.program_counter(), 0x200);
    assert_eq!(vm.mode(), Mode::AwaitingKey { target: 0 });
    vm.execute_next_instruction().unwrap();
    assert_eq!(vm.program_counter(), 0x200);
    vm.register_keydown(&[5, 9]);
    vm.execute_next_instruction().unwrap();
    assert_eq!(vm.register(0), 5);
    assert_eq!(vm.mode(), Mode::Running);
    assert_eq!(vm.program_counter(), 0x202);
}

#[test]
fn wait_for_key_stores_at_once_when_a_key_is_down() {
    let mut vm = boot(&[0xF3, 0x0A]);
    vm.register_keydown(&[0xC]);
    vm.execute_next_instruction().unwrap();
    assert_eq!(vm.register(3), 0xC);
    assert_eq!(vm.mode(), Mode::Running);
    assert_eq!(vm.program_counter(), 0x202);
}

#[test]
fn skip_on_key_state() {
    // LD V0, 4; SKP V0; LD V5, 1 (skipped when key 4 down); SKNP V0;
    // LD V6, 2 (executed when key 4 down)
    let mut vm = boot(&[0x60, 0x04, 0xE0, 0x9E, 0x65, 0x01, 0xE0, 0xA1, 0x66, 0x02]);
    vm.register_keydown(&[4]);
    for _ in 0..4 {
        vm.execute_next_instruction().unwrap();
    }
    assert_eq!(vm.register(5), 0);
    assert_eq!(vm.register(6), 2);
}

#[test]
fn key_state_is_wholly_replaced() {
    let mut vm = Chip8::new();
    vm.register_keydown(&[1, 2, 3]);
    vm.register_keydown(&[7]);
    // SKP V0 with V0 = 1: key 1 is no longer down, no skip.
    vm.load_program(&[0x60, 0x01, 0xE0, 0x9E]).unwrap();
    vm.execute_next_instruction().unwrap();
    vm.execute_next_instruction().unwrap();
    assert_eq!(vm.program_counter(), 0x204);
}

#[test]
fn timers_load_store_and_tick() {
    // LD V0, 2; LD DT, V0; LD ST, V0; LD V1, DT
    let mut vm = boot(&[0x60, 0x02, 0xF0, 0x15, 0xF0, 0x18, 0xF1, 0x07]);
    for _ in 0..4 {
        vm.execute_next_instruction().unwrap();
    }
    assert_eq!(vm.dt, 2);
    assert_eq!(vm.st, 2);
    assert_eq!(vm.register(1), 2);
    vm.tick_timers();
    assert_eq!(vm.dt, 1);
    assert_eq!(vm.st, 1);
    vm.tick_timers();
    vm.tick_timers();
    assert_eq!(vm.dt, 0);
    assert_eq!(vm.st, 0);
}

#[test]
fn index_register_loads_and_adds() {
    // LD I, 0x123; LD V0, 0x10; ADD I, V0
    let mut vm = boot(&[0xA1, 0x23, 0x60, 0x10, 0xF0, 0x1E]);
    for _ in 0..3 {
        vm.execute_next_instruction().unwrap();
    }
    assert_eq!(vm.index_register(), 0x133);
}

#[test]
fn add_to_index_wraps_at_sixteen_bits() {
    let mut vm = Chip8::new();
    vm.load_value_into_i(0xFFFF);
    vm.load_value_into_reg(0, 2);
    vm.add_to_i(0);
    assert_eq!(vm.index_register(), 1);
}

#[test]
fn font_glyph_addresses() {
    let mut vm = Chip8::new();
    vm.load_value_into_reg(0, 0xA);
    vm.load_digit_into_i(0);
    assert_eq!(vm.index_register(), 50);
    // Only the low nibble names a digit: 0x1A is clamped to 0xA.
    vm.load_value_into_reg(0, 0x1A);
    vm.load_digit_into_i(0);
    assert_eq!(vm.index_register(), 50);
}

#[test]
fn random_byte_is_masked() {
    // RND V0, 0x00 leaves nothing of the random byte.
    let mut vm = boot(&[0xC0, 0x00]);
    vm.execute_next_instruction().unwrap();
    assert_eq!(vm.register(0), 0);
}

#[test]
fn random_byte_stays_in_range() {
    // RND V0, 0xFF keeps the whole byte, which is drawn from [0, 255).
    for _ in 0..32 {
        let mut vm = boot(&[0xC0, 0xFF]);
        vm.execute_next_instruction().unwrap();
        assert!(vm.register(0) < 255);
    }
}

#[test]
fn store_and_load_registers_round_trip() {
    let mut vm = Chip8::new();
    for x in 0..6 {
        vm.load_value_into_reg(x, (10 * x + 1) as u8);
    }
    vm.load_value_into_i(0x300);
    vm.copy_registers_into_memory(5).unwrap();
    assert_eq!(vm.index_register(), 0x300);
    for x in 0..16 {
        vm.load_value_into_reg(x, 0);
    }
    vm.read_memory_into_registers(5).unwrap();
    assert_eq!(vm.index_register(), 0x300);
    for x in 0..6 {
        assert_eq!(vm.register(x), (10 * x + 1) as u8);
    }
    for x in 6..16 {
        assert_eq!(vm.register(x), 0);
    }
}

#[test]
fn clear_screen_blanks_everything_and_leaves_vf() {
    let mut program = vec![0u8; 7];
    // LD I, 0x206; DRW V0,V1,1; CLS; sprite byte 0xFF at 0x206.
    program[0] = 0xA2;
    program[1] = 0x06;
    program[2] = 0xD0;
    program[3] = 0x11;
    program[4] = 0x00;
    program[5] = 0xE0;
    program[6] = 0xFF;
    let mut vm = boot(&program);
    vm.execute_next_instruction().unwrap();
    vm.execute_next_instruction().unwrap();
    assert_eq!(vm.display()[0][3], 1);
    let vf_before = vm.register(0xF);
    vm.execute_next_instruction().unwrap();
    assert!(vm.display().iter().all(|row| row.iter().all(|&px| px == 0)));
    assert_eq!(vm.register(0xF), vf_before);
    assert!(vm.display_changed);
}

#[test]
fn sprites_clip_at_the_edges() {
    // Draw the 2-row sprite [0xFF, 0xFF] at (60, 31): only 4 columns of
    // the first row land on screen, the second row is clipped away.
    let mut vm = Chip8::new();
    vm.load_program(&[0xA2, 0x08, 0xD0, 0x12, 0x00, 0x00, 0x00, 0x00, 0xFF, 0xFF]).unwrap();
    vm.load_value_into_reg(0, 60);
    vm.load_value_into_reg(1, 31);
    vm.execute_next_instruction().unwrap();
    vm.execute_next_instruction().unwrap();
    for c in 60..64 {
        assert_eq!(vm.display()[31][c], 1);
    }
    assert_eq!(vm.register(0xF), 0);
}

#[test]
fn sprite_coordinates_wrap_modulo_screen() {
    // (V0, V1) = (64, 32) draws at (0, 0).
    let mut vm = Chip8::new();
    vm.load_program(&[0xA2, 0x06, 0xD0, 0x11, 0x00, 0x00, 0x80]).unwrap();
    vm.load_value_into_reg(0, 64);
    vm.load_value_into_reg(1, 32);
    vm.execute_next_instruction().unwrap();
    vm.execute_next_instruction().unwrap();
    assert_eq!(vm.display()[0][0], 1);
}

#[test]
fn flag_register_as_destination_keeps_the_flag() {
    // LD VF, 200; ADD VF, 200: the carry flag is VF's last write, so VF
    // ends as 1, not as the wrapped sum.
    let mut vm = boot(&[0x6F, 0xC8, 0x7F, 0xC8]);
    vm.execute_next_instruction().unwrap();
    vm.execute_next_instruction().unwrap();
    assert_eq!(vm.register(0xF), 1);
}

#[test]
fn debug_info_renders() {
    let mut vm = Chip8::new();
    let text = vm.get_pretty_debug_info();
    assert!(!text.is_empty());
    assert!(text.starts_with("registers |"));
    assert_eq!(vm.program_counter(), 0x200);
}
