//! Exhaustive checks of the arithmetic and flag semantics, over every
//! 8-bit operand pair where that is cheap.

use chip8::vm::Chip8;

#[test]
fn add_carries_for_all_operands() {
    let mut vm = Chip8::new();
    for a in 0..=255u16 {
        for b in 0..=255u16 {
            vm.load_value_into_reg(1, a as u8);
            vm.add_value_to_reg(1, b as u8);
            assert_eq!(vm.register(1) as u16, (a + b) % 256);
            assert_eq!(vm.register(0xF), if a + b > 255 { 1 } else { 0 });
        }
    }
}

#[test]
fn subtract_borrows_for_all_operands() {
    let mut vm = Chip8::new();
    for a in 0..=255i32 {
        for b in 0..=255i32 {
            vm.load_value_into_reg(1, a as u8);
            vm.load_value_into_reg(2, b as u8);
            vm.sub_reg(1, 2);
            assert_eq!(vm.register(1) as i32, (a - b).rem_euclid(256));
            assert_eq!(vm.register(0xF), if a >= b { 1 } else { 0 });
        }
    }
}

#[test]
fn reverse_subtract_mirrors_subtract() {
    let mut vm = Chip8::new();
    for a in 0..=255i32 {
        for b in 0..=255i32 {
            vm.load_value_into_reg(1, a as u8);
            vm.load_value_into_reg(2, b as u8);
            vm.subn_reg(1, 2);
            assert_eq!(vm.register(1) as i32, (b - a).rem_euclid(256));
            assert_eq!(vm.register(0xF), if b >= a { 1 } else { 0 });
        }
    }
}

#[test]
fn shifts_yield_single_bit_flags_for_all_operands() {
    let mut vm = Chip8::new();
    for a in 0..=255u16 {
        vm.load_value_into_reg(1, a as u8);
        vm.shr_reg(1);
        assert_eq!(vm.register(1) as u16, a >> 1);
        assert_eq!(vm.register(0xF) as u16, a & 1);
        assert!(vm.register(0xF) <= 1);

        vm.load_value_into_reg(1, a as u8);
        vm.shl_reg(1);
        assert_eq!(vm.register(1) as u16, (a << 1) & 0xFF);
        assert_eq!(vm.register(0xF) as u16, (a >> 7) & 1);
        assert!(vm.register(0xF) <= 1);
    }
}

#[test]
fn shift_flags_are_exact_bits_not_nibbles() {
    // 0x81 = 0b1000_0001: both shifts shift a 1 out.
    let mut vm = Chip8::new();
    vm.load_value_into_reg(1, 0x81);
    vm.shr_reg(1);
    assert_eq!(vm.register(1), 0x40);
    assert_eq!(vm.register(0xF), 1);

    let mut vm = Chip8::new();
    vm.load_value_into_reg(1, 0x81);
    vm.shl_reg(1);
    assert_eq!(vm.register(1), 0x02);
    assert_eq!(vm.register(0xF), 1);

    // 0x0F has a zero high bit: the left shift's flag is the single bit
    // 0, not the raw low nibble.
    let mut vm = Chip8::new();
    vm.load_value_into_reg(1, 0x0F);
    vm.shl_reg(1);
    assert_eq!(vm.register(1), 0x1E);
    assert_eq!(vm.register(0xF), 0);
}

#[test]
fn bitwise_operations() {
    let mut vm = Chip8::new();
    vm.load_value_into_reg(1, 0b1100_1010);
    vm.load_value_into_reg(2, 0b1010_0110);
    vm.or_reg(1, 2);
    assert_eq!(vm.register(1), 0b1110_1110);

    vm.load_value_into_reg(1, 0b1100_1010);
    vm.and_reg(1, 2);
    assert_eq!(vm.register(1), 0b1000_0010);

    vm.load_value_into_reg(1, 0b1100_1010);
    vm.xor_reg(1, 2);
    assert_eq!(vm.register(1), 0b0110_1100);

    vm.load_reg_into_reg(3, 2);
    assert_eq!(vm.register(3), 0b1010_0110);
}

#[test]
fn bcd_digits_recombine_for_all_bytes() {
    let mut vm = Chip8::new();
    vm.load_value_into_i(0x300);
    for n in 0..=255u16 {
        vm.load_value_into_reg(7, n as u8);
        vm.load_bcd_of_reg_into_i(7).unwrap();
        // Read the three digits back through the bulk load.
        vm.read_memory_into_registers(2).unwrap();
        let d0 = vm.register(0) as u16;
        let d1 = vm.register(1) as u16;
        let d2 = vm.register(2) as u16;
        assert_eq!(d0, n / 100);
        assert_eq!(d1, n / 10 % 10);
        assert_eq!(d2, n % 10);
        assert_eq!(100 * d0 + 10 * d1 + d2, n);
    }
}

#[test]
fn bcd_of_a_known_value() {
    // LD V0, 254; LD I, 0x300; LD B, V0
    let mut vm = Chip8::new();
    vm.load_program(&[0x60, 0xFE, 0xA3, 0x00, 0xF0, 0x33]).unwrap();
    for _ in 0..3 {
        vm.execute_next_instruction().unwrap();
    }
    vm.read_memory_into_registers(2).unwrap();
    assert_eq!(vm.register(0), 2);
    assert_eq!(vm.register(1), 5);
    assert_eq!(vm.register(2), 4);
}
