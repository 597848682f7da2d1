//! Tests of the fault taxonomy: every error variant has an input that
//! raises it, and a fault leaves the machine unchanged.

use chip8::fault::Fault;
use chip8::instr::{decode, Instr};
use chip8::vm::Chip8;

#[test]
fn unrecognized_opcode_is_a_decode_fault() {
    // 0x5FFF has a non-zero low nibble, so it is no SE Vx, Vy.
    let mut vm = Chip8::new();
    vm.load_program(&[0x5F, 0xFF]).unwrap();
    let r = vm.execute_next_instruction();
    assert_eq!(r, Err(Fault::Decode { opcode: 0x5FFF, pc: 0x200 }));
    assert_eq!(vm.program_counter(), 0x200);
}

#[test]
fn decode_rejects_each_overloaded_group_leftover() {
    assert_eq!(decode(0x5FFF, 0x200), Err(Fault::Decode { opcode: 0x5FFF, pc: 0x200 }));
    assert_eq!(decode(0x8008, 0x200), Err(Fault::Decode { opcode: 0x8008, pc: 0x200 }));
    assert_eq!(decode(0x9001, 0x200), Err(Fault::Decode { opcode: 0x9001, pc: 0x200 }));
    assert_eq!(decode(0xE0FF, 0x200), Err(Fault::Decode { opcode: 0xE0FF, pc: 0x200 }));
    assert_eq!(decode(0xF0FF, 0x202), Err(Fault::Decode { opcode: 0xF0FF, pc: 0x202 }));
}

#[test]
fn decode_recognizes_known_instructions() {
    assert_eq!(decode(0x00E0, 0), Ok(Instr::Cls));
    assert_eq!(decode(0x00EE, 0), Ok(Instr::Ret));
    assert_eq!(decode(0x0123, 0), Ok(Instr::Sys));
    assert_eq!(decode(0x1ABC, 0), Ok(Instr::Jp { nnn: 0xABC }));
    assert_eq!(decode(0x2ABC, 0), Ok(Instr::Call { nnn: 0xABC }));
    assert_eq!(decode(0x5120, 0), Ok(Instr::SeReg { x: 1, y: 2 }));
    assert_eq!(decode(0x8124, 0), Ok(Instr::AddReg { x: 1, y: 2 }));
    assert_eq!(decode(0x812E, 0), Ok(Instr::Shl { x: 1 }));
    assert_eq!(decode(0xD235, 0), Ok(Instr::Drw { x: 2, y: 3, n: 5 }));
    assert_eq!(decode(0xFA65, 0), Ok(Instr::LoadRegs { x: 0xA }));
}

#[test]
fn return_with_empty_stack_underflows() {
    let mut vm = Chip8::new();
    vm.load_program(&[0x00, 0xEE]).unwrap();
    let r = vm.execute_next_instruction();
    assert_eq!(r, Err(Fault::StackUnderflow { pc: 0x200 }));
    assert_eq!(vm.program_counter(), 0x200);
}

#[test]
fn seventeen_nested_calls_overflow_the_stack() {
    // At 0x200 + 2k: CALL 0x200 + 2(k + 1), a chain of calls.
    let mut program = Vec::new();
    for k in 1..=17u16 {
        let target = 0x200 + 2 * k;
        program.push(0x20 | (target >> 8) as u8);
        program.push((target & 0xFF) as u8);
    }
    let mut vm = Chip8::new();
    vm.load_program(&program).unwrap();
    for _ in 0..16 {
        vm.execute_next_instruction().unwrap();
    }
    assert_eq!(vm.stack_depth(), 16);
    let r = vm.execute_next_instruction();
    assert_eq!(r, Err(Fault::StackOverflow { pc: 0x220 }));
    assert_eq!(vm.stack_depth(), 16);
}

#[test]
fn bcd_past_end_of_memory_is_a_memory_fault() {
    // LD I, 0xFFF; LD B, V0: the tens and units digits would land past
    // the end of memory.
    let mut vm = Chip8::new();
    vm.load_program(&[0xAF, 0xFF, 0xF0, 0x33]).unwrap();
    vm.execute_next_instruction().unwrap();
    let r = vm.execute_next_instruction();
    assert_eq!(r, Err(Fault::Memory { pc: 0x202 }));
}

#[test]
fn sprite_read_past_end_of_memory_is_a_memory_fault() {
    // LD I, 0xFFF; DRW V0, V1, 2: the second sprite row sits past the
    // end of memory.
    let mut vm = Chip8::new();
    vm.load_program(&[0xAF, 0xFF, 0xD0, 0x12]).unwrap();
    vm.execute_next_instruction().unwrap();
    let r = vm.execute_next_instruction();
    assert_eq!(r, Err(Fault::Memory { pc: 0x202 }));
    assert!(vm.display().iter().all(|row| row.iter().all(|&px| px == 0)));
}

#[test]
fn fetch_past_end_of_memory_is_a_memory_fault() {
    // JP 0xFFF parks the counter where no two-byte fetch fits.
    let mut vm = Chip8::new();
    vm.load_program(&[0x1F, 0xFF]).unwrap();
    vm.execute_next_instruction().unwrap();
    let r = vm.execute_next_instruction();
    assert_eq!(r, Err(Fault::Memory { pc: 0xFFF }));
}

#[test]
fn bulk_store_past_end_of_memory_is_a_memory_fault() {
    // LD I, 0xFF0; LD [I], VF: the last address 0xFFF fits, so this
    // succeeds; from 0xFF1 it faults.
    let mut vm = Chip8::new();
    vm.load_value_into_i(0xFF0);
    assert!(vm.copy_registers_into_memory(15).is_ok());
    vm.load_value_into_i(0xFF1);
    let r = vm.copy_registers_into_memory(15);
    assert_eq!(r, Err(Fault::Memory { pc: 0x200 }));
}

#[test]
fn oversized_program_is_rejected_before_loading() {
    let mut vm = Chip8::new();
    let r = vm.load_program(&vec![0u8; 3585]);
    assert_eq!(r, Err(Fault::LoadTooLarge { len: 3585 }));
    // The largest image that fits loads cleanly.
    assert!(vm.load_program(&vec![0u8; 3584]).is_ok());
}
