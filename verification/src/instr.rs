//! Instruction decoding: from a 16-bit opcode to a closed enum of
//! instruction kinds.
//!
//! An opcode is fetched big-endian from two consecutive memory bytes and
//! dispatched on its top nibble; the overloaded groups (top nibble 0x0,
//! 0x8, 0xE, 0xF) are resolved on the bottom nibble or bottom byte.  A
//! value that matches no known instruction is a decode fault, never a
//! silent no-op — except the legacy system-call group `0x0nnn` (other
//! than `00E0`/`00EE`), which the architecture defines as a no-op.

use vstd::prelude::*;

use crate::fault::Fault;

verus! {

/// One decoded CHIP-8 instruction.
///
/// Field names follow the conventional assembler syntax: `x` and `y` are
/// register indices (always below 16, being single nibbles), `kk` an
/// 8-bit immediate, `nnn` a 12-bit address, `n` a single nibble.
#[derive(Clone, Copy, Debug, PartialEq, Eq, Structural)]
pub enum Instr {
    /// `0nnn` (other than `00E0`/`00EE`) - SYS: legacy system call, a no-op.
    Sys,
    /// `00E0` - CLS: clear the display.
    Cls,
    /// `00EE` - RET: pop the call stack into the program counter.
    Ret,
    /// `1nnn` - JP addr.
    Jp { nnn: u16 },
    /// `2nnn` - CALL addr.
    Call { nnn: u16 },
    /// `3xkk` - SE Vx, byte: skip the next instruction if Vx == kk.
    SeVal { x: u8, kk: u8 },
    /// `4xkk` - SNE Vx, byte: skip the next instruction if Vx != kk.
    SneVal { x: u8, kk: u8 },
    /// `5xy0` - SE Vx, Vy: skip the next instruction if Vx == Vy.
    SeReg { x: u8, y: u8 },
    /// `6xkk` - LD Vx, byte.
    LdVal { x: u8, kk: u8 },
    /// `7xkk` - ADD Vx, byte, with carry into VF.
    AddVal { x: u8, kk: u8 },
    /// `8xy0` - LD Vx, Vy.
    LdReg { x: u8, y: u8 },
    /// `8xy1` - OR Vx, Vy.
    Or { x: u8, y: u8 },
    /// `8xy2` - AND Vx, Vy.
    And { x: u8, y: u8 },
    /// `8xy3` - XOR Vx, Vy.
    Xor { x: u8, y: u8 },
    /// `8xy4` - ADD Vx, Vy, with carry into VF.
    AddReg { x: u8, y: u8 },
    /// `8xy5` - SUB Vx, Vy, with "no borrow" into VF.
    Sub { x: u8, y: u8 },
    /// `8xy6` - SHR Vx: shift right by one, shifted-out bit into VF.
    Shr { x: u8 },
    /// `8xy7` - SUBN Vx, Vy: Vx = Vy - Vx, with "no borrow" into VF.
    Subn { x: u8, y: u8 },
    /// `8xyE` - SHL Vx: shift left by one, shifted-out bit into VF.
    Shl { x: u8 },
    /// `9xy0` - SNE Vx, Vy: skip the next instruction if Vx != Vy.
    SneReg { x: u8, y: u8 },
    /// `Annn` - LD I, addr.
    LdI { nnn: u16 },
    /// `Bnnn` - JP V0, addr: jump to nnn + V0.
    JpV0 { nnn: u16 },
    /// `Cxkk` - RND Vx, byte: Vx = random byte AND kk.
    Rnd { x: u8, kk: u8 },
    /// `Dxyn` - DRW Vx, Vy, nibble: XOR-draw an n-row sprite, collision
    /// into VF.
    Drw { x: u8, y: u8, n: u8 },
    /// `Ex9E` - SKP Vx: skip the next instruction if key Vx is down.
    Skp { x: u8 },
    /// `ExA1` - SKNP Vx: skip the next instruction if key Vx is up.
    Sknp { x: u8 },
    /// `Fx07` - LD Vx, DT.
    LdDt { x: u8 },
    /// `Fx0A` - LD Vx, K: wait for a key press and store its value.
    WaitKey { x: u8 },
    /// `Fx15` - LD DT, Vx.
    SetDt { x: u8 },
    /// `Fx18` - LD ST, Vx.
    SetSt { x: u8 },
    /// `Fx1E` - ADD I, Vx.
    AddI { x: u8 },
    /// `Fx29` - LD F, Vx: point I at the font glyph for hex digit Vx.
    LdFont { x: u8 },
    /// `Fx33` - LD B, Vx: store the BCD expansion of Vx at I, I+1, I+2.
    Bcd { x: u8 },
    /// `Fx55` - LD [I], Vx: store V0..Vx to memory starting at I.
    StoreRegs { x: u8 },
    /// `Fx65` - LD Vx, [I]: load V0..Vx from memory starting at I.
    LoadRegs { x: u8 },
}

/// What `decode` returns, as a function of the opcode.  The `pc` argument
/// only supplies the fault context that a decode fault carries.
pub open spec fn decode_spec(opcode: u16, pc: u16) -> Result<Instr, Fault> {
    let x = ((opcode >> 8) & 0xf) as u8;
    let y = ((opcode >> 4) & 0xf) as u8;
    let n = (opcode & 0xf) as u8;
    let kk = (opcode & 0xff) as u8;
    let nnn = opcode & 0xfff;
    let top = opcode >> 12;
    if opcode == 0x00E0 {
        Ok(Instr::Cls)
    } else if opcode == 0x00EE {
        Ok(Instr::Ret)
    } else if top == 0x0 {
        Ok(Instr::Sys)
    } else if top == 0x1 {
        Ok(Instr::Jp { nnn })
    } else if top == 0x2 {
        Ok(Instr::Call { nnn })
    } else if top == 0x3 {
        Ok(Instr::SeVal { x, kk })
    } else if top == 0x4 {
        Ok(Instr::SneVal { x, kk })
    } else if top == 0x5 {
        if n == 0 {
            Ok(Instr::SeReg { x, y })
        } else {
            Err(Fault::Decode { opcode, pc })
        }
    } else if top == 0x6 {
        Ok(Instr::LdVal { x, kk })
    } else if top == 0x7 {
        Ok(Instr::AddVal { x, kk })
    } else if top == 0x8 {
        if n == 0x0 {
            Ok(Instr::LdReg { x, y })
        } else if n == 0x1 {
            Ok(Instr::Or { x, y })
        } else if n == 0x2 {
            Ok(Instr::And { x, y })
        } else if n == 0x3 {
            Ok(Instr::Xor { x, y })
        } else if n == 0x4 {
            Ok(Instr::AddReg { x, y })
        } else if n == 0x5 {
            Ok(Instr::Sub { x, y })
        } else if n == 0x6 {
            Ok(Instr::Shr { x })
        } else if n == 0x7 {
            Ok(Instr::Subn { x, y })
        } else if n == 0xE {
            Ok(Instr::Shl { x })
        } else {
            Err(Fault::Decode { opcode, pc })
        }
    } else if top == 0x9 {
        if n == 0 {
            Ok(Instr::SneReg { x, y })
        } else {
            Err(Fault::Decode { opcode, pc })
        }
    } else if top == 0xA {
        Ok(Instr::LdI { nnn })
    } else if top == 0xB {
        Ok(Instr::JpV0 { nnn })
    } else if top == 0xC {
        Ok(Instr::Rnd { x, kk })
    } else if top == 0xD {
        Ok(Instr::Drw { x, y, n })
    } else if top == 0xE {
        if kk == 0x9E {
            Ok(Instr::Skp { x })
        } else if kk == 0xA1 {
            Ok(Instr::Sknp { x })
        } else {
            Err(Fault::Decode { opcode, pc })
        }
    } else {
        if kk == 0x07 {
            Ok(Instr::LdDt { x })
        } else if kk == 0x0A {
            Ok(Instr::WaitKey { x })
        } else if kk == 0x15 {
            Ok(Instr::SetDt { x })
        } else if kk == 0x18 {
            Ok(Instr::SetSt { x })
        } else if kk == 0x1E {
            Ok(Instr::AddI { x })
        } else if kk == 0x29 {
            Ok(Instr::LdFont { x })
        } else if kk == 0x33 {
            Ok(Instr::Bcd { x })
        } else if kk == 0x55 {
            Ok(Instr::StoreRegs { x })
        } else if kk == 0x65 {
            Ok(Instr::LoadRegs { x })
        } else {
            Err(Fault::Decode { opcode, pc })
        }
    }
}

/// Whether an instruction's fields are in range: every register index
/// below 16 (each is a single nibble) and every address below 4096 (each
/// is 12 bits).  True of everything `decode` returns.
pub open spec fn instr_regs_in_range(ins: Instr) -> bool {
    match ins {
        Instr::Sys | Instr::Cls | Instr::Ret => true,
        Instr::Jp { nnn } | Instr::Call { nnn } | Instr::LdI { nnn } | Instr::JpV0 { nnn } => {
            nnn < 4096
        },
        Instr::SeVal { x, .. } | Instr::SneVal { x, .. } | Instr::LdVal { x, .. }
        | Instr::AddVal { x, .. } | Instr::Rnd { x, .. } => x < 16,
        Instr::SeReg { x, y } | Instr::LdReg { x, y } | Instr::Or { x, y }
        | Instr::And { x, y } | Instr::Xor { x, y } | Instr::AddReg { x, y }
        | Instr::Sub { x, y } | Instr::Subn { x, y } | Instr::SneReg { x, y } => {
            x < 16 && y < 16
        },
        Instr::Shr { x } | Instr::Shl { x } => x < 16,
        Instr::Drw { x, y, n } => x < 16 && y < 16 && n < 16,
        Instr::Skp { x } | Instr::Sknp { x } | Instr::LdDt { x } | Instr::WaitKey { x }
        | Instr::SetDt { x } | Instr::SetSt { x } | Instr::AddI { x } | Instr::LdFont { x }
        | Instr::Bcd { x } | Instr::StoreRegs { x } | Instr::LoadRegs { x } => x < 16,
    }
}

/// Decode one opcode, or report the decode fault, with `pc` carried along
/// as context for the fault.
pub fn decode(opcode: u16, pc: u16) -> (r: Result<Instr, Fault>)
    ensures
        r == decode_spec(opcode, pc),
        r matches Ok(ins) ==> instr_regs_in_range(ins),
{
    let x = ((opcode >> 8) & 0xf) as u8;
    let y = ((opcode >> 4) & 0xf) as u8;
    let n = (opcode & 0xf) as u8;
    let kk = (opcode & 0xff) as u8;
    let nnn = opcode & 0xfff;
    let top = opcode >> 12;
    proof {
        assert(((opcode >> 8) & 0xf) < 16 && ((opcode >> 4) & 0xf) < 16 && (opcode & 0xf) < 16
            && (opcode & 0xfff) < 4096) by (bit_vector);
    }
    if opcode == 0x00E0 {
        Ok(Instr::Cls)
    } else if opcode == 0x00EE {
        Ok(Instr::Ret)
    } else if top == 0x0 {
        Ok(Instr::Sys)
    } else if top == 0x1 {
        Ok(Instr::Jp { nnn })
    } else if top == 0x2 {
        Ok(Instr::Call { nnn })
    } else if top == 0x3 {
        Ok(Instr::SeVal { x, kk })
    } else if top == 0x4 {
        Ok(Instr::SneVal { x, kk })
    } else if top == 0x5 {
        if n == 0 {
            Ok(Instr::SeReg { x, y })
        } else {
            Err(Fault::Decode { opcode, pc })
        }
    } else if top == 0x6 {
        Ok(Instr::LdVal { x, kk })
    } else if top == 0x7 {
        Ok(Instr::AddVal { x, kk })
    } else if top == 0x8 {
        if n == 0x0 {
            Ok(Instr::LdReg { x, y })
        } else if n == 0x1 {
            Ok(Instr::Or { x, y })
        } else if n == 0x2 {
            Ok(Instr::And { x, y })
        } else if n == 0x3 {
            Ok(Instr::Xor { x, y })
        } else if n == 0x4 {
            Ok(Instr::AddReg { x, y })
        } else if n == 0x5 {
            Ok(Instr::Sub { x, y })
        } else if n == 0x6 {
            Ok(Instr::Shr { x })
        } else if n == 0x7 {
            Ok(Instr::Subn { x, y })
        } else if n == 0xE {
            Ok(Instr::Shl { x })
        } else {
            Err(Fault::Decode { opcode, pc })
        }
    } else if top == 0x9 {
        if n == 0 {
            Ok(Instr::SneReg { x, y })
        } else {
            Err(Fault::Decode { opcode, pc })
        }
    } else if top == 0xA {
        Ok(Instr::LdI { nnn })
    } else if top == 0xB {
        Ok(Instr::JpV0 { nnn })
    } else if top == 0xC {
        Ok(Instr::Rnd { x, kk })
    } else if top == 0xD {
        Ok(Instr::Drw { x, y, n })
    } else if top == 0xE {
        if kk == 0x9E {
            Ok(Instr::Skp { x })
        } else if kk == 0xA1 {
            Ok(Instr::Sknp { x })
        } else {
            Err(Fault::Decode { opcode, pc })
        }
    } else {
        if kk == 0x07 {
            Ok(Instr::LdDt { x })
        } else if kk == 0x0A {
            Ok(Instr::WaitKey { x })
        } else if kk == 0x15 {
            Ok(Instr::SetDt { x })
        } else if kk == 0x18 {
            Ok(Instr::SetSt { x })
        } else if kk == 0x1E {
            Ok(Instr::AddI { x })
        } else if kk == 0x29 {
            Ok(Instr::LdFont { x })
        } else if kk == 0x33 {
            Ok(Instr::Bcd { x })
        } else if kk == 0x55 {
            Ok(Instr::StoreRegs { x })
        } else if kk == 0x65 {
            Ok(Instr::LoadRegs { x })
        } else {
            Err(Fault::Decode { opcode, pc })
        }
    }
}

} // verus!
