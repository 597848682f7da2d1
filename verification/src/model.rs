//! The mathematical model of the machine.
//!
//! `VmView` is the abstract state of the interpreter: plain sequences and
//! integers, one field per architectural resource.  Every public method
//! of the executable machine is specified against this model, and
//! `step_spec` is the transition function that executing one instruction
//! is proved to implement.

use vstd::prelude::*;

use crate::fault::Fault;
use crate::instr::{decode_spec, Instr};

verus! {

/// Whether the machine is running normally or parked on a wait-for-key
/// instruction.  The wait is cooperative: while a `WaitKey` instruction
/// has found no key down, the machine sits in `AwaitingKey` and each
/// further step only scans the key state, until some key is pressed and
/// its value lands in the target register.
#[derive(Clone, Copy, Debug, PartialEq, Eq, Structural)]
pub enum Mode {
    /// Fetch, decode and execute on every step.
    Running,
    /// Parked on a wait-for-key instruction; `target` is the register
    /// (always below 16) that receives the key value.
    AwaitingKey { target: u8 },
}

/// The abstract machine state.
///
/// The display is addressed `disp[row][col]`, row 0..32, col 0..64, each
/// cell 0 or 1.  `keys[k]` says whether hex key `k` is currently held
/// down.  `display_changed` is a conservative dirty flag for the host: it
/// is raised whenever a clear or draw instruction executes, and the host
/// resets it after reading the display.
#[verifier::ext_equal]
pub struct VmView {
    pub mem: Seq<u8>,
    pub regs: Seq<u8>,
    pub stack: Seq<u16>,
    pub i: u16,
    pub dt: u8,
    pub st: u8,
    pub pc: u16,
    pub disp: Seq<Seq<u8>>,
    pub keys: Seq<bool>,
    pub mode: Mode,
    pub display_changed: bool,
}

impl VmView {
    /// Well-formedness: the sizes the architecture fixes, cells of the
    /// display confined to 0/1, the stack within its 16-frame bound, and
    /// a waiting mode only ever parked on a real register.
    pub open spec fn wf(self) -> bool {
        &&& self.mem.len() == 4096
        &&& self.regs.len() == 16
        &&& self.stack.len() <= 16
        &&& self.disp.len() == 32
        &&& forall|r: int| 0 <= r < 32 ==> (#[trigger] self.disp[r]).len() == 64
        &&& forall|r: int, c: int|
            0 <= r < 32 && 0 <= c < 64 ==> #[trigger] self.disp[r][c] <= 1
        &&& self.keys.len() == 16
        &&& match self.mode {
            Mode::Running => true,
            Mode::AwaitingKey { target } => target < 16,
        }
    }
}

/// The program counter two back, modulo the 16-bit register width.
///
/// The step function advances the program counter by two after every
/// instruction, so an instruction that redirects control flow to `target`
/// compensates by parking the counter at `target - 2`; the uniform
/// advance then lands exactly on `target`.
pub open spec fn pc_back2(target: u16) -> u16 {
    (((target as int) + 0xFFFE) % 0x10000) as u16
}

/// The program counter two ahead, modulo the 16-bit register width.
pub open spec fn pc_fwd2(pc: u16) -> u16 {
    (((pc as int) + 2) % 0x10000) as u16
}

/// The big-endian combination of the two memory bytes at `pc`.
pub open spec fn fetch_opcode(mem: Seq<u8>, pc: int) -> u16 {
    ((mem[pc] as u16) << 8) | (mem[pc + 1] as u16)
}

/// The smallest index of a pressed key at or above `k`, or 16 when no
/// key at or above `k` is down.
pub open spec fn first_pressed_from(keys: Seq<bool>, k: int) -> int
    decreases 16 - k,
{
    if k < 0 || k >= 16 {
        16
    } else if keys[k] {
        k
    } else {
        first_pressed_from(keys, k + 1)
    }
}

/// The smallest index of a pressed key, or 16 when none is down.
pub open spec fn first_pressed(keys: Seq<bool>) -> int {
    first_pressed_from(keys, 0)
}

/// A key `k` that is down, with every key below it (from `j` on) up, is
/// exactly what the scan from `j` finds.
pub proof fn lemma_first_pressed_found(keys: Seq<bool>, j: int, k: int)
    requires
        0 <= j <= k < 16,
        keys[k],
        forall|t: int| j <= t < k ==> !keys[t],
    ensures
        first_pressed_from(keys, j) == k,
    decreases k - j,
{
    if j < k {
        lemma_first_pressed_found(keys, j + 1, k);
    }
}

/// When no key from `j` on is down, the scan from `j` comes up empty.
pub proof fn lemma_first_pressed_none(keys: Seq<bool>, j: int)
    requires
        0 <= j <= 16,
        forall|t: int| j <= t < 16 ==> !keys[t],
    ensures
        first_pressed_from(keys, j) == 16,
    decreases 16 - j,
{
    if j < 16 {
        lemma_first_pressed_none(keys, j + 1);
    }
}

/// An all-dark display.
pub open spec fn blank_display() -> Seq<Seq<u8>> {
    Seq::new(32, |r: int| Seq::new(64, |c: int| 0u8))
}

/// `(a + b) mod 256`.
pub open spec fn wrap_add8(a: u8, b: u8) -> u8 {
    (((a as int) + (b as int)) % 256) as u8
}

/// 1 when the unclamped sum of `a` and `b` exceeds 255, else 0.
pub open spec fn carry8(a: u8, b: u8) -> u8 {
    if a as int + b as int > 255 {
        1u8
    } else {
        0u8
    }
}

/// `(a - b) mod 256`.
pub open spec fn wrap_sub8(a: u8, b: u8) -> u8 {
    (((a as int) - (b as int)) % 256) as u8
}

/// 1 when subtracting `b` from `a` borrows nothing (`a >= b`), else 0.
pub open spec fn no_borrow8(a: u8, b: u8) -> u8 {
    if a >= b {
        1u8
    } else {
        0u8
    }
}

/// A register file after an operation that yields both a result for
/// register `x` and a flag for register 15.  The result is written
/// first and the flag last, so when `x` is 15 itself the flag wins:
/// carry, borrow, shift-out and collision always leave VF holding the
/// flag bit, never a leaked result.
pub open spec fn regs_flag_result(regs: Seq<u8>, x: int, result: u8, flag: u8) -> Seq<u8> {
    regs.update(x, result).update(15, flag)
}

// ---------------------------------------------------------------------
// The effect of each instruction, one spec function per handler.
// ---------------------------------------------------------------------

/// `00E0` - CLS.
pub open spec fn cls_spec(v: VmView) -> VmView {
    VmView { disp: blank_display(), display_changed: true, ..v }
}

/// `00EE` - RET: pop the stack into the program counter.  The CALL
/// pushed the counter while it still pointed at the CALL itself, so
/// after the step's uniform advance the machine resumes at the
/// instruction following that CALL.
pub open spec fn ret_spec(v: VmView) -> Result<VmView, Fault> {
    if v.stack.len() == 0 {
        Err(Fault::StackUnderflow { pc: v.pc })
    } else {
        Ok(VmView { pc: v.stack.last(), stack: v.stack.drop_last(), ..v })
    }
}

/// `1nnn` - JP addr.
pub open spec fn jp_spec(v: VmView, nnn: u16) -> VmView {
    VmView { pc: pc_back2(nnn), ..v }
}

/// `2nnn` - CALL addr: push the current program counter, jump.
pub open spec fn call_spec(v: VmView, nnn: u16) -> Result<VmView, Fault> {
    if v.stack.len() >= 16 {
        Err(Fault::StackOverflow { pc: v.pc })
    } else {
        Ok(VmView { stack: v.stack.push(v.pc), pc: pc_back2(nnn), ..v })
    }
}

/// A program counter conditionally advanced over the next instruction.
pub open spec fn skip_if(v: VmView, cond: bool) -> VmView {
    VmView { pc: if cond { pc_fwd2(v.pc) } else { v.pc }, ..v }
}

/// `6xkk` - LD Vx, byte.
pub open spec fn ld_val_spec(v: VmView, x: int, kk: u8) -> VmView {
    VmView { regs: v.regs.update(x, kk), ..v }
}

/// `7xkk` / `8xy4` - ADD with carry: Vx = (Vx + kk) mod 256, VF = 1 iff
/// the unclamped sum exceeds 255.
pub open spec fn add_val_spec(v: VmView, x: int, kk: u8) -> VmView {
    let a = v.regs[x];
    VmView { regs: regs_flag_result(v.regs, x, wrap_add8(a, kk), carry8(a, kk)), ..v }
}

/// `8xy0` - LD Vx, Vy.
pub open spec fn ld_reg_spec(v: VmView, x: int, y: int) -> VmView {
    VmView { regs: v.regs.update(x, v.regs[y]), ..v }
}

/// `8xy1` - OR Vx, Vy.
pub open spec fn or_spec(v: VmView, x: int, y: int) -> VmView {
    VmView { regs: v.regs.update(x, v.regs[x] | v.regs[y]), ..v }
}

/// `8xy2` - AND Vx, Vy.
pub open spec fn and_spec(v: VmView, x: int, y: int) -> VmView {
    VmView { regs: v.regs.update(x, v.regs[x] & v.regs[y]), ..v }
}

/// `8xy3` - XOR Vx, Vy.
pub open spec fn xor_spec(v: VmView, x: int, y: int) -> VmView {
    VmView { regs: v.regs.update(x, v.regs[x] ^ v.regs[y]), ..v }
}

/// `8xy5` - SUB: Vx = (Vx - Vy) mod 256, VF = 1 iff no borrow
/// (`Vx >= Vy`).
pub open spec fn sub_spec(v: VmView, x: int, y: int) -> VmView {
    let a = v.regs[x];
    let b = v.regs[y];
    VmView { regs: regs_flag_result(v.regs, x, wrap_sub8(a, b), no_borrow8(a, b)), ..v }
}

/// `8xy7` - SUBN, the reverse subtraction: Vx = (Vy - Vx) mod 256,
/// VF = 1 iff no borrow (`Vy >= Vx`).
pub open spec fn subn_spec(v: VmView, x: int, y: int) -> VmView {
    let a = v.regs[x];
    let b = v.regs[y];
    VmView { regs: regs_flag_result(v.regs, x, wrap_sub8(b, a), no_borrow8(b, a)), ..v }
}

/// `8xy6` - SHR: VF = the low bit of Vx before the shift, then
/// Vx = Vx >> 1.
pub open spec fn shr_spec(v: VmView, x: int) -> VmView {
    let a = v.regs[x];
    VmView { regs: regs_flag_result(v.regs, x, a >> 1, a & 1), ..v }
}

/// `8xyE` - SHL: VF = the high bit of Vx before the shift (a single
/// 0/1 bit), then Vx = (Vx << 1) mod 256.
pub open spec fn shl_spec(v: VmView, x: int) -> VmView {
    let a = v.regs[x];
    VmView { regs: regs_flag_result(v.regs, x, a << 1, (a >> 7) & 1), ..v }
}

/// `Annn` - LD I, addr.
pub open spec fn ld_i_spec(v: VmView, nnn: u16) -> VmView {
    VmView { i: nnn, ..v }
}

/// `Bnnn` - JP V0, addr: jump to `nnn + V0`.
pub open spec fn jp_v0_spec(v: VmView, nnn: u16) -> VmView {
    VmView { pc: pc_back2((nnn + v.regs[0]) as u16), ..v }
}

/// `Cxkk` - RND: Vx = `b AND kk`, where `b` is the byte the random
/// source yielded for this step.
pub open spec fn rnd_spec(v: VmView, x: int, kk: u8, b: u8) -> VmView {
    VmView { regs: v.regs.update(x, b & kk), ..v }
}

/// `Fx07` - LD Vx, DT.
pub open spec fn ld_dt_spec(v: VmView, x: int) -> VmView {
    VmView { regs: v.regs.update(x, v.dt), ..v }
}

/// `Fx15` - LD DT, Vx.
pub open spec fn set_dt_spec(v: VmView, x: int) -> VmView {
    VmView { dt: v.regs[x], ..v }
}

/// `Fx18` - LD ST, Vx.
pub open spec fn set_st_spec(v: VmView, x: int) -> VmView {
    VmView { st: v.regs[x], ..v }
}

/// `Fx1E` - ADD I, Vx, modulo the 16-bit width of I.
pub open spec fn add_i_spec(v: VmView, x: int) -> VmView {
    VmView { i: (((v.i as int) + (v.regs[x] as int)) % 0x10000) as u16, ..v }
}

/// `Fx29` - LD F, Vx: point I at the 5-byte font glyph for the hex
/// digit in Vx.  Only the low nibble of Vx names a digit; the rest is
/// masked off explicitly rather than indexed out of bounds.
pub open spec fn ld_font_spec(v: VmView, x: int) -> VmView {
    VmView { i: (5 * ((v.regs[x] as int) % 16)) as u16, ..v }
}

/// The key a register-supplied hex value names: its low nibble, the
/// same explicit masking convention as the font lookup.
pub open spec fn key_of_reg(v: VmView, x: int) -> int {
    (v.regs[x] as int) % 16
}

/// `Fx0A` - LD Vx, K: if some key is down, its lowest index lands in
/// Vx at once; otherwise the machine parks in `AwaitingKey`, with the
/// program counter left on the waiting instruction.
pub open spec fn wait_key_spec(v: VmView, x: int) -> VmView {
    let k = first_pressed(v.keys);
    if k < 16 {
        VmView { regs: v.regs.update(x, k as u8), ..v }
    } else {
        VmView { mode: Mode::AwaitingKey { target: x as u8 }, pc: pc_back2(v.pc), ..v }
    }
}

/// One step while parked in `AwaitingKey`: scan the keys; on the first
/// press, store its index, resume running and move past the waiting
/// instruction; otherwise change nothing.
pub open spec fn awaiting_key_spec(v: VmView, target: u8) -> VmView {
    let k = first_pressed(v.keys);
    if k < 16 {
        VmView {
            regs: v.regs.update(target as int, k as u8),
            mode: Mode::Running,
            pc: pc_fwd2(v.pc),
            ..v
        }
    } else {
        v
    }
}

/// `Fx33` - BCD: store the hundreds, tens and units digits of Vx at
/// I, I+1 and I+2.
pub open spec fn bcd_spec(v: VmView, x: int) -> Result<VmView, Fault> {
    if v.i as int + 2 >= 4096 {
        Err(Fault::Memory { pc: v.pc })
    } else {
        let n = v.regs[x] as int;
        Ok(
            VmView {
                mem: v.mem.update(v.i as int, (n / 100) as u8).update(
                    v.i as int + 1,
                    ((n / 10) % 10) as u8,
                ).update(v.i as int + 2, (n % 10) as u8),
                ..v
            },
        )
    }
}

/// A memory image with registers 0..=x stored at addresses i..=i+x and
/// everything else untouched.
pub open spec fn store_regs_mem(mem: Seq<u8>, regs: Seq<u8>, i: int, x: int) -> Seq<u8> {
    Seq::new(mem.len(), |a: int| if i <= a <= i + x { regs[a - i] } else { mem[a] })
}

/// A register file with registers 0..=x replaced by the memory bytes at
/// i..=i+x and the higher registers untouched.
pub open spec fn load_regs_file(regs: Seq<u8>, mem: Seq<u8>, i: int, x: int) -> Seq<u8> {
    Seq::new(16, |k: int| if k <= x { mem[i + k] } else { regs[k] })
}

/// `Fx55` - LD [I], Vx: bulk-store V0..Vx to memory at I.  I itself is
/// left unchanged, the canonical architecture's behaviour (the
/// historical quirk of advancing I is not honoured here).
pub open spec fn store_regs_spec(v: VmView, x: int) -> Result<VmView, Fault> {
    if v.i as int + x >= 4096 {
        Err(Fault::Memory { pc: v.pc })
    } else {
        Ok(VmView { mem: store_regs_mem(v.mem, v.regs, v.i as int, x), ..v })
    }
}

/// `Fx65` - LD Vx, [I]: bulk-load V0..Vx from memory at I; I itself is
/// left unchanged, as for the bulk store.
pub open spec fn load_regs_spec(v: VmView, x: int) -> Result<VmView, Fault> {
    if v.i as int + x >= 4096 {
        Err(Fault::Memory { pc: v.pc })
    } else {
        Ok(VmView { regs: load_regs_file(v.regs, v.mem, v.i as int, x), ..v })
    }
}

// ---------------------------------------------------------------------
// Sprite drawing.
// ---------------------------------------------------------------------

/// Whether the sprite of `n` rows read from memory at `i`, drawn with
/// its top-left corner at `(x, y)`, covers the display cell `(r, c)`
/// with a set bit.  Each sprite byte is 8 horizontal pixels, most
/// significant bit first; rows and columns that fall off the display
/// are clipped, not wrapped.
pub open spec fn sprite_bit(
    mem: Seq<u8>,
    i: int,
    x: int,
    y: int,
    n: int,
    r: int,
    c: int,
) -> bool {
    &&& y <= r < y + n
    &&& r < 32
    &&& x <= c < x + 8
    &&& c < 64
    &&& (mem[i + (r - y)] >> ((7 - (c - x)) as u8)) & 1 == 1
}

/// Whether the draw collides: some cell that is lit would be toggled
/// dark by a set sprite bit.
pub open spec fn draw_collision(
    disp: Seq<Seq<u8>>,
    mem: Seq<u8>,
    i: int,
    x: int,
    y: int,
    n: int,
) -> bool {
    exists|r: int, c: int|
        0 <= r < 32 && 0 <= c < 64 && #[trigger] sprite_bit(mem, i, x, y, n, r, c) && disp[r][c]
            == 1
}

/// The display after the draw: every covered cell is toggled (XOR with
/// the sprite bit), every other cell untouched.
pub open spec fn draw_disp(
    disp: Seq<Seq<u8>>,
    mem: Seq<u8>,
    i: int,
    x: int,
    y: int,
    n: int,
) -> Seq<Seq<u8>> {
    Seq::new(
        32,
        |r: int|
            Seq::new(
                64,
                |c: int|
                    if sprite_bit(mem, i, x, y, n, r, c) {
                        if disp[r][c] == 1 {
                            0u8
                        } else {
                            1u8
                        }
                    } else {
                        disp[r][c]
                    },
            ),
    )
}

/// How many sprite rows are actually read from memory: rows past the
/// bottom edge of the display are clipped and never touched.
pub open spec fn sprite_rows_read(y: int, n: int) -> int {
    if y + n <= 32 {
        n
    } else {
        32 - y
    }
}

/// `Dxyn` - DRW Vx, Vy, nibble: draw the sprite at I at screen position
/// `(Vx mod 64, Vy mod 32)`, XOR-wise with clipping; VF reports whether
/// any lit cell was toggled dark, across the whole draw.
pub open spec fn drw_spec(v: VmView, xr: int, yr: int, n: int) -> Result<VmView, Fault> {
    let x = (v.regs[xr] as int) % 64;
    let y = (v.regs[yr] as int) % 32;
    let rows = sprite_rows_read(y, n);
    if rows > 0 && v.i as int + rows > 4096 {
        Err(Fault::Memory { pc: v.pc })
    } else {
        Ok(
            VmView {
                disp: draw_disp(v.disp, v.mem, v.i as int, x, y, n),
                regs: v.regs.update(
                    15,
                    if draw_collision(v.disp, v.mem, v.i as int, x, y, n) {
                        1u8
                    } else {
                        0u8
                    },
                ),
                display_changed: true,
                ..v
            },
        )
    }
}

// ---------------------------------------------------------------------
// The step function.
// ---------------------------------------------------------------------

/// The effect of one decoded instruction, before the uniform advance of
/// the program counter.  `rnd` is the byte the random source yielded for
/// this step; every instruction but RND ignores it.
pub open spec fn exec_spec(v: VmView, ins: Instr, rnd: u8) -> Result<VmView, Fault> {
    match ins {
        Instr::Sys => Ok(v),
        Instr::Cls => Ok(cls_spec(v)),
        Instr::Ret => ret_spec(v),
        Instr::Jp { nnn } => Ok(jp_spec(v, nnn)),
        Instr::Call { nnn } => call_spec(v, nnn),
        Instr::SeVal { x, kk } => Ok(skip_if(v, v.regs[x as int] == kk)),
        Instr::SneVal { x, kk } => Ok(skip_if(v, v.regs[x as int] != kk)),
        Instr::SeReg { x, y } => Ok(skip_if(v, v.regs[x as int] == v.regs[y as int])),
        Instr::LdVal { x, kk } => Ok(ld_val_spec(v, x as int, kk)),
        Instr::AddVal { x, kk } => Ok(add_val_spec(v, x as int, kk)),
        Instr::LdReg { x, y } => Ok(ld_reg_spec(v, x as int, y as int)),
        Instr::Or { x, y } => Ok(or_spec(v, x as int, y as int)),
        Instr::And { x, y } => Ok(and_spec(v, x as int, y as int)),
        Instr::Xor { x, y } => Ok(xor_spec(v, x as int, y as int)),
        Instr::AddReg { x, y } => Ok(add_val_spec(v, x as int, v.regs[y as int])),
        Instr::Sub { x, y } => Ok(sub_spec(v, x as int, y as int)),
        Instr::Shr { x } => Ok(shr_spec(v, x as int)),
        Instr::Subn { x, y } => Ok(subn_spec(v, x as int, y as int)),
        Instr::Shl { x } => Ok(shl_spec(v, x as int)),
        Instr::SneReg { x, y } => Ok(skip_if(v, v.regs[x as int] != v.regs[y as int])),
        Instr::LdI { nnn } => Ok(ld_i_spec(v, nnn)),
        Instr::JpV0 { nnn } => Ok(jp_v0_spec(v, nnn)),
        Instr::Rnd { x, kk } => Ok(rnd_spec(v, x as int, kk, rnd)),
        Instr::Drw { x, y, n } => drw_spec(v, x as int, y as int, n as int),
        Instr::Skp { x } => Ok(skip_if(v, v.keys[key_of_reg(v, x as int)])),
        Instr::Sknp { x } => Ok(skip_if(v, !v.keys[key_of_reg(v, x as int)])),
        Instr::LdDt { x } => Ok(ld_dt_spec(v, x as int)),
        Instr::WaitKey { x } => Ok(wait_key_spec(v, x as int)),
        Instr::SetDt { x } => Ok(set_dt_spec(v, x as int)),
        Instr::SetSt { x } => Ok(set_st_spec(v, x as int)),
        Instr::AddI { x } => Ok(add_i_spec(v, x as int)),
        Instr::LdFont { x } => Ok(ld_font_spec(v, x as int)),
        Instr::Bcd { x } => bcd_spec(v, x as int),
        Instr::StoreRegs { x } => store_regs_spec(v, x as int),
        Instr::LoadRegs { x } => load_regs_spec(v, x as int),
    }
}

/// One step of the machine: while parked on a wait-for-key, only scan
/// the keys; otherwise fetch the opcode at the program counter (a fetch
/// off the end of memory is a fault), decode it, execute it, and advance
/// the counter by two.  `rnd` is the byte the random source yielded for
/// this step.
pub open spec fn step_spec(v: VmView, rnd: u8) -> Result<VmView, Fault> {
    match v.mode {
        Mode::AwaitingKey { target } => Ok(awaiting_key_spec(v, target)),
        Mode::Running => {
            if v.pc as int + 1 >= 4096 {
                Err(Fault::Memory { pc: v.pc })
            } else {
                let opcode = fetch_opcode(v.mem, v.pc as int);
                match decode_spec(opcode, v.pc) {
                    Err(f) => Err(f),
                    Ok(ins) => match exec_spec(v, ins, rnd) {
                        Err(f) => Err(f),
                        Ok(v2) => Ok(VmView { pc: pc_fwd2(v2.pc), ..v2 }),
                    },
                }
            }
        },
    }
}

/// How one call of the executable decode-and-execute relates to the
/// model: on a fault the machine is left exactly as it was and the fault
/// is returned; on success the machine lands on the instruction's effect
/// (the uniform program-counter advance is the step's, not the
/// instruction's).
pub open spec fn opcode_rel(
    pre: VmView,
    post: VmView,
    opcode: u16,
    r: Result<(), Fault>,
    rnd: u8,
) -> bool {
    match decode_spec(opcode, pre.pc) {
        Err(f) => r == Err::<(), Fault>(f) && post == pre,
        Ok(ins) => match exec_spec(pre, ins, rnd) {
            Err(f) => r == Err::<(), Fault>(f) && post == pre,
            Ok(v) => r == Ok::<(), Fault>(()) && post == v,
        },
    }
}

/// One 60 Hz timer tick: each of DT and ST decrements if nonzero and
/// never goes below zero.
pub open spec fn tick_timers_spec(v: VmView) -> VmView {
    VmView {
        dt: if v.dt > 0 {
            (v.dt - 1) as u8
        } else {
            0u8
        },
        st: if v.st > 0 {
            (v.st - 1) as u8
        } else {
            0u8
        },
        ..v
    }
}

/// The memory after a program image lands at the 0x200 program entry;
/// everything outside the image's region is untouched.
pub open spec fn load_program_spec(v: VmView, program: Seq<u8>) -> VmView {
    VmView {
        mem: Seq::new(
            v.mem.len(),
            |a: int|
                if 512 <= a < 512 + program.len() {
                    program[a - 512]
                } else {
                    v.mem[a]
                },
        ),
        ..v
    }
}

/// The key state after a host input poll: key `k` is down exactly when
/// `k` occurs in the list; the whole previous state is replaced.
pub open spec fn set_keys_spec(v: VmView, keys: Seq<u8>) -> VmView {
    VmView { keys: Seq::new(16, |k: int| keys.contains(k as u8)), ..v }
}

/// How one call of the executable step relates to the model: on a fault
/// the machine is left exactly as it was and the fault is returned; on
/// success the machine lands on the model's next state.
pub open spec fn step_rel(pre: VmView, post: VmView, r: Result<(), Fault>, rnd: u8) -> bool {
    match step_spec(pre, rnd) {
        Ok(v) => r == Ok::<(), Fault>(()) && post == v,
        Err(f) => r == Err::<(), Fault>(f) && post == pre,
    }
}

} // verus!
