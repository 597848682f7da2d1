//! The executable machine: the interpreter state and one method per
//! instruction, each proved to implement its effect from the model.

use vstd::prelude::*;
use vstd::string::StringExecFns;

use crate::fault::Fault;
use crate::instr::{decode, Instr};
use crate::model::{
    add_i_spec, add_val_spec, and_spec, awaiting_key_spec, bcd_spec, blank_display, call_spec,
    cls_spec, draw_collision, draw_disp, drw_spec, fetch_opcode, jp_spec, jp_v0_spec, key_of_reg,
    ld_dt_spec, ld_font_spec, ld_i_spec, ld_reg_spec, ld_val_spec, lemma_first_pressed_found,
    lemma_first_pressed_none, load_program_spec, load_regs_file, load_regs_spec, opcode_rel,
    or_spec, pc_back2, pc_fwd2, ret_spec, rnd_spec, set_dt_spec, set_keys_spec, set_st_spec,
    shl_spec, shr_spec, skip_if, sprite_bit, sprite_rows_read, step_rel, step_spec,
    store_regs_mem, store_regs_spec, sub_spec, subn_spec, tick_timers_spec, wait_key_spec,
    wrap_sub8, xor_spec, Mode, VmView,
};

use rand::RngExt;

verus! {

/// Relies on `rand::RngExt::random_range` on `rand::rng()`, the
/// thread-local generator: it returns a value drawn from the half-open
/// range it is given, here `[0, 255)`.  Nothing more is promised of a
/// random value.
#[verifier::external_body]
fn random_byte() -> (b: u8)
    ensures
        b < 255,
{
    rand::rng().random_range(0..255)
}

/// The built-in font: 16 glyphs of 5 bytes each, the bitmaps for the hex
/// digits 0 through F, in order.
pub open spec fn font() -> Seq<u8> {
    seq![
        0xF0u8, 0x90, 0x90, 0x90, 0xF0, // 0
        0x20, 0x60, 0x20, 0x20, 0x70, // 1
        0xF0, 0x10, 0xF0, 0x80, 0xF0, // 2
        0xF0, 0x10, 0xF0, 0x10, 0xF0, // 3
        0x90, 0x90, 0xF0, 0x10, 0x10, // 4
        0xF0, 0x80, 0xF0, 0x10, 0xF0, // 5
        0xF0, 0x80, 0xF0, 0x90, 0xF0, // 6
        0xF0, 0x10, 0x20, 0x40, 0x40, // 7
        0xF0, 0x90, 0xF0, 0x90, 0xF0, // 8
        0xF0, 0x90, 0xF0, 0x10, 0xF0, // 9
        0xF0, 0x90, 0xF0, 0x90, 0x90, // A
        0xE0, 0x90, 0xE0, 0x90, 0xE0, // B
        0xF0, 0x80, 0x80, 0x80, 0xF0, // C
        0xE0, 0x90, 0x90, 0x90, 0xE0, // D
        0xF0, 0x80, 0xF0, 0x80, 0xF0, // E
        0xF0, 0x80, 0xF0, 0x80, 0x80, // F
    ]
}

/// The machine as constructed: font at the bottom of memory, everything
/// else zeroed, the program counter at the 0x200 program entry.
pub open spec fn initial_state() -> VmView {
    VmView {
        mem: Seq::new(4096, |a: int| if 0 <= a < 80 { font()[a] } else { 0u8 }),
        regs: Seq::new(16, |k: int| 0u8),
        stack: Seq::empty(),
        i: 0,
        dt: 0,
        st: 0,
        pc: 512,
        disp: blank_display(),
        keys: Seq::new(16, |k: int| false),
        mode: Mode::Running,
        display_changed: false,
    }
}

/// Mid-draw state of the display: the sprite's set bits have been
/// toggled on every cell of the first `h` sprite rows, and on the first
/// `c` columns of row `h`; every other cell still holds its value from
/// `pre`.
spec fn drawn_prefix(
    pre: VmView,
    disp: Seq<Seq<u8>>,
    x: int,
    y: int,
    n: int,
    h: int,
    c: int,
) -> bool {
    &&& disp.len() == 32
    &&& forall|r: int| 0 <= r < 32 ==> (#[trigger] disp[r]).len() == 64
    &&& forall|r: int, cc: int|
        0 <= r < 32 && 0 <= cc < 64 ==> #[trigger] disp[r][cc] == (if sprite_bit(
            pre.mem,
            pre.i as int,
            x,
            y,
            n,
            r,
            cc,
        ) && (r - y < h || (r - y == h && cc - x < c)) {
            if pre.disp[r][cc] == 1 {
                0u8
            } else {
                1u8
            }
        } else {
            pre.disp[r][cc]
        })
}

/// Whether the draw has collided so far: some lit cell among the first
/// `h` rows, or the first `c` columns of row `h`, carries a set sprite
/// bit.
spec fn collision_prefix(pre: VmView, x: int, y: int, n: int, h: int, c: int) -> bool {
    exists|r: int, cc: int|
        0 <= r < 32 && 0 <= cc < 64 && #[trigger] sprite_bit(pre.mem, pre.i as int, x, y, n, r, cc)
            && (r - y < h || (r - y == h && cc - x < c)) && pre.disp[r][cc] == 1
}

/// A freshly allocated all-dark display: 32 rows of 64 cells, each 0.
fn blank_rows() -> (d: Vec<Vec<u8>>)
    ensures
        d@.len() == 32,
        forall|r: int| 0 <= r < 32 ==> (#[trigger] d@[r])@ == Seq::new(64, |c: int| 0u8),
{
    let mut display: Vec<Vec<u8>> = Vec::new();
    while display.len() < 32
        invariant
            display@.len() <= 32,
            forall|r: int|
                0 <= r < display@.len() ==> (#[trigger] display@[r])@ == Seq::new(
                    64,
                    |c: int| 0u8,
                ),
        decreases 32 - display@.len(),
    {
        let mut row: Vec<u8> = Vec::new();
        while row.len() < 64
            invariant
                row@.len() <= 64,
                forall|c: int| 0 <= c < row@.len() ==> row@[c] == 0u8,
            decreases 64 - row@.len(),
        {
            row.push(0);
        }
        proof {
            assert(row@ =~= Seq::new(64, |c: int| 0u8));
        }
        display.push(row);
    }
    display
}

/// The CHIP-8 virtual machine.
///
/// All state is created together at construction; `load_program` mutates
/// only the program region of memory, and everything else is mutated
/// exclusively by instruction execution and the host-facing setters
/// (`register_keydown`, `tick_timers`).  The delay and sound timers and
/// the display dirty flag are plain fields for the host to read (the
/// host is also expected to reset `display_changed` after redrawing).
pub struct Chip8 {
    registers: Vec<u8>,
    memory: Vec<u8>,
    stack: Vec<u16>,
    i: u16,
    pub dt: u8,
    pub st: u8,
    pc: u16,
    display: Vec<Vec<u8>>,
    keys_pressed: Vec<bool>,
    mode: Mode,
    pub display_changed: bool,
}

impl View for Chip8 {
    type V = VmView;

    closed spec fn view(&self) -> VmView {
        VmView {
            mem: self.memory@,
            regs: self.registers@,
            stack: self.stack@,
            i: self.i,
            dt: self.dt,
            st: self.st,
            pc: self.pc,
            disp: Seq::new(self.display@.len() as nat, |r: int| self.display@[r]@),
            keys: self.keys_pressed@,
            mode: self.mode,
            display_changed: self.display_changed,
        }
    }
}

impl Chip8 {
    /// A fresh machine: memory zeroed but for the font, registers and
    /// timers zeroed, display dark, no key down, PC at 0x200.
    pub fn new() -> (vm: Chip8)
        ensures
            vm@ == initial_state(),
            vm@.wf(),
    {
        let mut memory: Vec<u8> = Vec::new();
        memory.push(0xF0);
        memory.push(0x90);
        memory.push(0x90);
        memory.push(0x90);
        memory.push(0xF0);
        memory.push(0x20);
        memory.push(0x60);
        memory.push(0x20);
        memory.push(0x20);
        memory.push(0x70);
        memory.push(0xF0);
        memory.push(0x10);
        memory.push(0xF0);
        memory.push(0x80);
        memory.push(0xF0);
        memory.push(0xF0);
        memory.push(0x10);
        memory.push(0xF0);
        memory.push(0x10);
        memory.push(0xF0);
        memory.push(0x90);
        memory.push(0x90);
        memory.push(0xF0);
        memory.push(0x10);
        memory.push(0x10);
        memory.push(0xF0);
        memory.push(0x80);
        memory.push(0xF0);
        memory.push(0x10);
        memory.push(0xF0);
        memory.push(0xF0);
        memory.push(0x80);
        memory.push(0xF0);
        memory.push(0x90);
        memory.push(0xF0);
        memory.push(0xF0);
        memory.push(0x10);
        memory.push(0x20);
        memory.push(0x40);
        memory.push(0x40);
        memory.push(0xF0);
        memory.push(0x90);
        memory.push(0xF0);
        memory.push(0x90);
        memory.push(0xF0);
        memory.push(0xF0);
        memory.push(0x90);
        memory.push(0xF0);
        memory.push(0x10);
        memory.push(0xF0);
        memory.push(0xF0);
        memory.push(0x90);
        memory.push(0xF0);
        memory.push(0x90);
        memory.push(0x90);
        memory.push(0xE0);
        memory.push(0x90);
        memory.push(0xE0);
        memory.push(0x90);
        memory.push(0xE0);
        memory.push(0xF0);
        memory.push(0x80);
        memory.push(0x80);
        memory.push(0x80);
        memory.push(0xF0);
        memory.push(0xE0);
        memory.push(0x90);
        memory.push(0x90);
        memory.push(0x90);
        memory.push(0xE0);
        memory.push(0xF0);
        memory.push(0x80);
        memory.push(0xF0);
        memory.push(0x80);
        memory.push(0xF0);
        memory.push(0xF0);
        memory.push(0x80);
        memory.push(0xF0);
        memory.push(0x80);
        memory.push(0x80);
        proof {
            assert(memory@ =~= font());
        }
        while memory.len() < 4096
            invariant
                80 <= memory@.len() <= 4096,
                forall|a: int|
                    0 <= a < memory@.len() ==> memory@[a] == (if a < 80 {
                        font()[a]
                    } else {
                        0u8
                    }),
            decreases 4096 - memory@.len(),
        {
            memory.push(0);
        }

        let mut registers: Vec<u8> = Vec::new();
        while registers.len() < 16
            invariant
                registers@.len() <= 16,
                forall|k: int| 0 <= k < registers@.len() ==> registers@[k] == 0u8,
            decreases 16 - registers@.len(),
        {
            registers.push(0);
        }

        let mut keys_pressed: Vec<bool> = Vec::new();
        while keys_pressed.len() < 16
            invariant
                keys_pressed@.len() <= 16,
                forall|k: int| 0 <= k < keys_pressed@.len() ==> keys_pressed@[k] == false,
            decreases 16 - keys_pressed@.len(),
        {
            keys_pressed.push(false);
        }

        let display = blank_rows();

        let vm = Chip8 {
            registers,
            memory,
            stack: Vec::new(),
            i: 0,
            dt: 0,
            st: 0,
            pc: 512,
            display,
            keys_pressed,
            mode: Mode::Running,
            display_changed: false,
        };
        proof {
            assert(vm@.mem =~= initial_state().mem);
            assert(vm@.regs =~= initial_state().regs);
            assert(vm@.keys =~= initial_state().keys);
            assert(vm@.disp =~~= initial_state().disp);
            assert(vm@ =~~= initial_state());
        }
        vm
    }

    /// A read-only borrow of the 64x32 display, addressed `[row][col]`,
    /// each cell 0 or 1.
    pub fn display(&self) -> (d: &Vec<Vec<u8>>)
        ensures
            d@.len() == self@.disp.len(),
            forall|r: int| 0 <= r < d@.len() ==> (#[trigger] d@[r])@ == self@.disp[r],
    {
        &self.display
    }

    /// Advance the program counter by two, modulo its 16-bit width.
    fn advance_pc(&mut self)
        ensures
            final(self)@ == (VmView { pc: pc_fwd2(old(self)@.pc), ..old(self)@ }),
    {
        if self.pc <= 0xFFFD {
            self.pc = self.pc + 2;
        } else {
            self.pc = self.pc - 0xFFFE;
        }
    }

    /// Park the program counter two back of `target`, so that the
    /// uniform advance after the instruction lands exactly on `target`.
    fn redirect_pc(&mut self, target: u16)
        ensures
            final(self)@ == (VmView { pc: pc_back2(target), ..old(self)@ }),
    {
        if target >= 2 {
            self.pc = target - 2;
        } else {
            self.pc = target + 0xFFFE;
        }
    }

    // 00E0 - CLS
    /// Clear the display; every other part of the machine (VF included)
    /// is untouched.
    pub fn clear_screen(&mut self)
        requires
            old(self)@.wf(),
        ensures
            final(self)@ == cls_spec(old(self)@),
            final(self)@.wf(),
            final(self)@.regs == old(self)@.regs,
            forall|r: int, c: int|
                0 <= r < 32 && 0 <= c < 64 ==> final(self)@.disp[r][c] == 0,
    {
        self.display = blank_rows();
        self.display_changed = true;
        proof {
            assert(self@.disp =~~= blank_display());
            assert(self@ =~~= cls_spec(old(self)@));
        }
    }

    // 00EE - RET
    /// Pop the call stack into the program counter; a return with an
    /// empty stack is a fault, not a no-op.
    pub fn return_from_submodule(&mut self) -> (r: Result<(), Fault>)
        requires
            old(self)@.wf(),
        ensures
            match ret_spec(old(self)@) {
                Ok(v) => r == Ok::<(), Fault>(()) && final(self)@ == v,
                Err(f) => r == Err::<(), Fault>(f) && final(self)@ == old(self)@,
            },
            final(self)@.wf(),
    {
        match self.stack.pop() {
            Some(addr) => {
                self.pc = addr;
                proof {
                    assert(self@.stack =~= old(self)@.stack.drop_last());
                }
                Ok(())
            },
            None => Err(Fault::StackUnderflow { pc: self.pc }),
        }
    }

    // 1nnn - JP addr
    pub fn jump(&mut self, address: u16)
        requires
            old(self)@.wf(),
        ensures
            final(self)@ == jp_spec(old(self)@, address),
            final(self)@.wf(),
    {
        self.redirect_pc(address);
    }

    // 2nnn - CALL addr
    /// Push the current program counter and jump; a call with the stack
    /// already at its 16-frame bound is a fault.
    pub fn call(&mut self, address: u16) -> (r: Result<(), Fault>)
        requires
            old(self)@.wf(),
        ensures
            match call_spec(old(self)@, address) {
                Ok(v) => r == Ok::<(), Fault>(()) && final(self)@ == v,
                Err(f) => r == Err::<(), Fault>(f) && final(self)@ == old(self)@,
            },
            final(self)@.wf(),
    {
        if self.stack.len() >= 16 {
            return Err(Fault::StackOverflow { pc: self.pc });
        }
        self.stack.push(self.pc);
        self.redirect_pc(address);
        Ok(())
    }

    // 3xkk - SE Vx, byte
    /// Skip the next instruction if Vx == kk.
    pub fn skip_if_reg_equal_to_val(&mut self, register: usize, value: u8)
        requires
            old(self)@.wf(),
            register < 16,
        ensures
            final(self)@ == skip_if(old(self)@, old(self)@.regs[register as int] == value),
            final(self)@.wf(),
    {
        if self.registers[register] == value {
            self.advance_pc();
        }
    }

    // 4xkk - SNE Vx, byte
    /// Skip the next instruction if Vx != kk.
    pub fn skip_if_reg_not_equal_to_val(&mut self, register: usize, value: u8)
        requires
            old(self)@.wf(),
            register < 16,
        ensures
            final(self)@ == skip_if(old(self)@, old(self)@.regs[register as int] != value),
            final(self)@.wf(),
    {
        if self.registers[register] != value {
            self.advance_pc();
        }
    }

    // 5xy0 - SE Vx, Vy
    /// Skip the next instruction if Vx == Vy.
    pub fn skip_if_reg_equal_to_reg(&mut self, register1: usize, register2: usize)
        requires
            old(self)@.wf(),
            register1 < 16,
            register2 < 16,
        ensures
            final(self)@ == skip_if(
                old(self)@,
                old(self)@.regs[register1 as int] == old(self)@.regs[register2 as int],
            ),
            final(self)@.wf(),
    {
        if self.registers[register1] == self.registers[register2] {
            self.advance_pc();
        }
    }

    // 6xkk - LD Vx, byte
    pub fn load_value_into_reg(&mut self, register: usize, value: u8)
        requires
            old(self)@.wf(),
            register < 16,
        ensures
            final(self)@ == ld_val_spec(old(self)@, register as int, value),
            final(self)@.wf(),
    {
        self.registers[register] = value;
    }

    // 7xkk - ADD Vx, byte
    /// Vx = (Vx + kk) mod 256, and VF = 1 exactly when the unclamped sum
    /// exceeds 255, else 0.  The flag is VF's last write, so it survives
    /// even when Vx is VF itself.
    pub fn add_value_to_reg(&mut self, register: usize, value: u8)
        requires
            old(self)@.wf(),
            register < 16,
        ensures
            final(self)@ == add_val_spec(old(self)@, register as int, value),
            final(self)@.wf(),
            register != 15 ==> final(self)@.regs[register as int] == (old(self)@.regs[register
                as int] + value) % 256,
            final(self)@.regs[15] == (if old(self)@.regs[register as int] + value > 255 {
                1u8
            } else {
                0u8
            }),
    {
        let a = self.registers[register];
        let sum: u16 = a as u16 + value as u16;
        self.registers[register] = (sum % 256) as u8;
        self.registers[15] = if sum > 255 {
            1
        } else {
            0
        };
    }

    // 8xy0 - LD Vx, Vy
    pub fn load_reg_into_reg(&mut self, register1: usize, register2: usize)
        requires
            old(self)@.wf(),
            register1 < 16,
            register2 < 16,
        ensures
            final(self)@ == ld_reg_spec(old(self)@, register1 as int, register2 as int),
            final(self)@.wf(),
    {
        let v = self.registers[register2];
        self.registers[register1] = v;
    }

    // 8xy1 - OR Vx, Vy
    pub fn or_reg(&mut self, register1: usize, register2: usize)
        requires
            old(self)@.wf(),
            register1 < 16,
            register2 < 16,
        ensures
            final(self)@ == or_spec(old(self)@, register1 as int, register2 as int),
            final(self)@.wf(),
    {
        let v = self.registers[register1] | self.registers[register2];
        self.registers[register1] = v;
    }

    // 8xy2 - AND Vx, Vy
    pub fn and_reg(&mut self, register1: usize, register2: usize)
        requires
            old(self)@.wf(),
            register1 < 16,
            register2 < 16,
        ensures
            final(self)@ == and_spec(old(self)@, register1 as int, register2 as int),
            final(self)@.wf(),
    {
        let v = self.registers[register1] & self.registers[register2];
        self.registers[register1] = v;
    }

    // 8xy3 - XOR Vx, Vy
    pub fn xor_reg(&mut self, register1: usize, register2: usize)
        requires
            old(self)@.wf(),
            register1 < 16,
            register2 < 16,
        ensures
            final(self)@ == xor_spec(old(self)@, register1 as int, register2 as int),
            final(self)@.wf(),
    {
        let v = self.registers[register1] ^ self.registers[register2];
        self.registers[register1] = v;
    }

    // 8xy4 - ADD Vx, Vy
    /// Vx = (Vx + Vy) mod 256, VF = carry, exactly as the immediate add.
    pub fn add_reg(&mut self, register1: usize, register2: usize)
        requires
            old(self)@.wf(),
            register1 < 16,
            register2 < 16,
        ensures
            final(self)@ == add_val_spec(
                old(self)@,
                register1 as int,
                old(self)@.regs[register2 as int],
            ),
            final(self)@.wf(),
    {
        let v = self.registers[register2];
        self.add_value_to_reg(register1, v);
    }

    // 8xy5 - SUB Vx, Vy
    /// Vx = (Vx - Vy) mod 256, and VF = 1 exactly when no borrow
    /// occurred (Vx >= Vy), else 0.
    pub fn sub_reg(&mut self, register1: usize, register2: usize)
        requires
            old(self)@.wf(),
            register1 < 16,
            register2 < 16,
        ensures
            final(self)@ == sub_spec(old(self)@, register1 as int, register2 as int),
            final(self)@.wf(),
            register1 != 15 ==> final(self)@.regs[register1 as int] == (old(self)@.regs[register1
                as int] - old(self)@.regs[register2 as int]) % 256,
            final(self)@.regs[15] == (if old(self)@.regs[register1 as int]
                >= old(self)@.regs[register2 as int] {
                1u8
            } else {
                0u8
            }),
    {
        let a = self.registers[register1];
        let b = self.registers[register2];
        let (result, flag) = if a >= b {
            (a - b, 1)
        } else {
            (255 - (b - a) + 1, 0)
        };
        self.registers[register1] = result;
        self.registers[15] = flag;
        proof {
            assert(result == wrap_sub8(a, b));
        }
    }

    // 8xy6 - SHR Vx
    /// Vx = Vx >> 1, and VF = the shifted-out low bit, a single 0/1 bit.
    pub fn shr_reg(&mut self, register: usize)
        requires
            old(self)@.wf(),
            register < 16,
        ensures
            final(self)@ == shr_spec(old(self)@, register as int),
            final(self)@.wf(),
            final(self)@.regs[15] <= 1,
    {
        let a = self.registers[register];
        self.registers[register] = a >> 1;
        self.registers[15] = a & 0x1;
        proof {
            assert(a & 0x1 <= 1) by (bit_vector);
        }
    }

    // 8xy7 - SUBN Vx, Vy
    /// The reverse subtraction: Vx = (Vy - Vx) mod 256, and VF = 1
    /// exactly when no borrow occurred (Vy >= Vx), else 0.
    pub fn subn_reg(&mut self, register1: usize, register2: usize)
        requires
            old(self)@.wf(),
            register1 < 16,
            register2 < 16,
        ensures
            final(self)@ == subn_spec(old(self)@, register1 as int, register2 as int),
            final(self)@.wf(),
            register1 != 15 ==> final(self)@.regs[register1 as int] == (old(self)@.regs[register2
                as int] - old(self)@.regs[register1 as int]) % 256,
            final(self)@.regs[15] == (if old(self)@.regs[register2 as int]
                >= old(self)@.regs[register1 as int] {
                1u8
            } else {
                0u8
            }),
    {
        let a = self.registers[register1];
        let b = self.registers[register2];
        let (result, flag) = if b >= a {
            (b - a, 1)
        } else {
            (255 - (a - b) + 1, 0)
        };
        self.registers[register1] = result;
        self.registers[15] = flag;
        proof {
            assert(result == wrap_sub8(b, a));
        }
    }

    // 8xyE - SHL Vx
    /// Vx = (Vx << 1) mod 256, and VF = the shifted-out high bit, a
    /// single 0/1 bit.
    pub fn shl_reg(&mut self, register: usize)
        requires
            old(self)@.wf(),
            register < 16,
        ensures
            final(self)@ == shl_spec(old(self)@, register as int),
            final(self)@.wf(),
            final(self)@.regs[15] <= 1,
    {
        let a = self.registers[register];
        self.registers[register] = a << 1;
        self.registers[15] = (a >> 7) & 0x1;
        proof {
            assert((a >> 7) & 0x1 <= 1) by (bit_vector);
        }
    }

    // 9xy0 - SNE Vx, Vy
    /// Skip the next instruction if Vx != Vy.
    pub fn skip_next_if_reg_equal_reg(&mut self, register1: usize, register2: usize)
        requires
            old(self)@.wf(),
            register1 < 16,
            register2 < 16,
        ensures
            final(self)@ == skip_if(
                old(self)@,
                old(self)@.regs[register1 as int] != old(self)@.regs[register2 as int],
            ),
            final(self)@.wf(),
    {
        if self.registers[register1] != self.registers[register2] {
            self.advance_pc();
        }
    }

    // Annn - LD I, addr
    pub fn load_value_into_i(&mut self, value: u16)
        requires
            old(self)@.wf(),
        ensures
            final(self)@ == ld_i_spec(old(self)@, value),
            final(self)@.wf(),
    {
        self.i = value;
    }

    // Bnnn - JP V0, addr
    /// Jump to `addr + V0`; the address is a 12-bit immediate.
    pub fn jump_to_reg_zero(&mut self, address: u16)
        requires
            old(self)@.wf(),
            address < 4096,
        ensures
            final(self)@ == jp_v0_spec(old(self)@, address),
            final(self)@.wf(),
    {
        let target: u16 = address + self.registers[0] as u16;
        self.redirect_pc(target);
    }

    // Ex9E - SKP Vx
    /// Skip the next instruction if the key named by the low nibble of
    /// Vx is held down.
    pub fn skip_next_if_key_pressed(&mut self, register: usize)
        requires
            old(self)@.wf(),
            register < 16,
        ensures
            final(self)@ == skip_if(
                old(self)@,
                old(self)@.keys[key_of_reg(old(self)@, register as int)],
            ),
            final(self)@.wf(),
    {
        let key = (self.registers[register] % 16) as usize;
        if self.keys_pressed[key] {
            self.advance_pc();
        }
    }

    // ExA1 - SKNP Vx
    /// Skip the next instruction if the key named by the low nibble of
    /// Vx is up.
    pub fn skip_next_if_key_not_pressed(&mut self, register: usize)
        requires
            old(self)@.wf(),
            register < 16,
        ensures
            final(self)@ == skip_if(
                old(self)@,
                !old(self)@.keys[key_of_reg(old(self)@, register as int)],
            ),
            final(self)@.wf(),
    {
        let key = (self.registers[register] % 16) as usize;
        if !self.keys_pressed[key] {
            self.advance_pc();
        }
    }

    // Fx07 - LD Vx, DT
    pub fn load_delay_timer_into(&mut self, register: usize)
        requires
            old(self)@.wf(),
            register < 16,
        ensures
            final(self)@ == ld_dt_spec(old(self)@, register as int),
            final(self)@.wf(),
    {
        let v = self.dt;
        self.registers[register] = v;
    }

    // Fx15 - LD DT, Vx
    pub fn set_delay_timer_from_reg(&mut self, register: usize)
        requires
            old(self)@.wf(),
            register < 16,
        ensures
            final(self)@ == set_dt_spec(old(self)@, register as int),
            final(self)@.wf(),
    {
        self.dt = self.registers[register];
    }

    // Fx18 - LD ST, Vx
    pub fn set_sound_timer_from_reg(&mut self, register: usize)
        requires
            old(self)@.wf(),
            register < 16,
        ensures
            final(self)@ == set_st_spec(old(self)@, register as int),
            final(self)@.wf(),
    {
        self.st = self.registers[register];
    }

    // Fx1E - ADD I, Vx
    /// I = (I + Vx) mod 2^16; only the low 12 bits of I ever name an
    /// address, and every access through I is bounds-checked where it
    /// happens.
    pub fn add_to_i(&mut self, register: usize)
        requires
            old(self)@.wf(),
            register < 16,
        ensures
            final(self)@ == add_i_spec(old(self)@, register as int),
            final(self)@.wf(),
    {
        let v = self.registers[register] as u16;
        self.i = self.i.wrapping_add(v);
    }

    // Cxkk - RND Vx, byte
    /// Vx = random byte AND kk.  All that holds of the random source is
    /// its range, so the contract promises the effect for *some* byte
    /// below 255; `apply_random` carries the exact contract for any
    /// given byte.
    pub fn random(&mut self, register: usize, value: u8)
        requires
            old(self)@.wf(),
            register < 16,
        ensures
            exists|b: u8|
                b < 255 && final(self)@ == rnd_spec(old(self)@, register as int, value, b),
            final(self)@.wf(),
    {
        let b = random_byte();
        self.apply_random(register, value, b);
    }

    /// The verified tail of the RND instruction: write `b AND mask` into
    /// the register, for a given byte `b`.
    pub fn apply_random(&mut self, register: usize, mask: u8, b: u8)
        requires
            old(self)@.wf(),
            register < 16,
        ensures
            final(self)@ == rnd_spec(old(self)@, register as int, mask, b),
            final(self)@.wf(),
    {
        self.registers[register] = b & mask;
    }

    // Fx0A - LD Vx, K
    /// Wait for a key press: if some key is down, the lowest pressed
    /// index lands in Vx at once; otherwise the machine parks in
    /// `AwaitingKey` with the program counter left on this instruction,
    /// and each further step scans the keys again.
    pub fn wait_for_key(&mut self, register: usize)
        requires
            old(self)@.wf(),
            register < 16,
        ensures
            final(self)@ == wait_key_spec(old(self)@, register as int),
            final(self)@.wf(),
    {
        let mut k: usize = 0;
        while k < 16
            invariant
                old(self)@.wf(),
                register < 16,
                k <= 16,
                *self == *old(self),
                forall|t: int| 0 <= t < k ==> !old(self)@.keys[t],
            decreases 16 - k,
        {
            if self.keys_pressed[k] {
                proof {
                    lemma_first_pressed_found(old(self)@.keys, 0, k as int);
                }
                self.registers[register] = k as u8;
                return ;
            }
            k += 1;
        }
        proof {
            lemma_first_pressed_none(old(self)@.keys, 0);
        }
        self.mode = Mode::AwaitingKey { target: register as u8 };
        let pc = self.pc;
        self.redirect_pc(pc);
    }

    // Fx33 - LD B, Vx
    /// Store the three decimal digits of Vx — hundreds, tens, units — at
    /// I, I+1 and I+2; the three always recombine to Vx
    /// (`100*d0 + 10*d1 + d2 == Vx`).
    pub fn load_bcd_of_reg_into_i(&mut self, register: usize) -> (r: Result<(), Fault>)
        requires
            old(self)@.wf(),
            register < 16,
        ensures
            match bcd_spec(old(self)@, register as int) {
                Ok(v) => r == Ok::<(), Fault>(()) && final(self)@ == v,
                Err(f) => r == Err::<(), Fault>(f) && final(self)@ == old(self)@,
            },
            final(self)@.wf(),
            r is Ok ==> 100 * (final(self)@.mem[old(self)@.i as int] as int)
                + 10 * (final(self)@.mem[old(self)@.i as int + 1] as int)
                + (final(self)@.mem[old(self)@.i as int + 2] as int)
                == old(self)@.regs[register as int],
    {
        if self.i >= 4094 {
            return Err(Fault::Memory { pc: self.pc });
        }
        let i = self.i as usize;
        let n = self.registers[register];
        self.memory[i] = n / 100;
        self.memory[i + 1] = (n / 10) % 10;
        self.memory[i + 2] = n % 10;
        proof {
            let ni = n as int;
            vstd::arithmetic::div_mod::lemma_fundamental_div_mod(ni, 10);
            vstd::arithmetic::div_mod::lemma_fundamental_div_mod(ni / 10, 10);
            vstd::arithmetic::div_mod::lemma_div_denominator(ni, 10, 10);
            assert(100 * (ni / 100) + 10 * ((ni / 10) % 10) + ni % 10 == ni);
        }
        Ok(())
    }

    // Fx55 - LD [I], Vx
    /// Bulk-store V0..Vx to memory at I..I+x.  I itself is left
    /// unchanged, the canonical architecture's behaviour.
    pub fn copy_registers_into_memory(&mut self, max_register: usize) -> (r: Result<(), Fault>)
        requires
            old(self)@.wf(),
            max_register < 16,
        ensures
            match store_regs_spec(old(self)@, max_register as int) {
                Ok(v) => r == Ok::<(), Fault>(()) && final(self)@ == v,
                Err(f) => r == Err::<(), Fault>(f) && final(self)@ == old(self)@,
            },
            final(self)@.wf(),
    {
        if self.i as usize >= 4096 - max_register {
            return Err(Fault::Memory { pc: self.pc });
        }
        let base = self.i as usize;
        let mut k: usize = 0;
        while k <= max_register
            invariant
                old(self)@.wf(),
                max_register < 16,
                base == old(self)@.i,
                base + max_register < 4096,
                k <= max_register + 1,
                self@ == (VmView { mem: self@.mem, ..old(self)@ }),
                self@.mem.len() == 4096,
                forall|a: int|
                    0 <= a < 4096 ==> self@.mem[a] == (if base <= a < base + k {
                        old(self)@.regs[a - base]
                    } else {
                        old(self)@.mem[a]
                    }),
            decreases max_register + 1 - k,
        {
            let v = self.registers[k];
            self.memory[base + k] = v;
            k += 1;
        }
        proof {
            assert(self@.mem =~= store_regs_mem(
                old(self)@.mem,
                old(self)@.regs,
                old(self)@.i as int,
                max_register as int,
            ));
        }
        Ok(())
    }

    // Fx65 - LD Vx, [I]
    /// Bulk-load V0..Vx from memory at I..I+x; I itself and the higher
    /// registers are left unchanged.
    pub fn read_memory_into_registers(&mut self, max_register: usize) -> (r: Result<(), Fault>)
        requires
            old(self)@.wf(),
            max_register < 16,
        ensures
            match load_regs_spec(old(self)@, max_register as int) {
                Ok(v) => r == Ok::<(), Fault>(()) && final(self)@ == v,
                Err(f) => r == Err::<(), Fault>(f) && final(self)@ == old(self)@,
            },
            final(self)@.wf(),
    {
        if self.i as usize >= 4096 - max_register {
            return Err(Fault::Memory { pc: self.pc });
        }
        let base = self.i as usize;
        let mut k: usize = 0;
        while k <= max_register
            invariant
                old(self)@.wf(),
                max_register < 16,
                base == old(self)@.i,
                base + max_register < 4096,
                k <= max_register + 1,
                self@ == (VmView { regs: self@.regs, ..old(self)@ }),
                self@.regs.len() == 16,
                forall|j: int|
                    0 <= j < 16 ==> self@.regs[j] == (if 0 <= j < k {
                        old(self)@.mem[base + j]
                    } else {
                        old(self)@.regs[j]
                    }),
            decreases max_register + 1 - k,
        {
            let v = self.memory[base + k];
            self.registers[k] = v;
            k += 1;
        }
        proof {
            assert(self@.regs =~= load_regs_file(
                old(self)@.regs,
                old(self)@.mem,
                old(self)@.i as int,
                max_register as int,
            ));
        }
        Ok(())
    }

    // Fx29 - LD F, Vx
    /// Point I at the 5-byte font glyph for the hex digit in Vx.  Only
    /// the low nibble of Vx names a digit; the rest is masked off
    /// explicitly rather than indexed out of bounds.
    pub fn load_digit_into_i(&mut self, register: usize)
        requires
            old(self)@.wf(),
            register < 16,
        ensures
            final(self)@ == ld_font_spec(old(self)@, register as int),
            final(self)@.wf(),
    {
        let digit = self.registers[register] % 16;
        self.i = 5 * (digit as u16);
    }

    // Dxyn - DRW Vx, Vy, nibble
    /// Draw the `height`-row sprite at memory location I at screen
    /// position `(Vx mod 64, Vy mod 32)`: each set sprite bit toggles
    /// its cell (XOR), rows and columns past the screen edge are
    /// clipped, and VF reports — across the whole draw — whether any lit
    /// cell was toggled dark.  A sprite row that would be read from past
    /// the end of memory is a fault, raised before anything is drawn.
    pub fn draw_sprite(&mut self, xreg: usize, yreg: usize, height: u8) -> (r: Result<(), Fault>)
        requires
            old(self)@.wf(),
            xreg < 16,
            yreg < 16,
            height < 16,
        ensures
            match drw_spec(old(self)@, xreg as int, yreg as int, height as int) {
                Ok(v) => r == Ok::<(), Fault>(()) && final(self)@ == v,
                Err(f) => r == Err::<(), Fault>(f) && final(self)@ == old(self)@,
            },
            final(self)@.wf(),
            r is Ok ==> final(self)@.regs[15] <= 1,
    {
        let x = self.registers[xreg] % 64;
        let y = self.registers[yreg] % 32;
        let rows = if y + height <= 32 {
            height
        } else {
            32 - y
        };
        if rows > 0 && self.i as usize + rows as usize > 4096 {
            return Err(Fault::Memory { pc: self.pc });
        }
        let ghost pre = self@;
        let ghost px = x as int;
        let ghost py = y as int;
        let ghost pn = height as int;
        let cols = if x <= 56 {
            8
        } else {
            64 - x
        };
        self.display_changed = true;
        let mut collided: u8 = 0;
        let mut h: u8 = 0;
        while h < rows
            invariant
                pre.wf(),
                x == pre.regs[xreg as int] % 64,
                y == pre.regs[yreg as int] % 32,
                px == x as int && py == y as int && pn == height as int,
                rows as int == sprite_rows_read(py, pn),
                rows > 0 ==> pre.i as int + rows as int <= 4096,
                py + rows as int <= 32,
                px + cols as int <= 64,
                cols as int == (if px + 8 <= 64 {
                    8int
                } else {
                    64 - px
                }),
                h <= rows,
                self@ == (VmView { disp: self@.disp, display_changed: true, ..pre }),
                drawn_prefix(pre, self@.disp, px, py, pn, h as int, 0),
                collided <= 1,
                collided == 1 <==> collision_prefix(pre, px, py, pn, h as int, 0),
            decreases rows as int - h as int,
        {
            let b = self.memory[self.i as usize + h as usize];
            let mut c: u8 = 0;
            while c < cols
                invariant
                    pre.wf(),
                    x == pre.regs[xreg as int] % 64,
                    y == pre.regs[yreg as int] % 32,
                    px == x as int && py == y as int && pn == height as int,
                    rows as int == sprite_rows_read(py, pn),
                    h < rows,
                    pre.i as int + rows as int <= 4096,
                    py + rows as int <= 32,
                    px + cols as int <= 64,
                    cols as int == (if px + 8 <= 64 {
                        8int
                    } else {
                        64 - px
                    }),
                    c <= cols,
                    b == pre.mem[pre.i as int + h as int],
                    self@ == (VmView { disp: self@.disp, display_changed: true, ..pre }),
                    drawn_prefix(pre, self@.disp, px, py, pn, h as int, c as int),
                    collided <= 1,
                    collided == 1 <==> collision_prefix(pre, px, py, pn, h as int, c as int),
                decreases cols as int - c as int,
            {
                let ghost disp_before = self@.disp;
                let pixel = (b >> (7 - c)) & 0x01;
                proof {
                    assert(sprite_bit(pre.mem, pre.i as int, px, py, pn, py + h, px + c) <==> (
                    pixel == 1));
                }
                let ghost collided_before = collided;
                if pixel == 1 {
                    let rr = (y + h) as usize;
                    let cc = (x + c) as usize;
                    proof {
                        assert(self.display@.len() == self@.disp.len());
                        assert(rr < 32 && cc < 64);
                        assert(self.display@[rr as int]@ == self@.disp[rr as int]);
                    }
                    let old_px = self.display[rr][cc];
                    if old_px == 1 {
                        collided = 1;
                        self.display[rr][cc] = 0;
                    } else {
                        self.display[rr][cc] = 1;
                    }
                    proof {
                        assert(forall|r: int|
                            0 <= r < 32 && r != rr as int ==> self@.disp[r] == disp_before[r]);
                        assert(forall|cc2: int|
                            0 <= cc2 < 64 && cc2 != cc as int ==> self@.disp[rr as int][cc2]
                                == disp_before[rr as int][cc2]);
                        assert(old_px == pre.disp[py + h as int][px + c as int]);
                        assert(self@.disp[py + h as int][px + c as int] == (if old_px == 1 {
                            0u8
                        } else {
                            1u8
                        }));
                    }
                }
                proof {
                    assert forall|r: int, cc2: int| 0 <= r < 32 && 0 <= cc2 < 64 implies
                        #[trigger] self@.disp[r][cc2] == (if sprite_bit(pre.mem, pre.i as int, px, py, pn, r, cc2)
                            && (r - py < h as int || (r - py == h as int && cc2 - px < c as int
                            + 1)) {
                            if pre.disp[r][cc2] == 1 {
                                0u8
                            } else {
                                1u8
                            }
                        } else {
                            pre.disp[r][cc2]
                        }) by {
                        if r == py + h as int && cc2 == px + c as int {
                            assert(sprite_bit(pre.mem, pre.i as int, px, py, pn, r, cc2) <==> pixel
                                == 1);
                        } else {
                            assert(self@.disp[r][cc2] == disp_before[r][cc2]);
                        }
                    }
                    assert(self@.disp.len() == 32);
                    assert forall|r: int| 0 <= r < 32 implies (#[trigger] self@.disp[r]).len()
                        == 64 by {
                        if !(pixel == 1) || r != py + h as int {
                            assert(self@.disp[r] == disp_before[r]);
                        }
                    }
                    assert(drawn_prefix(pre, self@.disp, px, py, pn, h as int, c as int + 1));
                    if collided == 1 {
                        if collided_before == 1 {
                            let (r, cc2) = choose|r: int, cc2: int|
                                0 <= r < 32 && 0 <= cc2 < 64 && #[trigger] sprite_bit(
                                    pre.mem,
                                    pre.i as int,
                                    px,
                                    py,
                                    pn,
                                    r,
                                    cc2,
                                ) && (r - py < h as int || (r - py == h as int && cc2 - px < c
                                    as int)) && pre.disp[r][cc2] == 1;
                            assert(sprite_bit(pre.mem, pre.i as int, px, py, pn, r, cc2));
                        } else {
                            assert(sprite_bit(pre.mem, pre.i as int, px, py, pn, py + h as int, px
                                + c as int));
                            assert(pre.disp[py + h as int][px + c as int] == 1);
                        }
                        assert(collision_prefix(pre, px, py, pn, h as int, c as int + 1));
                    }
                    if collision_prefix(pre, px, py, pn, h as int, c as int + 1) {
                        let (r, cc2) = choose|r: int, cc2: int|
                            0 <= r < 32 && 0 <= cc2 < 64 && #[trigger] sprite_bit(
                                pre.mem,
                                pre.i as int,
                                px,
                                py,
                                pn,
                                r,
                                cc2,
                            ) && (r - py < h as int || (r - py == h as int && cc2 - px < c as int
                                + 1)) && pre.disp[r][cc2] == 1;
                        if r - py < h as int || (r - py == h as int && cc2 - px < c as int) {
                            assert(collision_prefix(pre, px, py, pn, h as int, c as int));
                        } else {
                            assert(r == py + h as int && cc2 == px + c as int);
                        }
                        assert(collided == 1);
                    }
                }
                c += 1;
            }
            proof {
                assert forall|r: int, cc: int|
                    0 <= r < 32 && 0 <= cc < 64 && sprite_bit(
                        pre.mem,
                        pre.i as int,
                        px,
                        py,
                        pn,
                        r,
                        cc,
                    ) && r - py == h as int implies cc - px < cols as int by {}
                assert(drawn_prefix(pre, self@.disp, px, py, pn, h as int + 1, 0));
                if collided == 1 {
                    assert(collision_prefix(pre, px, py, pn, h as int + 1, 0));
                }
                if collision_prefix(pre, px, py, pn, h as int + 1, 0) {
                    assert(collided == 1);
                }
            }
            h += 1;
        }
        self.registers[15] = collided;
        proof {
            assert forall|r: int, cc: int|
                0 <= r < 32 && 0 <= cc < 64 && sprite_bit(
                    pre.mem,
                    pre.i as int,
                    px,
                    py,
                    pn,
                    r,
                    cc,
                ) implies r - py < rows as int by {}
            assert(self@.disp =~~= draw_disp(pre.disp, pre.mem, pre.i as int, px, py, pn));
            assert(collided == 1 <==> draw_collision(pre.disp, pre.mem, pre.i as int, px, py, pn));
            assert(self@ =~~= (match drw_spec(pre, xreg as int, yreg as int, height as int) {
                Ok(v) => v,
                Err(f) => pre,
            }));
        }
        Ok(())
    }

    /// One step while parked on a wait-for-key instruction: scan the
    /// keys; on the lowest pressed index, store it in the target
    /// register, resume running and move past the waiting instruction.
    fn scan_awaited_key(&mut self, target: u8)
        requires
            old(self)@.wf(),
            target < 16,
        ensures
            final(self)@ == awaiting_key_spec(old(self)@, target),
            final(self)@.wf(),
    {
        let mut k: usize = 0;
        while k < 16
            invariant
                old(self)@.wf(),
                target < 16,
                k <= 16,
                *self == *old(self),
                forall|t: int| 0 <= t < k ==> !old(self)@.keys[t],
            decreases 16 - k,
        {
            if self.keys_pressed[k] {
                proof {
                    lemma_first_pressed_found(old(self)@.keys, 0, k as int);
                }
                self.registers[target as usize] = k as u8;
                self.mode = Mode::Running;
                self.advance_pc();
                return ;
            }
            k += 1;
        }
        proof {
            lemma_first_pressed_none(old(self)@.keys, 0);
        }
    }

    /// Decode one opcode and execute it — everything of a step but the
    /// uniform program-counter advance.  All that is promised of the
    /// random source is its range, so the contract holds for *some*
    /// random byte; every instruction but RND pins the outcome exactly.
    pub fn execute_opcode(&mut self, opcode: u16) -> (r: Result<(), Fault>)
        requires
            old(self)@.wf(),
        ensures
            exists|b: u8| b < 255 && #[trigger] opcode_rel(old(self)@, final(self)@, opcode, r, b),
            final(self)@.wf(),
    {
        let ins = match decode(opcode, self.pc) {
            Ok(ins) => ins,
            Err(f) => {
                proof {
                    assert(opcode_rel(old(self)@, self@, opcode, Err::<(), Fault>(f), 0u8));
                }
                return Err(f);
            },
        };
        let r = match ins {
            Instr::Sys => Ok(()),
            Instr::Cls => {
                self.clear_screen();
                Ok(())
            },
            Instr::Ret => self.return_from_submodule(),
            Instr::Jp { nnn } => {
                self.jump(nnn);
                Ok(())
            },
            Instr::Call { nnn } => self.call(nnn),
            Instr::SeVal { x, kk } => {
                self.skip_if_reg_equal_to_val(x as usize, kk);
                Ok(())
            },
            Instr::SneVal { x, kk } => {
                self.skip_if_reg_not_equal_to_val(x as usize, kk);
                Ok(())
            },
            Instr::SeReg { x, y } => {
                self.skip_if_reg_equal_to_reg(x as usize, y as usize);
                Ok(())
            },
            Instr::LdVal { x, kk } => {
                self.load_value_into_reg(x as usize, kk);
                Ok(())
            },
            Instr::AddVal { x, kk } => {
                self.add_value_to_reg(x as usize, kk);
                Ok(())
            },
            Instr::LdReg { x, y } => {
                self.load_reg_into_reg(x as usize, y as usize);
                Ok(())
            },
            Instr::Or { x, y } => {
                self.or_reg(x as usize, y as usize);
                Ok(())
            },
            Instr::And { x, y } => {
                self.and_reg(x as usize, y as usize);
                Ok(())
            },
            Instr::Xor { x, y } => {
                self.xor_reg(x as usize, y as usize);
                Ok(())
            },
            Instr::AddReg { x, y } => {
                self.add_reg(x as usize, y as usize);
                Ok(())
            },
            Instr::Sub { x, y } => {
                self.sub_reg(x as usize, y as usize);
                Ok(())
            },
            Instr::Shr { x } => {
                self.shr_reg(x as usize);
                Ok(())
            },
            Instr::Subn { x, y } => {
                self.subn_reg(x as usize, y as usize);
                Ok(())
            },
            Instr::Shl { x } => {
                self.shl_reg(x as usize);
                Ok(())
            },
            Instr::SneReg { x, y } => {
                self.skip_next_if_reg_equal_reg(x as usize, y as usize);
                Ok(())
            },
            Instr::LdI { nnn } => {
                self.load_value_into_i(nnn);
                Ok(())
            },
            Instr::JpV0 { nnn } => {
                self.jump_to_reg_zero(nnn);
                Ok(())
            },
            Instr::Rnd { x, kk } => {
                self.random(x as usize, kk);
                Ok(())
            },
            Instr::Drw { x, y, n } => self.draw_sprite(x as usize, y as usize, n),
            Instr::Skp { x } => {
                self.skip_next_if_key_pressed(x as usize);
                Ok(())
            },
            Instr::Sknp { x } => {
                self.skip_next_if_key_not_pressed(x as usize);
                Ok(())
            },
            Instr::LdDt { x } => {
                self.load_delay_timer_into(x as usize);
                Ok(())
            },
            Instr::WaitKey { x } => {
                self.wait_for_key(x as usize);
                Ok(())
            },
            Instr::SetDt { x } => {
                self.set_delay_timer_from_reg(x as usize);
                Ok(())
            },
            Instr::SetSt { x } => {
                self.set_sound_timer_from_reg(x as usize);
                Ok(())
            },
            Instr::AddI { x } => {
                self.add_to_i(x as usize);
                Ok(())
            },
            Instr::LdFont { x } => {
                self.load_digit_into_i(x as usize);
                Ok(())
            },
            Instr::Bcd { x } => self.load_bcd_of_reg_into_i(x as usize),
            Instr::StoreRegs { x } => self.copy_registers_into_memory(x as usize),
            Instr::LoadRegs { x } => self.read_memory_into_registers(x as usize),
        };
        proof {
            match ins {
                Instr::Rnd { x, kk } => {
                    let b = choose|b: u8|
                        b < 255 && self@ == rnd_spec(old(self)@, x as int, kk, b);
                    assert(opcode_rel(old(self)@, self@, opcode, r, b));
                },
                _ => {
                    assert(opcode_rel(old(self)@, self@, opcode, r, 0u8));
                },
            }
        }
        r
    }

    /// Execute exactly one instruction (or, while parked on a
    /// wait-for-key, scan the keys): fetch the two bytes at the program
    /// counter big-endian, decode, execute, and advance the counter by
    /// two — the advance is uniform, and instructions that redirect
    /// control flow have pre-compensated for it.  A fault leaves the
    /// machine exactly as it was.
    pub fn execute_next_instruction(&mut self) -> (r: Result<(), Fault>)
        requires
            old(self)@.wf(),
        ensures
            exists|b: u8| b < 255 && #[trigger] step_rel(old(self)@, final(self)@, r, b),
            final(self)@.wf(),
    {
        match self.mode {
            Mode::AwaitingKey { target } => {
                self.scan_awaited_key(target);
                proof {
                    assert(step_rel(old(self)@, self@, Ok::<(), Fault>(()), 0u8));
                }
                Ok(())
            },
            Mode::Running => {
                if self.pc >= 4095 {
                    proof {
                        assert(step_rel(
                            old(self)@,
                            self@,
                            Err::<(), Fault>(Fault::Memory { pc: old(self)@.pc }),
                            0u8,
                        ));
                    }
                    return Err(Fault::Memory { pc: self.pc });
                }
                let hi = self.memory[self.pc as usize];
                let lo = self.memory[self.pc as usize + 1];
                let opcode = (hi as u16) << 8 | lo as u16;
                proof {
                    assert(opcode == fetch_opcode(old(self)@.mem, old(self)@.pc as int));
                }
                let r = self.execute_opcode(opcode);
                match r {
                    Ok(()) => {
                        let ghost mid = self@;
                        let ghost b = choose|b: u8|
                            b < 255 && opcode_rel(old(self)@, mid, opcode, Ok::<(), Fault>(()), b);
                        self.advance_pc();
                        proof {
                            assert(step_rel(old(self)@, self@, Ok::<(), Fault>(()), b));
                        }
                        Ok(())
                    },
                    Err(f) => {
                        proof {
                            let b = choose|b: u8|
                                b < 255 && opcode_rel(
                                    old(self)@,
                                    self@,
                                    opcode,
                                    Err::<(), Fault>(f),
                                    b,
                                );
                            assert(step_rel(old(self)@, self@, Err::<(), Fault>(f), b));
                        }
                        Err(f)
                    },
                }
            },
        }
    }

    /// One 60 Hz timer tick: decrement each of DT and ST if nonzero;
    /// neither ever goes below zero.  Ticking is driven by the host,
    /// never by instruction execution.
    pub fn tick_timers(&mut self)
        requires
            old(self)@.wf(),
        ensures
            final(self)@ == tick_timers_spec(old(self)@),
            final(self)@.wf(),
    {
        if self.dt > 0 {
            self.dt = self.dt - 1;
        }
        if self.st > 0 {
            self.st = self.st - 1;
        }
    }

    /// Place a program image at the 0x200 program entry.  An image that
    /// would overflow the 4096-byte address space is reported before any
    /// state is mutated; everything outside the image's region of memory
    /// is untouched.
    pub fn load_program(&mut self, program: &[u8]) -> (r: Result<(), Fault>)
        requires
            old(self)@.wf(),
        ensures
            program@.len() > 3584 ==> r == Err::<(), Fault>(
                Fault::LoadTooLarge { len: program@.len() as usize },
            ) && final(self)@ == old(self)@,
            program@.len() <= 3584 ==> r == Ok::<(), Fault>(()) && final(self)@
                == load_program_spec(old(self)@, program@),
            final(self)@.wf(),
    {
        if program.len() > 3584 {
            return Err(Fault::LoadTooLarge { len: program.len() });
        }
        let mut k: usize = 0;
        while k < program.len()
            invariant
                old(self)@.wf(),
                program@.len() <= 3584,
                k <= program@.len(),
                self@ == (VmView { mem: self@.mem, ..old(self)@ }),
                self@.mem.len() == 4096,
                forall|a: int|
                    0 <= a < 4096 ==> self@.mem[a] == (if 512 <= a < 512 + k {
                        program@[a - 512]
                    } else {
                        old(self)@.mem[a]
                    }),
            decreases program@.len() - k,
        {
            let v = program[k];
            self.memory[512 + k] = v;
            k += 1;
        }
        proof {
            assert(self@.mem =~= load_program_spec(old(self)@, program@).mem);
        }
        Ok(())
    }

    /// Replace the whole key state from a host input poll: key `k` ends
    /// up down exactly when `k` occurs in the list.  Keys are hex
    /// values, 0 through 15.
    pub fn register_keydown(&mut self, keys: &[u8])
        requires
            old(self)@.wf(),
            forall|j: int| 0 <= j < keys@.len() ==> keys@[j] < 16,
        ensures
            final(self)@ == set_keys_spec(old(self)@, keys@),
            final(self)@.wf(),
    {
        let mut k: usize = 0;
        while k < 16
            invariant
                old(self)@.wf(),
                k <= 16,
                self@ == (VmView { keys: self@.keys, ..old(self)@ }),
                self@.keys.len() == 16,
                forall|t: int| 0 <= t < k ==> !self@.keys[t],
                forall|t: int| k <= t < 16 ==> self@.keys[t] == old(self)@.keys[t],
            decreases 16 - k,
        {
            self.keys_pressed[k] = false;
            k += 1;
        }
        let mut j: usize = 0;
        while j < keys.len()
            invariant
                old(self)@.wf(),
                forall|t: int| 0 <= t < keys@.len() ==> keys@[t] < 16,
                j <= keys@.len(),
                self@ == (VmView { keys: self@.keys, ..old(self)@ }),
                self@.keys.len() == 16,
                forall|t: int|
                    0 <= t < 16 ==> self@.keys[t] == keys@.subrange(0, j as int).contains(t as u8),
            decreases keys@.len() - j,
        {
            let ghost keys_before = self@.keys;
            let key = keys[j] as usize;
            self.keys_pressed[key] = true;
            proof {
                let sub = keys@.subrange(0, j as int);
                let sub1 = keys@.subrange(0, j as int + 1);
                assert(sub1 =~= sub.push(keys@[j as int]));
                assert forall|t: int| 0 <= t < 16 implies #[trigger] self@.keys[t]
                    == sub1.contains(t as u8) by {
                    if t == key as int {
                        assert(sub1[sub1.len() - 1] == t as u8);
                        assert(sub1.contains(t as u8));
                    } else {
                        assert(self@.keys[t] == keys_before[t]);
                        if sub1.contains(t as u8) {
                            let idx = choose|idx: int|
                                0 <= idx < sub1.len() && sub1[idx] == t as u8;
                            assert(idx < sub.len());
                            assert(sub[idx] == t as u8);
                            assert(sub.contains(t as u8));
                        }
                        if sub.contains(t as u8) {
                            let idx = choose|idx: int| 0 <= idx < sub.len() && sub[idx] == t as u8;
                            assert(sub1[idx] == t as u8);
                            assert(sub1.contains(t as u8));
                        }
                    }
                }
            }
            j += 1;
        }
        proof {
            assert(keys@.subrange(0, keys@.len() as int) =~= keys@);
            assert(self@.keys =~= set_keys_spec(old(self)@, keys@).keys);
        }
    }

    /// The value of register Vx.
    pub fn register(&self, index: usize) -> (v: u8)
        requires
            self@.wf(),
            index < 16,
        ensures
            v == self@.regs[index as int],
    {
        self.registers[index]
    }

    /// The program counter.
    pub fn program_counter(&self) -> (v: u16)
        ensures
            v == self@.pc,
    {
        self.pc
    }

    /// The index register I.
    pub fn index_register(&self) -> (v: u16)
        ensures
            v == self@.i,
    {
        self.i
    }

    /// How many return addresses the call stack holds.
    pub fn stack_depth(&self) -> (n: usize)
        ensures
            n == self@.stack.len(),
    {
        self.stack.len()
    }

    /// Whether the machine is running or parked on a wait-for-key
    /// instruction.
    pub fn mode(&self) -> (m: Mode)
        ensures
            m == self@.mode,
    {
        self.mode
    }

    /// Convert the machine state to nicely formatted text: the sixteen
    /// registers with their values in hex, then I, PC, DT and ST.  The
    /// text is for diagnostic reading only; its layout is not a
    /// stability contract, so nothing is promised of it beyond being
    /// nonempty, and the machine itself is untouched.
    pub fn get_pretty_debug_info(&mut self) -> (out: String)
        requires
            old(self)@.wf(),
        ensures
            *final(self) == *old(self),
            out@.len() > 0,
    {
        let mut out = String::new();
        proof {
            reveal_strlit("registers |");
        }
        out.append("registers |");
        let mut k: usize = 0;
        while k < 16
            invariant
                old(self)@.wf(),
                *self == *old(self),
                k <= 16,
                out@.len() > 0,
            decreases 16 - k,
        {
            out.append(" ");
            out.append(hex_digit_str(k as u8));
            out.append(" |");
            k += 1;
        }
        out.append("
values    |");
        let mut k2: usize = 0;
        while k2 < 16
            invariant
                old(self)@.wf(),
                *self == *old(self),
                k2 <= 16,
                out@.len() > 0,
            decreases 16 - k2,
        {
            let v = self.registers[k2];
            out.append(" ");
            out.append(hex_digit_str(v / 16));
            out.append(hex_digit_str(v % 16));
            out.append(" |");
            k2 += 1;
        }
        out.append("
Register I: ");
        append_hex_u16(&mut out, self.i);
        out.append("
PC: ");
        append_hex_u16(&mut out, self.pc);
        out.append(" DT: ");
        append_decimal_u8(&mut out, self.dt);
        out.append(" ST: ");
        append_decimal_u8(&mut out, self.st);
        out
    }
}

/// The character for one hex digit.
fn hex_digit_str(d: u8) -> &'static str
    requires
        d < 16,
{
    if d == 0 {
        "0"
    } else if d == 1 {
        "1"
    } else if d == 2 {
        "2"
    } else if d == 3 {
        "3"
    } else if d == 4 {
        "4"
    } else if d == 5 {
        "5"
    } else if d == 6 {
        "6"
    } else if d == 7 {
        "7"
    } else if d == 8 {
        "8"
    } else if d == 9 {
        "9"
    } else if d == 10 {
        "A"
    } else if d == 11 {
        "B"
    } else if d == 12 {
        "C"
    } else if d == 13 {
        "D"
    } else if d == 14 {
        "E"
    } else {
        "F"
    }
}

/// Append the four hex digits of a 16-bit value.
fn append_hex_u16(out: &mut String, v: u16)
    ensures
        final(out)@.len() >= old(out)@.len(),
{
    out.append(hex_digit_str((v / 4096) as u8));
    out.append(hex_digit_str((v / 256 % 16) as u8));
    out.append(hex_digit_str((v / 16 % 16) as u8));
    out.append(hex_digit_str((v % 16) as u8));
}

/// Append the three decimal digits of a byte.
fn append_decimal_u8(out: &mut String, v: u8)
    ensures
        final(out)@.len() >= old(out)@.len(),
{
    out.append(hex_digit_str(v / 100));
    out.append(hex_digit_str(v / 10 % 10));
    out.append(hex_digit_str(v % 10));
}

} // verus!
