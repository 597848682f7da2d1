//! The library's general laws, stated and proved over the model.

use vstd::prelude::*;

use crate::fault::Fault;
use crate::instr::{decode_spec, Instr};
use crate::model::{
    draw_collision, drw_spec, fetch_opcode, load_regs_file, pc_back2, pc_fwd2, sprite_bit,
    step_spec, store_regs_mem, Mode, VmView,
};

verus! {

/// Parking the program counter two back of a target and then advancing
/// it by two lands exactly on the target, whatever the target.
pub proof fn lemma_pc_redirect_roundtrip(target: u16)
    ensures
        pc_fwd2(pc_back2(target)) == target,
{
}

/// Round trip of the bulk register moves: storing registers V0..Vx to
/// memory at I and loading them back from the same address — into any
/// register file, a zeroed one included — reproduces the original
/// values exactly.  This holds because neither move touches I, and both
/// walk the same addresses I..I+x in the same order.
pub proof fn lemma_store_load_roundtrip(
    mem: Seq<u8>,
    regs: Seq<u8>,
    other: Seq<u8>,
    i: int,
    x: int,
)
    requires
        mem.len() == 4096,
        regs.len() == 16,
        other.len() == 16,
        0 <= x < 16,
        0 <= i,
        i + x < 4096,
    ensures
        forall|k: int|
            0 <= k <= x ==> #[trigger] load_regs_file(
                other,
                store_regs_mem(mem, regs, i, x),
                i,
                x,
            )[k] == regs[k],
{
}

/// A CALL followed by the RET at its target returns the program counter
/// to the instruction immediately following the CALL, and leaves the
/// whole machine — the call stack included — exactly as it was but for
/// that counter.
///
/// The hypotheses say that the machine is running, that the two bytes at
/// the program counter hold a CALL (top nibble 2) whose fetch is in
/// bounds, that the call stack has room, and that the CALL's target
/// holds the RET opcode `00EE` with its fetch in bounds too.  The random
/// bytes `b1` and `b2` of the two steps are arbitrary: neither
/// instruction consults the random source.
pub proof fn lemma_call_ret(v: VmView, b1: u8, b2: u8)
    requires
        v.wf(),
        v.mode == Mode::Running,
        v.pc as int + 1 < 4096,
        fetch_opcode(v.mem, v.pc as int) >> 12 == 0x2,
        v.stack.len() < 16,
        (fetch_opcode(v.mem, v.pc as int) & 0xfff) as int + 1 < 4096,
        fetch_opcode(v.mem, (fetch_opcode(v.mem, v.pc as int) & 0xfff) as int) == 0x00EE,
    ensures
        step_spec(v, b1) matches Ok(s1) && step_spec(s1, b2) matches Ok(s2) && s2 == (VmView {
            pc: pc_fwd2(v.pc),
            ..v
        }),
{
    let opcode = fetch_opcode(v.mem, v.pc as int);
    let target = opcode & 0xfff;
    assert(opcode >> 12 == 0x2 ==> opcode != 0x00E0 && opcode != 0x00EE) by (bit_vector);
    assert(decode_spec(opcode, v.pc) == Ok::<Instr, crate::fault::Fault>(
        Instr::Call { nnn: target },
    ));
    let s1 = match step_spec(v, b1) {
        Ok(s1) => s1,
        Err(_) => v,
    };
    assert(s1.pc == pc_fwd2(pc_back2(target)));
    lemma_pc_redirect_roundtrip(target);
    assert(s1.pc == target);
    assert(s1.stack == v.stack.push(v.pc));
    assert(fetch_opcode(s1.mem, s1.pc as int) == 0x00EE);
    let s2 = match step_spec(s1, b2) {
        Ok(s2) => s2,
        Err(_) => v,
    };
    assert(s2.pc == pc_fwd2(v.pc));
    assert(s2.stack =~= v.stack);
    assert(s2 =~~= (VmView { pc: pc_fwd2(v.pc), ..v }));
}

/// The collision flag of a draw reports exactly whether some display
/// cell went from lit to dark during it: after a successful draw, VF is
/// 1 when such a cell exists and 0 otherwise — never any other value.
pub proof fn lemma_draw_collision_iff(v: VmView, xr: int, yr: int, n: int, post: VmView)
    requires
        v.wf(),
        0 <= xr < 16,
        0 <= yr < 16,
        0 <= n < 16,
        drw_spec(v, xr, yr, n) == Ok::<VmView, Fault>(post),
    ensures
        post.regs[15] == 1 <==> exists|r: int, c: int|
            0 <= r < 32 && 0 <= c < 64 && v.disp[r][c] == 1 && #[trigger] post.disp[r][c] == 0,
        post.regs[15] == 0 || post.regs[15] == 1,
{
    let x = (v.regs[xr] as int) % 64;
    let y = (v.regs[yr] as int) % 32;
    if draw_collision(v.disp, v.mem, v.i as int, x, y, n) {
        let (r, c) = choose|r: int, c: int|
            0 <= r < 32 && 0 <= c < 64 && #[trigger] sprite_bit(v.mem, v.i as int, x, y, n, r, c)
                && v.disp[r][c] == 1;
        assert(post.disp[r][c] == 0);
    }
    if exists|r: int, c: int|
        0 <= r < 32 && 0 <= c < 64 && v.disp[r][c] == 1 && #[trigger] post.disp[r][c] == 0 {
        let (r, c) = choose|r: int, c: int|
            0 <= r < 32 && 0 <= c < 64 && v.disp[r][c] == 1 && #[trigger] post.disp[r][c] == 0;
        assert(sprite_bit(v.mem, v.i as int, x, y, n, r, c));
        assert(draw_collision(v.disp, v.mem, v.i as int, x, y, n));
    }
}

} // verus!
