use vstd::prelude::*;
use crate::cpu::{lemma_split_combine, spec_hi, spec_lo};
use crate::program::{
    flag8, spec_add, spec_call, spec_movbcd, spec_rts, spec_shr, spec_sprite, spec_sub,
    sprite_collision, sprite_hit, MachineView,
};

verus! {

// ---------------------------------------------------------------------------
// The laws the instruction set obeys, stated over the machine model and
// proved from the transition functions that the executable instructions are
// verified against.
// ---------------------------------------------------------------------------

/// Register add law: for any two register values, the destination receives
/// their sum modulo 256 (unless the destination is the flag register
/// itself, which the flag write then overwrites), and the flag register
/// receives 1 exactly when the sum exceeds 255, else 0.
pub proof fn lemma_add_law(m: MachineView, reg1: u8, reg2: u8)
    requires
        m.wf(),
        reg1 < 16,
        reg2 < 16,
    ensures
        reg1 != 15 ==> spec_add(m, reg1, reg2).regs[reg1 as int] == (m.regs[reg1 as int]
            + m.regs[reg2 as int]) % 256,
        spec_add(m, reg1, reg2).regs[15] == flag8(
            m.regs[reg1 as int] + m.regs[reg2 as int] > 255,
        ),
{
}

/// Register subtract law: the flag register receives 1 exactly when the
/// minuend strictly exceeds the subtrahend, independent of wraparound in
/// the stored result, which (for a destination other than the flag
/// register) is the difference modulo 256.
pub proof fn lemma_sub_law(m: MachineView, reg1: u8, reg2: u8)
    requires
        m.wf(),
        reg1 < 16,
        reg2 < 16,
    ensures
        spec_sub(m, reg1, reg2).regs[15] == flag8(m.regs[reg1 as int] > m.regs[reg2 as int]),
        reg1 != 15 ==> spec_sub(m, reg1, reg2).regs[reg1 as int] == (m.regs[reg1 as int]
            - m.regs[reg2 as int]) % 256,
{
}

/// Shift-right law: the flag register receives the input's
/// least-significant bit, and the stored result (for a destination other
/// than the flag register) is the input integer-divided by 2.
pub proof fn lemma_shr_law(m: MachineView, reg1: u8)
    requires
        m.wf(),
        reg1 < 16,
    ensures
        spec_shr(m, reg1).regs[15] == m.regs[reg1 as int] & 1,
        reg1 != 15 ==> spec_shr(m, reg1).regs[reg1 as int] == m.regs[reg1 as int] / 2,
{
}

/// BCD store law: for any register value, the three digits the BCD
/// instruction stores at index, index+1 and index+2, read back and
/// recombined as 100*h + 10*t + o, equal the value, and each digit is a
/// proper decimal digit.
pub proof fn lemma_bcd_round_trip(m: MachineView, reg: u8)
    requires
        m.wf(),
        reg < 16,
        m.i + 2 < 4096,
    ensures
        ({
            let stored = spec_movbcd(m, reg).ram;
            &&& 100 * stored[m.i as int] + 10 * stored[m.i as int + 1] + stored[m.i as int + 2]
                == m.regs[reg as int]
            &&& stored[m.i as int] < 10
            &&& stored[m.i as int + 1] < 10
            &&& stored[m.i as int + 2] < 10
        }),
{
    let v = m.regs[reg as int] as int;
    assert(0 <= v < 256);
    assert(100 * (v / 100) + 10 * ((v / 10) % 10) + v % 10 == v) by (nonlinear_arith)
        requires
            0 <= v < 256,
    ;
}

/// Sprite idempotence law: drawing the identical sprite at the identical
/// position twice in succession restores every touched pixel to its
/// original state, and leaves the flag register reflecting the second
/// draw's collisions. "Identical position" is the premise that the position
/// registers still hold their values when the second draw reads them; it
/// holds in particular whenever neither position register is the flag
/// register, which the first draw writes.
pub proof fn lemma_sprite_draw_twice_restores(m: MachineView, reg1: u8, reg2: u8, h: u8)
    requires
        m.wf(),
        reg1 < 16,
        reg2 < 16,
        h < 16,
        spec_sprite(m, reg1, reg2, h).regs[reg1 as int] == m.regs[reg1 as int],
        spec_sprite(m, reg1, reg2, h).regs[reg2 as int] == m.regs[reg2 as int],
        m.i + h <= 4096,
    ensures
        ({
            let once = spec_sprite(m, reg1, reg2, h);
            let twice = spec_sprite(once, reg1, reg2, h);
            let x = m.regs[reg1 as int] & 63;
            let y = m.regs[reg2 as int] & 31;
            &&& twice.screen == m.screen
            &&& twice.regs == m.regs.update(15, flag8(sprite_collision(once, x, y, h)))
            &&& twice.ram == m.ram
            &&& twice.i == m.i
            &&& twice.pc == m.pc
            &&& twice.sp == m.sp
            &&& twice.delay == m.delay
            &&& twice.sound == m.sound
            &&& twice.keys == m.keys
        }),
{
    let once = spec_sprite(m, reg1, reg2, h);
    let twice = spec_sprite(once, reg1, reg2, h);
    let x = m.regs[reg1 as int] & 63;
    let y = m.regs[reg2 as int] & 31;
    assert(once.regs[reg1 as int] == m.regs[reg1 as int]);
    assert(once.regs[reg2 as int] == m.regs[reg2 as int]);
    // the second draw reads the same sprite bytes from the same place and
    // lands on the same cells
    assert forall|px: int, py: int|
        #[trigger] sprite_hit(once, x, y, h, px, py) == sprite_hit(m, x, y, h, px, py) by {}
    assert(twice.screen =~= m.screen);
    assert(twice.regs =~= m.regs.update(15, flag8(sprite_collision(once, x, y, h))));
}

/// Call/return round-trip law: any sequence of calls, each from the state
/// the previous one left, followed by as many returns, restores the
/// program counter and the stack pointer, and leaves memory at and below
/// the original stack pointer's slot untouched. The stack must have room
/// for all the frames.
pub open spec fn spec_calls(m: MachineView, addrs: Seq<u16>) -> MachineView
    decreases addrs.len(),
{
    if addrs.len() == 0 {
        m
    } else {
        spec_calls(spec_call(m, addrs[0]), addrs.drop_first())
    }
}

/// `n` successive returns.
pub open spec fn spec_returns(m: MachineView, n: nat) -> MachineView
    decreases n,
{
    if n == 0 {
        m
    } else {
        spec_rts(spec_returns(m, (n - 1) as nat))
    }
}

pub proof fn lemma_call_return_round_trip(m: MachineView, addrs: Seq<u16>)
    requires
        m.wf(),
        m.sp + 2 * addrs.len() + 1 < 4096,
    ensures
        ({
            let after = spec_returns(spec_calls(m, addrs), addrs.len());
            &&& after.pc == m.pc
            &&& after.sp == m.sp
            &&& forall|j: int| 0 <= j <= m.sp + 1 ==> after.ram[j] == m.ram[j]
        }),
    decreases addrs.len(),
{
    if addrs.len() == 0 {
    } else {
        let m1 = spec_call(m, addrs[0]);
        assert(m.sp + 3 < 4096);
        assert(m1.sp == m.sp + 2);
        assert(m1.pc == addrs[0]);
        assert(m1.wf());
        lemma_call_return_round_trip(m1, addrs.drop_first());
        let u = spec_returns(spec_calls(m1, addrs.drop_first()), addrs.drop_first().len());
        assert(u.sp == m.sp + 2);
        assert(u.ram[m.sp + 2] == m1.ram[m.sp + 2]);
        assert(u.ram[m.sp + 3] == m1.ram[m.sp + 3]);
        assert(m1.ram[m.sp + 2] == spec_hi(m.pc));
        assert(m1.ram[m.sp + 3] == spec_lo(m.pc));
        let after = spec_rts(u);
        lemma_split_combine(m.pc);
        assert(after.pc == m.pc);
        assert(after.sp == m.sp);
        assert(spec_returns(spec_calls(m, addrs), addrs.len()) == after);
    }
}

} // verus!
