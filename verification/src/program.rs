use vstd::prelude::*;
use crate::cpu::{Cpu, spec_hi, spec_lo};
use crate::opcode::spec_combine;

verus! {

/// The mathematical model of the whole machine: CPU state plus the execution
/// state (program counter, stack pointer, length of the loaded program).
#[verifier::ext_equal]
pub ghost struct MachineView {
    pub ram: Seq<u8>,
    pub regs: Seq<u8>,
    pub i: u16,
    pub delay: u8,
    pub sound: u8,
    pub keys: Seq<bool>,
    pub screen: Seq<bool>,
    pub dirty: bool,
    pub pc: u16,
    pub sp: u16,
    pub rom_len: nat,
}

impl MachineView {
    pub open spec fn wf(self) -> bool {
        &&& self.ram.len() == 4096
        &&& self.regs.len() == 16
        &&& self.keys.len() == 16
        &&& self.screen.len() == 2048
        &&& self.rom_len <= 3584
    }
}

/// A loaded program together with the machine it runs on: the CPU state, the
/// program bytes, the target instruction frequency (instructions per second),
/// the program counter and the stack pointer.
///
/// The return-address stack lives inside machine memory: a call writes the
/// program counter big-endian at the location given by the stack pointer,
/// which grows by 2 per call and shrinks by 2 per return. This shares the
/// address space with program memory, as the modelled architecture does; the
/// executor refuses (as a no-op) any call or return whose stack access would
/// leave memory bounds, rather than corrupting state silently.
pub struct Program {
    pub cpu: Cpu,
    pub rom: Vec<u8>,
    pub frequency: u32,
    pub pc: u16,
    pub sp: u16,
}

impl View for Program {
    type V = MachineView;

    open spec fn view(&self) -> MachineView {
        MachineView {
            ram: self.cpu.ram@,
            regs: self.cpu.gp_reg@,
            i: self.cpu.i,
            delay: self.cpu.delay,
            sound: self.cpu.sound,
            keys: self.cpu.keystate@,
            screen: self.cpu.screen@,
            dirty: self.cpu.screen_dirty,
            pc: self.pc,
            sp: self.sp,
            rom_len: self.rom@.len(),
        }
    }
}

impl Program {
    pub open spec fn wf(&self) -> bool {
        self@.wf()
    }
}

/// Truncation to 8 bits.
pub open spec fn wrap8(v: int) -> u8 {
    (v % 256) as u8
}

/// Truncation to 16 bits.
pub open spec fn wrap16(v: int) -> u16 {
    (v % 0x10000) as u16
}

/// 1 when the condition holds, else 0: the value several instructions leave
/// in the flag register.
pub open spec fn flag8(b: bool) -> u8 {
    if b {
        1
    } else {
        0
    }
}

/// Loads a program into a fresh machine: memory zeroed but for the glyph
/// sprites, program bytes copied to 0x200, program counter at 0x200, stack
/// pointer at 0, default frequency 2000 instructions per second.
pub fn init_program(rom: Vec<u8>) -> (p: Program)
    requires
        rom@.len() <= 3584,
    ensures
        p.wf(),
        p.rom@ == rom@,
        p@.rom_len == rom@.len(),
        p@.pc == 0x200,
        p@.sp == 0,
        p@.i == 0,
        p@.delay == 0,
        p@.sound == 0,
        p@.dirty == false,
        p.frequency == 2000,
        forall|k: int| 0 <= k < 16 ==> p@.regs[k] == 0 && !p@.keys[k],
        forall|q: int| 0 <= q < 2048 ==> !p@.screen[q],
        forall|a: int| 0x200 <= a < 0x200 + rom@.len() ==> p@.ram[a] == rom@[a - 0x200],
        forall|a: int| 0x50 <= a < 0x50 + 80 ==> p@.ram[a] == crate::cpu::glyphs()[a - 0x50],
        forall|a: int|
            0 <= a < 4096 && !(0x50 <= a < 0x50 + 80) && !(0x200 <= a < 0x200 + rom@.len())
                ==> p@.ram[a] == 0,
{
    let mut cpu = Cpu::default();
    let ghost c0 = cpu;
    let mut k: usize = 0;
    while k < rom.len()
        invariant
            cpu.wf(),
            rom@.len() <= 3584,
            k <= rom@.len(),
            cpu.ram@.len() == 4096,
            forall|a: int| 0x200 <= a < 0x200 + k ==> cpu.ram@[a] == rom@[a - 0x200],
            forall|a: int| 0 <= a < 4096 && !(0x200 <= a < 0x200 + k) ==> cpu.ram@[a] == c0.ram@[a],
            cpu.gp_reg == c0.gp_reg,
            cpu.keystate == c0.keystate,
            cpu.screen == c0.screen,
            cpu.i == c0.i,
            cpu.delay == c0.delay,
            cpu.sound == c0.sound,
            cpu.screen_dirty == c0.screen_dirty,
        decreases rom@.len() - k,
    {
        cpu.ram.set(0x200 + k, rom[k]);
        k += 1;
    }

    Program { cpu, rom, frequency: 2000, pc: 0x200, sp: 0 }
}

} // verus!

verus! {

// ---------------------------------------------------------------------------
// Per-instruction transition functions on the machine model.
//
// Each one is total: where the real machine's raw behaviour would leave
// memory bounds (a call or return whose stack slot is outside memory, a
// skip that would run the program counter past its 16-bit range, a key test
// on a register holding more than 15), the transition leaves the machine
// unchanged and the executor refuses the access the same way.
// ---------------------------------------------------------------------------

/// Clear screen: every framebuffer cell off. The dirty flag records whether
/// any pixel changed since the last flush, so it is set exactly when some
/// pixel was on; clearing an already-clear screen changes nothing.
pub open spec fn spec_cls(m: MachineView) -> MachineView {
    MachineView {
        screen: Seq::new(2048, |q: int| false),
        dirty: m.dirty || exists|q: int| 0 <= q < 2048 && m.screen[q],
        ..m
    }
}

/// Return: pop a 16-bit address stored big-endian at the stack pointer, jump
/// there, shrink the stack by 2. Refused when the stack pointer is not at
/// least 2 or its two bytes would leave memory.
pub open spec fn spec_rts(m: MachineView) -> MachineView {
    if 2 <= m.sp && m.sp + 1 < 4096 {
        MachineView {
            pc: spec_combine(m.ram[m.sp as int], m.ram[m.sp as int + 1]),
            sp: (m.sp - 2) as u16,
            ..m
        }
    } else {
        m
    }
}

/// Jump: set the program counter to the 12-bit address.
pub open spec fn spec_jump(m: MachineView, address: u16) -> MachineView {
    MachineView { pc: address, ..m }
}

/// Call: grow the stack by 2, store the current program counter big-endian
/// at the new stack pointer, jump. Refused when the slot would leave memory.
pub open spec fn spec_call(m: MachineView, address: u16) -> MachineView {
    if m.sp + 3 < 4096 {
        MachineView {
            sp: (m.sp + 2) as u16,
            ram: m.ram
                .update(m.sp as int + 2, spec_hi(m.pc))
                .update(m.sp as int + 3, spec_lo(m.pc)),
            pc: address,
            ..m
        }
    } else {
        m
    }
}

/// Conditional skip: advance the program counter by an extra 2 when the
/// condition holds, skipping the next instruction. Refused when the counter
/// would overflow its 16 bits.
pub open spec fn spec_skip(m: MachineView, cond: bool) -> MachineView {
    if cond && m.pc + 2 <= 0xFFFF {
        MachineView { pc: (m.pc + 2) as u16, ..m }
    } else {
        m
    }
}

pub open spec fn spec_skipeqi(m: MachineView, reg: u8, nn: u8) -> MachineView {
    spec_skip(m, m.regs[reg as int] == nn)
}

pub open spec fn spec_skipnei(m: MachineView, reg: u8, nn: u8) -> MachineView {
    spec_skip(m, m.regs[reg as int] != nn)
}

pub open spec fn spec_skipeq(m: MachineView, reg1: u8, reg2: u8) -> MachineView {
    spec_skip(m, m.regs[reg1 as int] == m.regs[reg2 as int])
}

pub open spec fn spec_skipne(m: MachineView, reg1: u8, reg2: u8) -> MachineView {
    spec_skip(m, m.regs[reg1 as int] != m.regs[reg2 as int])
}

/// Load immediate.
pub open spec fn spec_mvi(m: MachineView, reg: u8, nn: u8) -> MachineView {
    MachineView { regs: m.regs.update(reg as int, nn), ..m }
}

/// Add immediate, wrapping modulo 256, no flag.
pub open spec fn spec_addi(m: MachineView, reg: u8, nn: u8) -> MachineView {
    MachineView { regs: m.regs.update(reg as int, wrap8(m.regs[reg as int] + nn)), ..m }
}

pub open spec fn spec_mv(m: MachineView, reg1: u8, reg2: u8) -> MachineView {
    MachineView { regs: m.regs.update(reg1 as int, m.regs[reg2 as int]), ..m }
}

pub open spec fn spec_or(m: MachineView, reg1: u8, reg2: u8) -> MachineView {
    MachineView {
        regs: m.regs.update(reg1 as int, m.regs[reg1 as int] | m.regs[reg2 as int]),
        ..m
    }
}

pub open spec fn spec_and(m: MachineView, reg1: u8, reg2: u8) -> MachineView {
    MachineView {
        regs: m.regs.update(reg1 as int, m.regs[reg1 as int] & m.regs[reg2 as int]),
        ..m
    }
}

pub open spec fn spec_xor(m: MachineView, reg1: u8, reg2: u8) -> MachineView {
    MachineView {
        regs: m.regs.update(reg1 as int, m.regs[reg1 as int] ^ m.regs[reg2 as int]),
        ..m
    }
}

/// Register add: the destination holds the sum modulo 256; the flag register
/// holds 1 exactly when the unsigned sum exceeds 255, else 0.
pub open spec fn spec_add(m: MachineView, reg1: u8, reg2: u8) -> MachineView {
    MachineView {
        regs: m.regs
            .update(reg1 as int, wrap8(m.regs[reg1 as int] + m.regs[reg2 as int]))
            .update(15, flag8(m.regs[reg1 as int] + m.regs[reg2 as int] > 255)),
        ..m
    }
}

/// Register subtract: the destination holds the difference modulo 256; the
/// flag register holds 1 exactly when the minuend strictly exceeds the
/// subtrahend, else 0, independent of wraparound in the stored result.
pub open spec fn spec_sub(m: MachineView, reg1: u8, reg2: u8) -> MachineView {
    MachineView {
        regs: m.regs
            .update(reg1 as int, wrap8(m.regs[reg1 as int] - m.regs[reg2 as int]))
            .update(15, flag8(m.regs[reg1 as int] > m.regs[reg2 as int])),
        ..m
    }
}

/// Shift right: the result is the input divided by 2; the flag register
/// holds the input's least-significant bit.
pub open spec fn spec_shr(m: MachineView, reg1: u8) -> MachineView {
    MachineView {
        regs: m.regs
            .update(reg1 as int, m.regs[reg1 as int] / 2)
            .update(15, m.regs[reg1 as int] & 1),
        ..m
    }
}

/// Reverse subtract: the destination holds subtrahend minus minuend modulo
/// 256; the flag register holds 1 exactly when the second operand strictly
/// exceeds the first.
pub open spec fn spec_sub2(m: MachineView, reg1: u8, reg2: u8) -> MachineView {
    MachineView {
        regs: m.regs
            .update(reg1 as int, wrap8(m.regs[reg2 as int] - m.regs[reg1 as int]))
            .update(15, flag8(m.regs[reg2 as int] > m.regs[reg1 as int])),
        ..m
    }
}

/// Shift left: the result is the input doubled modulo 256; the flag register
/// holds the input's most-significant bit.
pub open spec fn spec_shl(m: MachineView, reg1: u8) -> MachineView {
    MachineView {
        regs: m.regs
            .update(reg1 as int, wrap8(2 * m.regs[reg1 as int]))
            .update(15, m.regs[reg1 as int] >> 7),
        ..m
    }
}

/// Load index register.
pub open spec fn spec_mvii(m: MachineView, nn: u16) -> MachineView {
    MachineView { i: nn, ..m }
}

/// Jump to the address plus register 0.
pub open spec fn spec_jumpv0(m: MachineView, address: u16) -> MachineView {
    MachineView { pc: wrap16(address + m.regs[0]), ..m }
}

/// Random AND: the register receives the random byte masked by the
/// immediate.
pub open spec fn spec_rand(m: MachineView, reg: u8, nn: u8, random: u8) -> MachineView {
    MachineView { regs: m.regs.update(reg as int, random & nn), ..m }
}

/// Skip if the key indexed by the register's value is pressed. Refused when
/// the register holds more than 15, which indexes no key.
pub open spec fn spec_skipkey(m: MachineView, reg: u8) -> MachineView {
    spec_skip(m, m.regs[reg as int] < 16 && m.keys[m.regs[reg as int] as int])
}

/// Skip if the key indexed by the register's value is not pressed. Refused
/// when the register holds more than 15.
pub open spec fn spec_skipnokey(m: MachineView, reg: u8) -> MachineView {
    spec_skip(m, m.regs[reg as int] < 16 && !m.keys[m.regs[reg as int] as int])
}

/// Copy the delay timer into the register.
pub open spec fn spec_mvdelay(m: MachineView, reg: u8) -> MachineView {
    MachineView { regs: m.regs.update(reg as int, m.delay), ..m }
}

/// Copy the register into the delay timer.
pub open spec fn spec_delaymv(m: MachineView, reg: u8) -> MachineView {
    MachineView { delay: m.regs[reg as int], ..m }
}

/// Copy the register into the sound timer.
pub open spec fn spec_soundmv(m: MachineView, reg: u8) -> MachineView {
    MachineView { sound: m.regs[reg as int], ..m }
}

/// Add the register's value to the index register, 16-bit wrapping, no flag.
pub open spec fn spec_addvi(m: MachineView, reg: u8) -> MachineView {
    MachineView { i: wrap16(m.i + m.regs[reg as int]), ..m }
}

/// Font pointer: the index register receives the glyph sprite base address
/// for the digit held in the register.
pub open spec fn spec_spritechar(m: MachineView, reg: u8) -> MachineView {
    MachineView { i: (0x50 + m.regs[reg as int] * 5) as u16, ..m }
}

/// BCD store: the register's value decomposed into hundreds, tens and ones,
/// stored at index, index+1, index+2. Refused when the three slots would
/// leave memory.
pub open spec fn spec_movbcd(m: MachineView, reg: u8) -> MachineView {
    if m.i + 2 < 4096 {
        let v = m.regs[reg as int] as int;
        MachineView {
            ram: m.ram
                .update(m.i as int, (v / 100) as u8)
                .update(m.i as int + 1, ((v / 10) % 10) as u8)
                .update(m.i as int + 2, (v % 10) as u8),
            ..m
        }
    } else {
        m
    }
}

/// Register block store: registers 0..=reg copied to memory starting at the
/// index register. Refused when the block would leave memory.
pub open spec fn spec_movm(m: MachineView, reg: u8) -> MachineView {
    if m.i + reg < 4096 {
        MachineView {
            ram: Seq::new(
                4096,
                |a: int|
                    if m.i <= a <= m.i + reg {
                        m.regs[a - m.i]
                    } else {
                        m.ram[a]
                    },
            ),
            ..m
        }
    } else {
        m
    }
}

/// Register block load: registers 0..=reg filled from memory starting at the
/// index register. Refused when the block would leave memory.
pub open spec fn spec_movmi(m: MachineView, reg: u8) -> MachineView {
    if m.i + reg < 4096 {
        MachineView {
            regs: Seq::new(
                16,
                |k: int|
                    if k <= reg {
                        m.ram[m.i + k]
                    } else {
                        m.regs[k]
                    },
            ),
            ..m
        }
    } else {
        m
    }
}

} // verus!

verus! {

// The instruction semantics. Each operation is specified exactly by its
// transition function on the machine model; the instruction mnemonics keep
// the architecture's traditional upper-case names.
#[allow(non_snake_case)]
impl Program {
    /// Clear screen; a pixel turned off is a change the next flush must
    /// deliver, so the dirty flag is set when any pixel was on.
    pub fn CLS(&mut self)
        requires
            old(self).wf(),
        ensures
            final(self).wf(),
            final(self)@ == spec_cls(old(self)@),
            final(self).rom == old(self).rom,
            final(self).frequency == old(self).frequency,
    {
        let ghost m0 = self@;
        let ghost rom0 = self.rom;
        let ghost freq0 = self.frequency;
        let mut any_on = false;
        let mut p: usize = 0;
        while p < 2048
            invariant
                self.cpu.wf(),
                p <= 2048,
                any_on == exists|q: int| 0 <= q < p && m0.screen[q],
                forall|j: int| 0 <= j < p ==> !self.cpu.screen@[j],
                forall|j: int| p <= j < 2048 ==> self.cpu.screen@[j] == m0.screen[j],
                m0.screen.len() == 2048,
                self.cpu.ram@ == m0.ram,
                self.cpu.gp_reg@ == m0.regs,
                self.cpu.keystate@ == m0.keys,
                self.cpu.i == m0.i,
                self.cpu.delay == m0.delay,
                self.cpu.sound == m0.sound,
                self.cpu.screen_dirty == m0.dirty,
                self.pc == m0.pc,
                self.sp == m0.sp,
                self.rom == rom0,
                self.frequency == freq0,
            decreases 2048 - p,
        {
            if self.cpu.screen[p] {
                any_on = true;
                proof {
                    assert(m0.screen[p as int]);
                    assert(exists|q: int| 0 <= q < p + 1 && m0.screen[q]);
                }
            }
            self.cpu.screen.set(p, false);
            p += 1;
        }
        if any_on {
            self.cpu.screen_dirty = true;
        }
        proof {
            assert(self@ =~= spec_cls(old(self)@));
        }
    }

    /// Return from a call.
    pub fn RTS(&mut self)
        requires
            old(self).wf(),
        ensures
            final(self).wf(),
            final(self)@ == spec_rts(old(self)@),
            final(self).rom == old(self).rom,
            final(self).frequency == old(self).frequency,
    {
        if self.sp >= 2 && self.sp < 4095 {
            let return_addr = self.cpu.peek_stack(self.sp);
            self.pc = return_addr;
            self.sp -= 2;
        }
        proof {
            assert(self@ =~= spec_rts(old(self)@));
        }
    }

    /// Unconditional jump.
    pub fn JUMP(&mut self, address: u16)
        requires
            old(self).wf(),
        ensures
            final(self).wf(),
            final(self)@ == spec_jump(old(self)@, address),
            final(self).rom == old(self).rom,
            final(self).frequency == old(self).frequency,
    {
        self.pc = address;
        proof {
            assert(self@ =~= spec_jump(old(self)@, address));
        }
    }

    /// Call a subroutine.
    pub fn CALL(&mut self, address: u16)
        requires
            old(self).wf(),
        ensures
            final(self).wf(),
            final(self)@ == spec_call(old(self)@, address),
            final(self).rom == old(self).rom,
            final(self).frequency == old(self).frequency,
    {
        if self.sp <= 4092 {
            self.sp += 2;
            let pc = self.pc;
            self.cpu.set_stack(pc, self.sp);
            self.pc = address;
        }
        proof {
            assert(self@ =~= spec_call(old(self)@, address));
        }
    }

    /// Skip the next instruction when the register equals the immediate.
    pub fn SKIPEQI(&mut self, reg: u8, nn: u8)
        requires
            old(self).wf(),
            reg < 16,
        ensures
            final(self).wf(),
            final(self)@ == spec_skipeqi(old(self)@, reg, nn),
            final(self).rom == old(self).rom,
            final(self).frequency == old(self).frequency,
    {
        if self.cpu.get_reg(reg) == nn && self.pc <= 0xFFFD {
            self.pc += 2;
        }
        proof {
            assert(self@ =~= spec_skipeqi(old(self)@, reg, nn));
        }
    }

    /// Skip the next instruction when the register differs from the
    /// immediate.
    pub fn SKIPNEI(&mut self, reg: u8, nn: u8)
        requires
            old(self).wf(),
            reg < 16,
        ensures
            final(self).wf(),
            final(self)@ == spec_skipnei(old(self)@, reg, nn),
            final(self).rom == old(self).rom,
            final(self).frequency == old(self).frequency,
    {
        if self.cpu.get_reg(reg) != nn && self.pc <= 0xFFFD {
            self.pc += 2;
        }
        proof {
            assert(self@ =~= spec_skipnei(old(self)@, reg, nn));
        }
    }

    /// Skip the next instruction when the two registers are equal.
    pub fn SKIPEQ(&mut self, reg1: u8, reg2: u8)
        requires
            old(self).wf(),
            reg1 < 16,
            reg2 < 16,
        ensures
            final(self).wf(),
            final(self)@ == spec_skipeq(old(self)@, reg1, reg2),
            final(self).rom == old(self).rom,
            final(self).frequency == old(self).frequency,
    {
        if self.cpu.get_reg(reg1) == self.cpu.get_reg(reg2) && self.pc <= 0xFFFD {
            self.pc += 2;
        }
        proof {
            assert(self@ =~= spec_skipeq(old(self)@, reg1, reg2));
        }
    }

    /// Skip the next instruction when the two registers differ.
    pub fn SKIPNE(&mut self, reg1: u8, reg2: u8)
        requires
            old(self).wf(),
            reg1 < 16,
            reg2 < 16,
        ensures
            final(self).wf(),
            final(self)@ == spec_skipne(old(self)@, reg1, reg2),
            final(self).rom == old(self).rom,
            final(self).frequency == old(self).frequency,
    {
        if self.cpu.get_reg(reg1) != self.cpu.get_reg(reg2) && self.pc <= 0xFFFD {
            self.pc += 2;
        }
        proof {
            assert(self@ =~= spec_skipne(old(self)@, reg1, reg2));
        }
    }

    /// Load an immediate into a register.
    pub fn MVI(&mut self, reg1: u8, nn: u8)
        requires
            old(self).wf(),
            reg1 < 16,
        ensures
            final(self).wf(),
            final(self)@ == spec_mvi(old(self)@, reg1, nn),
            final(self).rom == old(self).rom,
            final(self).frequency == old(self).frequency,
    {
        self.cpu.gp_reg.set(reg1 as usize, nn);
        proof {
            assert(self@ =~= spec_mvi(old(self)@, reg1, nn));
        }
    }

    /// Add an immediate into a register, wrapping modulo 256, no flag.
    pub fn ADDI(&mut self, reg1: u8, nn: u8)
        requires
            old(self).wf(),
            reg1 < 16,
        ensures
            final(self).wf(),
            final(self)@ == spec_addi(old(self)@, reg1, nn),
            final(self).rom == old(self).rom,
            final(self).frequency == old(self).frequency,
    {
        let v = u8::wrapping_add(self.cpu.get_reg(reg1), nn);
        self.cpu.gp_reg.set(reg1 as usize, v);
        proof {
            assert(self@ =~= spec_addi(old(self)@, reg1, nn));
        }
    }

    /// Copy one register into another.
    pub fn MV(&mut self, reg1: u8, reg2: u8)
        requires
            old(self).wf(),
            reg1 < 16,
            reg2 < 16,
        ensures
            final(self).wf(),
            final(self)@ == spec_mv(old(self)@, reg1, reg2),
            final(self).rom == old(self).rom,
            final(self).frequency == old(self).frequency,
    {
        let v = self.cpu.get_reg(reg2);
        self.cpu.gp_reg.set(reg1 as usize, v);
        proof {
            assert(self@ =~= spec_mv(old(self)@, reg1, reg2));
        }
    }

    /// Bitwise OR into the first register.
    pub fn OR(&mut self, reg1: u8, reg2: u8)
        requires
            old(self).wf(),
            reg1 < 16,
            reg2 < 16,
        ensures
            final(self).wf(),
            final(self)@ == spec_or(old(self)@, reg1, reg2),
            final(self).rom == old(self).rom,
            final(self).frequency == old(self).frequency,
    {
        let v = self.cpu.get_reg(reg1) | self.cpu.get_reg(reg2);
        self.cpu.gp_reg.set(reg1 as usize, v);
        proof {
            assert(self@ =~= spec_or(old(self)@, reg1, reg2));
        }
    }

    /// Bitwise AND into the first register.
    pub fn AND(&mut self, reg1: u8, reg2: u8)
        requires
            old(self).wf(),
            reg1 < 16,
            reg2 < 16,
        ensures
            final(self).wf(),
            final(self)@ == spec_and(old(self)@, reg1, reg2),
            final(self).rom == old(self).rom,
            final(self).frequency == old(self).frequency,
    {
        let v = self.cpu.get_reg(reg1) & self.cpu.get_reg(reg2);
        self.cpu.gp_reg.set(reg1 as usize, v);
        proof {
            assert(self@ =~= spec_and(old(self)@, reg1, reg2));
        }
    }

    /// Bitwise XOR into the first register.
    pub fn XOR(&mut self, reg1: u8, reg2: u8)
        requires
            old(self).wf(),
            reg1 < 16,
            reg2 < 16,
        ensures
            final(self).wf(),
            final(self)@ == spec_xor(old(self)@, reg1, reg2),
            final(self).rom == old(self).rom,
            final(self).frequency == old(self).frequency,
    {
        let v = self.cpu.get_reg(reg1) ^ self.cpu.get_reg(reg2);
        self.cpu.gp_reg.set(reg1 as usize, v);
        proof {
            assert(self@ =~= spec_xor(old(self)@, reg1, reg2));
        }
    }

    /// Register add: sum modulo 256 into the first register, flag register 1
    /// exactly when the unsigned sum exceeds 255.
    pub fn ADD(&mut self, reg1: u8, reg2: u8)
        requires
            old(self).wf(),
            reg1 < 16,
            reg2 < 16,
        ensures
            final(self).wf(),
            final(self)@ == spec_add(old(self)@, reg1, reg2),
            final(self).rom == old(self).rom,
            final(self).frequency == old(self).frequency,
    {
        let a = self.cpu.get_reg(reg1);
        let b = self.cpu.get_reg(reg2);
        let low = u8::wrapping_add(a, b);
        self.cpu.gp_reg.set(reg1 as usize, low);
        if (a as u16) + (b as u16) > 255 {
            self.cpu.gp_reg.set(15, 1);
        } else {
            self.cpu.gp_reg.set(15, 0);
        }
        proof {
            assert(self@ =~= spec_add(old(self)@, reg1, reg2));
        }
    }

    /// Register subtract: difference modulo 256 into the first register,
    /// flag register 1 exactly when the minuend strictly exceeds the
    /// subtrahend.
    pub fn SUB(&mut self, reg1: u8, reg2: u8)
        requires
            old(self).wf(),
            reg1 < 16,
            reg2 < 16,
        ensures
            final(self).wf(),
            final(self)@ == spec_sub(old(self)@, reg1, reg2),
            final(self).rom == old(self).rom,
            final(self).frequency == old(self).frequency,
    {
        let a = self.cpu.get_reg(reg1);
        let b = self.cpu.get_reg(reg2);
        let low = u8::wrapping_sub(a, b);
        self.cpu.gp_reg.set(reg1 as usize, low);
        if a > b {
            self.cpu.gp_reg.set(15, 1);
        } else {
            self.cpu.gp_reg.set(15, 0);
        }
        proof {
            assert(self@ =~= spec_sub(old(self)@, reg1, reg2));
        }
    }

    /// Shift right: value halved, flag register takes the old low bit.
    pub fn SHR(&mut self, reg1: u8)
        requires
            old(self).wf(),
            reg1 < 16,
        ensures
            final(self).wf(),
            final(self)@ == spec_shr(old(self)@, reg1),
            final(self).rom == old(self).rom,
            final(self).frequency == old(self).frequency,
    {
        let v = self.cpu.get_reg(reg1);
        self.cpu.gp_reg.set(reg1 as usize, v / 2);
        self.cpu.gp_reg.set(15, v & 0x01);
        proof {
            assert(self@ =~= spec_shr(old(self)@, reg1));
        }
    }

    /// Reverse subtract: second minus first modulo 256 into the first
    /// register, flag register 1 exactly when the second operand strictly
    /// exceeds the first.
    pub fn SUB2(&mut self, reg1: u8, reg2: u8)
        requires
            old(self).wf(),
            reg1 < 16,
            reg2 < 16,
        ensures
            final(self).wf(),
            final(self)@ == spec_sub2(old(self)@, reg1, reg2),
            final(self).rom == old(self).rom,
            final(self).frequency == old(self).frequency,
    {
        let a = self.cpu.get_reg(reg1);
        let b = self.cpu.get_reg(reg2);
        let low = u8::wrapping_sub(b, a);
        self.cpu.gp_reg.set(reg1 as usize, low);
        if b > a {
            self.cpu.gp_reg.set(15, 1);
        } else {
            self.cpu.gp_reg.set(15, 0);
        }
        proof {
            assert(self@ =~= spec_sub2(old(self)@, reg1, reg2));
        }
    }

    /// Shift left: value doubled modulo 256, flag register takes the old
    /// high bit.
    pub fn SHL(&mut self, reg1: u8)
        requires
            old(self).wf(),
            reg1 < 16,
        ensures
            final(self).wf(),
            final(self)@ == spec_shl(old(self)@, reg1),
            final(self).rom == old(self).rom,
            final(self).frequency == old(self).frequency,
    {
        let v = self.cpu.get_reg(reg1);
        let doubled = u8::wrapping_mul(v, 2);
        self.cpu.gp_reg.set(reg1 as usize, doubled);
        self.cpu.gp_reg.set(15, v >> 7);
        proof {
            assert(v >> 7 == (v as int) / 128) by (bit_vector);
            assert(self@ =~= spec_shl(old(self)@, reg1));
        }
    }

    /// Load the index register.
    pub fn MVII(&mut self, nn: u16)
        requires
            old(self).wf(),
        ensures
            final(self).wf(),
            final(self)@ == spec_mvii(old(self)@, nn),
            final(self).rom == old(self).rom,
            final(self).frequency == old(self).frequency,
    {
        self.cpu.i = nn;
        proof {
            assert(self@ =~= spec_mvii(old(self)@, nn));
        }
    }

    /// Jump to the 12-bit address plus register 0.
    pub fn JUMPV0(&mut self, address: u16)
        requires
            old(self).wf(),
            address < 0x1000,
        ensures
            final(self).wf(),
            final(self)@ == spec_jumpv0(old(self)@, address),
            final(self).rom == old(self).rom,
            final(self).frequency == old(self).frequency,
    {
        self.pc = address + self.cpu.get_reg(0) as u16;
        proof {
            assert(self@ =~= spec_jumpv0(old(self)@, address));
        }
    }

    /// Random AND: the register receives the given random byte masked by the
    /// immediate. The byte is injected by the caller, which draws it from an
    /// outside generator; passing it in keeps the semantics deterministic in
    /// the argument and testable.
    pub fn RAND(&mut self, reg: u8, nn: u8, random: u8)
        requires
            old(self).wf(),
            reg < 16,
        ensures
            final(self).wf(),
            final(self)@ == spec_rand(old(self)@, reg, nn, random),
            final(self).rom == old(self).rom,
            final(self).frequency == old(self).frequency,
    {
        self.cpu.gp_reg.set(reg as usize, random & nn);
        proof {
            assert(self@ =~= spec_rand(old(self)@, reg, nn, random));
        }
    }

    /// Skip the next instruction when the key indexed by the register's
    /// value is pressed.
    pub fn SKIPKEY(&mut self, reg: u8)
        requires
            old(self).wf(),
            reg < 16,
        ensures
            final(self).wf(),
            final(self)@ == spec_skipkey(old(self)@, reg),
            final(self).rom == old(self).rom,
            final(self).frequency == old(self).frequency,
    {
        let kv = self.cpu.get_reg(reg);
        if kv < 16 && self.cpu.keystate[kv as usize] && self.pc <= 0xFFFD {
            self.pc += 2;
        }
        proof {
            assert(self@ =~= spec_skipkey(old(self)@, reg));
        }
    }

    /// Skip the next instruction when the key indexed by the register's
    /// value is not pressed.
    pub fn SKIPNOKEY(&mut self, reg: u8)
        requires
            old(self).wf(),
            reg < 16,
        ensures
            final(self).wf(),
            final(self)@ == spec_skipnokey(old(self)@, reg),
            final(self).rom == old(self).rom,
            final(self).frequency == old(self).frequency,
    {
        let kv = self.cpu.get_reg(reg);
        if kv < 16 && !self.cpu.keystate[kv as usize] && self.pc <= 0xFFFD {
            self.pc += 2;
        }
        proof {
            assert(self@ =~= spec_skipnokey(old(self)@, reg));
        }
    }

    /// Copy the delay timer into the register.
    pub fn MVDELAY(&mut self, reg: u8)
        requires
            old(self).wf(),
            reg < 16,
        ensures
            final(self).wf(),
            final(self)@ == spec_mvdelay(old(self)@, reg),
            final(self).rom == old(self).rom,
            final(self).frequency == old(self).frequency,
    {
        let d = self.cpu.delay;
        self.cpu.gp_reg.set(reg as usize, d);
        proof {
            assert(self@ =~= spec_mvdelay(old(self)@, reg));
        }
    }

    /// Copy the register into the delay timer.
    pub fn DELAYMV(&mut self, reg: u8)
        requires
            old(self).wf(),
            reg < 16,
        ensures
            final(self).wf(),
            final(self)@ == spec_delaymv(old(self)@, reg),
            final(self).rom == old(self).rom,
            final(self).frequency == old(self).frequency,
    {
        self.cpu.delay = self.cpu.get_reg(reg);
        proof {
            assert(self@ =~= spec_delaymv(old(self)@, reg));
        }
    }

    /// Copy the register into the sound timer.
    pub fn SOUNDMV(&mut self, reg: u8)
        requires
            old(self).wf(),
            reg < 16,
        ensures
            final(self).wf(),
            final(self)@ == spec_soundmv(old(self)@, reg),
            final(self).rom == old(self).rom,
            final(self).frequency == old(self).frequency,
    {
        self.cpu.sound = self.cpu.get_reg(reg);
        proof {
            assert(self@ =~= spec_soundmv(old(self)@, reg));
        }
    }

    /// Add the register's value to the index register, 16-bit wrapping.
    pub fn ADDVI(&mut self, reg: u8)
        requires
            old(self).wf(),
            reg < 16,
        ensures
            final(self).wf(),
            final(self)@ == spec_addvi(old(self)@, reg),
            final(self).rom == old(self).rom,
            final(self).frequency == old(self).frequency,
    {
        let v = self.cpu.get_reg(reg) as u16;
        self.cpu.i = u16::wrapping_add(self.cpu.i, v);
        proof {
            assert(self@ =~= spec_addvi(old(self)@, reg));
        }
    }

    /// Font pointer: point the index register at the glyph sprite for the
    /// digit held in the register.
    pub fn SPRITECHAR(&mut self, reg: u8)
        requires
            old(self).wf(),
            reg < 16,
        ensures
            final(self).wf(),
            final(self)@ == spec_spritechar(old(self)@, reg),
            final(self).rom == old(self).rom,
            final(self).frequency == old(self).frequency,
    {
        let v = self.cpu.get_reg(reg) as u16;
        self.cpu.i = 0x50 + v * 5;
        proof {
            assert(self@ =~= spec_spritechar(old(self)@, reg));
        }
    }

    /// BCD store: hundreds, tens and ones of the register's value stored at
    /// index, index+1, index+2.
    pub fn MOVBCD(&mut self, reg: u8)
        requires
            old(self).wf(),
            reg < 16,
        ensures
            final(self).wf(),
            final(self)@ == spec_movbcd(old(self)@, reg),
            final(self).rom == old(self).rom,
            final(self).frequency == old(self).frequency,
    {
        if self.cpu.i < 4094 {
            let v = self.cpu.get_reg(reg);
            let idx = self.cpu.i as usize;
            self.cpu.ram.set(idx, v / 100);
            self.cpu.ram.set(idx + 1, (v / 10) % 10);
            self.cpu.ram.set(idx + 2, v % 10);
        }
        proof {
            assert(self@ =~= spec_movbcd(old(self)@, reg));
        }
    }

    /// Register block store: registers 0..=reg copied to memory at the index
    /// register.
    pub fn MOVM(&mut self, reg: u8)
        requires
            old(self).wf(),
            reg < 16,
        ensures
            final(self).wf(),
            final(self)@ == spec_movm(old(self)@, reg),
            final(self).rom == old(self).rom,
            final(self).frequency == old(self).frequency,
    {
        let ghost m0 = self@;
        let ghost rom0 = self.rom;
        let ghost freq0 = self.frequency;
        if (self.cpu.i as usize) + (reg as usize) < 4096 {
            let base = self.cpu.i as usize;
            let mut k: usize = 0;
            while k < reg as usize + 1
                invariant
                    self.cpu.wf(),
                    reg < 16,
                    k <= reg + 1,
                    base == m0.i,
                    base + reg < 4096,
                    forall|a: int| base <= a < base + k ==> self.cpu.ram@[a] == m0.regs[a - base],
                    forall|a: int|
                        0 <= a < 4096 && !(base <= a < base + k) ==> self.cpu.ram@[a] == m0.ram[a],
                    self.cpu.gp_reg@ == m0.regs,
                    self.cpu.keystate@ == m0.keys,
                    self.cpu.screen@ == m0.screen,
                    self.cpu.i == m0.i,
                    self.cpu.delay == m0.delay,
                    self.cpu.sound == m0.sound,
                    self.cpu.screen_dirty == m0.dirty,
                    self.pc == m0.pc,
                    self.sp == m0.sp,
                    self.rom == rom0,
                    self.frequency == freq0,
                decreases reg + 1 - k,
            {
                let v = self.cpu.gp_reg[k];
                self.cpu.ram.set(base + k, v);
                k += 1;
            }
        }
        proof {
            assert(self@ =~= spec_movm(old(self)@, reg));
        }
    }

    /// Register block load: registers 0..=reg filled from memory at the
    /// index register.
    pub fn MOVMI(&mut self, reg: u8)
        requires
            old(self).wf(),
            reg < 16,
        ensures
            final(self).wf(),
            final(self)@ == spec_movmi(old(self)@, reg),
            final(self).rom == old(self).rom,
            final(self).frequency == old(self).frequency,
    {
        let ghost m0 = self@;
        let ghost rom0 = self.rom;
        let ghost freq0 = self.frequency;
        if (self.cpu.i as usize) + (reg as usize) < 4096 {
            let base = self.cpu.i as usize;
            let mut k: usize = 0;
            while k < reg as usize + 1
                invariant
                    self.cpu.wf(),
                    reg < 16,
                    k <= reg + 1,
                    base == m0.i,
                    base + reg < 4096,
                    forall|j: int| 0 <= j < k ==> self.cpu.gp_reg@[j] == m0.ram[base + j],
                    forall|j: int| k <= j < 16 ==> self.cpu.gp_reg@[j] == m0.regs[j],
                    self.cpu.ram@ == m0.ram,
                    self.cpu.keystate@ == m0.keys,
                    self.cpu.screen@ == m0.screen,
                    self.cpu.i == m0.i,
                    self.cpu.delay == m0.delay,
                    self.cpu.sound == m0.sound,
                    self.cpu.screen_dirty == m0.dirty,
                    self.pc == m0.pc,
                    self.sp == m0.sp,
                    self.rom == rom0,
                    self.frequency == freq0,
                decreases reg + 1 - k,
            {
                let v = self.cpu.ram[base + k];
                self.cpu.gp_reg.set(k, v);
                k += 1;
            }
        }
        proof {
            assert(self@ =~= spec_movmi(old(self)@, reg));
        }
    }
}

} // verus!

verus! {

// ---------------------------------------------------------------------------
// Sprite drawing.
// ---------------------------------------------------------------------------

/// Whether the sprite bit aimed at the absolute pixel (px, py) is set: bit
/// 7-(px-x) of the sprite byte for row py-y, read from memory at the index
/// register.
pub open spec fn sprite_bit(ram: Seq<u8>, i: u16, x: u8, y: u8, px: int, py: int) -> bool {
    (ram[i + py - y] >> ((7 - (px - x)) as u8)) & 1 == 1
}

/// The pixel (px, py) is on screen and aimed at by a set bit of the sprite
/// of height `h` drawn at (x, y).
pub open spec fn sprite_hit(m: MachineView, x: u8, y: u8, h: u8, px: int, py: int) -> bool {
    &&& 0 <= px < 64 && 0 <= py < 32
    &&& x <= px < x + 8
    &&& y <= py < y + h
    &&& sprite_bit(m.ram, m.i, x, y, px, py)
}

/// Some set sprite bit lands on a pixel that is already on.
pub open spec fn sprite_collision(m: MachineView, x: u8, y: u8, h: u8) -> bool {
    exists|px: int, py: int| #[trigger] sprite_hit(m, x, y, h, px, py) && m.screen[px * 32 + py]
}

/// Sprite draw: the screen position comes from the two registers, wrapped
/// into the 64x32 grid; `h` consecutive memory bytes starting at the index
/// register are the bitmap, each byte one row drawn MSB-first. A set bit
/// toggles its pixel; an unset bit leaves it alone; pixels falling off the
/// right or bottom edge are skipped. The flag register ends 1 exactly when
/// some set bit found its pixel already on. Any visited pixel position
/// marks the framebuffer dirty. Refused when the bitmap bytes would leave
/// memory.
pub open spec fn spec_sprite(m: MachineView, reg1: u8, reg2: u8, h: u8) -> MachineView {
    if m.i + h <= 4096 {
        let x = m.regs[reg1 as int] & 63;
        let y = m.regs[reg2 as int] & 31;
        MachineView {
            screen: Seq::new(
                2048,
                |idx: int|
                    if sprite_hit(m, x, y, h, idx / 32, idx % 32) {
                        !m.screen[idx]
                    } else {
                        m.screen[idx]
                    },
            ),
            regs: m.regs.update(15, flag8(sprite_collision(m, x, y, h))),
            dirty: m.dirty || h > 0,
            ..m
        }
    } else {
        m
    }
}

/// As sprite_hit, but only for the first `t` sprite cells in row-major
/// order, 8 cells per row: the part of the sprite a partially finished draw
/// has already applied.
pub open spec fn sprite_hit_upto(m: MachineView, x: u8, y: u8, t: int, px: int, py: int) -> bool {
    &&& 0 <= px < 64 && 0 <= py < 32
    &&& x <= px < x + 8
    &&& y <= py
    &&& (py - y) * 8 + (px - x) < t
    &&& sprite_bit(m.ram, m.i, x, y, px, py)
}

/// As sprite_collision, over the first `t` sprite cells.
pub open spec fn collision_upto(m: MachineView, x: u8, y: u8, t: int) -> bool {
    exists|px: int, py: int|
        #[trigger] sprite_hit_upto(m, x, y, t, px, py) && m.screen[px * 32 + py]
}

/// After all 8*h cells the partial draw is the whole draw.
proof fn lemma_hit_full(m: MachineView, x: u8, y: u8, h: u8)
    ensures
        forall|px: int, py: int|
            #[trigger] sprite_hit_upto(m, x, y, 8 * (h as int), px, py) == sprite_hit(
                m,
                x,
                y,
                h,
                px,
                py,
            ),
{
}

impl Program {
    /// Draw a sprite; see spec_sprite for the full statement.
    #[allow(non_snake_case)]
    pub fn SPRITE(&mut self, reg1: u8, reg2: u8, height: u8)
        requires
            old(self).wf(),
            reg1 < 16,
            reg2 < 16,
            height < 16,
        ensures
            final(self).wf(),
            final(self)@ == spec_sprite(old(self)@, reg1, reg2, height),
            final(self).rom == old(self).rom,
            final(self).frequency == old(self).frequency,
    {
        let ghost m0 = self@;
        let ghost rom0 = self.rom;
        let ghost freq0 = self.frequency;
        if (self.cpu.i as usize) + (height as usize) > 4096 {
            proof {
                assert(self@ =~= spec_sprite(old(self)@, reg1, reg2, height));
            }
            return;
        }
        let xr = self.cpu.get_reg(reg1);
        let yr = self.cpu.get_reg(reg2);
        let x = xr & 63;
        let y = yr & 31;
        proof {
            assert(xr & 63 < 64 && yr & 31 < 32) by (bit_vector);
        }
        self.cpu.gp_reg.set(15, 0);

        let mut row: u8 = 0;
        while row < height
            invariant
                self.cpu.wf(),
                m0.wf(),
                height < 16,
                row <= height,
                x == m0.regs[reg1 as int] & 63,
                y == m0.regs[reg2 as int] & 31,
                x < 64,
                y < 32,
                m0.i + height <= 4096,
                self.cpu.ram@ == m0.ram,
                self.cpu.keystate@ == m0.keys,
                self.cpu.i == m0.i,
                self.cpu.delay == m0.delay,
                self.cpu.sound == m0.sound,
                self.pc == m0.pc,
                self.sp == m0.sp,
                self.rom == rom0,
                self.frequency == freq0,
                self.cpu.screen@.len() == 2048,
                forall|idx: int|
                    0 <= idx < 2048 ==> self.cpu.screen@[idx] == (if sprite_hit_upto(
                        m0,
                        x,
                        y,
                        8 * (row as int),
                        idx / 32,
                        idx % 32,
                    ) {
                        !m0.screen[idx]
                    } else {
                        m0.screen[idx]
                    }),
                self.cpu.gp_reg@.len() == 16,
                forall|j: int| 0 <= j < 16 && j != 15 ==> self.cpu.gp_reg@[j] == m0.regs[j],
                self.cpu.gp_reg@[15] == flag8(collision_upto(m0, x, y, 8 * (row as int))),
                self.cpu.screen_dirty == (m0.dirty || row > 0),
            decreases height - row,
        {
            let bits = self.cpu.ram[self.cpu.i as usize + row as usize];
            let mut col: u8 = 0;
            while col < 8
                invariant
                    self.cpu.wf(),
                    m0.wf(),
                    height < 16,
                    row < height,
                    col <= 8,
                    x == m0.regs[reg1 as int] & 63,
                    y == m0.regs[reg2 as int] & 31,
                    x < 64,
                    y < 32,
                    m0.i + height <= 4096,
                    bits == m0.ram[m0.i + row],
                    self.cpu.ram@ == m0.ram,
                    self.cpu.keystate@ == m0.keys,
                    self.cpu.i == m0.i,
                    self.cpu.delay == m0.delay,
                    self.cpu.sound == m0.sound,
                    self.pc == m0.pc,
                    self.sp == m0.sp,
                    self.rom == rom0,
                    self.frequency == freq0,
                    self.cpu.screen@.len() == 2048,
                    forall|idx: int|
                        0 <= idx < 2048 ==> self.cpu.screen@[idx] == (if sprite_hit_upto(
                            m0,
                            x,
                            y,
                            8 * (row as int) + col as int,
                            idx / 32,
                            idx % 32,
                        ) {
                            !m0.screen[idx]
                        } else {
                            m0.screen[idx]
                        }),
                    self.cpu.gp_reg@.len() == 16,
                    forall|j: int| 0 <= j < 16 && j != 15 ==> self.cpu.gp_reg@[j] == m0.regs[j],
                    self.cpu.gp_reg@[15] == flag8(
                        collision_upto(m0, x, y, 8 * (row as int) + col as int),
                    ),
                    self.cpu.screen_dirty == (m0.dirty || row > 0 || col > 0),
                decreases 8 - col,
            {
                let ghost t = 8 * (row as int) + col as int;
                let ghost pxi = x as int + col as int;
                let ghost pyi = y as int + row as int;
                let px = x + col;
                let py = y + row;
                if px < 64 && py < 32 {
                    let idx = (px as usize) * 32 + (py as usize);
                    let bit = (bits >> (7 - col)) & 0x01 == 1;
                    proof {
                        assert(idx == pxi * 32 + pyi);
                        assert(idx / 32 == pxi && idx % 32 == pyi);
                        assert(bit == sprite_bit(m0.ram, m0.i, x, y, pxi, pyi));
                        // the cell being drawn is not yet part of the
                        // partial sprite, so the screen still shows its
                        // original value there
                        assert((pyi - y) * 8 + (pxi - x) == t);
                        assert(!sprite_hit_upto(m0, x, y, t, pxi, pyi));
                    }
                    let on = self.cpu.screen[idx];
                    proof {
                        assert(on == m0.screen[idx as int]);
                    }
                    if bit && on {
                        self.cpu.screen.set(idx, false);
                        self.cpu.gp_reg.set(15, 1);
                        proof {
                            assert(sprite_hit_upto(m0, x, y, t + 1, pxi, pyi)
                                && m0.screen[pxi * 32 + pyi]);
                            assert(collision_upto(m0, x, y, t + 1));
                        }
                    } else if bit && !on {
                        self.cpu.screen.set(idx, true);
                    }
                    self.cpu.screen_dirty = true;
                    proof {
                        if !(bit && on) {
                            // no new collision: any witness for t+1 cells is
                            // a witness for t cells
                            if collision_upto(m0, x, y, t + 1) {
                                let (wx, wy) = choose|wx: int, wy: int|
                                    #[trigger] sprite_hit_upto(m0, x, y, t + 1, wx, wy)
                                        && m0.screen[wx * 32 + wy];
                                if (wy - y) * 8 + (wx - x) == t {
                                    assert(wx == pxi && wy == pyi);
                                    assert(false);
                                } else {
                                    assert(sprite_hit_upto(m0, x, y, t, wx, wy));
                                }
                            }
                            if collision_upto(m0, x, y, t) {
                                let (wx, wy) = choose|wx: int, wy: int|
                                    #[trigger] sprite_hit_upto(m0, x, y, t, wx, wy)
                                        && m0.screen[wx * 32 + wy];
                                assert(sprite_hit_upto(m0, x, y, t + 1, wx, wy));
                            }
                        }
                    }
                } else {
                    proof {
                        // the skipped cell is off screen, so the partial
                        // sprite grows by nothing visible
                        assert forall|wx: int, wy: int|
                            #[trigger] sprite_hit_upto(m0, x, y, t + 1, wx, wy)
                                == sprite_hit_upto(m0, x, y, t, wx, wy) by {
                            if (wy - y) * 8 + (wx - x) == t && 0 <= wx < 64 && 0 <= wy < 32
                                && x <= wx < x + 8 && y <= wy {
                                assert(wx == pxi && wy == pyi);
                            }
                        }
                        if collision_upto(m0, x, y, t + 1) {
                            let (wx, wy) = choose|wx: int, wy: int|
                                #[trigger] sprite_hit_upto(m0, x, y, t + 1, wx, wy)
                                    && m0.screen[wx * 32 + wy];
                            assert(sprite_hit_upto(m0, x, y, t, wx, wy));
                        }
                        if collision_upto(m0, x, y, t) {
                            let (wx, wy) = choose|wx: int, wy: int|
                                #[trigger] sprite_hit_upto(m0, x, y, t, wx, wy)
                                    && m0.screen[wx * 32 + wy];
                            assert(sprite_hit_upto(m0, x, y, t + 1, wx, wy));
                        }
                    }
                }
                col += 1;
            }
            row += 1;
        }

        proof {
            lemma_hit_full(m0, x, y, height);
            let h8 = 8 * (height as int);
            if collision_upto(m0, x, y, h8) {
                let (wx, wy) = choose|wx: int, wy: int|
                    #[trigger] sprite_hit_upto(m0, x, y, h8, wx, wy) && m0.screen[wx * 32 + wy];
                assert(sprite_hit(m0, x, y, height, wx, wy) && m0.screen[wx * 32 + wy]);
                assert(sprite_collision(m0, x, y, height));
            }
            if sprite_collision(m0, x, y, height) {
                let (wx, wy) = choose|wx: int, wy: int|
                    #[trigger] sprite_hit(m0, x, y, height, wx, wy) && m0.screen[wx * 32 + wy];
                assert(sprite_hit_upto(m0, x, y, h8, wx, wy) && m0.screen[wx * 32 + wy]);
                assert(collision_upto(m0, x, y, h8));
            }
            assert(self.cpu.gp_reg@ =~= m0.regs.update(15, flag8(sprite_collision(m0, x, y, height))));
            assert(self@ =~= spec_sprite(old(self)@, reg1, reg2, height));
        }
    }
}

} // verus!

verus! {

// ---------------------------------------------------------------------------
// Key wait, framebuffer flush, and the execute dispatch.
// ---------------------------------------------------------------------------

/// Framebuffer flush: the frame leaves over the display channel only when
/// the dirty flag is set; in the model only the cleared flag remains.
pub open spec fn spec_flush(m: MachineView) -> MachineView {
    MachineView { dirty: false, ..m }
}

/// Key wait: on a received key, its keypad index goes into the register and
/// both timers reset to 0. When the channel is disconnected (no key can
/// ever arrive), the machine is left unchanged rather than waiting forever.
pub open spec fn spec_mvkey(m: MachineView, reg: u8, key: Option<char>) -> MachineView {
    match key {
        Some(c) => MachineView {
            regs: m.regs.update(reg as int, crate::keyboard::spec_key_index(c)),
            delay: 0,
            sound: 0,
            ..m
        },
        None => m,
    }
}

impl Program {
    /// Block until a single key-release event arrives on the rendezvous
    /// channel; store its keypad index, reset both timers. Which key (or
    /// none, on a disconnected channel) depends on the presentation side,
    /// so the contract holds for every possible outcome.
    #[allow(non_snake_case)]
    pub fn MVKEY(&mut self, reg: u8, receiver: &crossbeam_channel::Receiver<char>)
        requires
            old(self).wf(),
            reg < 16,
        ensures
            final(self).wf(),
            exists|key: Option<char>| final(self)@ == spec_mvkey(old(self)@, reg, key),
            final(self).rom == old(self).rom,
            final(self).frequency == old(self).frequency,
    {
        match crate::channels::recv_key(receiver) {
            Some(c) => {
                let v = crate::keyboard::char_to_index(c);
                self.cpu.gp_reg.set(reg as usize, v as u8);
                self.cpu.delay = 0;
                self.cpu.sound = 0;
                proof {
                    assert(self@ =~= spec_mvkey(old(self)@, reg, Some(c)));
                }
            },
            None => {
                proof {
                    assert(self@ =~= spec_mvkey(old(self)@, reg, None::<char>));
                }
            },
        }
    }
}

/// The effect of one decoded instruction on the machine, dispatching on the
/// class nibble and, for classes 0, 8, E and F, a sub-opcode. Unmapped
/// patterns are silent no-ops, preserving the architecture's permissiveness
/// towards malformed instructions. The random byte feeds only the random
/// AND instruction; the key only the key wait, which flushes the
/// framebuffer before blocking.
pub open spec fn spec_execute(
    m: MachineView,
    high: u8,
    low: u8,
    random: u8,
    key: Option<char>,
) -> MachineView {
    let n1 = crate::opcode::spec_nib1(high);
    let n2 = crate::opcode::spec_nib2(high);
    let n3 = crate::opcode::spec_nib3(low);
    let n4 = crate::opcode::spec_nib4(low);
    let l3 = crate::opcode::spec_nib_l3(high, low);
    if n1 == 0 {
        if low == 0xe0 {
            spec_cls(m)
        } else if low == 0xee {
            spec_rts(m)
        } else {
            m
        }
    } else if n1 == 1 {
        spec_jump(m, l3)
    } else if n1 == 2 {
        spec_call(m, l3)
    } else if n1 == 3 {
        spec_skipeqi(m, n2, low)
    } else if n1 == 4 {
        spec_skipnei(m, n2, low)
    } else if n1 == 5 {
        spec_skipeq(m, n2, n3)
    } else if n1 == 6 {
        spec_mvi(m, n2, low)
    } else if n1 == 7 {
        spec_addi(m, n2, low)
    } else if n1 == 8 {
        if n4 == 0 {
            spec_mv(m, n2, n3)
        } else if n4 == 1 {
            spec_or(m, n2, n3)
        } else if n4 == 2 {
            spec_and(m, n2, n3)
        } else if n4 == 3 {
            spec_xor(m, n2, n3)
        } else if n4 == 4 {
            spec_add(m, n2, n3)
        } else if n4 == 5 {
            spec_sub(m, n2, n3)
        } else if n4 == 6 {
            spec_shr(m, n2)
        } else if n4 == 7 {
            spec_sub2(m, n2, n3)
        } else if n4 == 0x0e {
            spec_shl(m, n2)
        } else {
            m
        }
    } else if n1 == 9 {
        spec_skipne(m, n2, n3)
    } else if n1 == 0x0a {
        spec_mvii(m, l3)
    } else if n1 == 0x0b {
        spec_jumpv0(m, l3)
    } else if n1 == 0x0c {
        spec_rand(m, n2, low, random)
    } else if n1 == 0x0d {
        spec_sprite(m, n2, n3, n4)
    } else if n1 == 0x0e {
        if low == 0x9e {
            spec_skipkey(m, n2)
        } else if low == 0xa1 {
            spec_skipnokey(m, n2)
        } else {
            m
        }
    } else {
        if low == 0x07 {
            spec_mvdelay(m, n2)
        } else if low == 0x0a {
            spec_mvkey(spec_flush(m), n2, key)
        } else if low == 0x15 {
            spec_delaymv(m, n2)
        } else if low == 0x18 {
            spec_soundmv(m, n2)
        } else if low == 0x1e {
            spec_addvi(m, n2)
        } else if low == 0x29 {
            spec_spritechar(m, n2)
        } else if low == 0x33 {
            spec_movbcd(m, n2)
        } else if low == 0x55 {
            spec_movm(m, n2)
        } else if low == 0x65 {
            spec_movmi(m, n2)
        } else {
            m
        }
    }
}

impl crate::opcode::OpCode {
    /// Performs this instruction's effect on the machine. The random byte
    /// and the awaited key, where an instruction needs one, come from the
    /// outside; the effect is specified for every value they might take.
    pub fn execute(&self, program: &mut Program, context: &crate::channels::CpuContext)
        requires
            old(program).wf(),
        ensures
            final(program).wf(),
            exists|random: u8, key: Option<char>|
                final(program)@ == spec_execute(old(program)@, self.high, self.low, random, key),
            final(program).rom == old(program).rom,
            final(program).frequency == old(program).frequency,
    {
        let ghost m0 = program@;
        let (n1, n2, n3, n4, l3) = self.destructure();

        match n1 {
            0 => match self.low {
                0xe0 => program.CLS(),
                0xee => program.RTS(),
                _ => (),
            },
            1 => program.JUMP(l3),
            2 => program.CALL(l3),
            3 => program.SKIPEQI(n2, self.low),
            4 => program.SKIPNEI(n2, self.low),
            5 => program.SKIPEQ(n2, n3),
            6 => program.MVI(n2, self.low),
            7 => program.ADDI(n2, self.low),
            8 => match n4 {
                0 => program.MV(n2, n3),
                1 => program.OR(n2, n3),
                2 => program.AND(n2, n3),
                3 => program.XOR(n2, n3),
                4 => program.ADD(n2, n3),
                5 => program.SUB(n2, n3),
                6 => program.SHR(n2),
                7 => program.SUB2(n2, n3),
                0x0e => program.SHL(n2),
                _ => (),
            },
            9 => program.SKIPNE(n2, n3),
            0x0a => program.MVII(l3),
            0x0b => program.JUMPV0(l3),
            0x0c => {
                let random = crate::rng::random_byte();
                program.RAND(n2, self.low, random);
                proof {
                    assert(program@ == spec_execute(m0, self.high, self.low, random, None::<char>));
                    assert(exists|r: u8, k: Option<char>|
                        program@ == spec_execute(m0, self.high, self.low, r, k));
                }
            },
            0x0d => program.SPRITE(n2, n3, n4),
            0x0e => match self.low {
                0x9e => program.SKIPKEY(n2),
                0xa1 => program.SKIPNOKEY(n2),
                _ => (),
            },
            0x0f => match self.low {
                0x07 => program.MVDELAY(n2),
                0x0a => {
                    // the presentation side must see the latest frame before
                    // input blocks
                    program.cpu.flush_screen(context);
                    proof {
                        assert(program@ =~= spec_flush(m0));
                    }
                    program.MVKEY(n2, &context.single_key);
                    proof {
                        let key = choose|key: Option<char>|
                            program@ == spec_mvkey(spec_flush(m0), n2, key);
                        assert(program@ == spec_execute(m0, self.high, self.low, 0u8, key));
                        assert(exists|r: u8, k: Option<char>|
                            program@ == spec_execute(m0, self.high, self.low, r, k));
                    }
                },
                0x15 => program.DELAYMV(n2),
                0x18 => program.SOUNDMV(n2),
                0x1e => program.ADDVI(n2),
                0x29 => program.SPRITECHAR(n2),
                0x33 => program.MOVBCD(n2),
                0x55 => program.MOVM(n2),
                0x65 => program.MOVMI(n2),
                _ => (),
            },
            _ => (),
        }

        proof {
            // every other instruction ignores the random byte and the key
            let base = spec_execute(m0, self.high, self.low, 0u8, None::<char>);
            if program@ == base {
                assert(exists|r: u8, k: Option<char>|
                    program@ == spec_execute(m0, self.high, self.low, r, k));
            }
        }
    }
}

} // verus!

verus! {

// ---------------------------------------------------------------------------
// The fetch-decode-execute step and the fixed-rate frame loop.
// ---------------------------------------------------------------------------

/// The machine can take another step: the program counter is still within
/// the loaded code and both instruction bytes can be fetched. A program
/// whose last byte sits at the very top of memory cannot have its second
/// instruction byte fetched; the loop refuses that fetch and stops instead
/// of reading out of bounds.
pub open spec fn runnable(m: MachineView) -> bool {
    m.pc < 0x200 + m.rom_len && m.pc + 1 < 4096
}

/// What one step consumed from the outside world: at most one keyboard
/// level-state update, a random byte, and an awaited key.
pub ghost struct StepOracle {
    pub update: Option<Seq<bool>>,
    pub random: u8,
    pub key: Option<char>,
}

/// A keyboard level-state update, applied wholesale; an update of the wrong
/// shape (not 16 flags) is refused.
pub open spec fn spec_load_keys(m: MachineView, update: Option<Seq<bool>>) -> MachineView {
    match update {
        Some(ks) => if ks.len() == 16 {
            MachineView { keys: ks, ..m }
        } else {
            m
        },
        None => m,
    }
}

/// One step: fetch the two instruction bytes at the program counter,
/// advance it by 2 before executing, apply a pending keyboard update if
/// one arrived, then execute the instruction.
pub open spec fn spec_step(
    m: MachineView,
    update: Option<Seq<bool>>,
    random: u8,
    key: Option<char>,
) -> MachineView {
    let high = m.ram[m.pc as int];
    let low = m.ram[m.pc as int + 1];
    let advanced = MachineView { pc: (m.pc + 2) as u16, ..m };
    spec_execute(spec_load_keys(advanced, update), high, low, random, key)
}

/// Steps under a sequence of oracles, stopping at the first state that
/// cannot run.
pub open spec fn spec_run_steps(m: MachineView, os: Seq<StepOracle>) -> MachineView
    decreases os.len(),
{
    if os.len() == 0 || !runnable(m) {
        m
    } else {
        spec_run_steps(spec_step(m, os[0].update, os[0].random, os[0].key), os.drop_first())
    }
}

/// Appending one oracle steps the final state once more, if it can run.
proof fn lemma_run_steps_push(m: MachineView, os: Seq<StepOracle>, o: StepOracle)
    ensures
        spec_run_steps(m, os.push(o)) == (if runnable(spec_run_steps(m, os)) {
            spec_step(
                spec_run_steps(m, os),
                o.update,
                o.random,
                o.key,
            )
        } else {
            spec_run_steps(m, os)
        }),
    decreases os.len(),
{
    if os.len() == 0 {
        assert(spec_run_steps(m, os) == m);
        if runnable(m) {
            assert(os.push(o)[0] == o);
            assert(os.push(o).drop_first() =~= Seq::<StepOracle>::empty());
            assert(spec_run_steps(m, os.push(o)) == spec_run_steps(
                spec_step(m, o.update, o.random, o.key),
                os.push(o).drop_first(),
            ));
            assert(spec_run_steps(m, os.push(o)) == spec_step(m, o.update, o.random, o.key));
        } else {
            assert(spec_run_steps(m, os.push(o)) == m);
        }
    } else {
        if runnable(m) {
            assert(os.push(o)[0] == os[0]);
            assert(os.push(o).drop_first() =~= os.drop_first().push(o));
            lemma_run_steps_push(
                spec_step(m, os[0].update, os[0].random, os[0].key),
                os.drop_first(),
                o,
            );
            assert(spec_run_steps(m, os.push(o)) == spec_run_steps(
                spec_step(m, os[0].update, os[0].random, os[0].key),
                os.drop_first().push(o),
            ));
            assert(spec_run_steps(m, os) == spec_run_steps(
                spec_step(m, os[0].update, os[0].random, os[0].key),
                os.drop_first(),
            ));
        } else {
            assert(spec_run_steps(m, os.push(o)) == m);
            assert(spec_run_steps(m, os) == m);
        }
    }
}

/// The end-of-frame work: the delay timer decrements when nonzero; the
/// sound timer decrements when nonzero (after a best-effort notification
/// that leaves no trace in the machine); the framebuffer is flushed.
pub open spec fn spec_frame_end(m: MachineView) -> MachineView {
    MachineView {
        delay: if m.delay > 0 {
            (m.delay - 1) as u8
        } else {
            m.delay
        },
        sound: if m.sound > 0 {
            (m.sound - 1) as u8
        } else {
            m.sound
        },
        dirty: false,
        ..m
    }
}

impl Program {
    /// Whether the machine can take no further step: the program counter has
    /// advanced past the loaded code (the sole regular termination), or the
    /// second instruction byte would lie outside memory, a fetch the loop
    /// refuses. Exactly the negation of what run_frame returns.
    pub fn halted(&self) -> (r: bool)
        requires
            self.wf(),
        ensures
            r == !runnable(self@),
    {
        (self.pc as usize) >= 0x200 + self.rom.len() || (self.pc as usize) + 1 >= 4096
    }

    /// One fetch-decode-execute step. What it consumed from the outside
    /// world (a drained keyboard update, a random byte, an awaited key) is
    /// existentially quantified; the effect is exact for each value.
    pub fn step(&mut self, context: &crate::channels::CpuContext)
        requires
            old(self).wf(),
            runnable(old(self)@),
        ensures
            final(self).wf(),
            exists|o: StepOracle|
                final(self)@ == spec_step(old(self)@, o.update, o.random, o.key),
            final(self).rom == old(self).rom,
            final(self).frequency == old(self).frequency,
    {
        let ghost m0 = self@;
        let high = self.cpu.ram[self.pc as usize];
        let low = self.cpu.ram[self.pc as usize + 1];
        let opcode = crate::opcode::OpCode { high, low };

        // the counter advances before execution, so jumps, calls and skips
        // see the post-fetch counter
        self.pc += 2;
        let ghost advanced = self@;

        let drained = crate::channels::try_recv_bits(&context.keyboard);
        let ghost update: Option<Seq<bool>> = match &drained {
            Some(ks) => Some(ks@),
            None => None,
        };
        match &drained {
            Some(ks) => {
                if ks.len() == 16 {
                    self.cpu.set_keystate(ks);
                }
            },
            None => (),
        }
        proof {
            assert(self@ =~= spec_load_keys(advanced, update));
        }
        let ghost loaded = self@;

        opcode.execute(self, context);

        proof {
            let (random, key) = choose|random: u8, key: Option<char>|
                self@ == spec_execute(loaded, high, low, random, key);
            let o = StepOracle { update, random, key };
            assert(advanced =~= MachineView { pc: (m0.pc + 2) as u16, ..m0 });
            assert(self@ == spec_step(m0, o.update, o.random, o.key));
        }
    }

    /// One frame of the fixed-rate loop: up to frequency/60 instructions
    /// (stopping early when the machine can no longer run), then the timer
    /// tick, the best-effort sound notification, and the framebuffer flush.
    /// Returns whether the machine can still run; the caller paces frames
    /// to 60Hz and stops when it cannot.
    pub fn run_frame(&mut self, context: &crate::channels::CpuContext) -> (r: bool)
        requires
            old(self).wf(),
        ensures
            final(self).wf(),
            r == runnable(final(self)@),
            exists|os: Seq<StepOracle>|
                {
                    &&& os.len() <= old(self).frequency / 60
                    &&& (os.len() == old(self).frequency / 60 || !runnable(
                        spec_run_steps(old(self)@, os),
                    ))
                    &&& final(self)@ == spec_frame_end(spec_run_steps(old(self)@, os))
                },
            final(self).rom == old(self).rom,
            final(self).frequency == old(self).frequency,
    {
        let ghost m0 = self@;
        let ghost rom0 = self.rom;
        let ghost freq0 = self.frequency;
        let budget = self.frequency / 60;
        let mut os_wit: Ghost<Seq<StepOracle>> = Ghost(Seq::empty());
        let mut n: u32 = 0;
        while n < budget && (self.pc as usize) < 0x200 + self.rom.len() && (self.pc as usize) + 1
            < 4096
            invariant
                self.wf(),
                n <= budget,
                os_wit@.len() == n,
                self@ == spec_run_steps(m0, os_wit@),
                self.rom == rom0,
                self.frequency == freq0,
            decreases budget - n,
        {
            let ghost pre = self@;
            self.step(context);
            proof {
                let o = choose|o: StepOracle|
                    self@ == spec_step(pre, o.update, o.random, o.key);
                lemma_run_steps_push(m0, os_wit@, o);
                os_wit@ = os_wit@.push(o);
            }
            n += 1;
        }

        let ghost mid = self@;

        // the timers tick at the frame rate, independent of the
        // instruction rate
        if self.cpu.delay > 0 {
            self.cpu.delay -= 1;
        }
        if self.cpu.sound > 0 {
            let _ = crate::channels::try_send_sound(&context.sound, true);
            self.cpu.sound -= 1;
        }
        self.cpu.flush_screen(context);

        proof {
            assert(self@ =~= spec_frame_end(mid));
            assert({
                &&& os_wit@.len() <= old(self).frequency / 60
                &&& (os_wit@.len() == old(self).frequency / 60 || !runnable(
                    spec_run_steps(old(self)@, os_wit@),
                ))
                &&& self@ == spec_frame_end(spec_run_steps(old(self)@, os_wit@))
            });
        }

        (self.pc as usize) < 0x200 + self.rom.len() && (self.pc as usize) + 1 < 4096
    }
}

} // verus!
