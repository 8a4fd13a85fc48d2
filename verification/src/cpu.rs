use vstd::prelude::*;
use crate::channels::{self, CpuContext};
use crate::opcode::spec_combine;

verus! {

/// The 16 glyph sprites preloaded into memory: one 5-byte bitmap per
/// hexadecimal digit, in digit order.
pub open spec fn glyphs() -> Seq<u8> {
    seq![
        0xF0u8, 0x90, 0x90, 0x90, 0xF0, // 0
        0x20, 0x60, 0x20, 0x20, 0x70, // 1
        0xF0, 0x10, 0xF0, 0x80, 0xF0, // 2
        0xF0, 0x10, 0xF0, 0x10, 0xF0, // 3
        0x90, 0x90, 0xF0, 0x10, 0x10, // 4
        0xF0, 0x80, 0xF0, 0x10, 0x10, // 5
        0xF0, 0x80, 0xF0, 0x90, 0xF0, // 6
        0xF0, 0x10, 0x20, 0x40, 0x40, // 7
        0xF0, 0x90, 0xF0, 0x90, 0xF0, // 8
        0xF0, 0x90, 0xF0, 0x10, 0xF0, // 9
        0xF0, 0x90, 0xF0, 0x90, 0x90, // A
        0xE0, 0x90, 0xE0, 0x90, 0xE0, // B
        0xF0, 0x80, 0x80, 0x80, 0xF0, // C
        0xE0, 0x90, 0x90, 0x90, 0xE0, // D
        0xF0, 0x80, 0xF0, 0x80, 0xF0, // E
        0xF0, 0x80, 0xF0, 0x80, 0x80, // F
    ]
}

/// High byte of a 16-bit value.
pub open spec fn spec_hi(v: u16) -> u8 {
    (v >> 8) as u8
}

/// Low byte of a 16-bit value.
pub open spec fn spec_lo(v: u16) -> u8 {
    (v & 0xff) as u8
}

/// Splitting a 16-bit value into bytes and recombining them, high byte
/// first, gives the value back.
pub proof fn lemma_split_combine(v: u16)
    ensures
        spec_combine(spec_hi(v), spec_lo(v)) == v,
{
    assert(((((v >> 8) as u8) as u16) << 8) | (((v & 0xff) as u8) as u16) == v) by (bit_vector);
}

/// All mutable machine state: 4KB of memory, 16 general 8-bit registers, the
/// 16-bit index register, the two timers, the keyboard level-state, and the
/// 64x32 framebuffer with its dirty flag.
///
/// The framebuffer is stored column-major: pixel (x, y) lives at index
/// x * 32 + y. The dirty flag records whether any pixel changed since the
/// last flush.
pub struct Cpu {
    pub ram: Vec<u8>,
    pub gp_reg: Vec<u8>,
    pub i: u16,
    pub delay: u8,
    pub sound: u8,
    pub keystate: Vec<bool>,
    pub screen: Vec<bool>,
    pub screen_dirty: bool,
}

impl Cpu {
    /// The fixed sizes of the machine: memory, register file, keyboard
    /// level-state and framebuffer never change length.
    pub open spec fn wf(&self) -> bool {
        &&& self.ram@.len() == 4096
        &&& self.gp_reg@.len() == 16
        &&& self.keystate@.len() == 16
        &&& self.screen@.len() == 2048
    }

    /// Reads a general register; the index is caller-guaranteed in range.
    pub fn get_reg(&self, reg: u8) -> (r: u8)
        requires
            self.wf(),
            reg < 16,
        ensures
            r == self.gp_reg@[reg as int],
    {
        self.gp_reg[reg as usize]
    }

    /// Reads the 16-bit value stored big-endian at a stack-pointer-relative
    /// memory location.
    pub fn peek_stack(&self, sp: u16) -> (r: u16)
        requires
            self.wf(),
            sp + 1 < 4096,
        ensures
            r == spec_combine(self.ram@[sp as int], self.ram@[sp as int + 1]),
    {
        (u16::from(self.ram[sp as usize]) << 8) | u16::from(self.ram[sp as usize + 1])
    }

    /// Writes a 16-bit value big-endian at a stack-pointer-relative memory
    /// location.
    pub fn set_stack(&mut self, value: u16, sp: u16)
        requires
            old(self).wf(),
            sp + 1 < 4096,
        ensures
            final(self).wf(),
            final(self).ram@ == old(self).ram@
                .update(sp as int, spec_hi(value))
                .update(sp as int + 1, spec_lo(value)),
            final(self).gp_reg == old(self).gp_reg,
            final(self).i == old(self).i,
            final(self).delay == old(self).delay,
            final(self).sound == old(self).sound,
            final(self).keystate == old(self).keystate,
            final(self).screen == old(self).screen,
            final(self).screen_dirty == old(self).screen_dirty,
    {
        proof {
            let v = value;
            assert((v >> 8) < 256 && (v & 0xff) < 256) by (bit_vector);
        }
        let hi: u8 = (value >> 8) as u8;
        let lo: u8 = (value & 0xff) as u8;
        self.ram.set(sp as usize, hi);
        self.ram.set(sp as usize + 1, lo);
    }

    /// Overwrites the keyboard level-state wholesale; no partial merge.
    pub fn set_keystate(&mut self, state: &Vec<bool>)
        requires
            old(self).wf(),
            state@.len() == 16,
        ensures
            final(self).wf(),
            final(self).keystate@ == state@,
            final(self).ram == old(self).ram,
            final(self).gp_reg == old(self).gp_reg,
            final(self).i == old(self).i,
            final(self).delay == old(self).delay,
            final(self).sound == old(self).sound,
            final(self).screen == old(self).screen,
            final(self).screen_dirty == old(self).screen_dirty,
    {
        let mut fresh: Vec<bool> = Vec::new();
        let mut k: usize = 0;
        while k < 16
            invariant
                state@.len() == 16,
                k <= 16,
                fresh@.len() == k,
                forall|j: int| 0 <= j < k ==> fresh@[j] == state@[j],
            decreases 16 - k,
        {
            fresh.push(state[k]);
            k += 1;
        }
        proof {
            assert(fresh@ =~= state@);
        }
        self.keystate = fresh;
    }

    /// Sends the framebuffer over the display channel if and only if the
    /// dirty flag is set, then clears the flag; a failed send (the
    /// presentation side is gone) is ignored, never fatal.
    pub fn flush_screen(&mut self, context: &CpuContext)
        requires
            old(self).wf(),
        ensures
            final(self).wf(),
            final(self).screen_dirty == false,
            final(self).ram == old(self).ram,
            final(self).gp_reg == old(self).gp_reg,
            final(self).i == old(self).i,
            final(self).delay == old(self).delay,
            final(self).sound == old(self).sound,
            final(self).keystate == old(self).keystate,
            final(self).screen == old(self).screen,
    {
        if self.screen_dirty {
            let mut frame: Vec<bool> = Vec::new();
            let mut k: usize = 0;
            while k < 2048
                invariant
                    self.wf(),
                    k <= 2048,
                    frame@.len() == k,
                    forall|j: int| 0 <= j < k ==> frame@[j] == self.screen@[j],
                decreases 2048 - k,
            {
                frame.push(self.screen[k]);
                k += 1;
            }
            let _ = channels::send_frame(&context.display, frame);
            self.screen_dirty = false;
        }
    }
}

impl Default for Cpu {
    /// A freshly powered machine: memory zeroed except the 16 glyph sprites
    /// preloaded at 0x50, registers, timers, keys and screen all cleared.
    fn default() -> (r: Self)
        ensures
            r.wf(),
            r.ram@.len() == 4096,
            forall|a: int| 0 <= a < 4096 && !(0x50 <= a < 0x50 + 80) ==> r.ram@[a] == 0,
            forall|a: int| 0x50 <= a < 0x50 + 80 ==> r.ram@[a] == glyphs()[a - 0x50],
            forall|k: int| 0 <= k < 16 ==> r.gp_reg@[k] == 0,
            forall|k: int| 0 <= k < 16 ==> !r.keystate@[k],
            forall|p: int| 0 <= p < 2048 ==> !r.screen@[p],
            r.i == 0,
            r.delay == 0,
            r.sound == 0,
            r.screen_dirty == false,
    {
        let sprites: Vec<u8> = vec![
            0xF0u8, 0x90, 0x90, 0x90, 0xF0, // 0
            0x20, 0x60, 0x20, 0x20, 0x70, // 1
            0xF0, 0x10, 0xF0, 0x80, 0xF0, // 2
            0xF0, 0x10, 0xF0, 0x10, 0xF0, // 3
            0x90, 0x90, 0xF0, 0x10, 0x10, // 4
            0xF0, 0x80, 0xF0, 0x10, 0x10, // 5
            0xF0, 0x80, 0xF0, 0x90, 0xF0, // 6
            0xF0, 0x10, 0x20, 0x40, 0x40, // 7
            0xF0, 0x90, 0xF0, 0x90, 0xF0, // 8
            0xF0, 0x90, 0xF0, 0x10, 0xF0, // 9
            0xF0, 0x90, 0xF0, 0x90, 0x90, // A
            0xE0, 0x90, 0xE0, 0x90, 0xE0, // B
            0xF0, 0x80, 0x80, 0x80, 0xF0, // C
            0xE0, 0x90, 0x90, 0x90, 0xE0, // D
            0xF0, 0x80, 0xF0, 0x80, 0xF0, // E
            0xF0, 0x80, 0xF0, 0x80, 0x80, // F
        ];
        proof {
            assert(sprites@ =~= glyphs());
        }

        let mut ram: Vec<u8> = Vec::new();
        let mut a: usize = 0;
        while a < 4096
            invariant
                a <= 4096,
                ram@.len() == a,
                forall|j: int| 0 <= j < a ==> ram@[j] == 0,
            decreases 4096 - a,
        {
            ram.push(0);
            a += 1;
        }

        let mut k: usize = 0;
        while k < 80
            invariant
                k <= 80,
                ram@.len() == 4096,
                sprites@ == glyphs(),
                sprites@.len() == 80,
                forall|j: int| 0 <= j < 4096 && !(0x50 <= j < 0x50 + k) ==> ram@[j] == 0,
                forall|j: int| 0x50 <= j < 0x50 + k ==> ram@[j] == glyphs()[j - 0x50],
            decreases 80 - k,
        {
            ram.set(0x50 + k, sprites[k]);
            k += 1;
        }

        let mut gp_reg: Vec<u8> = Vec::new();
        let mut keystate: Vec<bool> = Vec::new();
        let mut r: usize = 0;
        while r < 16
            invariant
                r <= 16,
                gp_reg@.len() == r,
                keystate@.len() == r,
                forall|j: int| 0 <= j < r ==> gp_reg@[j] == 0,
                forall|j: int| 0 <= j < r ==> !keystate@[j],
            decreases 16 - r,
        {
            gp_reg.push(0);
            keystate.push(false);
            r += 1;
        }

        let mut screen: Vec<bool> = Vec::new();
        let mut p: usize = 0;
        while p < 2048
            invariant
                p <= 2048,
                screen@.len() == p,
                forall|j: int| 0 <= j < p ==> !screen@[j],
            decreases 2048 - p,
        {
            screen.push(false);
            p += 1;
        }

        Cpu {
            ram,
            gp_reg,
            i: 0,
            delay: 0,
            sound: 0,
            keystate,
            screen,
            screen_dirty: false,
        }
    }
}

} // verus!
