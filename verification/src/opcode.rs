use vstd::prelude::*;

verus! {

/// One machine instruction: two bytes, high byte first.
///
/// Every field a consumer needs is derived from these two bytes by the
/// accessors below; nothing else is stored.
pub struct OpCode {
    pub high: u8,
    pub low: u8,
}

/// The full 16-bit value of the instruction, high byte first.
pub open spec fn spec_combine(high: u8, low: u8) -> u16 {
    (((high as u16) << 8) | (low as u16)) as u16
}

/// Bits 12-15: the opcode class.
pub open spec fn spec_nib1(high: u8) -> u8 {
    high >> 4
}

/// Bits 8-11: first register operand or sub-class.
pub open spec fn spec_nib2(high: u8) -> u8 {
    high & 0x0f
}

/// Bits 4-7: second register operand.
pub open spec fn spec_nib3(low: u8) -> u8 {
    low >> 4
}

/// Bits 0-3: sub-opcode or count.
pub open spec fn spec_nib4(low: u8) -> u8 {
    low & 0x0f
}

/// The low 12 bits: an address or wide immediate.
pub open spec fn spec_nib_l3(high: u8, low: u8) -> u16 {
    ((((high & 0x0f) as u16) << 8) | (low as u16)) as u16
}

impl OpCode {
    pub fn combine(&self) -> (r: u16)
        ensures
            r == spec_combine(self.high, self.low),
    {
        (u16::from(self.high) << 8) | u16::from(self.low)
    }

    pub fn nib1(&self) -> (r: u8)
        ensures
            r == spec_nib1(self.high),
            r < 16,
    {
        proof {
            let h = self.high;
            assert(h >> 4 < 16) by (bit_vector);
        }
        self.high >> 4
    }

    pub fn nib2(&self) -> (r: u8)
        ensures
            r == spec_nib2(self.high),
            r < 16,
    {
        proof {
            let h = self.high;
            assert(h & 0x0f < 16) by (bit_vector);
        }
        self.high & 0x0f
    }

    pub fn nib3(&self) -> (r: u8)
        ensures
            r == spec_nib3(self.low),
            r < 16,
    {
        proof {
            let l = self.low;
            assert(l >> 4 < 16) by (bit_vector);
        }
        self.low >> 4
    }

    pub fn nib4(&self) -> (r: u8)
        ensures
            r == spec_nib4(self.low),
            r < 16,
    {
        proof {
            let l = self.low;
            assert(l & 0x0f < 16) by (bit_vector);
        }
        self.low & 0x0f
    }

    pub fn nib_l3(&self) -> (r: u16)
        ensures
            r == spec_nib_l3(self.high, self.low),
            r < 0x1000,
    {
        let r = (u16::from(self.high & 0x0f) << 8) | u16::from(self.low);
        proof {
            let h = self.high;
            let l = self.low;
            assert(((((h & 0x0f) as u16) << 8) | (l as u16)) < 0x1000) by (bit_vector);
        }
        r
    }

    /// All five derived fields at once: class, two register nibbles,
    /// sub-opcode nibble, and the 12-bit address.
    pub fn destructure(&self) -> (r: (u8, u8, u8, u8, u16))
        ensures
            r.0 == spec_nib1(self.high),
            r.1 == spec_nib2(self.high),
            r.2 == spec_nib3(self.low),
            r.3 == spec_nib4(self.low),
            r.4 == spec_nib_l3(self.high, self.low),
            r.0 < 16 && r.1 < 16 && r.2 < 16 && r.3 < 16 && r.4 < 0x1000,
    {
        (self.nib1(), self.nib2(), self.nib3(), self.nib4(), self.nib_l3())
    }
}

} // verus!
