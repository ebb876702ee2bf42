use vstd::prelude::*;

use crate::bits::lemma_and_le_u16;

verus! {

/// High RAM (0xFF80-0xFFFE): 128 bytes, addressed by the low seven bits.
pub struct HRam(pub Vec<u8>);

/// The byte of high RAM that `addr` selects.
pub open spec fn hram_index(addr: u16) -> int {
    (addr & 0x7f) as int
}

impl HRam {
    pub open spec fn wf(&self) -> bool {
        self.0@.len() == 0x80
    }

    pub fn new() -> (r: HRam)
        ensures
            r.wf(),
            r.0@ == Seq::new(0x80, |i: int| 0u8),
    {
        HRam(vec![0u8; 0x80])
    }

    pub fn read(&self, addr: u16) -> (r: u8)
        requires
            self.wf(),
        ensures
            r == self.0@[hram_index(addr)],
    {
        proof {
            lemma_and_le_u16(addr, 0x7f);
        }
        self.0[(addr & 0x7f) as usize]
    }

    pub fn write(&mut self, addr: u16, val: u8)
        requires
            old(self).wf(),
        ensures
            final(self).wf(),
            final(self).0@ == old(self).0@.update(hram_index(addr), val),
    {
        proof {
            lemma_and_le_u16(addr, 0x7f);
        }
        self.0.set((addr & 0x7f) as usize, val);
    }
}

} // verus!
