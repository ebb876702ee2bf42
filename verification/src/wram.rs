use vstd::prelude::*;

use crate::bits::{lemma_and_le_u16, lemma_and_le_u8};

verus! {

/// Work RAM (0xC000-0xDFFF, mirrored at 0xE000-0xFDFF) and the bank
/// register SVBK (0xFF70). In CGB mode 0xD000-0xDFFF shows one of the
/// banks 1-7 chosen by SVBK; in DMG mode the 8 KiB are addressed directly.
pub struct WRam {
    pub is_cgb: bool,
    pub svbk: u8,
    pub ram: Vec<u8>,
}

/// Whether `addr` lies in work RAM or its mirror.
pub open spec fn is_wram_addr(addr: u16) -> bool {
    0xC000 <= addr <= 0xFDFF
}

/// The switchable bank selected by SVBK (bank 0 selects bank 1).
pub open spec fn wram_bank(svbk: u8) -> int {
    if svbk & 7 == 0 { 1 } else { (svbk & 7) as int }
}

/// The byte of the 32 KiB backing store that a work RAM address selects.
pub open spec fn wram_index(is_cgb: bool, svbk: u8, addr: u16) -> int {
    if is_cgb {
        if addr <= 0xCFFF || (0xE000 <= addr && addr <= 0xEFFF) {
            (addr & 0xfff) as int
        } else {
            wram_bank(svbk) * 0x1000 + (addr & 0xfff) as int
        }
    } else {
        (addr & 0x1fff) as int
    }
}

impl WRam {
    pub open spec fn wf(&self) -> bool {
        self.ram@.len() == 0x8000
    }

    pub fn new(is_cgb: bool) -> (r: WRam)
        ensures
            r.wf(),
            r.is_cgb == is_cgb,
            r.svbk == 0,
            r.ram@ == Seq::new(0x8000, |i: int| 0u8),
    {
        WRam { is_cgb, svbk: 0, ram: vec![0u8; 0x8000] }
    }

    pub open spec fn read_value(&self, addr: u16) -> u8 {
        if addr == 0xFF70 {
            self.svbk
        } else {
            self.ram@[wram_index(self.is_cgb, self.svbk, addr)]
        }
    }

    /// The effect of a write of `val` to `addr`.
    pub open spec fn write_effect(old: &WRam, new: &WRam, addr: u16, val: u8) -> bool {
        &&& new.is_cgb == old.is_cgb
        &&& addr == 0xFF70 ==> new.svbk == val && new.ram@ == old.ram@
        &&& addr != 0xFF70 ==> new.svbk == old.svbk && new.ram@ == old.ram@.update(
            wram_index(old.is_cgb, old.svbk, addr),
            val,
        )
    }

    fn index(&self, addr: u16) -> (r: usize)
        requires
            is_wram_addr(addr),
        ensures
            r == wram_index(self.is_cgb, self.svbk, addr),
            r < 0x8000,
    {
        proof {
            lemma_and_le_u16(addr, 0xfff);
            lemma_and_le_u16(addr, 0x1fff);
            lemma_and_le_u8(self.svbk, 7);
        }
        if self.is_cgb {
            if addr <= 0xCFFF || (addr >= 0xE000 && addr <= 0xEFFF) {
                (addr & 0xfff) as usize
            } else {
                let b = self.svbk & 7;
                let bank: usize = if b == 0 { 1 } else { b as usize };
                bank * 0x1000 + (addr & 0xfff) as usize
            }
        } else {
            (addr & 0x1fff) as usize
        }
    }

    pub fn read(&self, addr: u16) -> (r: u8)
        requires
            self.wf(),
            addr == 0xFF70 || is_wram_addr(addr),
        ensures
            r == self.read_value(addr),
            addr == 0xFF70 ==> r == self.svbk,
            addr != 0xFF70 ==> r == self.ram@[wram_index(self.is_cgb, self.svbk, addr)],
    {
        if addr == 0xFF70 {
            return self.svbk;
        }
        let i = self.index(addr);
        self.ram[i]
    }

    pub fn write(&mut self, addr: u16, val: u8)
        requires
            old(self).wf(),
            addr == 0xFF70 || is_wram_addr(addr),
        ensures
            final(self).wf(),
            WRam::write_effect(old(self), final(self), addr, val),
            final(self).is_cgb == old(self).is_cgb,
            addr == 0xFF70 ==> final(self).svbk == val && final(self).ram@ == old(self).ram@,
            addr != 0xFF70 ==> final(self).svbk == old(self).svbk && final(self).ram@
                == old(self).ram@.update(wram_index(old(self).is_cgb, old(self).svbk, addr), val),
    {
        if addr == 0xFF70 {
            self.svbk = val;
            return;
        }
        let i = self.index(addr);
        self.ram.set(i, val);
    }
}

/// Echo RAM: an address in 0xE000-0xFDFF selects the same byte as the
/// address 0x2000 below it, in either mode and for every bank.
pub proof fn lemma_echo_ram(is_cgb: bool, svbk: u8, addr: u16)
    requires
        0xC000 <= addr <= 0xDDFF,
    ensures
        wram_index(is_cgb, svbk, addr) == wram_index(is_cgb, svbk, (addr + 0x2000) as u16),
{
    let hi = (addr + 0x2000) as u16;
    assert((addr & 0xfffu16) == (hi & 0xfffu16) && (addr & 0x1fffu16) == (hi & 0x1fffu16))
        by (bit_vector)
        requires hi == addr + 0x2000, 0xC000u16 <= addr, addr <= 0xDDFFu16;
}

/// Every work RAM address selects a byte of the 32 KiB backing store.
pub proof fn lemma_wram_index_bound(is_cgb: bool, svbk: u8, addr: u16)
    ensures
        0 <= wram_index(is_cgb, svbk, addr) < 0x8000,
{
    lemma_and_le_u16(addr, 0xfff);
    lemma_and_le_u16(addr, 0x1fff);
    lemma_and_le_u8(svbk, 7);
}

} // verus!
