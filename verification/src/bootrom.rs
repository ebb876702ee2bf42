use vstd::prelude::*;

use crate::checksum::{checksum_ieee, crc32_ieee};

verus! {

/// The CRC-32 of the DMG boot ROM, the only one accepted.
pub const DMG_BOOTROM_CRC32: u32 = 0x59C8_598E;

/// Size of the DMG boot ROM.
pub const BOOTROM_SIZE: usize = 0x100;

/// Size of the CGB boot ROM image: 0x0000-0x00FF and 0x0200-0x08FF, with the
/// cartridge header's place 0x0100-0x01FF left unused.
pub const CGB_BOOTROM_SIZE: usize = 0x900;

#[derive(Debug, PartialEq, Eq, Structural)]
pub enum BootromError {
    /// The image does not have the size of a boot ROM; carries the length found.
    InvalidSize(usize),
    /// The image is not the DMG boot ROM.
    NotDmg,
}

/// The boot ROM, mapped over 0x0000-0x00FF (and, for the larger CGB image,
/// 0x0200-0x08FF) until a nonzero value is written to 0xFF50.
pub struct Bootrom {
    pub data: Vec<u8>,
    pub active: bool,
}

impl Bootrom {
    pub open spec fn wf(&self) -> bool {
        self.data@.len() == BOOTROM_SIZE || self.data@.len() == CGB_BOOTROM_SIZE
    }

    /// Whether the CPU sees the boot ROM, not the cartridge, at `addr`.
    pub open spec fn maps(&self, addr: u16) -> bool {
        &&& self.active
        &&& addr <= 0x00FF || (0x0200 <= addr <= 0x08FF && addr < self.data@.len())
    }

    /// Accepts a 256-byte image whose CRC-32 is that of the DMG boot ROM.
    pub fn new(data: Vec<u8>) -> (r: Result<Bootrom, BootromError>)
        ensures
            r is Ok <==> data@.len() == BOOTROM_SIZE && crc32_ieee(data@) == DMG_BOOTROM_CRC32,
            r matches Ok(b) ==> b.wf() && b.data@ == data@ && b.active,
            r == Err::<Bootrom, BootromError>(BootromError::InvalidSize(data@.len() as usize))
                <==> data@.len() != BOOTROM_SIZE,
            r == Err::<Bootrom, BootromError>(BootromError::NotDmg) <==> data@.len() == BOOTROM_SIZE
                && crc32_ieee(data@) != DMG_BOOTROM_CRC32,
    {
        if data.len() != BOOTROM_SIZE {
            return Err(BootromError::InvalidSize(data.len()));
        }
        let crc = checksum_ieee(data.as_slice());
        Self::with_checksum(data, crc)
    }

    /// Accepts the image given its CRC-32 `crc`.
    pub fn with_checksum(data: Vec<u8>, crc: u32) -> (r: Result<Bootrom, BootromError>)
        requires
            data@.len() == BOOTROM_SIZE,
        ensures
            r is Ok <==> crc == DMG_BOOTROM_CRC32,
            r matches Ok(b) ==> b.wf() && b.data@ == data@ && b.active,
            r is Err ==> r == Err::<Bootrom, BootromError>(BootromError::NotDmg),
    {
        if crc != DMG_BOOTROM_CRC32 {
            return Err(BootromError::NotDmg);
        }
        Ok(Bootrom { data, active: true })
    }

    /// Accepts a CGB boot ROM image of 0x900 bytes.
    pub fn new_cgb(data: Vec<u8>) -> (r: Result<Bootrom, BootromError>)
        ensures
            r is Ok <==> data@.len() == CGB_BOOTROM_SIZE,
            r matches Ok(b) ==> b.wf() && b.data@ == data@ && b.active,
            r is Err ==> r == Err::<Bootrom, BootromError>(
                BootromError::InvalidSize(data@.len() as usize),
            ),
    {
        if data.len() != CGB_BOOTROM_SIZE {
            return Err(BootromError::InvalidSize(data.len()));
        }
        Ok(Bootrom { data, active: true })
    }

    /// Whether the boot ROM at `addr` is what the CPU reads.
    pub fn is_mapped(&self, addr: u16) -> (r: bool)
        ensures
            r == self.maps(addr),
    {
        self.active && (addr <= 0x00FF || (addr >= 0x0200 && addr <= 0x08FF && (addr as usize)
            < self.data.len()))
    }

    pub fn is_active(&self) -> (r: bool)
        ensures
            r == self.active,
    {
        self.active
    }

    pub fn read(&self, addr: u16) -> (r: u8)
        requires
            addr < self.data@.len(),
        ensures
            r == self.data@[addr as int],
    {
        self.data[addr as usize]
    }

    /// A nonzero write to 0xFF50 unmaps the boot ROM for good.
    pub fn write(&mut self, addr: u16, val: u8)
        ensures
            final(self).data == old(self).data,
            final(self).active == (old(self).active && (addr != 0xFF50 || val == 0)),
    {
        if addr == 0xFF50 {
            self.active = self.active && val == 0;
        }
    }
}

/// Once the boot ROM is unmapped, no write maps it again.
pub proof fn lemma_unmap_is_final(active: bool, addr: u16, val: u8)
    requires
        !active,
    ensures
        !(active && (addr != 0xFF50 || val == 0)),
{
}

} // verus!
