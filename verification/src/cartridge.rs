use vstd::prelude::*;
use vstd::slice::{slice_subrange, slice_to_vec};
use vstd::utf8::{decode_utf8, valid_utf8};

use crate::bits::{lemma_and_le_usize, lemma_rom_banks};
use crate::cartridge::mbc::Mbc;
use crate::checksum::{checksum_ieee, crc32_ieee};

pub mod mbc;

verus! {

pub const ROM_BANK_SIZE: usize = 0x4000;

pub const RAM_BANK_SIZE: usize = 0x2000;

/// The CRC-32 of the Nintendo logo in a cartridge header.
pub const LOGO_CRC32: u32 = 0x4619_5417;

#[derive(Debug, PartialEq, Eq, Structural)]
pub enum CartridgeError {
    /// The image is shorter than 32 KiB or not a whole number of 16 KiB banks.
    InvalidSize,
    /// The header checksum (0x014D) does not match the header bytes.
    ChecksumMismatch,
    /// The title is not valid UTF-8.
    InvalidTitle,
    /// The cartridge type byte (0x0147) names no supported controller.
    UnsupportedType(u8),
    /// The ROM size code (0x0148) is above 8.
    InvalidRomSize(u8),
    /// The RAM size code (0x0149) is above 5.
    InvalidRamSize(u8),
    /// The image length differs from the ROM size the header declares.
    SizeMismatch { expected: usize, actual: usize },
}

/// The cartridge header, bytes 0x0100-0x014F of the ROM.
pub struct CartridgeHeader {
    pub entry_point: Vec<u8>,
    pub logo: Vec<u8>,
    pub title: Vec<u8>,
    pub new_licensee_code: Vec<u8>,
    pub sgb_flag: u8,
    pub cartridge_type: u8,
    pub rom_size: u8,
    pub ram_size: u8,
    pub destination_code: u8,
    pub old_licensee_code: u8,
    pub mask_rom_version_number: u8,
    pub header_checksum: u8,
    pub global_checksum: Vec<u8>,
}

/// The number of ROM banks that a ROM size code declares.
pub open spec fn rom_banks_of(code: u8) -> Option<usize> {
    if code <= 8 {
        Some(1usize << (code as usize + 1))
    } else {
        None
    }
}

/// The external RAM size in bytes that a RAM size code declares.
pub open spec fn ram_size_of(code: u8) -> Option<usize> {
    if code == 0 {
        Some(0)
    } else if code == 1 {
        Some(2048)
    } else if code == 2 {
        Some(8192)
    } else if code == 3 {
        Some(32768)
    } else if code == 4 {
        Some(131072)
    } else if code == 5 {
        Some(65536)
    } else {
        None
    }
}

/// The header checksum over bytes 0x0134 up to (not including) `end`:
/// starting from 0, each byte is subtracted together with 1, modulo 256.
pub open spec fn header_sum(data: Seq<u8>, end: int) -> u8
    decreases end - 0x134,
{
    if end <= 0x134 {
        0
    } else {
        ((header_sum(data, end - 1) - data[end - 1] - 1) % 256) as u8
    }
}

/// `s` without its trailing zero bytes.
pub open spec fn trim_zeros(s: Seq<u8>) -> Seq<u8>
    decreases s.len(),
{
    if s.len() > 0 && s.last() == 0 {
        trim_zeros(s.drop_last())
    } else {
        s
    }
}

/// The title field: 11 bytes when the old licensee code is 0x33 (the last
/// bytes then hold the manufacturer code), 15 otherwise; trailing NULs dropped.
pub open spec fn title_bytes(data: Seq<u8>) -> Seq<u8> {
    trim_zeros(
        if data[0x14B] == 0x33 {
            data.subrange(0x134, 0x13F)
        } else {
            data.subrange(0x134, 0x143)
        },
    )
}

/// Whether the 1 MiB image holds at least three copies of the Nintendo logo
/// at the starts of its 256 KiB pages, the mark of an MBC1 multicart.
pub open spec fn is_multicart(rom: Seq<u8>) -> bool {
    rom.len() == 0x100000 && logo_count(rom) >= 3
}

pub open spec fn logo_at(rom: Seq<u8>, page: int) -> bool {
    crc32_ieee(rom.subrange(page * 0x40000 + 0x104, page * 0x40000 + 0x134)) == LOGO_CRC32
}

pub open spec fn logo_count(rom: Seq<u8>) -> int {
    (if logo_at(rom, 0) { 1int } else { 0 }) + (if logo_at(rom, 1) { 1int } else { 0 }) + (if logo_at(
        rom,
        2,
    ) {
        1int
    } else {
        0
    }) + (if logo_at(rom, 3) { 1int } else { 0 })
}

/// Whether a cartridge of this type byte can be loaded: ROM only (with or
/// without RAM and battery) or MBC1.
pub open spec fn cartridge_type_ok(cartridge_type: u8) -> bool {
    cartridge_type <= 0x03 || cartridge_type == 0x08 || cartridge_type == 0x09
}

/// Whether the header marks the game as made for the Game Boy Color
/// (bit 7 of the CGB flag at 0x0143).
pub open spec fn cgb_flag(data: Seq<u8>) -> bool {
    data[0x143] & 0x80 != 0
}

/// The first reason for which `data` is not a cartridge image, in the order
/// in which the checks are made.
pub open spec fn load_error(data: Seq<u8>) -> Option<CartridgeError> {
    if !(data.len() >= 0x8000 && data.len() % 0x4000 == 0) {
        Some(CartridgeError::InvalidSize)
    } else if header_sum(data, 0x14D) != data[0x14D] {
        Some(CartridgeError::ChecksumMismatch)
    } else if !valid_utf8(title_bytes(data)) {
        Some(CartridgeError::InvalidTitle)
    } else if !cartridge_type_ok(data[0x147]) {
        Some(CartridgeError::UnsupportedType(data[0x147]))
    } else if rom_banks_of(data[0x148]) is None {
        Some(CartridgeError::InvalidRomSize(data[0x148]))
    } else if ram_size_of(data[0x149]) is None {
        Some(CartridgeError::InvalidRamSize(data[0x149]))
    } else if data.len() != rom_banks_of(data[0x148])->0 * ROM_BANK_SIZE {
        Some(
            CartridgeError::SizeMismatch {
                expected: (rom_banks_of(data[0x148])->0 * ROM_BANK_SIZE) as usize,
                actual: data.len() as usize,
            },
        )
    } else {
        None
    }
}

/// Calls `String::from_utf8`; the contract restates its documentation with
/// vstd's model of UTF-8: it succeeds exactly on valid UTF-8 and then holds
/// the decoded characters.
#[verifier::external_body]
fn string_from_utf8(bytes: Vec<u8>) -> (r: Option<String>)
    ensures
        r is Some <==> valid_utf8(bytes@),
        r matches Some(s) ==> s@ == decode_utf8(bytes@),
{
    match String::from_utf8(bytes) {
        Ok(s) => Some(s),
        Err(_) => None,
    }
}

fn copy_bytes(data: &[u8], start: usize, end: usize) -> (r: Vec<u8>)
    requires
        start <= end <= data@.len(),
    ensures
        r@ == data@.subrange(start as int, end as int),
{
    slice_to_vec(slice_subrange(data, start, end))
}

impl CartridgeHeader {
    /// Reads the header fields of a ROM image.
    pub fn parse(data: &[u8]) -> (r: CartridgeHeader)
        requires
            data@.len() >= 0x150,
        ensures
            r.title@ == data@.subrange(0x134, 0x144),
            r.cartridge_type == data@[0x147],
            r.rom_size == data@[0x148],
            r.ram_size == data@[0x149],
            r.old_licensee_code == data@[0x14B],
            r.header_checksum == data@[0x14D],
            r.entry_point@ == data@.subrange(0x100, 0x104),
            r.logo@ == data@.subrange(0x104, 0x134),
            r.new_licensee_code@ == data@.subrange(0x144, 0x146),
            r.sgb_flag == data@[0x146],
            r.destination_code == data@[0x14A],
            r.mask_rom_version_number == data@[0x14C],
            r.global_checksum@ == data@.subrange(0x14E, 0x150),
    {
        CartridgeHeader {
            entry_point: copy_bytes(data, 0x100, 0x104),
            logo: copy_bytes(data, 0x104, 0x134),
            title: copy_bytes(data, 0x134, 0x144),
            new_licensee_code: copy_bytes(data, 0x144, 0x146),
            sgb_flag: data[0x146],
            cartridge_type: data[0x147],
            rom_size: data[0x148],
            ram_size: data[0x149],
            destination_code: data[0x14A],
            old_licensee_code: data[0x14B],
            mask_rom_version_number: data[0x14C],
            header_checksum: data[0x14D],
            global_checksum: copy_bytes(data, 0x14E, 0x150),
        }
    }

    fn rom_banks(&self) -> (r: Result<usize, CartridgeError>)
        ensures
            r matches Ok(n) ==> rom_banks_of(self.rom_size) == Some(n) && 2 <= n <= 512,
            r is Err <==> rom_banks_of(self.rom_size) is None,
            r is Err ==> r == Err::<usize, CartridgeError>(
                CartridgeError::InvalidRomSize(self.rom_size),
            ),
    {
        if self.rom_size <= 0x08 {
            proof {
                lemma_rom_banks(self.rom_size);
            }
            return Ok(1usize << (self.rom_size as usize + 1));
        }
        Err(CartridgeError::InvalidRomSize(self.rom_size))
    }

    fn ram_size(&self) -> (r: Result<usize, CartridgeError>)
        ensures
            r matches Ok(n) ==> ram_size_of(self.ram_size) == Some(n),
            r is Err <==> ram_size_of(self.ram_size) is None,
            r is Err ==> r == Err::<usize, CartridgeError>(
                CartridgeError::InvalidRamSize(self.ram_size),
            ),
    {
        match self.ram_size {
            0x00 => Ok(0),
            0x01 => Ok(2048),
            0x02 => Ok(8192),
            0x03 => Ok(32768),
            0x04 => Ok(131072),
            0x05 => Ok(65536),
            _ => Err(CartridgeError::InvalidRamSize(self.ram_size)),
        }
    }
}

/// Computes the header checksum of a ROM image.
pub fn header_checksum(data: &[u8]) -> (r: u8)
    requires
        data@.len() >= 0x150,
    ensures
        r == header_sum(data@, 0x14D),
{
    let mut chksum: u8 = 0;
    let mut i: usize = 0x0134;
    while i < 0x014d
        invariant
            0x134 <= i <= 0x14d,
            data@.len() >= 0x150,
            chksum == header_sum(data@, i as int),
        decreases 0x14d - i,
    {
        chksum = chksum.wrapping_sub(data[i]).wrapping_sub(1);
        i = i + 1;
    }
    chksum
}

/// The length of `s` without its trailing zero bytes.
fn trimmed_len(s: &[u8]) -> (r: usize)
    ensures
        r <= s@.len(),
        trim_zeros(s@) == s@.subrange(0, r as int),
{
    let mut n = s.len();
    proof {
        assert(s@.subrange(0, n as int) =~= s@);
    }
    while n > 0 && s[n - 1] == 0
        invariant
            n <= s@.len(),
            trim_zeros(s@) == trim_zeros(s@.subrange(0, n as int)),
        decreases n,
    {
        proof {
            assert(s@.subrange(0, n as int).drop_last() =~= s@.subrange(0, n - 1));
        }
        n = n - 1;
    }
    proof {
        assert(trim_zeros(s@.subrange(0, n as int)) == s@.subrange(0, n as int));
    }
    n
}

/// Counts the pages 0-3 whose logo checksum, in `sums`, is that of the Nintendo logo.
pub fn count_logos(sums: &[u32; 4]) -> (r: usize)
    ensures
        r == (if sums[0] == LOGO_CRC32 { 1int } else { 0 }) + (if sums[1] == LOGO_CRC32 {
            1int
        } else {
            0
        }) + (if sums[2] == LOGO_CRC32 { 1int } else { 0 }) + (if sums[3] == LOGO_CRC32 {
            1int
        } else {
            0
        }),
{
    let mut n: usize = 0;
    if sums[0] == LOGO_CRC32 {
        n = n + 1;
    }
    if sums[1] == LOGO_CRC32 {
        n = n + 1;
    }
    if sums[2] == LOGO_CRC32 {
        n = n + 1;
    }
    if sums[3] == LOGO_CRC32 {
        n = n + 1;
    }
    n
}

/// Detects an MBC1 multicart: a 1 MiB image with the Nintendo logo at the
/// start of at least three of its four 256 KiB pages.
pub fn is_mbc1_multicart(rom: &[u8]) -> (r: bool)
    ensures
        r == is_multicart(rom@),
{
    if rom.len() != 1048576 {
        return false;
    }
    let mut sums = [0u32; 4];
    let mut page: usize = 0;
    while page < 4
        invariant
            page <= 4,
            rom@.len() == 1048576,
            forall|p: int|
                0 <= p < page ==> (sums[p] == LOGO_CRC32) == #[trigger] logo_at(rom@, p),
        decreases 4 - page,
    {
        let start = page * 0x40000 + 0x0104;
        let sum = checksum_ieee(slice_subrange(rom, start, start + 0x30));
        sums[page] = sum;
        page = page + 1;
    }
    count_logos(&sums) >= 3
}

/// A cartridge: ROM, the memory bank controller and external RAM.
pub struct Cartridge {
    pub title: String,
    /// Whether the game is made for the Game Boy Color.
    pub is_cgb: bool,
    pub mbc: Mbc,
    pub rom_banks: usize,
    pub rom: Vec<u8>,
    pub sram: Vec<u8>,
}

/// The byte that an offset selects in a memory of `len` bytes (a power of two):
/// the offset wrapped to the memory's size.
pub open spec fn wrap(offset: usize, len: int) -> int {
    (offset & ((len - 1) as usize)) as int
}

impl Cartridge {
    pub open spec fn wf(&self) -> bool {
        &&& self.mbc.wf()
        &&& self.rom@.len() >= 1
    }

    /// Loads a ROM image and, if given, the saved contents of external RAM.
    pub fn new(data: Vec<u8>, save: Option<Vec<u8>>) -> (r: Result<Cartridge, CartridgeError>)
        ensures
            r is Err <==> load_error(data@) is Some,
            r matches Err(e) ==> load_error(data@) == Some(e),
            r matches Ok(c) ==> {
                &&& c.wf()
                &&& c.rom@ == data@
                &&& c.title@ == decode_utf8(title_bytes(data@))
                &&& c.is_cgb == cgb_flag(data@)
                &&& c.rom_banks == rom_banks_of(data@[0x148])->0
                &&& c.mbc == Mbc::initial(data@[0x147], c.rom_banks, is_multicart(data@))
                &&& c.sram@ == match save {
                    Some(s) => s@,
                    None => Seq::new(ram_size_of(data@[0x149])->0 as nat, |i: int| 0u8),
                }
            },
    {
        if !(data.len() >= 0x8000 && data.len() % 0x4000 == 0) {
            return Err(CartridgeError::InvalidSize);
        }
        let header = CartridgeHeader::parse(data.as_slice());
        let chksum = header_checksum(data.as_slice());
        if chksum != header.header_checksum {
            return Err(CartridgeError::ChecksumMismatch);
        }
        let title_len: usize = if header.old_licensee_code == 0x33 { 11 } else { 15 };
        let raw_title = slice_subrange(header.title.as_slice(), 0, title_len);
        let n = trimmed_len(raw_title);
        let title_vec = copy_bytes(raw_title, 0, n);
        proof {
            assert(raw_title@ =~= data@.subrange(0x134, 0x134 + title_len));
            assert(title_vec@ =~= raw_title@.subrange(0, n as int));
            assert(title_vec@ =~= title_bytes(data@));
        }
        let title = match string_from_utf8(title_vec) {
            Some(t) => t,
            None => return Err(CartridgeError::InvalidTitle),
        };
        let t = header.cartridge_type;
        if !(t <= 0x03 || t == 0x08 || t == 0x09) {
            return Err(CartridgeError::UnsupportedType(t));
        }
        let multicart = if t >= 0x01 && t <= 0x03 {
            is_mbc1_multicart(data.as_slice())
        } else {
            false
        };
        let rom_banks = match header.rom_banks() {
            Ok(n) => n,
            Err(e) => return Err(e),
        };
        let mbc = Mbc::new(t, rom_banks, multicart);
        let ram_size = match header.ram_size() {
            Ok(n) => n,
            Err(e) => return Err(e),
        };
        let rom_size = rom_banks * ROM_BANK_SIZE;
        if data.len() != rom_size {
            return Err(CartridgeError::SizeMismatch { expected: rom_size, actual: data.len() });
        }
        let sram = match save {
            Some(s) => s,
            None => vec![0u8; ram_size],
        };
        let is_cgb = data[0x143] & 0x80 != 0;
        Ok(Cartridge { title, is_cgb, mbc, rom_banks, rom: data, sram })
    }

    pub open spec fn rom_byte(&self, addr: u16) -> u8 {
        self.rom@[wrap(self.mbc.mapped(addr), self.rom@.len() as int)]
    }

    /// What a read of external RAM at `addr` gives: 0xFF while RAM is
    /// disabled or absent.
    pub open spec fn ram_byte(&self, addr: u16) -> u8 {
        if self.mbc.sram_enabled() && self.sram@.len() > 0 {
            self.sram@[wrap(self.mbc.mapped(addr), self.sram@.len() as int)]
        } else {
            0xFF
        }
    }

    pub open spec fn read_value(&self, addr: u16) -> u8 {
        if addr <= 0x7FFF {
            self.rom_byte(addr)
        } else {
            self.ram_byte(addr)
        }
    }

    /// The effect of a CPU write of `val` to `addr`: controller registers in
    /// 0x0000-0x7FFF, external RAM (when enabled) in 0xA000-0xBFFF.
    pub open spec fn write_effect(old: &Cartridge, new: &Cartridge, addr: u16, val: u8) -> bool {
        &&& new.rom == old.rom
        &&& new.title == old.title
        &&& new.is_cgb == old.is_cgb
        &&& new.rom_banks == old.rom_banks
        &&& addr <= 0x7FFF ==> new.mbc == old.mbc.written(addr, val) && new.sram == old.sram
        &&& 0xA000 <= addr <= 0xBFFF ==> new.mbc == old.mbc && new.sram@ == (if old.mbc.sram_enabled()
            && old.sram@.len() > 0 {
            old.sram@.update(wrap(old.mbc.mapped(addr), old.sram@.len() as int), val)
        } else {
            old.sram@
        })
    }

    pub fn read(&self, addr: u16) -> (r: u8)
        requires
            self.wf(),
            addr <= 0x7FFF || 0xA000 <= addr <= 0xBFFF,
        ensures
            r == self.read_value(addr),
            addr <= 0x7FFF ==> r == self.rom_byte(addr),
            0xA000 <= addr <= 0xBFFF ==> r == self.ram_byte(addr),
    {
        if addr <= 0x7FFF {
            let a = self.mbc.get_addr(addr);
            let m = self.rom.len() - 1;
            proof {
                lemma_and_le_usize(a, m);
            }
            self.rom[a & m]
        } else if self.mbc.sram_enable() {
            self.read_ram(addr, 0xFF)
        } else {
            0xFF
        }
    }

    /// The cartridge after the CPU writes `val` to `addr`.
    pub fn write(&mut self, addr: u16, val: u8)
        requires
            old(self).wf(),
            addr <= 0x7FFF || 0xA000 <= addr <= 0xBFFF,
        ensures
            final(self).wf(),
            Cartridge::write_effect(old(self), final(self), addr, val),
            final(self).rom == old(self).rom,
            final(self).title == old(self).title,
            final(self).is_cgb == old(self).is_cgb,
            final(self).rom_banks == old(self).rom_banks,
            addr <= 0x7FFF ==> final(self).mbc == old(self).mbc.written(addr, val)
                && final(self).sram == old(self).sram,
            0xA000 <= addr <= 0xBFFF ==> final(self).mbc == old(self).mbc && final(self).sram@ == (
            if old(self).mbc.sram_enabled() && old(self).sram@.len() > 0 {
                old(self).sram@.update(
                    wrap(old(self).mbc.mapped(addr), old(self).sram@.len() as int),
                    val,
                )
            } else {
                old(self).sram@
            }),
    {
        if addr <= 0x7FFF {
            self.mbc.write(addr, val);
        } else if self.mbc.sram_enable() {
            self.write_ram(addr, val);
        }
    }

    fn read_ram(&self, addr: u16, default_val: u8) -> (r: u8)
        requires
            self.wf(),
        ensures
            self.sram@.len() > 0 ==> r == self.sram@[wrap(
                self.mbc.mapped(addr),
                self.sram@.len() as int,
            )],
            self.sram@.len() == 0 ==> r == default_val,
    {
        if self.sram.len() > 0 {
            let a = self.mbc.get_addr(addr);
            let m = self.sram.len() - 1;
            proof {
                lemma_and_le_usize(a, m);
            }
            self.sram[a & m]
        } else {
            default_val
        }
    }

    fn write_ram(&mut self, addr: u16, val: u8)
        requires
            old(self).wf(),
        ensures
            final(self).wf(),
            final(self).rom == old(self).rom && final(self).mbc == old(self).mbc,
            final(self).title == old(self).title && final(self).rom_banks == old(self).rom_banks,
            final(self).is_cgb == old(self).is_cgb,
            old(self).sram@.len() > 0 ==> final(self).sram@ == old(self).sram@.update(
                wrap(old(self).mbc.mapped(addr), old(self).sram@.len() as int),
                val,
            ),
            old(self).sram@.len() == 0 ==> final(self).sram == old(self).sram,
    {
        if self.sram.len() > 0 {
            let a = self.mbc.get_addr(addr);
            let m = self.sram.len() - 1;
            proof {
                lemma_and_le_usize(a, m);
            }
            self.sram.set(a & m, val);
        }
    }
}

/// A byte written to enabled external RAM is what a read of the same address
/// gives back afterwards.
pub proof fn lemma_ram_read_after_write(c: Cartridge, c2: Cartridge, addr: u16, val: u8)
    requires
        c.wf(),
        0xA000 <= addr <= 0xBFFF,
        c.mbc.sram_enabled(),
        c.sram@.len() > 0,
        Cartridge::write_effect(&c, &c2, addr, val),
    ensures
        c2.read_value(addr) == val,
{
    lemma_and_le_usize(c.mbc.mapped(addr), (c.sram@.len() - 1) as usize);
}

/// The external RAM sizes of the header's RAM size codes: none for code 0;
/// code 2 is one 8 KiB bank, code 3 four banks (32 KiB), code 4 sixteen
/// banks (128 KiB) and code 5 eight banks (64 KiB); code 1 is a quarter bank
/// (2 KiB); codes above 5 name no size. (`Cartridge::new` gives a cartridge
/// loaded without a save external RAM of exactly that size, all zero.)
pub proof fn lemma_ram_size_codes(code: u8)
    ensures
        ram_size_of(0) == Some(0usize),
        ram_size_of(2) == Some(RAM_BANK_SIZE),
        ram_size_of(3) == Some((4 * RAM_BANK_SIZE) as usize),
        ram_size_of(4) == Some((16 * RAM_BANK_SIZE) as usize),
        ram_size_of(5) == Some((8 * RAM_BANK_SIZE) as usize),
        4 * ram_size_of(1)->0 == RAM_BANK_SIZE,
        code > 5 <==> ram_size_of(code) is None,
        ram_size_of(3)->0 == 32768 && ram_size_of(4)->0 == 131072 && ram_size_of(5)->0 == 65536,
{
}

/// The byte of external RAM that `addr` selects with the controller as it is.
pub open spec fn ram_index(c: Cartridge, addr: u16) -> int {
    wrap(c.mbc.mapped(addr), c.sram@.len() as int)
}

/// The later writes of `lemma_ram_keeps_written_byte`: a controller write, or
/// a RAM write that selects another byte than `addr` did.
pub open spec fn leaves_ram_byte(cs: Seq<Cartridge>, addrs: Seq<u16>, i: int, addr: u16) -> bool {
    ||| addrs[i] <= 0x7FFF
    ||| (0xA000 <= addrs[i] <= 0xBFFF && ram_index(cs[i], addrs[i]) != ram_index(cs[0], addr))
}

proof fn lemma_ram_writes_prefix(
    cs: Seq<Cartridge>,
    addrs: Seq<u16>,
    vals: Seq<u8>,
    addr: u16,
    val: u8,
    k: nat,
)
    requires
        1 <= k < cs.len(),
        cs.len() == addrs.len() + 1,
        vals.len() == addrs.len(),
        cs[0].wf(),
        cs[0].mbc.sram_enabled(),
        cs[0].sram@.len() > 0,
        addrs[0] == addr,
        vals[0] == val,
        0xA000 <= addr <= 0xBFFF,
        forall|i: int|
            #![trigger addrs[i]]
            0 <= i < addrs.len() ==> Cartridge::write_effect(&cs[i], &cs[i + 1], addrs[i], vals[i]),
        forall|i: int| 1 <= i < addrs.len() ==> #[trigger] leaves_ram_byte(cs, addrs, i, addr),
        forall|j: int|
            1 <= j < cs.len() ==> (#[trigger] cs[j].mbc).sram_enabled() && cs[j].mbc.mapped(addr)
                == cs[0].mbc.mapped(addr),
    ensures
        cs[k as int].sram@.len() == cs[0].sram@.len(),
        cs[k as int].sram@[ram_index(cs[0], addr)] == val,
    decreases k,
{
    lemma_and_le_usize(cs[0].mbc.mapped(addr), (cs[0].sram@.len() - 1) as usize);
    if k > 1 {
        lemma_ram_writes_prefix(cs, addrs, vals, addr, val, (k - 1) as nat);
        let i = k - 1;
        assert(Cartridge::write_effect(&cs[i], &cs[i + 1], addrs[i], vals[i]));
        assert(leaves_ram_byte(cs, addrs, i, addr));
        let m = cs[i].mbc;
        assert(m.sram_enabled());
        lemma_and_le_usize(m.mapped(addrs[i]), (cs[0].sram@.len() - 1) as usize);
    } else {
        assert(Cartridge::write_effect(&cs[0], &cs[1], addrs[0], vals[0]));
    }
}

/// A byte written to enabled external RAM reads back after any number of
/// further writes, as long as RAM stays enabled and the controller keeps
/// mapping `addr` to the same byte, and none of the further RAM writes
/// selects that byte; controller writes (0x0000-0x7FFF) may come in between.
pub proof fn lemma_ram_keeps_written_byte(
    cs: Seq<Cartridge>,
    addrs: Seq<u16>,
    vals: Seq<u8>,
    addr: u16,
    val: u8,
)
    requires
        cs.len() == addrs.len() + 1,
        vals.len() == addrs.len(),
        addrs.len() >= 1,
        cs[0].wf(),
        cs[0].mbc.sram_enabled(),
        cs[0].sram@.len() > 0,
        addrs[0] == addr,
        vals[0] == val,
        0xA000 <= addr <= 0xBFFF,
        forall|i: int|
            #![trigger addrs[i]]
            0 <= i < addrs.len() ==> Cartridge::write_effect(&cs[i], &cs[i + 1], addrs[i], vals[i]),
        forall|i: int| 1 <= i < addrs.len() ==> #[trigger] leaves_ram_byte(cs, addrs, i, addr),
        forall|j: int|
            1 <= j < cs.len() ==> (#[trigger] cs[j].mbc).sram_enabled() && cs[j].mbc.mapped(addr)
                == cs[0].mbc.mapped(addr),
    ensures
        cs[addrs.len() as int].read_value(addr) == val,
{
    lemma_ram_writes_prefix(cs, addrs, vals, addr, val, addrs.len());
    let n = addrs.len() as int;
    assert(cs[n].mbc.sram_enabled() && cs[n].mbc.mapped(addr) == cs[0].mbc.mapped(addr));
}

} // verus!
