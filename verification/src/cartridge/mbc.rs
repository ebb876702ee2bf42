use vstd::prelude::*;

use crate::bits::{lemma_and_le_usize, lemma_byte_arith, lemma_low_bits_u16};
use crate::cartridge::{RAM_BANK_SIZE, ROM_BANK_SIZE};

verus! {

/// A memory bank controller: the registers that map ROM banks into
/// 0x0000-0x7FFF and RAM banks into 0xA000-0xBFFF.
///
/// `rom_banks` is the number of 16 KiB ROM banks of the cartridge; bank
/// numbers are masked by `rom_banks - 1`. An MBC1 multicart wires only four
/// bits of the low bank register and shifts the high bank by 18 in place of 19.
/// `ram` tells whether the cartridge type has external RAM.
#[derive(Clone, Debug, PartialEq, Eq, Structural)]
pub enum Mbc {
    NoMbc { ram: bool },
    Mbc1 {
        ram: bool,
        sram_enable: bool,
        low_bank: usize,
        high_bank: usize,
        bank_mode: bool,
        rom_banks: usize,
        multicart: bool,
    },
    Mbc3 {
        ram: bool,
        sram_enable: bool,
        low_bank: usize,
        high_bank: usize,
        rtc_mode: bool,
        has_rtc: bool,
        rom_banks: usize,
    },
    Mbc5 { ram: bool, sram_enable: bool, low_bank: usize, high_bank: usize, rom_banks: usize },
}

/// Whether the cartridge type byte names a cartridge with external RAM:
/// ROM+RAM, MBC1+RAM, MBC3+RAM and MBC5+RAM, with or without battery
/// (and timer or rumble).
pub open spec fn type_has_ram(cartridge_type: u8) -> bool {
    cartridge_type == 0x02 || cartridge_type == 0x03 || cartridge_type == 0x08 || cartridge_type
        == 0x09 || cartridge_type == 0x10 || cartridge_type == 0x12 || cartridge_type == 0x13
        || cartridge_type == 0x1a || cartridge_type == 0x1b || cartridge_type == 0x1d
        || cartridge_type == 0x1e
}

/// Whether the cartridge type byte of the header names a supported controller.
pub open spec fn supported_type(cartridge_type: u8) -> bool {
    cartridge_type == 0x00 || cartridge_type == 0x08 || cartridge_type == 0x09 || (0x01
        <= cartridge_type <= 0x03) || (0x0f <= cartridge_type <= 0x13) || (0x19 <= cartridge_type
        <= 0x1e)
}

impl Mbc {
    /// The register ranges that the controller keeps its values in.
    pub open spec fn wf(self) -> bool {
        match self {
            Mbc::NoMbc { .. } => true,
            Mbc::Mbc1 { low_bank, high_bank, rom_banks, .. } => 1 <= low_bank <= 31 && high_bank
                <= 3 && rom_banks >= 1,
            Mbc::Mbc3 { low_bank, high_bank, rom_banks, .. } => low_bank <= 0x7f && high_bank <= 3
                && rom_banks >= 1,
            Mbc::Mbc5 { low_bank, high_bank, rom_banks, .. } => low_bank <= 0x1ff && high_bank
                <= 0xf && rom_banks >= 1,
        }
    }

    /// The controller for a cartridge type, in its power-on state.
    pub open spec fn initial(cartridge_type: u8, rom_banks: usize, multicart: bool) -> Mbc {
        let ram = type_has_ram(cartridge_type);
        if cartridge_type == 0x00 || cartridge_type == 0x08 || cartridge_type == 0x09 {
            Mbc::NoMbc { ram }
        } else if 0x01 <= cartridge_type <= 0x03 {
            Mbc::Mbc1 {
                ram,
                sram_enable: false,
                low_bank: 1,
                high_bank: 0,
                bank_mode: false,
                rom_banks,
                multicart,
            }
        } else if 0x0f <= cartridge_type <= 0x13 {
            Mbc::Mbc3 {
                ram,
                sram_enable: false,
                low_bank: 1,
                high_bank: 0,
                rtc_mode: false,
                has_rtc: cartridge_type <= 0x10,
                rom_banks,
            }
        } else {
            Mbc::Mbc5 { ram, sram_enable: false, low_bank: 1, high_bank: 0, rom_banks }
        }
    }

    /// Builds the controller named by the cartridge type byte, in its
    /// power-on state.
    pub fn new(cartridge_type: u8, rom_banks: usize, multicart: bool) -> (r: Mbc)
        requires
            supported_type(cartridge_type),
        ensures
            r == Mbc::initial(cartridge_type, rom_banks, multicart),
            rom_banks >= 1 ==> r.wf(),
    {
        let ram = match cartridge_type {
            0x02 | 0x03 | 0x08 | 0x09 | 0x10 | 0x12 | 0x13 | 0x1a | 0x1b | 0x1d | 0x1e => true,
            _ => false,
        };
        match cartridge_type {
            0x00 | 0x08 | 0x09 => Mbc::NoMbc { ram },
            0x01..=0x03 => Mbc::Mbc1 {
                ram,
                sram_enable: false,
                low_bank: 0b00001,
                high_bank: 0b00,
                bank_mode: false,
                rom_banks,
                multicart,
            },
            0x0f..=0x13 => Mbc::Mbc3 {
                ram,
                sram_enable: false,
                low_bank: 1,
                high_bank: 0b00,
                rtc_mode: false,
                has_rtc: cartridge_type <= 0x10,
                rom_banks,
            },
            _ => Mbc::Mbc5 { ram, sram_enable: false, low_bank: 1, high_bank: 0b00, rom_banks },
        }
    }

    /// Whether the cartridge has external RAM, as its type byte says.
    pub fn has_ram(&self) -> (r: bool)
        ensures
            r == self.ram(),
    {
        match self {
            Mbc::NoMbc { ram } => *ram,
            Mbc::Mbc1 { ram, .. } => *ram,
            Mbc::Mbc3 { ram, .. } => *ram,
            Mbc::Mbc5 { ram, .. } => *ram,
        }
    }

    pub open spec fn ram(self) -> bool {
        match self {
            Mbc::NoMbc { ram } => ram,
            Mbc::Mbc1 { ram, .. } => ram,
            Mbc::Mbc3 { ram, .. } => ram,
            Mbc::Mbc5 { ram, .. } => ram,
        }
    }

    pub open spec fn sram_enabled(self) -> bool {
        match self {
            Mbc::NoMbc { .. } => false,
            Mbc::Mbc1 { sram_enable, .. } => sram_enable,
            Mbc::Mbc3 { sram_enable, .. } => sram_enable,
            Mbc::Mbc5 { sram_enable, .. } => sram_enable,
        }
    }

    /// Whether external RAM is currently enabled.
    pub fn sram_enable(&self) -> (r: bool)
        ensures
            r == self.sram_enabled(),
    {
        match self {
            Mbc::NoMbc { .. } => false,
            Mbc::Mbc1 { sram_enable, .. } => *sram_enable,
            Mbc::Mbc3 { sram_enable, .. } => *sram_enable,
            Mbc::Mbc5 { sram_enable, .. } => *sram_enable,
        }
    }

    /// The controller after the CPU writes `val` to `addr` in 0x0000-0x7FFF.
    pub open spec fn written(self, addr: u16, val: u8) -> Mbc {
        match self {
            Mbc::NoMbc { ram } => Mbc::NoMbc { ram },
            Mbc::Mbc1 { ram, sram_enable, low_bank, high_bank, bank_mode, rom_banks, multicart } => {
                let sram_enable = if addr <= 0x1fff { val & 0xf == 0xa } else { sram_enable };
                let low_bank = if 0x2000 <= addr <= 0x3fff {
                    if val & 0x1f == 0 { 1 } else { (val & 0x1f) as usize }
                } else {
                    low_bank
                };
                let high_bank = if 0x4000 <= addr <= 0x5fff { (val & 3) as usize } else { high_bank };
                let bank_mode = if 0x6000 <= addr <= 0x7fff { val & 1 != 0 } else { bank_mode };
                Mbc::Mbc1 { ram, sram_enable, low_bank, high_bank, bank_mode, rom_banks, multicart }
            },
            Mbc::Mbc3 { ram, sram_enable, low_bank, high_bank, rtc_mode, has_rtc, rom_banks } => {
                let sram_enable = if addr <= 0x1fff { val & 0xf == 0xa } else { sram_enable };
                let low_bank = if 0x2000 <= addr <= 0x3fff {
                    if val == 0 { 1 } else { (val & 0x7f) as usize }
                } else {
                    low_bank
                };
                let select = 0x4000 <= addr <= 0x5fff;
                let high_bank = if select && val < 4 { (val & 3) as usize } else { high_bank };
                let rtc_mode = if select && val < 4 {
                    false
                } else if select && 0x8 <= val <= 0xc && has_rtc {
                    true
                } else {
                    rtc_mode
                };
                Mbc::Mbc3 { ram, sram_enable, low_bank, high_bank, rtc_mode, has_rtc, rom_banks }
            },
            Mbc::Mbc5 { ram, sram_enable, low_bank, high_bank, rom_banks } => {
                let sram_enable = if addr <= 0x1fff { val & 0xf == 0xa } else { sram_enable };
                let low_bank = if 0x2000 <= addr <= 0x2fff {
                    (low_bank & 0x100) | val as usize
                } else if 0x3000 <= addr <= 0x3fff {
                    (low_bank & 0x0ff) | ((val as usize & 1) << 8usize)
                } else {
                    low_bank
                };
                let high_bank = if 0x4000 <= addr <= 0x5fff { (val & 0xf) as usize } else { high_bank };
                Mbc::Mbc5 { ram, sram_enable, low_bank, high_bank, rom_banks }
            },
        }
    }

    /// Writes a controller register (0x0000-0x7FFF).
    pub fn write(&mut self, addr: u16, val: u8)
        requires
            old(self).wf(),
        ensures
            *final(self) == old(self).written(addr, val),
            final(self).wf(),
    {
        proof {
            crate::bits::lemma_and_le_u8(val, 0x1f);
            crate::bits::lemma_and_le_u8(val, 0x7f);
            crate::bits::lemma_and_le_u8(val, 0xf);
            crate::bits::lemma_and_le_u8(val, 3);
        }
        match self {
            Mbc::NoMbc { .. } => {},
            Mbc::Mbc1 { sram_enable, low_bank, high_bank, bank_mode, .. } => {
                if addr <= 0x1fff {
                    *sram_enable = val & 0xf == 0xa;
                } else if addr <= 0x3fff {
                    *low_bank = if val & 0b11111 == 0b00000 {
                        0b00001
                    } else {
                        (val & 0b11111) as usize
                    };
                } else if addr <= 0x5fff {
                    *high_bank = (val & 0b11) as usize;
                } else if addr <= 0x7fff {
                    *bank_mode = val & 1 > 0;
                }
            },
            Mbc::Mbc3 { sram_enable, low_bank, high_bank, rtc_mode, has_rtc, .. } => {
                if addr <= 0x1fff {
                    *sram_enable = val & 0xf == 0xa;
                } else if addr <= 0x3fff {
                    *low_bank = if val == 0 {
                        1
                    } else {
                        (val & 0x7f) as usize
                    };
                } else if addr <= 0x5fff {
                    if val < 4 {
                        *rtc_mode = false;
                        *high_bank = (val & 0b11) as usize;
                    } else if val >= 0x8 && val <= 0xc && *has_rtc {
                        *rtc_mode = true;
                    }
                }
            },
            Mbc::Mbc5 { sram_enable, low_bank, high_bank, .. } => {
                if addr <= 0x1fff {
                    *sram_enable = val & 0xf == 0xa;
                } else if addr <= 0x2fff {
                    let lb = *low_bank;
                    proof {
                        lemma_mbc5_low_bank(lb, val);
                    }
                    *low_bank = (lb & 0x100) | val as usize;
                } else if addr <= 0x3fff {
                    let lb = *low_bank;
                    proof {
                        lemma_mbc5_low_bank(lb, val);
                    }
                    *low_bank = (lb & 0x0ff) | ((val as usize & 1) << 8);
                } else if addr <= 0x5fff {
                    *high_bank = (val & 0xf) as usize;
                }
            },
        }
    }

    /// How many ROM banks one step of the MBC1 upper bank register moves:
    /// 32, or 16 on a multicart.
    pub open spec fn upper_unit(multicart: bool) -> nat {
        if multicart {
            16
        } else {
            32
        }
    }

    /// The ROM bank shown at 0x0000-0x3FFF: bank 0, or on an MBC1 in banking
    /// mode 1 the bank that the upper bank register alone selects.
    pub open spec fn rom_bank_low(self) -> nat {
        match self {
            Mbc::Mbc1 { high_bank, bank_mode, multicart, .. } => if bank_mode {
                (high_bank * Mbc::upper_unit(multicart)) as nat
            } else {
                0
            },
            _ => 0,
        }
    }

    /// The ROM bank shown at 0x4000-0x7FFF: the bank register (four bits of
    /// it on an MBC1 multicart) masked by `rom_banks - 1`, plus on an MBC1 the
    /// banks that the upper bank register selects; bank 1 with no controller.
    pub open spec fn rom_bank_high(self) -> nat {
        match self {
            Mbc::NoMbc { .. } => 1,
            Mbc::Mbc1 { low_bank, high_bank, rom_banks, multicart, .. } => (high_bank
                * Mbc::upper_unit(multicart) + ((if multicart {
                low_bank & 0xf
            } else {
                low_bank
            }) & ((rom_banks - 1) as usize))) as nat,
            Mbc::Mbc3 { low_bank, rom_banks, .. } => (low_bank & ((rom_banks - 1) as usize)) as nat,
            Mbc::Mbc5 { low_bank, rom_banks, .. } => (low_bank & ((rom_banks - 1) as usize)) as nat,
        }
    }

    /// The external RAM bank shown at 0xA000-0xBFFF: on an MBC1 the upper bank
    /// register in banking mode 1 and bank 0 in mode 0; on MBC3 and MBC5 the
    /// RAM bank register.
    pub open spec fn ram_bank(self) -> nat {
        match self {
            Mbc::NoMbc { .. } => 0,
            Mbc::Mbc1 { high_bank, bank_mode, .. } => if bank_mode {
                high_bank as nat
            } else {
                0
            },
            Mbc::Mbc3 { high_bank, .. } => high_bank as nat,
            Mbc::Mbc5 { high_bank, .. } => high_bank as nat,
        }
    }

    /// The offset into ROM (for 0x0000-0x7FFF) or external RAM (for
    /// 0xA000-0xBFFF) that `addr` selects, before it is wrapped to the size
    /// of the memory: the bank shown in that window times the bank size, plus
    /// the address's offset in the window. With no controller the offset is
    /// the address itself; otherwise any other address gives 0xFF.
    pub open spec fn mapped(self, addr: u16) -> usize {
        match self {
            Mbc::NoMbc { .. } => addr as usize,
            _ => if addr <= 0x3fff {
                (self.rom_bank_low() * 0x4000 + addr % 0x4000) as usize
            } else if addr <= 0x7fff {
                (self.rom_bank_high() * 0x4000 + addr % 0x4000) as usize
            } else if 0xa000 <= addr <= 0xbfff {
                (self.ram_bank() * 0x2000 + addr % 0x2000) as usize
            } else {
                0xff
            },
        }
    }

    pub fn get_addr(&self, addr: u16) -> (r: usize)
        requires
            self.wf(),
        ensures
            r == self.mapped(addr),
    {
        proof {
            lemma_address_offsets(addr);
        }
        match self {
            Mbc::NoMbc { .. } => addr as usize,
            Mbc::Mbc1 { low_bank, high_bank, bank_mode, rom_banks, multicart, .. } => {
                let shift: usize = if *multicart { 18 } else { 19 };
                let low: usize = if *multicart { *low_bank & 0xf } else { *low_bank };
                let bank: usize = low & (*rom_banks - 1);
                proof {
                    lemma_and_le_usize(*low_bank, 0xf);
                    lemma_and_le_usize(low, (*rom_banks - 1) as usize);
                    lemma_bank_offsets(*high_bank, bank, (addr & 0x3fff) as usize);
                    lemma_bank_offsets(*high_bank, bank, (addr & 0x1fff) as usize);
                }
                if addr <= 0x3fff {
                    if *bank_mode {
                        (*high_bank << shift) | (addr & 0x3fff) as usize
                    } else {
                        (addr & 0x3fff) as usize
                    }
                } else if addr <= 0x7fff {
                    (*high_bank << shift) | (bank << 14) | (addr & 0x3fff) as usize
                } else if addr >= 0xa000 && addr <= 0xbfff {
                    if *bank_mode {
                        (*high_bank << 13) | (addr & 0x1fff) as usize
                    } else {
                        (addr & 0x1fff) as usize
                    }
                } else {
                    0xff
                }
            },
            Mbc::Mbc3 { low_bank, high_bank, rom_banks, .. } => {
                let bank: usize = *low_bank & (*rom_banks - 1);
                proof {
                    lemma_and_le_usize(*low_bank, (*rom_banks - 1) as usize);
                    lemma_bank_offsets(*high_bank, bank, (addr & 0x3fff) as usize);
                    lemma_bank_offsets(*high_bank, bank, (addr & 0x1fff) as usize);
                }
                if addr <= 0x3fff {
                    (addr & 0x3fff) as usize
                } else if addr <= 0x7fff {
                    (bank << 14) | (addr & 0x3fff) as usize
                } else if addr >= 0xa000 && addr <= 0xbfff {
                    (*high_bank << 13) | (addr & 0x1fff) as usize
                } else {
                    0xff
                }
            },
            Mbc::Mbc5 { low_bank, high_bank, rom_banks, .. } => {
                let bank: usize = *low_bank & (*rom_banks - 1);
                proof {
                    lemma_and_le_usize(*low_bank, (*rom_banks - 1) as usize);
                    lemma_bank_offsets(*high_bank, bank, (addr & 0x3fff) as usize);
                    lemma_bank_offsets(*high_bank, bank, (addr & 0x1fff) as usize);
                }
                if addr <= 0x3fff {
                    (addr & 0x3fff) as usize
                } else if addr <= 0x7fff {
                    (bank << 14) | (addr & 0x3fff) as usize
                } else if addr >= 0xa000 && addr <= 0xbfff {
                    (*high_bank << 13) | (addr & 0x1fff) as usize
                } else {
                    0xff
                }
            },
        }
    }
}

/// The offset of an address in a 16 KiB and in an 8 KiB window.
proof fn lemma_address_offsets(a: u16)
    ensures
        (a & 0x3fff) as usize == a % 0x4000,
        (a & 0x1fff) as usize == a % 0x2000,
{
    lemma_low_bits_u16(a);
}

/// Bank numbers shifted into place and ORed with an offset inside the bank
/// add up: the bits do not overlap.
proof fn lemma_bank_offsets(h: usize, b: usize, o: usize)
    requires
        h <= 0xf,
        b <= 0x1ff,
    ensures
        o < 0x4000 && h <= 3 && b < 16 ==> ((h << 18usize) | (b << 14usize)) | o == (h * 16 + b)
            * 0x4000 + o,
        o < 0x4000 && h <= 3 && b < 32 ==> ((h << 19usize) | (b << 14usize)) | o == (h * 32 + b)
            * 0x4000 + o,
        o < 0x4000 && h <= 3 ==> (h << 18usize) | o == h * 16 * 0x4000 + o,
        o < 0x4000 && h <= 3 ==> (h << 19usize) | o == h * 32 * 0x4000 + o,
        o < 0x4000 ==> (b << 14usize) | o == b * 0x4000 + o,
        o < 0x2000 ==> (h << 13usize) | o == h * 0x2000 + o,
{
    assert({
        &&& o < 0x4000 && h <= 3 && b < 16 ==> ((h << 18usize) | (b << 14usize)) | o == (h * 16
            + b) * 0x4000 + o
        &&& o < 0x4000 && h <= 3 && b < 32 ==> ((h << 19usize) | (b << 14usize)) | o == (h * 32
            + b) * 0x4000 + o
        &&& o < 0x4000 && h <= 3 ==> (h << 18usize) | o == h * 16 * 0x4000 + o
        &&& o < 0x4000 && h <= 3 ==> (h << 19usize) | o == h * 32 * 0x4000 + o
        &&& o < 0x4000 ==> (b << 14usize) | o == b * 0x4000 + o
        &&& o < 0x2000 ==> (h << 13usize) | o == h * 0x2000 + o
    }) by (bit_vector)
        requires
            h <= 0xf,
            b <= 0x1ff,
    ;
}

proof fn lemma_mbc5_low_bank(lb: usize, val: u8)
    requires
        lb <= 0x1ff,
    ensures
        (lb & 0x100) | val as usize <= 0x1ff,
        (lb & 0x0ff) | ((val as usize & 1) << 8usize) <= 0x1ff,
{
    assert((lb & 0x100) | val as usize <= 0x1ff && (lb & 0x0ff) | ((val as usize & 1) << 8usize)
        <= 0x1ff) by (bit_vector)
        requires lb <= 0x1ff;
}

/// The lower ROM window of an MBC1 in mode 0, and of MBC3 and MBC5 always,
/// is bank 0: the offset equals the address.
pub proof fn lemma_fixed_bank_zero(m: Mbc, addr: u16)
    requires
        m.wf(),
        addr <= 0x3fff,
        !(m matches Mbc::Mbc1 { bank_mode: true, .. }),
    ensures
        m.mapped(addr) == addr as usize,
{
}

/// The number of ROM banks a controller was made for (2 for none).
pub open spec fn bank_count(m: Mbc) -> usize {
    match m {
        Mbc::NoMbc { .. } => 2,
        Mbc::Mbc1 { rom_banks, .. } => rom_banks,
        Mbc::Mbc3 { rom_banks, .. } => rom_banks,
        Mbc::Mbc5 { rom_banks, .. } => rom_banks,
    }
}

/// The switchable ROM window: an address in 0x4000-0x7FFF selects byte
/// `addr - 0x4000` of the bank that the bank register selects, masked to a
/// bank below the bank count. This holds for MBC3, MBC5 and an MBC1 whose
/// upper bank register is 0; with no controller the window shows bank 1.
pub proof fn lemma_switchable_window(m: Mbc, addr: u16)
    requires
        m.wf(),
        0x4000 <= addr <= 0x7fff,
        m matches Mbc::Mbc1 { high_bank, .. } ==> high_bank == 0,
    ensures
        m.mapped(addr) == m.rom_bank_high() * 0x4000 + (addr - 0x4000),
        m !is NoMbc ==> m.rom_bank_high() < bank_count(m),
        m matches Mbc::Mbc3 { low_bank, rom_banks, .. } ==> m.rom_bank_high() == low_bank & ((
        rom_banks - 1) as usize),
        m matches Mbc::Mbc5 { low_bank, rom_banks, .. } ==> m.rom_bank_high() == low_bank & ((
        rom_banks - 1) as usize),
        m matches Mbc::Mbc1 { low_bank, rom_banks, multicart: false, .. } ==> m.rom_bank_high()
            == low_bank & ((rom_banks - 1) as usize),
{
    match m {
        Mbc::NoMbc { .. } => {},
        Mbc::Mbc1 { low_bank, rom_banks, multicart, .. } => {
            let low: usize = if multicart { low_bank & 0xf } else { low_bank };
            lemma_and_le_usize(low_bank, 0xf);
            lemma_and_le_usize(low, (rom_banks - 1) as usize);
        },
        Mbc::Mbc3 { low_bank, rom_banks, .. } => {
            lemma_and_le_usize(low_bank, (rom_banks - 1) as usize);
        },
        Mbc::Mbc5 { low_bank, rom_banks, .. } => {
            lemma_and_le_usize(low_bank, (rom_banks - 1) as usize);
        },
    }
}

/// The MBC1 ROM bank register holds five bits: a write of `v` to
/// 0x2000-0x3FFF stores `v mod 32`, or 1 when that is 0, and changes no other
/// register. So every bank 1-31 can be selected: with the upper bank
/// register 0 on a 32-bank cartridge (not a multicart), writing `b` in 1..=31
/// maps bank `b` at 0x4000-0x7FFF.
#[verifier::spinoff_prover]
pub proof fn lemma_mbc1_bank_register(m: Mbc, addr: u16, v: u8)
    requires
        m is Mbc1,
        0x2000 <= addr <= 0x3fff,
    ensures
        m.written(addr, v) matches Mbc::Mbc1 { low_bank, high_bank, bank_mode, sram_enable, .. } && {
            &&& low_bank == (if v % 32 == 0 { 1 } else { v % 32 })
            &&& high_bank == m->Mbc1_high_bank && bank_mode == m->Mbc1_bank_mode
            &&& sram_enable == m->Mbc1_sram_enable
        },
        1 <= v <= 31 ==> m.written(addr, v)->Mbc1_low_bank == v,
        1 <= v <= 31 && m->Mbc1_high_bank == 0 && m->Mbc1_rom_banks == 32 && !m->Mbc1_multicart
            ==> m.written(addr, v).rom_bank_high() == v && m.written(addr, v).mapped(0x4000)
            == v * 0x4000,
{
    lemma_byte_arith(v);
    if 1 <= v <= 31 && m->Mbc1_high_bank == 0 && m->Mbc1_rom_banks == 32 && !m->Mbc1_multicart {
        let m2 = m.written(addr, v);
        assert(m2->Mbc1_low_bank == v as usize);
        lemma_and_le_usize(v as usize, 31);
        assert(m2.rom_bank_high() == v);
        assert(0x4000u16 % 0x4000 == 0);
        assert(m2.mapped(0x4000) == v * 0x4000);
    }
}

/// Writing zero to the MBC1 bank register selects bank 1: bank 0 never
/// appears in the switchable window through the low bank register.
pub proof fn lemma_mbc1_bank_zero_is_one(m: Mbc, addr: u16)
    requires
        m is Mbc1,
        0x2000 <= addr <= 0x3fff,
    ensures
        m.written(addr, 0) matches Mbc::Mbc1 { low_bank, .. } && low_bank == 1,
{
    assert(0u8 & 0x1f == 0) by (bit_vector);
}

/// The MBC1 registers read as bank offsets: the ROM bank register (five
/// bits), the two-bit RAM bank register (which also gives the upper ROM bank
/// bits), the banking mode and the RAM enable.
#[derive(Clone, Debug, PartialEq, Eq, Structural)]
pub struct Mbc1State {
    pub ram_enable: bool,
    pub rom_bank: u8,
    pub ram_bank: u8,
    pub mode: bool,
}

impl Mbc1State {
    /// The registers at power-on: ROM bank 1, RAM bank 0, mode 0, RAM off.
    pub fn new() -> (r: Mbc1State)
        ensures
            r == (Mbc1State { ram_enable: false, rom_bank: 1, ram_bank: 0, mode: false }),
    {
        Mbc1State { ram_enable: false, rom_bank: 0b00001, ram_bank: 0b00, mode: false }
    }

    /// The upper bank bits from the RAM bank register: shifted past the five
    /// ROM bank bits, or past four on a multicart.
    pub open spec fn upper_bits(self, multicart: bool) -> usize {
        if multicart {
            (self.ram_bank << 4u8) as usize
        } else {
            (self.ram_bank << 5u8) as usize
        }
    }

    /// The lower bank bits: the ROM bank register, four bits of it on a multicart.
    pub open spec fn lower_bits(self, multicart: bool) -> usize {
        if multicart {
            (self.rom_bank as usize) & 0b1111
        } else {
            self.rom_bank as usize
        }
    }

    /// The ROM offsets of the banks at 0x0000 (the upper bits in mode 1,
    /// bank 0 in mode 0) and at 0x4000.
    pub open spec fn rom_offsets(self, multicart: bool) -> (usize, usize) {
        let lower_bank: usize = if self.mode { self.upper_bits(multicart) } else { 0 };
        let upper_bank: usize = self.upper_bits(multicart) | self.lower_bits(multicart);
        ((ROM_BANK_SIZE * lower_bank) as usize, (ROM_BANK_SIZE * upper_bank) as usize)
    }

    pub fn rom_offset(&self, multicart: bool) -> (r: (usize, usize))
        ensures
            r == self.rom_offsets(multicart),
    {
        let upper_bits = if multicart {
            (self.ram_bank << 4) as usize
        } else {
            (self.ram_bank << 5) as usize
        };
        let lower_bits = if multicart {
            self.rom_bank as usize & 0b1111
        } else {
            self.rom_bank as usize
        };
        proof {
            lemma_and_le_usize(self.rom_bank as usize, 0b1111);
        }
        let lower_bank = if self.mode { upper_bits } else { 0 };
        let upper_bank = upper_bits | lower_bits;
        assert(upper_bank <= 255 && lower_bank <= 255) by (bit_vector)
            requires
                upper_bits <= 255,
                lower_bits <= 255,
                upper_bank == upper_bits | lower_bits,
                lower_bank == upper_bits || lower_bank == 0;
        (ROM_BANK_SIZE * lower_bank, ROM_BANK_SIZE * upper_bank)
    }

    /// The RAM offset of the bank at 0xA000: the RAM bank register in mode 1,
    /// bank 0 in mode 0.
    pub fn ram_offset(&self) -> (r: usize)
        ensures
            r == RAM_BANK_SIZE * (if self.mode { self.ram_bank as usize } else { 0 }),
    {
        let bank = if self.mode { self.ram_bank as usize } else { 0b00 };
        RAM_BANK_SIZE * bank
    }
}

/// The bank offsets of the MBC1 registers agree with the controller's
/// mapping: each window starts at its bank's offset, as long as the selected
/// ROM bank exists on the cartridge (else the controller wraps it).
pub proof fn lemma_mbc1_offsets(m: Mbc, s: Mbc1State, addr: u16)
    requires
        m.wf(),
        m matches Mbc::Mbc1 { low_bank, high_bank, bank_mode, rom_banks, multicart, .. } && {
            let low: usize = if multicart { low_bank & 0xf } else { low_bank };
            &&& s.rom_bank == low_bank && s.ram_bank == high_bank && s.mode == bank_mode
            &&& low & ((rom_banks - 1) as usize) == low
        },
    ensures
        ({
            let multicart = m->Mbc1_multicart;
            &&& addr <= 0x3fff ==> m.mapped(addr) == s.rom_offsets(multicart).0 + (addr & 0x3fff)
            &&& 0x4000 <= addr <= 0x7fff ==> m.mapped(addr) == s.rom_offsets(multicart).1 + (addr
                & 0x3fff)
            &&& 0xa000 <= addr <= 0xbfff ==> m.mapped(addr) == RAM_BANK_SIZE * (if s.mode {
                s.ram_bank as usize
            } else {
                0
            }) + (addr & 0x1fff)
        }),
{
    let (hb8, rb) = (s.ram_bank, s.rom_bank);
    lemma_low_bits_u16(addr);
    assert({
        &&& (hb8 << 5u8) as usize == hb8 as usize * 32
        &&& (hb8 << 4u8) as usize == hb8 as usize * 16
        &&& ((hb8 << 5u8) as usize) | (rb as usize) == hb8 as usize * 32 + rb as usize
        &&& ((hb8 << 4u8) as usize) | ((rb as usize) & 0xf) == hb8 as usize * 16 + ((rb as usize)
            & 0xf)
    }) by (bit_vector)
        requires
            hb8 <= 3,
            rb <= 31,
    ;
    let mc = m->Mbc1_multicart;
    lemma_and_le_usize(m->Mbc1_low_bank, 0xf);
    if mc {
        assert(s.rom_offsets(mc).1 == m.rom_bank_high() * 0x4000);
    }
}

} // verus!
