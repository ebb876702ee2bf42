use vstd::prelude::*;

use crate::bits::{lemma_and_le_u16, lemma_and_le_u8, lemma_low_bits_u16, lemma_oam_index, lemma_page_offset};
use crate::interrupts::{lemma_flags_or, Interrupts, STAT, VBLANK};
use crate::ppu::render::{rendered, same_but_picture};
use crate::LCD_PIXELS;

pub mod render;

verus! {

/// LCDC (0xFF40) bits.
pub const BG_WINDOW_ENABLE: u8 = 0x01;
pub const SPRITE_ENABLE: u8 = 0x02;
pub const SPRITE_SIZE: u8 = 0x04;
pub const BG_TILE_MAP: u8 = 0x08;
pub const TILE_DATA_ADDRESSING_MODE: u8 = 0x10;
pub const WINDOW_ENABLE: u8 = 0x20;
pub const WINDOW_TILE_MAP: u8 = 0x40;
pub const PPU_ENABLE: u8 = 0x80;

/// STAT (0xFF41) bits.
pub const LYC_EQ_LY: u8 = 0x04;
pub const HBLANK_INT: u8 = 0x08;
pub const VBLANK_INT: u8 = 0x10;
pub const OAM_SCAN_INT: u8 = 0x20;
pub const LYC_EQ_LY_INT: u8 = 0x40;

/// Sprite attribute and CGB tile attribute bits.
pub const BANK: u8 = 0x08;
pub const PALETTE: u8 = 0x10;
pub const X_FLIP: u8 = 0x20;
pub const Y_FLIP: u8 = 0x40;
pub const OBJ2BG_PRIORITY: u8 = 0x80;

/// Machine cycles spent in each mode of a visible line, and per line of VBlank.
pub const OAM_SCAN_CYCLES: u8 = 20;
pub const DRAWING_CYCLES: u8 = 43;
pub const HBLANK_CYCLES: u8 = 51;
pub const LINE_CYCLES: u8 = 114;

pub const VRAM_SIZE: usize = 0x2000;
pub const OAM_SIZE: usize = 0xA0;
pub const PALETTE_MEMORY_SIZE: usize = 0x40;
/// The frame buffer holds four bytes per pixel (RGBA in CGB mode); in DMG
/// mode only the first byte per pixel index, one shade per pixel, is used.
pub const BUFFER_SIZE: usize = 92160;

#[derive(Clone, Copy, PartialEq, Eq, Structural, Debug)]
pub enum Mode {
    HBlank,
    VBlank,
    OamScan,
    Drawing,
}

/// The number of a mode as STAT reports it.
pub open spec fn mode_bits(m: Mode) -> u8 {
    match m {
        Mode::HBlank => 0,
        Mode::VBlank => 1,
        Mode::OamScan => 2,
        Mode::Drawing => 3,
    }
}

fn mode_number(m: Mode) -> (r: u8)
    ensures
        r == mode_bits(m),
{
    match m {
        Mode::HBlank => 0,
        Mode::VBlank => 1,
        Mode::OamScan => 2,
        Mode::Drawing => 3,
    }
}

pub open spec fn is_ppu_addr(addr: u16) -> bool {
    ||| 0x8000 <= addr <= 0x9FFF
    ||| 0xFE00 <= addr <= 0xFE9F
    ||| 0xFF40 <= addr <= 0xFF4B
    ||| addr == 0xFF4F
    ||| addr == 0xFF55
    ||| 0xFF68 <= addr <= 0xFF6B
}

/// Registers that the PPU accepts writes to (HDMA1-4 are write-only).
pub open spec fn is_ppu_write_addr(addr: u16) -> bool {
    is_ppu_addr(addr) || 0xFF51 <= addr <= 0xFF54
}

/// The picture processing unit: LCD registers, video RAM (two banks on
/// CGB), OAM, CGB palette memory, the DMA engines and the frame buffer.
pub struct Ppu {
    pub is_cgb: bool,
    pub mode: Mode,
    pub lcdc: u8,
    pub stat: u8,
    pub scy: u8,
    pub scx: u8,
    pub ly: u8,
    pub lyc: u8,
    pub bgp: u8,
    pub obp0: u8,
    pub obp1: u8,
    pub wy: u8,
    pub wx: u8,
    pub wly: u8,
    pub vram: Vec<u8>,
    pub bcps: u8,
    pub ocps: u8,
    pub vbk: u8,
    pub vram2: Vec<u8>,
    pub oam: Vec<u8>,
    pub oam_dma: Option<u16>,
    pub hdma_src: u16,
    pub hdma_dst: u16,
    pub hblank_dma: Option<u16>,
    pub general_dma: Option<u16>,
    pub bg_palette_memory: Vec<u8>,
    pub sprite_palette_memory: Vec<u8>,
    pub cycles: u8,
    pub buffer: Vec<u8>,
}

/// The value of the auto-incrementing palette index registers BCPS/OCPS
/// after a write to the palette data register.
pub open spec fn next_palette_index(ps: u8) -> u8 {
    if ps & 0x80 != 0 {
        (ps & 0xC0) | ((((ps & 0x3F) + 1) as u8) & 0x3F)
    } else {
        ps
    }
}

/// The cycles that a mode lasts (for VBlank, one line of it).
pub open spec fn mode_cycles(m: Mode) -> u8 {
    match m {
        Mode::HBlank => HBLANK_CYCLES,
        Mode::VBlank => LINE_CYCLES,
        Mode::OamScan => OAM_SCAN_CYCLES,
        Mode::Drawing => DRAWING_CYCLES,
    }
}

/// The cycle within its line at which a mode starts.
pub open spec fn mode_start(m: Mode) -> int {
    match m {
        Mode::OamScan => 0,
        Mode::Drawing => OAM_SCAN_CYCLES as int,
        Mode::HBlank => (OAM_SCAN_CYCLES + DRAWING_CYCLES) as int,
        Mode::VBlank => 0,
    }
}

/// The cycles in a frame: 154 lines of 114 cycles.
pub const FRAME_CYCLES: u32 = 17556;

/// How far into the frame the PPU is, in cycles (0 at the start of line 0).
pub open spec fn frame_position(p: Ppu) -> int {
    p.ly * LINE_CYCLES + mode_start(p.mode) + mode_cycles(p.mode) - p.cycles
}

/// The length of an HDMA transfer requested through HDMA5: whole blocks of
/// 16 bytes, cut at the end of video RAM.
pub open spec fn hdma_length(dst: u16, val: u8) -> u16 {
    let want = (((val & 0x7F) as u16 + 1) * 16) as u16;
    let room = (0x2000 - dst) as u16;
    if room < want {
        room
    } else {
        want
    }
}

impl Ppu {
    /// The sizes of the memories.
    pub open spec fn mem_wf(&self) -> bool {
        &&& self.vram@.len() == VRAM_SIZE
        &&& self.vram2@.len() == VRAM_SIZE
        &&& self.oam@.len() == OAM_SIZE
        &&& self.bg_palette_memory@.len() == PALETTE_MEMORY_SIZE
        &&& self.sprite_palette_memory@.len() == PALETTE_MEMORY_SIZE
        &&& self.buffer@.len() == BUFFER_SIZE
    }

    pub open spec fn wf(&self) -> bool {
        &&& self.mem_wf()
        &&& self.cycles >= 1
        &&& self.cycles <= mode_cycles(self.mode)
        &&& (self.mode != Mode::VBlank ==> self.ly < 144)
        &&& (self.mode == Mode::VBlank ==> 144 <= self.ly <= 153)
        &&& (self.mode == Mode::HBlank ==> self.wly <= self.ly + 1)
        &&& (self.mode != Mode::HBlank ==> self.wly <= self.ly)
        &&& self.hdma_dst <= 0x2000
        &&& self.hdma_dst % 16 == 0
        &&& (self.oam_dma matches Some(a) ==> a & 0xFF < 0xA0)
    }

    /// The size of sprites, 8 or 16 lines.
    pub open spec fn sprite_size(&self) -> u8 {
        if self.lcdc & SPRITE_SIZE != 0 {
            16
        } else {
            8
        }
    }

    /// The video RAM bank that the CPU sees.
    pub open spec fn cpu_vram(&self) -> Seq<u8> {
        if self.vbk & 1 != 0 {
            self.vram2@
        } else {
            self.vram@
        }
    }

    /// The power-on state: scanning OAM at the start of line 0, every
    /// register and every memory zero, no transfer running.
    pub open spec fn is_power_on(&self, is_cgb: bool) -> bool {
        &&& self.is_cgb == is_cgb
        &&& self.mode == Mode::OamScan
        &&& self.cycles == OAM_SCAN_CYCLES
        &&& self.lcdc == 0 && self.stat == 0 && self.ly == 0 && self.lyc == 0 && self.wly == 0
        &&& self.scy == 0 && self.scx == 0 && self.wy == 0 && self.wx == 0
        &&& self.bgp == 0 && self.obp0 == 0 && self.obp1 == 0
        &&& self.bcps == 0 && self.ocps == 0 && self.vbk == 0
        &&& self.oam_dma is None && self.hblank_dma is None && self.general_dma is None
        &&& self.hdma_src == 0 && self.hdma_dst == 0
        &&& self.vram@ =~= Seq::new(VRAM_SIZE as nat, |i: int| 0u8)
        &&& self.vram2@ =~= Seq::new(VRAM_SIZE as nat, |i: int| 0u8)
        &&& self.oam@ =~= Seq::new(OAM_SIZE as nat, |i: int| 0u8)
        &&& self.bg_palette_memory@ =~= Seq::new(PALETTE_MEMORY_SIZE as nat, |i: int| 0u8)
        &&& self.sprite_palette_memory@ =~= Seq::new(PALETTE_MEMORY_SIZE as nat, |i: int| 0u8)
        &&& self.buffer@ =~= Seq::new(BUFFER_SIZE as nat, |i: int| 0u8)
    }

    pub fn new(is_cgb: bool) -> (r: Ppu)
        ensures
            r.wf(),
            r.is_power_on(is_cgb),
    {
        Ppu {
            is_cgb,
            mode: Mode::OamScan,
            lcdc: 0,
            stat: 0,
            scy: 0,
            scx: 0,
            ly: 0,
            lyc: 0,
            bgp: 0,
            obp0: 0,
            obp1: 0,
            wy: 0,
            wx: 0,
            wly: 0,
            vram: vec![0u8; VRAM_SIZE],
            bcps: 0,
            ocps: 0,
            vbk: 0,
            vram2: vec![0u8; VRAM_SIZE],
            oam: vec![0u8; OAM_SIZE],
            oam_dma: None,
            hdma_src: 0,
            hdma_dst: 0,
            hblank_dma: None,
            general_dma: None,
            bg_palette_memory: vec![0u8; PALETTE_MEMORY_SIZE],
            sprite_palette_memory: vec![0u8; PALETTE_MEMORY_SIZE],
            cycles: OAM_SCAN_CYCLES,
            buffer: vec![0u8; BUFFER_SIZE],
        }
    }

    /// What a read of a PPU address gives. Video RAM reads 0xFF while the
    /// PPU draws, OAM while it scans or draws or a DMA runs.
    pub open spec fn read_value(&self, addr: u16) -> u8 {
        if 0x8000 <= addr <= 0x9FFF {
            if self.mode == Mode::Drawing {
                0xFF
            } else {
                self.cpu_vram()[(addr & 0x1FFF) as int]
            }
        } else if 0xFE00 <= addr <= 0xFE9F {
            if self.mode == Mode::Drawing || self.mode == Mode::OamScan || self.oam_dma is Some {
                0xFF
            } else {
                self.oam@[(addr & 0xFF) as int]
            }
        } else if addr == 0xFF40 {
            self.lcdc
        } else if addr == 0xFF41 {
            0x80 | self.stat | mode_bits(self.mode)
        } else if addr == 0xFF42 {
            self.scy
        } else if addr == 0xFF43 {
            self.scx
        } else if addr == 0xFF44 {
            self.ly
        } else if addr == 0xFF45 {
            self.lyc
        } else if addr == 0xFF46 {
            0xFF
        } else if addr == 0xFF47 {
            self.bgp
        } else if addr == 0xFF48 {
            self.obp0
        } else if addr == 0xFF49 {
            self.obp1
        } else if addr == 0xFF4A {
            self.wy
        } else if addr == 0xFF4B {
            self.wx
        } else if addr == 0xFF4F {
            self.vbk | 0xFE
        } else if addr == 0xFF55 {
            match self.hblank_dma {
                Some(len) => 0x80 | (((len >> 4u16).wrapping_sub(1)) & 0x7F) as u8,
                None => 0xFF,
            }
        } else if addr == 0xFF68 {
            self.bcps
        } else if addr == 0xFF69 {
            if self.mode == Mode::Drawing {
                0xFF
            } else {
                self.bg_palette_memory@[(self.bcps & 0x3F) as int]
            }
        } else if addr == 0xFF6A {
            self.ocps
        } else {
            if self.mode == Mode::Drawing {
                0xFF
            } else {
                self.sprite_palette_memory@[(self.ocps & 0x3F) as int]
            }
        }
    }

    pub fn read(&self, addr: u16) -> (r: u8)
        requires
            self.wf(),
            is_ppu_addr(addr),
        ensures
            r == self.read_value(addr),
    {
        proof {
            lemma_and_le_u16(addr, 0x1FFF);
            lemma_and_le_u16(addr, 0xFF);
            lemma_and_le_u8(self.bcps, 0x3F);
            lemma_and_le_u8(self.ocps, 0x3F);
        }
        if addr >= 0x8000 && addr <= 0x9FFF {
            if self.mode == Mode::Drawing {
                0xFF
            } else if self.vbk & 1 > 0 {
                self.vram2[(addr & 0x1FFF) as usize]
            } else {
                self.vram[(addr & 0x1FFF) as usize]
            }
        } else if addr >= 0xFE00 && addr <= 0xFE9F {
            if self.mode == Mode::Drawing || self.mode == Mode::OamScan {
                0xFF
            } else if self.oam_dma.is_some() {
                0xFF
            } else {
                proof {
                    assert((addr & 0xFFu16) < 0xA0) by (bit_vector)
                        requires 0xFE00u16 <= addr, addr <= 0xFE9Fu16;
                }
                self.oam[(addr & 0xFF) as usize]
            }
        } else if addr == 0xFF40 {
            self.lcdc
        } else if addr == 0xFF41 {
            0x80 | self.stat | mode_number(self.mode)
        } else if addr == 0xFF42 {
            self.scy
        } else if addr == 0xFF43 {
            self.scx
        } else if addr == 0xFF44 {
            self.ly
        } else if addr == 0xFF45 {
            self.lyc
        } else if addr == 0xFF46 {
            0xFF
        } else if addr == 0xFF47 {
            self.bgp
        } else if addr == 0xFF48 {
            self.obp0
        } else if addr == 0xFF49 {
            self.obp1
        } else if addr == 0xFF4A {
            self.wy
        } else if addr == 0xFF4B {
            self.wx
        } else if addr == 0xFF4F {
            self.vbk | 0xFE
        } else if addr == 0xFF55 {
            match self.hblank_dma {
                Some(len) => 0x80 | (((len >> 4).wrapping_sub(1)) & 0x7F) as u8,
                None => 0xFF,
            }
        } else if addr == 0xFF68 {
            self.bcps
        } else if addr == 0xFF69 {
            if self.mode == Mode::Drawing {
                0xFF
            } else {
                self.bg_palette_memory[(self.bcps & 0x3F) as usize]
            }
        } else if addr == 0xFF6A {
            self.ocps
        } else {
            if self.mode == Mode::Drawing {
                0xFF
            } else {
                self.sprite_palette_memory[(self.ocps & 0x3F) as usize]
            }
        }
    }

    /// Writes that the PPU accepts: OAM DMA can copy only from pages up to 0xDF.
    pub open spec fn accepts_write(addr: u16, val: u8) -> bool {
        addr == 0xFF46 ==> val <= 0xDF
    }

    /// The registers that stay as they are for every write but those to `addr`.
    pub open spec fn same_registers_but(&self, other: &Ppu, addr: u16) -> bool {
        &&& self.is_cgb == other.is_cgb
        &&& self.mode == other.mode
        &&& self.ly == other.ly
        &&& self.wly == other.wly
        &&& self.cycles == other.cycles
        &&& self.buffer@ == other.buffer@
        &&& (addr != 0xFF40 ==> self.lcdc == other.lcdc)
        &&& (addr != 0xFF41 ==> self.stat == other.stat)
        &&& (addr != 0xFF42 ==> self.scy == other.scy)
        &&& (addr != 0xFF43 ==> self.scx == other.scx)
        &&& (addr != 0xFF45 ==> self.lyc == other.lyc)
        &&& (addr != 0xFF46 ==> self.oam_dma == other.oam_dma)
        &&& (addr != 0xFF47 ==> self.bgp == other.bgp)
        &&& (addr != 0xFF48 ==> self.obp0 == other.obp0)
        &&& (addr != 0xFF49 ==> self.obp1 == other.obp1)
        &&& (addr != 0xFF4A ==> self.wy == other.wy)
        &&& (addr != 0xFF4B ==> self.wx == other.wx)
        &&& (addr != 0xFF4F ==> self.vbk == other.vbk)
        &&& (addr != 0xFF51 && addr != 0xFF52 ==> self.hdma_src == other.hdma_src)
        &&& (addr != 0xFF53 && addr != 0xFF54 ==> self.hdma_dst == other.hdma_dst)
        &&& (addr != 0xFF55 ==> self.hblank_dma == other.hblank_dma && self.general_dma
            == other.general_dma)
        &&& (addr != 0xFF68 && addr != 0xFF69 ==> self.bcps == other.bcps)
        &&& (addr != 0xFF6A && addr != 0xFF6B ==> self.ocps == other.ocps)
    }

    /// The effect of a CPU write of `val` to `addr` on the PPU.
    pub open spec fn write_effect(old: &Ppu, new: &Ppu, addr: u16, val: u8) -> bool {
        &&& (new.same_registers_but(old, addr))
        &&& (new.vram@ == (if 0x8000 <= addr <= 0x9FFF && old.mode != Mode::Drawing && old.vbk & 1 == 0 { old.vram@.update((addr & 0x1FFF) as int, val) } else { old.vram@ }))
        &&& (new.vram2@ == (if 0x8000 <= addr <= 0x9FFF && old.mode != Mode::Drawing && old.vbk & 1 != 0 { old.vram2@.update((addr & 0x1FFF) as int, val) } else { old.vram2@ }))
        &&& (new.oam@ == (if 0xFE00 <= addr <= 0xFE9F && old.mode != Mode::Drawing && old.mode != Mode::OamScan && old.oam_dma is None { old.oam@.update((addr & 0xFF) as int, val) } else { old.oam@ }))
        &&& (new.bg_palette_memory@ == (if addr == 0xFF69 && old.mode != Mode::Drawing { old.bg_palette_memory@.update((old.bcps & 0x3F) as int, val) } else { old.bg_palette_memory@ }))
        &&& (new.sprite_palette_memory@ == (if addr == 0xFF6B && old.mode != Mode::Drawing { old.sprite_palette_memory@.update((old.ocps & 0x3F) as int, val) } else { old.sprite_palette_memory@ }))
        &&& (addr == 0xFF40 ==> new.lcdc == val)
        &&& (addr == 0xFF41 ==> new.stat == (old.stat & LYC_EQ_LY) | (val & 0xF8))
        &&& (addr == 0xFF42 ==> new.scy == val)
        &&& (addr == 0xFF43 ==> new.scx == val)
        &&& (addr == 0xFF45 ==> new.lyc == val)
        &&& (addr == 0xFF46 ==> new.oam_dma == Some((val as u16 * 256) as u16))
        &&& (addr == 0xFF47 ==> new.bgp == val)
        &&& (addr == 0xFF48 ==> new.obp0 == val)
        &&& (addr == 0xFF49 ==> new.obp1 == val)
        &&& (addr == 0xFF4A ==> new.wy == val)
        &&& (addr == 0xFF4B ==> new.wx == val)
        &&& (addr == 0xFF4F ==> new.vbk == val)
        &&& (addr == 0xFF51 ==> new.hdma_src == (old.hdma_src & 0xF0) | (( val as u16) << 8u16))
        &&& (addr == 0xFF52 ==> new.hdma_src == (old.hdma_src & 0xFF00) | (val as u16 & 0xF0))
        &&& (addr == 0xFF53 ==> new.hdma_dst == (old.hdma_dst & 0xF0) | ((val as u16 & 0x1F) << 8u16))
        &&& (addr == 0xFF54 ==> new.hdma_dst == (old.hdma_dst & 0x1F00) | (val as u16 & 0xF0))
        &&& (addr == 0xFF55 && val & 0x80 != 0 ==> new.hblank_dma == Some( hdma_length(old.hdma_dst, val), ) && new.general_dma == old.general_dma)
        &&& (addr == 0xFF55 && val & 0x80 == 0 ==> new.general_dma == Some( hdma_length(old.hdma_dst, val), ) && new.hblank_dma is None)
        &&& (addr == 0xFF68 ==> new.bcps == val)
        &&& (addr == 0xFF69 ==> new.bcps == next_palette_index(old.bcps))
        &&& (addr == 0xFF6A ==> new.ocps == val)
        &&& (addr == 0xFF6B ==> new.ocps == next_palette_index(old.ocps))
    }

    pub fn write(&mut self, addr: u16, val: u8)
        requires
            old(self).wf(),
            is_ppu_write_addr(addr),
            Self::accepts_write(addr, val),
        ensures
            final(self).wf(),
            Ppu::write_effect(old(self), final(self), addr, val),
    {
        proof {
            lemma_and_le_u16(addr, 0x1FFF);
            lemma_and_le_u8(self.bcps, 0x3F);
            lemma_and_le_u8(self.ocps, 0x3F);
        }
        if addr >= 0x8000 && addr <= 0x9FFF {
            if self.mode != Mode::Drawing {
                if self.vbk & 1 > 0 {
                    self.vram2.set((addr & 0x1FFF) as usize, val);
                } else {
                    self.vram.set((addr & 0x1FFF) as usize, val);
                }
            }
        } else if addr >= 0xFE00 && addr <= 0xFE9F {
            if self.mode != Mode::Drawing && self.mode != Mode::OamScan {
                if self.oam_dma.is_none() {
                    proof {
                        lemma_oam_index(addr);
                    }
                    self.oam.set((addr & 0xFF) as usize, val);
                }
            }
        } else if addr == 0xFF40 {
            self.lcdc = val;
        } else if addr == 0xFF41 {
            self.stat = (self.stat & LYC_EQ_LY) | (val & 0xF8);
        } else if addr == 0xFF42 {
            self.scy = val;
        } else if addr == 0xFF43 {
            self.scx = val;
        } else if addr == 0xFF44 {
        } else if addr == 0xFF45 {
            self.lyc = val;
        } else if addr == 0xFF46 {
            proof {
                assert((((val as u16) * 256) as u16) & 0xFF == 0) by (bit_vector);
            }
            self.oam_dma = Some((val as u16) * 256);
        } else if addr == 0xFF47 {
            self.bgp = val;
        } else if addr == 0xFF48 {
            self.obp0 = val;
        } else if addr == 0xFF49 {
            self.obp1 = val;
        } else if addr == 0xFF4A {
            self.wy = val;
        } else if addr == 0xFF4B {
            self.wx = val;
        } else if addr == 0xFF4F {
            self.vbk = val;
        } else if addr == 0xFF51 {
            self.hdma_src = (self.hdma_src & 0xF0) | ((val as u16) << 8);
        } else if addr == 0xFF52 {
            self.hdma_src = (self.hdma_src & 0xFF00) | (val as u16 & 0xF0);
        } else if addr == 0xFF53 {
            let d = self.hdma_dst;
            let v = val as u16;
            proof {
                lemma_hdma_dst(d, v);
            }
            self.hdma_dst = (d & 0xF0) | ((v & 0x1F) << 8);
        } else if addr == 0xFF54 {
            let d = self.hdma_dst;
            let v = val as u16;
            proof {
                lemma_hdma_dst(d, v);
            }
            self.hdma_dst = (d & 0x1F00) | (v & 0xF0);
        } else if addr == 0xFF55 {
            proof {
                lemma_and_le_u16(val as u16, 0x7F);
                assert(val as u16 & 0x7F == (val & 0x7F) as u16) by (bit_vector);
            }
            let want: u16 = ((val as u16 & 0x7F) + 1) * 16;
            let room: u16 = 0x2000 - self.hdma_dst;
            let len = if room < want { room } else { want };
            if val & 0x80 > 0 {
                self.hblank_dma = Some(len);
            } else {
                self.general_dma = Some(len);
                self.hblank_dma = None;
            }
        } else if addr == 0xFF68 {
            self.bcps = val;
        } else if addr == 0xFF69 {
            if self.mode != Mode::Drawing {
                self.bg_palette_memory.set((self.bcps & 0x3F) as usize, val);
            }
            if self.bcps & 0x80 > 0 {
                self.bcps = (self.bcps & 0xC0) | (((self.bcps & 0x3F) + 1) & 0x3F);
            }
        } else if addr == 0xFF6A {
            self.ocps = val;
        } else {
            if self.mode != Mode::Drawing {
                self.sprite_palette_memory.set((self.ocps & 0x3F) as usize, val);
            }
            if self.ocps & 0x80 > 0 {
                self.ocps = (self.ocps & 0xC0) | (((self.ocps & 0x3F) + 1) & 0x3F);
            }
        }
    }

    /// Copies one byte of a running OAM DMA transfer; the transfer ends after
    /// 0xA0 bytes. The copy is lost while the PPU scans OAM or draws.
    pub fn oam_dma_emulate_cycle(&mut self, val: u8)
        requires
            old(self).wf(),
        ensures
            final(self).wf(),
            Ppu::oam_dma_stepped(*old(self), *final(self), val),
    {
        if let Some(addr) = self.oam_dma {
            if self.mode != Mode::Drawing && self.mode != Mode::OamScan {
                self.oam.set((addr & 0xFF) as usize, val);
            }
            let next = addr.wrapping_add(1);
            proof {
                assert((next as u8) < 0xA0 ==> next & 0xFF < 0xA0) by (bit_vector);
            }
            self.oam_dma = if (next as u8) < 0xA0 {
                Some(next)
            } else {
                None
            };
        }
    }
}

/// STAT with the coincidence flag set from the comparison of LY and LYC.
pub open spec fn lyc_stat(stat: u8, ly: u8, lyc: u8) -> u8 {
    if ly == lyc {
        stat | LYC_EQ_LY
    } else {
        stat & !LYC_EQ_LY
    }
}

/// The STAT request of the coincidence check, if it is enabled.
pub open spec fn lyc_irq(stat: u8, ly: u8, lyc: u8) -> u8 {
    if ly == lyc && stat & LYC_EQ_LY_INT != 0 {
        STAT
    } else {
        0
    }
}

pub open spec fn stat_irq_if(stat: u8, source: u8) -> u8 {
    if stat & source != 0 {
        STAT
    } else {
        0
    }
}

proof fn lemma_stat_bits(stat: u8)
    ensures
        (stat | LYC_EQ_LY) & LYC_EQ_LY_INT == stat & LYC_EQ_LY_INT,
        (stat & !LYC_EQ_LY) & LYC_EQ_LY_INT == stat & LYC_EQ_LY_INT,
{
    assert((stat | 4) & 0x40 == stat & 0x40 && (stat & !4u8) & 0x40 == stat & 0x40) by (bit_vector);
}

impl Ppu {
    /// The line that follows the current one at the end of its last mode.
    pub open spec fn next_ly(&self) -> u8 {
        if self.mode == Mode::HBlank {
            (self.ly + 1) as u8
        } else if self.mode == Mode::VBlank {
            if self.ly + 1 > 153 {
                0
            } else {
                (self.ly + 1) as u8
            }
        } else {
            self.ly
        }
    }

    /// The mode that follows the current one.
    pub open spec fn next_mode(&self) -> Mode {
        match self.mode {
            Mode::HBlank => if self.ly + 1 < 144 {
                Mode::OamScan
            } else {
                Mode::VBlank
            },
            Mode::VBlank => if self.ly + 1 > 153 {
                Mode::OamScan
            } else {
                Mode::VBlank
            },
            Mode::OamScan => Mode::Drawing,
            Mode::Drawing => Mode::HBlank,
        }
    }

    /// The cycles that the next mode (or VBlank line) lasts.
    pub open spec fn next_cycles(&self) -> u8 {
        match self.next_mode() {
            Mode::HBlank => HBLANK_CYCLES,
            Mode::VBlank => LINE_CYCLES,
            Mode::OamScan => OAM_SCAN_CYCLES,
            Mode::Drawing => DRAWING_CYCLES,
        }
    }

    /// The interrupts requested at the end of the current mode: VBlank on
    /// entering line 144, STAT for the mode sources enabled in STAT and for
    /// the LY=LYC coincidence checked on each new line.
    pub open spec fn mode_end_irq(&self) -> u8 {
        match self.mode {
            Mode::HBlank => {
                let enter = if self.ly + 1 < 144 {
                    stat_irq_if(self.stat, OAM_SCAN_INT)
                } else {
                    VBLANK | stat_irq_if(self.stat, VBLANK_INT)
                };
                enter | lyc_irq(self.stat, self.next_ly(), self.lyc)
            },
            Mode::VBlank => {
                let enter = if self.ly + 1 > 153 {
                    stat_irq_if(self.stat, OAM_SCAN_INT)
                } else {
                    0
                };
                enter | lyc_irq(self.stat, self.next_ly(), self.lyc)
            },
            Mode::OamScan => 0,
            Mode::Drawing => stat_irq_if(self.stat, HBLANK_INT),
        }
    }

    /// All state but the mode machine (mode, STAT, LY, the window line, the
    /// cycle counter) and the frame buffer is as in `b`.
    /// One machine cycle of the PPU from `old` to `new`, with interrupt
    /// registers `oi` before and `ni` after and result `r`: with the LCD off
    /// nothing moves; otherwise the mode counts down, and when it ends the
    /// next mode begins, LY and STAT follow, interrupts are requested, a line
    /// is drawn at the end of Drawing, and `r` tells that a frame ended.
    pub open spec fn cycle_stepped(old: Ppu, new: Ppu, oi: Interrupts, ni: Interrupts, r: bool) -> bool {
        &&& new.same_config(&old)
        &&& old.lcdc & PPU_ENABLE == 0 || old.cycles > 1 ==> {
            &&& !r
            &&& ni == oi
            &&& new.mode == old.mode && new.ly == old.ly
            &&& new.stat == old.stat && new.wly == old.wly
            &&& new.buffer@ == old.buffer@
            &&& new.cycles == (if old.lcdc & PPU_ENABLE == 0 {
                old.cycles
            } else {
                (old.cycles - 1) as u8
            })
        }
        &&& old.lcdc & PPU_ENABLE != 0 && old.cycles == 1 ==> {
            &&& r == (old.mode == Mode::VBlank && old.ly + 1 > 153)
            &&& new.mode == old.next_mode()
            &&& new.ly == old.next_ly()
            &&& new.cycles == old.next_cycles()
            &&& new.stat == (if old.mode == Mode::HBlank || old.mode
                == Mode::VBlank {
                lyc_stat(old.stat, old.next_ly(), old.lyc)
            } else {
                old.stat
            })
            &&& ni == (Interrupts {
                intr_flags: oi.intr_flags | old.mode_end_irq(),
                ..oi
            })
            &&& old.mode == Mode::Drawing ==> rendered(old, new)
            &&& old.mode != Mode::Drawing ==> new.buffer@ == old.buffer@
            &&& old.mode == Mode::VBlank && old.ly + 1 > 153 ==> new.wly
                == 0
            &&& (old.mode == Mode::HBlank || old.mode == Mode::OamScan || (old.mode == Mode::VBlank && old.ly + 1 <= 153)) ==> new.wly == old.wly
        }
    }

    /// The registers and memories that no DMA engine touches are as in `b`.
    pub open spec fn same_but_dma(&self, b: &Ppu) -> bool {
        &&& self.is_cgb == b.is_cgb && self.mode == b.mode && self.lcdc == b.lcdc && self.stat == b.stat
        &&& self.scy == b.scy && self.scx == b.scx && self.ly == b.ly && self.lyc == b.lyc
        &&& self.bgp == b.bgp && self.obp0 == b.obp0 && self.obp1 == b.obp1 && self.wy == b.wy
            && self.wx == b.wx
        &&& self.wly == b.wly && self.cycles == b.cycles
        &&& self.bcps == b.bcps && self.ocps == b.ocps && self.vbk == b.vbk
        &&& self.bg_palette_memory@ == b.bg_palette_memory@
        &&& self.sprite_palette_memory@ == b.sprite_palette_memory@
        &&& self.buffer@ == b.buffer@
    }

    /// One cycle of OAM DMA with `val` read from the source: the byte lands in
    /// OAM unless the PPU scans OAM or draws, and the transfer ends after 0xA0 bytes.
    pub open spec fn oam_dma_stepped(old: Ppu, new: Ppu, val: u8) -> bool {
        &&& new.same_but_dma(&old)
        &&& new.vram@ == old.vram@ && new.vram2@ == old.vram2@
        &&& new.hdma_src == old.hdma_src && new.hdma_dst == old.hdma_dst
        &&& new.hblank_dma == old.hblank_dma && new.general_dma == old.general_dma
        &&& match old.oam_dma {
            Some(addr) => {
                &&& new.oam@ == (if old.mode != Mode::Drawing && old.mode != Mode::OamScan {
                    old.oam@.update((addr & 0xFF) as int, val)
                } else {
                    old.oam@
                })
                &&& new.oam_dma == (if ((addr.wrapping_add(1)) as u8) < 0xA0 {
                    Some(addr.wrapping_add(1))
                } else {
                    None::<u16>
                })
            },
            None => new.oam@ == old.oam@ && new.oam_dma is None,
        }
    }

    /// `m` with the bytes at `dst`.. replaced by `vals`.
    pub open spec fn copied(m: Seq<u8>, dst: int, vals: Seq<u8>) -> Seq<u8> {
        Seq::new(m.len(), |k: int| if dst <= k < dst + vals.len() { vals[k - dst] } else { m[k] })
    }

    /// One cycle of HBlank DMA with the 16 bytes `vals` read from the source:
    /// at the start of HBlank the block is copied into the video RAM bank
    /// selected by VBK and the transfer moves on by a block.
    pub open spec fn hblank_dma_stepped(old: Ppu, new: Ppu, vals: Seq<u8>) -> bool {
        &&& new.same_but_dma(&old)
        &&& new.oam@ == old.oam@ && new.oam_dma == old.oam_dma
        &&& new.general_dma == old.general_dma
        &&& !old.hblank_dma_due() ==> {
            &&& new.vram@ == old.vram@ && new.vram2@ == old.vram2@
            &&& new.hdma_src == old.hdma_src && new.hdma_dst == old.hdma_dst
            &&& new.hblank_dma == old.hblank_dma
        }
        &&& old.hblank_dma_due() ==> {
            let len = old.hblank_dma->0;
            &&& new.vram@ == (if old.vbk & 1 == 0 {
                Ppu::copied(old.vram@, old.hdma_dst as int, vals)
            } else {
                old.vram@
            })
            &&& new.vram2@ == (if old.vbk & 1 != 0 {
                Ppu::copied(old.vram2@, old.hdma_dst as int, vals)
            } else {
                old.vram2@
            })
            &&& new.hdma_src == old.hdma_src.wrapping_add(0x10)
            &&& new.hdma_dst == old.hdma_dst + 0x10
            &&& new.hblank_dma == (if len - 0x10 > 0 && old.hdma_dst + 0x10 < 0x2000 {
                Some((len - 0x10) as u16)
            } else {
                None::<u16>
            })
        }
    }

    /// A general DMA transfer with `vals` read from the source: the bytes are
    /// copied into the video RAM bank selected by VBK at once.
    pub open spec fn general_dma_stepped(old: Ppu, new: Ppu, vals: Seq<u8>) -> bool {
        &&& new.same_but_dma(&old)
        &&& new.oam@ == old.oam@ && new.oam_dma == old.oam_dma
        &&& new.hblank_dma == old.hblank_dma
        &&& new.hdma_src == old.hdma_src && new.hdma_dst == old.hdma_dst
        &&& new.general_dma is None
        &&& old.general_dma is None ==> new.vram@ == old.vram@ && new.vram2@ == old.vram2@
        &&& old.general_dma is Some ==> {
            &&& new.vram@ == (if old.vbk & 1 == 0 {
                Ppu::copied(old.vram@, old.hdma_dst as int, vals)
            } else {
                old.vram@
            })
            &&& new.vram2@ == (if old.vbk & 1 != 0 {
                Ppu::copied(old.vram2@, old.hdma_dst as int, vals)
            } else {
                old.vram2@
            })
        }
    }

    /// The PPU's next cycle ends a frame: the LCD is on and the last line of
    /// VBlank ends.
    pub open spec fn frame_ends(&self) -> bool {
        self.lcdc & PPU_ENABLE != 0 && self.cycles == 1 && self.mode == Mode::VBlank && self.ly + 1 > 153
    }

    pub open spec fn same_config(&self, b: &Ppu) -> bool {
        &&& self.is_cgb == b.is_cgb && self.lcdc == b.lcdc
        &&& self.scy == b.scy && self.scx == b.scx && self.lyc == b.lyc
        &&& self.bgp == b.bgp && self.obp0 == b.obp0 && self.obp1 == b.obp1 && self.wy == b.wy
            && self.wx == b.wx
        &&& self.vram@ == b.vram@ && self.vram2@ == b.vram2@ && self.oam@ == b.oam@
        &&& self.bcps == b.bcps && self.ocps == b.ocps && self.vbk == b.vbk
        &&& self.oam_dma == b.oam_dma && self.hdma_src == b.hdma_src && self.hdma_dst == b.hdma_dst
        &&& self.hblank_dma == b.hblank_dma && self.general_dma == b.general_dma
        &&& self.bg_palette_memory@ == b.bg_palette_memory@
        &&& self.sprite_palette_memory@ == b.sprite_palette_memory@
    }

    fn check_lyc_eq_ly(&mut self, interrupts: &mut Interrupts)
        ensures
            final(self).same_config(old(self)),
            final(self).mode == old(self).mode && final(self).ly == old(self).ly,
            final(self).wly == old(self).wly && final(self).cycles == old(self).cycles,
            final(self).buffer@ == old(self).buffer@,
            final(self).stat == lyc_stat(old(self).stat, old(self).ly, old(self).lyc),
            *final(interrupts) == (Interrupts {
                intr_flags: old(interrupts).intr_flags | lyc_irq(
                    old(self).stat,
                    old(self).ly,
                    old(self).lyc,
                ),
                ..*old(interrupts)
            }),
    {
        proof {
            lemma_stat_bits(self.stat);
            lemma_flags_or(interrupts.intr_flags, 0, 0);
        }
        if self.ly == self.lyc {
            self.stat = self.stat | LYC_EQ_LY;
            if self.stat & LYC_EQ_LY_INT > 0 {
                interrupts.irq(STAT);
            }
        } else {
            self.stat = self.stat & !LYC_EQ_LY;
        }
    }

    /// Advances the PPU by one machine cycle. Returns whether a frame was
    /// completed (the end of the last VBlank line).
    pub fn emulate_cycle(&mut self, interrupts: &mut Interrupts) -> (r: bool)
        requires
            old(self).wf(),
        ensures
            final(self).wf(),
            Ppu::cycle_stepped(*old(self), *final(self), *old(interrupts), *final(interrupts), r),
    {
        if self.lcdc & PPU_ENABLE == 0 {
            return false;
        }
        if self.cycles > 1 {
            self.cycles = self.cycles - 1;
            return false;
        }
        let ghost i0 = *interrupts;
        let ghost s0 = self.stat;
        let ghost ly0 = self.ly;
        let mut ret = false;
        match self.mode {
            Mode::HBlank => {
                self.ly = self.ly + 1;
                if self.ly < 144 {
                    self.mode = Mode::OamScan;
                    self.cycles = OAM_SCAN_CYCLES;
                    if self.stat & OAM_SCAN_INT > 0 {
                        interrupts.irq(STAT);
                    }
                    proof {
                        lemma_flags_or(i0.intr_flags, 0, 0);
                        assert(interrupts.intr_flags == i0.intr_flags | stat_irq_if(s0, OAM_SCAN_INT));
                    }
                } else {
                    self.mode = Mode::VBlank;
                    self.cycles = LINE_CYCLES;
                    interrupts.irq(VBLANK);
                    if self.stat & VBLANK_INT > 0 {
                        interrupts.irq(STAT);
                    }
                    proof {
                        lemma_flags_or(i0.intr_flags, VBLANK, STAT);
                        lemma_flags_or(i0.intr_flags | VBLANK, 0, 0);
                        lemma_flags_or(VBLANK, 0, 0);
                        assert(interrupts.intr_flags == i0.intr_flags | (VBLANK | stat_irq_if(
                            s0,
                            VBLANK_INT,
                        )));
                    }
                }
                let ghost f1 = interrupts.intr_flags;
                let ghost enter = if ly0 + 1 < 144 {
                    stat_irq_if(s0, OAM_SCAN_INT)
                } else {
                    VBLANK | stat_irq_if(s0, VBLANK_INT)
                };
                assert(f1 == i0.intr_flags | enter);
                self.check_lyc_eq_ly(interrupts);
                proof {
                    lemma_flags_or(i0.intr_flags, enter, lyc_irq(s0, self.ly, self.lyc));
                }
            },
            Mode::VBlank => {
                self.ly = self.ly + 1;
                if self.ly > 153 {
                    ret = true;
                    self.ly = 0;
                    self.wly = 0;
                    self.mode = Mode::OamScan;
                    self.cycles = OAM_SCAN_CYCLES;
                    if self.stat & OAM_SCAN_INT > 0 {
                        interrupts.irq(STAT);
                    }
                } else {
                    self.cycles = LINE_CYCLES;
                }
                let ghost enter = if ly0 + 1 > 153 {
                    stat_irq_if(s0, OAM_SCAN_INT)
                } else {
                    0
                };
                proof {
                    lemma_flags_or(i0.intr_flags, 0, 0);
                    assert(interrupts.intr_flags == i0.intr_flags | enter);
                }
                self.check_lyc_eq_ly(interrupts);
                proof {
                    lemma_flags_or(i0.intr_flags, enter, lyc_irq(s0, self.ly, self.lyc));
                }
            },
            Mode::OamScan => {
                self.mode = Mode::Drawing;
                self.cycles = DRAWING_CYCLES;
                proof {
                    lemma_flags_or(i0.intr_flags, 0, 0);
                }
            },
            Mode::Drawing => {
                self.render();
                self.mode = Mode::HBlank;
                self.cycles = HBLANK_CYCLES;
                if self.stat & HBLANK_INT > 0 {
                    interrupts.irq(STAT);
                }
                proof {
                    lemma_flags_or(i0.intr_flags, 0, 0);
                }
            },
        }
        ret
    }
}

impl Ppu {
    /// Whether an HBlank DMA block is copied in this cycle: at the start of HBlank.
    pub open spec fn hblank_dma_due(&self) -> bool {
        self.hblank_dma is Some && self.mode == Mode::HBlank && self.cycles == HBLANK_CYCLES
    }

    /// The HBlank block copy can proceed: a whole block is left, and fits in video RAM.
    pub open spec fn hblank_dma_ok(&self) -> bool {
        self.hblank_dma_due() ==> self.hblank_dma->0 >= 0x10 && self.hdma_dst + 0x10 <= 0x2000
    }

    /// Copies one 16-byte block of an HBlank DMA transfer into the video RAM
    /// bank selected by VBK, at the start of HBlank.
    pub fn hblank_dma_emulate_cycle(&mut self, vals: &[u8])
        requires
            old(self).wf(),
            vals@.len() == 0x10,
            old(self).hblank_dma_ok(),
        ensures
            final(self).wf(),
            Ppu::hblank_dma_stepped(*old(self), *final(self), vals@),
    {
        if let Some(len) = self.hblank_dma {
            if self.mode == Mode::HBlank && self.cycles == HBLANK_CYCLES {
                let dst = self.hdma_dst as usize;
                let ghost v0 = self.vram@;
                let ghost w0 = self.vram2@;
                let mut i: usize = 0;
                while i < 0x10
                    invariant
                        i <= 0x10,
                        dst + 0x10 <= 0x2000,
                        dst == old(self).hdma_dst,
                        vals@.len() == 0x10,
                        self.same_but_dma(old(self)),
                        self.oam@ == old(self).oam@ && self.oam_dma == old(self).oam_dma,
                        self.general_dma == old(self).general_dma && self.hblank_dma == old(self).hblank_dma,
                        self.hdma_src == old(self).hdma_src && self.hdma_dst == old(self).hdma_dst,
                        self.vram@.len() == 0x2000 && self.vram2@.len() == 0x2000,
                        self.vram@ == (if self.vbk & 1 == 0 {
                            Seq::new(
                                0x2000,
                                |k: int|
                                    if dst <= k < dst + i {
                                        vals@[k - dst]
                                    } else {
                                        v0[k]
                                    },
                            )
                        } else {
                            v0
                        }),
                        self.vram2@ == (if self.vbk & 1 != 0 {
                            Seq::new(
                                0x2000,
                                |k: int|
                                    if dst <= k < dst + i {
                                        vals@[k - dst]
                                    } else {
                                        w0[k]
                                    },
                            )
                        } else {
                            w0
                        }),
                        v0.len() == 0x2000 && w0.len() == 0x2000,
                        self.mem_wf(),
                        old(self).wf(),
                    decreases 0x10 - i,
                {
                    if self.vbk & 1 > 0 {
                        self.vram2.set(dst + i, vals[i]);
                    } else {
                        self.vram.set(dst + i, vals[i]);
                    }
                    proof {
                        if self.vbk & 1 == 0 {
                            assert(self.vram@ =~= Seq::new(
                                0x2000,
                                |k: int|
                                    if dst <= k < dst + i + 1 {
                                        vals@[k - dst]
                                    } else {
                                        v0[k]
                                    },
                            ));
                        } else {
                            assert(self.vram2@ =~= Seq::new(
                                0x2000,
                                |k: int|
                                    if dst <= k < dst + i + 1 {
                                        vals@[k - dst]
                                    } else {
                                        w0[k]
                                    },
                            ));
                        }
                    }
                    i = i + 1;
                }
                self.hdma_src = self.hdma_src.wrapping_add(0x10);
                self.hdma_dst = self.hdma_dst + 0x10;
                let rest = len.wrapping_sub(0x10);
                self.hblank_dma = if rest > 0 { Some(rest) } else { None };
                if self.hdma_dst >= 0x2000 {
                    self.hblank_dma = None;
                }
                proof {
                    let copied = |m: Seq<u8>|
                        Seq::new(
                            m.len(),
                            |k: int|
                                if dst <= k < dst + 0x10 {
                                    vals@[k - dst]
                                } else {
                                    m[k]
                                },
                        );
                    if self.vbk & 1 == 0 {
                        assert(self.vram@ =~= copied(v0));
                    } else {
                        assert(self.vram2@ =~= copied(w0));
                    }
                }
            }
        }
    }

    /// The general DMA copy can proceed: the data given is the length of the
    /// transfer, which fits in video RAM.
    pub open spec fn general_dma_ok(&self, vals: Seq<u8>) -> bool {
        self.general_dma matches Some(len) ==> vals.len() == len && self.hdma_dst + len <= 0x2000
    }

    /// Copies a whole general DMA transfer into the video RAM bank selected by VBK.
    pub fn general_dma_emulate_cycle(&mut self, vals: Vec<u8>)
        requires
            old(self).wf(),
            old(self).general_dma_ok(vals@),
        ensures
            final(self).wf(),
            Ppu::general_dma_stepped(*old(self), *final(self), vals@),
    {
        if let Some(len) = self.general_dma {
            let dst = self.hdma_dst as usize;
            let n = vals.len();
            let ghost v0 = self.vram@;
            let ghost w0 = self.vram2@;
            let mut i: usize = 0;
            while i < n
                invariant
                    i <= n,
                    n == vals@.len(),
                    dst + n <= 0x2000,
                    dst == old(self).hdma_dst,
                    self.same_but_dma(old(self)),
                    self.oam@ == old(self).oam@ && self.oam_dma == old(self).oam_dma,
                    self.general_dma == old(self).general_dma && self.hblank_dma == old(self).hblank_dma,
                    self.hdma_src == old(self).hdma_src && self.hdma_dst == old(self).hdma_dst,
                    self.vram@.len() == 0x2000 && self.vram2@.len() == 0x2000,
                    v0.len() == 0x2000 && w0.len() == 0x2000,
                    self.vram@ == (if self.vbk & 1 == 0 {
                        Seq::new(
                            0x2000,
                            |k: int|
                                if dst <= k < dst + i {
                                    vals@[k - dst]
                                } else {
                                    v0[k]
                                },
                        )
                    } else {
                        v0
                    }),
                    self.vram2@ == (if self.vbk & 1 != 0 {
                        Seq::new(
                            0x2000,
                            |k: int|
                                if dst <= k < dst + i {
                                    vals@[k - dst]
                                } else {
                                    w0[k]
                                },
                        )
                    } else {
                        w0
                    }),
                    self.mem_wf(),
                    old(self).wf(),
                decreases n - i,
            {
                if self.vbk & 1 > 0 {
                    self.vram2.set(dst + i, vals[i]);
                } else {
                    self.vram.set(dst + i, vals[i]);
                }
                proof {
                    if self.vbk & 1 == 0 {
                        assert(self.vram@ =~= Seq::new(
                            0x2000,
                            |k: int|
                                if dst <= k < dst + i + 1 {
                                    vals@[k - dst]
                                } else {
                                    v0[k]
                                },
                        ));
                    } else {
                        assert(self.vram2@ =~= Seq::new(
                            0x2000,
                            |k: int|
                                if dst <= k < dst + i + 1 {
                                    vals@[k - dst]
                                } else {
                                    w0[k]
                                },
                        ));
                    }
                }
                i = i + 1;
            }
            self.general_dma = None;
        }
    }

    /// The DMG frame as RGB24 grey: each of the first `LCD_PIXELS` shades of
    /// the frame buffer three times, in order.
    pub fn pixel_rgb(&self) -> (r: Vec<u8>)
        requires
            self.wf(),
        ensures
            r@.len() == LCD_PIXELS * 3,
            forall|i: int| 0 <= i < LCD_PIXELS * 3 ==> #[trigger] r@[i] == self.buffer@[i / 3],
    {
        let mut r: Vec<u8> = Vec::with_capacity(LCD_PIXELS * 3);
        let mut p: usize = 0;
        while p < LCD_PIXELS
            invariant
                p <= LCD_PIXELS,
                self.buffer@.len() == BUFFER_SIZE,
                r@.len() == p * 3,
                forall|i: int| 0 <= i < p * 3 ==> #[trigger] r@[i] == self.buffer@[i / 3],
            decreases LCD_PIXELS - p,
        {
            let shade = self.buffer[p];
            r.push(shade);
            r.push(shade);
            r.push(shade);
            proof {
                assert forall|i: int| 0 <= i < (p + 1) * 3 implies #[trigger] r@[i]
                    == self.buffer@[i / 3] by {
                    if i >= p * 3 {
                        assert(i / 3 == p as int);
                    }
                }
            }
            p = p + 1;
        }
        r
    }

    /// A copy of the frame buffer.
    pub fn pixel_buffer(&self) -> (r: Vec<u8>)
        ensures
            r@ == self.buffer@,
    {
        vstd::slice::slice_to_vec(self.buffer.as_slice())
    }
}

/// Whether the CPU is locked out of the video memory at `addr`: video RAM
/// while the PPU draws, OAM while it scans OAM or draws.
pub open spec fn video_locked(mode: Mode, addr: u16) -> bool {
    if addr <= 0x9FFF {
        mode == Mode::Drawing
    } else {
        mode == Mode::Drawing || mode == Mode::OamScan
    }
}

/// A byte written to video RAM or to OAM (with no OAM DMA running) reads
/// back as written, unless the PPU locks that memory, in which case both
/// the write is lost and the read gives 0xFF.
pub proof fn lemma_video_read_after_write(p: Ppu, q: Ppu, addr: u16, val: u8)
    requires
        p.wf(),
        (0x8000 <= addr <= 0x9FFF) || (0xFE00 <= addr <= 0xFE9F && p.oam_dma is None),
        Ppu::write_effect(&p, &q, addr, val),
    ensures
        q.read_value(addr) == (if video_locked(p.mode, addr) {
            0xFF
        } else {
            val
        }),
{
    if addr <= 0x9FFF {
        lemma_and_le_u16(addr, 0x1FFF);
    } else {
        lemma_oam_index(addr);
    }
}

/// Whether `addr` is a byte of video RAM, or of OAM while no OAM DMA runs.
pub open spec fn is_video_byte(p: Ppu, addr: u16) -> bool {
    (0x8000 <= addr <= 0x9FFF) || (0xFE00 <= addr <= 0xFE9F && p.oam_dma is None)
}

proof fn lemma_video_writes_prefix(ps: Seq<Ppu>, addrs: Seq<u16>, vals: Seq<u8>, k: nat)
    requires
        1 <= k < ps.len(),
        ps.len() == addrs.len() + 1,
        vals.len() == addrs.len(),
        ps[0].wf(),
        is_video_byte(ps[0], addrs[0]),
        forall|i: int|
            #![trigger addrs[i]]
            0 <= i < addrs.len() ==> Ppu::write_effect(&ps[i], &ps[i + 1], addrs[i], vals[i]),
        forall|i: int|
            1 <= i < addrs.len() ==> #[trigger] addrs[i] != addrs[0] && addrs[i] != 0xFF46
                && addrs[i] != 0xFF4F,
    ensures
        ps[k as int].mode == ps[0].mode && ps[k as int].vbk == ps[0].vbk,
        ps[k as int].oam_dma == ps[0].oam_dma,
        ps[k as int].vram@.len() == VRAM_SIZE && ps[k as int].vram2@.len() == VRAM_SIZE,
        ps[k as int].oam@.len() == OAM_SIZE,
        ps[k as int].read_value(addrs[0]) == (if video_locked(ps[0].mode, addrs[0]) {
            0xFF
        } else {
            vals[0]
        }),
    decreases k,
{
    let a = addrs[0];
    lemma_low_bits_u16(a);
    if a <= 0x9FFF {
        lemma_and_le_u16(a, 0x1FFF);
    } else {
        lemma_oam_index(a);
    }
    if k == 1 {
        assert(Ppu::write_effect(&ps[0], &ps[1], addrs[0], vals[0]));
        lemma_video_read_after_write(ps[0], ps[1], a, vals[0]);
    } else {
        let i = k - 1;
        lemma_video_writes_prefix(ps, addrs, vals, (k - 1) as nat);
        assert(Ppu::write_effect(&ps[i], &ps[i + 1], addrs[i], vals[i]));
        assert(addrs[i] != a && addrs[i] != 0xFF46 && addrs[i] != 0xFF4F);
        let b = addrs[i];
        lemma_low_bits_u16(b);
        if 0x8000 <= b <= 0x9FFF {
            lemma_and_le_u16(b, 0x1FFF);
        }
        if 0xFE00 <= b <= 0xFE9F {
            lemma_oam_index(b);
        }
    }
}

/// A byte written to video RAM or to OAM (with no OAM DMA running) still
/// reads back as written after any number of further PPU writes, as long as
/// none of them writes the same address, VBK (0xFF4F) or the OAM DMA
/// register (0xFF46); if the PPU locked that memory at the write, the read
/// gives 0xFF.
pub proof fn lemma_video_keeps_written_byte(ps: Seq<Ppu>, addrs: Seq<u16>, vals: Seq<u8>)
    requires
        ps.len() == addrs.len() + 1,
        vals.len() == addrs.len(),
        addrs.len() >= 1,
        ps[0].wf(),
        is_video_byte(ps[0], addrs[0]),
        forall|i: int|
            #![trigger addrs[i]]
            0 <= i < addrs.len() ==> Ppu::write_effect(&ps[i], &ps[i + 1], addrs[i], vals[i]),
        forall|i: int|
            1 <= i < addrs.len() ==> #[trigger] addrs[i] != addrs[0] && addrs[i] != 0xFF46
                && addrs[i] != 0xFF4F,
    ensures
        ps[addrs.len() as int].read_value(addrs[0]) == (if video_locked(ps[0].mode, addrs[0]) {
            0xFF
        } else {
            vals[0]
        }),
{
    lemma_video_writes_prefix(ps, addrs, vals, addrs.len());
}

/// The first `k` cycles of an OAM DMA transfer from page `page`, run while
/// the PPU is in HBlank or VBlank, have copied the first `k` bytes handed to
/// it; the transfer then points at byte `k`, or is over once `k` reaches 160.
pub proof fn lemma_oam_dma_prefix(ps: Seq<Ppu>, vals: Seq<u8>, page: u8, k: nat)
    requires
        page <= 0xDF,
        k <= 0xA0,
        ps.len() == 0xA1,
        vals.len() == 0xA0,
        ps[0].oam@.len() == OAM_SIZE,
        ps[0].oam_dma == Some((page as u16 * 256) as u16),
        ps[0].mode == Mode::HBlank || ps[0].mode == Mode::VBlank,
        forall|i: int| 0 <= i < 0xA0 ==> #[trigger] Ppu::oam_dma_stepped(ps[i], ps[i + 1], vals[i]),
    ensures
        ps[k as int].mode == ps[0].mode,
        ps[k as int].oam@.len() == OAM_SIZE,
        ps[k as int].oam_dma == (if k < 0xA0 {
            Some((page as u16 * 256 + k) as u16)
        } else {
            None::<u16>
        }),
        forall|j: int| 0 <= j < k ==> ps[k as int].oam@[j] == vals[j],
    decreases k,
{
    if k > 0 {
        let i = k - 1;
        lemma_oam_dma_prefix(ps, vals, page, (k - 1) as nat);
        assert(Ppu::oam_dma_stepped(ps[i], ps[i + 1], vals[i]));
        lemma_page_offset(page as u16, i as u16);
        lemma_page_offset(page as u16, k as u16);
    }
}

/// A whole OAM DMA transfer: 160 cycles of `oam_dma_emulate_cycle` after a
/// request for page `page`, while the PPU is in HBlank or VBlank, leave in
/// OAM exactly the 160 bytes handed in, in order, and end the transfer.
pub proof fn lemma_oam_dma_transfer(ps: Seq<Ppu>, vals: Seq<u8>, page: u8)
    requires
        page <= 0xDF,
        ps.len() == 0xA1,
        vals.len() == 0xA0,
        ps[0].wf(),
        ps[0].oam_dma == Some((page as u16 * 256) as u16),
        ps[0].mode == Mode::HBlank || ps[0].mode == Mode::VBlank,
        forall|i: int| 0 <= i < 0xA0 ==> #[trigger] Ppu::oam_dma_stepped(ps[i], ps[i + 1], vals[i]),
    ensures
        ps[0xA0].oam_dma is None,
        ps[0xA0].oam@ == vals,
{
    lemma_oam_dma_prefix(ps, vals, page, 0xA0);
    assert(ps[0xA0].oam@ =~= vals);
}

proof fn lemma_hdma_dst(d: u16, v: u16)
    requires
        d <= 0x2000,
        d % 16 == 0,
        v < 256,
    ensures
        (d & 0xF0) | ((v & 0x1F) << 8u16) <= 0x1FF0,
        ((d & 0xF0) | ((v & 0x1F) << 8u16)) % 16 == 0,
        (d & 0x1F00) | (v & 0xF0) <= 0x1FF0,
        ((d & 0x1F00) | (v & 0xF0)) % 16 == 0,
{
    assert({
        &&& (d & 0xF0) | ((v & 0x1F) << 8u16) <= 0x1FF0
        &&& ((d & 0xF0) | ((v & 0x1F) << 8u16)) % 16 == 0
        &&& (d & 0x1F00) | (v & 0xF0) <= 0x1FF0
        &&& ((d & 0x1F00) | (v & 0xF0)) % 16 == 0
    }) by (bit_vector)
        requires d % 16 == 0, v < 256;
}

/// With the LCD on, every PPU cycle moves one cycle further through the
/// frame, which wraps after 17556 cycles; a cycle reports the end of a frame
/// exactly when it is the last one of the frame.
pub proof fn lemma_frame_period(old: Ppu, new: Ppu, oi: Interrupts, ni: Interrupts, r: bool)
    requires
        old.wf(),
        old.lcdc & PPU_ENABLE != 0,
        Ppu::cycle_stepped(old, new, oi, ni, r),
    ensures
        0 <= frame_position(old) < FRAME_CYCLES,
        frame_position(new) == (frame_position(old) + 1) % (FRAME_CYCLES as int),
        r == (frame_position(old) == FRAME_CYCLES - 1),
{
}

} // verus!
