use vstd::prelude::*;

use crate::bootrom::Bootrom;
use crate::cartridge::{lemma_ram_read_after_write, Cartridge};
use crate::hram::{hram_index, HRam};
use crate::bits::lemma_and_le_u16;
use crate::interrupts::{Interrupts, SERIAL, TIMER};
use crate::joypad::Joypad;
use crate::ppu::{Mode, Ppu, HBLANK_CYCLES};
use crate::serial::Serial;
use crate::timer::Timer;
use crate::wram::{is_wram_addr, lemma_echo_ram, lemma_wram_index_bound, WRam};
use crate::Fault;

verus! {

/// Everything on the memory bus but the CPU.
pub struct Peripherals {
    pub bootrom: Bootrom,
    pub cartridge: Cartridge,
    pub ppu: Ppu,
    pub timer: Timer,
    pub joypad: Joypad,
    pub serial: Serial,
    pub hram: HRam,
    pub wram: WRam,
}

/// PPU registers that the bus forwards to the PPU.
pub open spec fn is_ppu_reg(addr: u16) -> bool {
    (0xFF40 <= addr <= 0xFF4B) || addr == 0xFF4F || (0xFF51 <= addr <= 0xFF55) || (0xFF68 <= addr
        <= 0xFF6B)
}

impl Peripherals {
    pub open spec fn wf(&self) -> bool {
        &&& self.bootrom.wf()
        &&& self.cartridge.wf()
        &&& self.ppu.wf()
        &&& self.hram.wf()
        &&& self.wram.wf()
        &&& self.joypad.wf()
    }

    /// The bus right after power-on: the given boot ROM and cartridge, and
    /// every other device freshly reset.
    pub open spec fn is_power_on(&self, bootrom: Bootrom, cartridge: Cartridge, is_cgb: bool) -> bool {
        &&& self.bootrom == bootrom
        &&& self.cartridge == cartridge
        &&& self.ppu.is_power_on(is_cgb)
        &&& self.timer == (Timer { div: 0, tima: 0, tma: 0, tac: 0, overflow: false })
        &&& self.joypad.register == 0xCF && self.joypad.action == 0xFF && self.joypad.direction
            == 0xFF
        &&& self.serial == (Serial {
            data: 0,
            control: 0,
            transfer_cnt: 0,
            send_data: None,
            recv_data: None,
            is_cgb,
        })
        &&& self.hram.0@ =~= Seq::new(0x80, |i: int| 0u8)
        &&& self.wram.is_cgb == is_cgb && self.wram.svbk == 0
        &&& self.wram.ram@ =~= Seq::new(0x8000, |i: int| 0u8)
    }

    pub fn new(bootrom: Bootrom, cartridge: Cartridge, is_cgb: bool) -> (r: Peripherals)
        requires
            bootrom.wf(),
            cartridge.wf(),
        ensures
            r.wf(),
            r.is_power_on(bootrom, cartridge, is_cgb),
    {
        Peripherals {
            bootrom,
            cartridge,
            ppu: Ppu::new(is_cgb),
            timer: Timer::new(),
            joypad: Joypad::new(),
            serial: Serial::new(is_cgb),
            hram: HRam::new(),
            wram: WRam::new(is_cgb),
        }
    }

    /// What the CPU reads at `addr`. The sound unit is not part of this
    /// library: its registers (0xFF10-0xFF26) and wave RAM (0xFF30-0xFF3F)
    /// read 0xFF like unmapped addresses, and writes to them are dropped.
    pub open spec fn peek(&self, interrupts: Interrupts, addr: u16) -> u8 {
        if self.bootrom.maps(addr) {
            self.bootrom.data@[addr as int]
        } else if addr <= 0x7FFF {
            self.cartridge.read_value(addr)
        } else if addr <= 0x9FFF {
            self.ppu.read_value(addr)
        } else if addr <= 0xBFFF {
            self.cartridge.read_value(addr)
        } else if addr <= 0xFDFF {
            self.wram.read_value(addr)
        } else if addr <= 0xFE9F {
            self.ppu.read_value(addr)
        } else if addr == 0xFF00 {
            self.joypad.register
        } else if addr == 0xFF01 || addr == 0xFF02 {
            self.serial.read_value(addr)
        } else if 0xFF04 <= addr <= 0xFF07 {
            self.timer.read_value(addr)
        } else if addr == 0xFF0F {
            interrupts.intr_flags
        } else if is_ppu_reg(addr) && !(0xFF51 <= addr <= 0xFF54) {
            self.ppu.read_value(addr)
        } else if addr == 0xFF70 {
            self.wram.svbk
        } else if 0xFF80 <= addr <= 0xFFFE {
            self.hram.0@[hram_index(addr)]
        } else if addr == 0xFFFF {
            interrupts.intr_enable
        } else {
            0xFF
        }
    }

    pub fn read(&self, interrupts: &Interrupts, addr: u16) -> (r: u8)
        requires
            self.wf(),
        ensures
            r == self.peek(*interrupts, addr),
    {
        if self.bootrom.is_mapped(addr) {
            self.bootrom.read(addr)
        } else if addr <= 0x7FFF {
            self.cartridge.read(addr)
        } else if addr <= 0x9FFF {
            self.ppu.read(addr)
        } else if addr <= 0xBFFF {
            self.cartridge.read(addr)
        } else if addr <= 0xFDFF {
            self.wram.read(addr)
        } else if addr <= 0xFE9F {
            self.ppu.read(addr)
        } else if addr == 0xFF00 {
            self.joypad.read()
        } else if addr == 0xFF01 || addr == 0xFF02 {
            self.serial.read(addr)
        } else if addr >= 0xFF04 && addr <= 0xFF07 {
            self.timer.read(addr)
        } else if addr == 0xFF0F {
            interrupts.read(addr)
        } else if ((addr >= 0xFF40 && addr <= 0xFF4B) || addr == 0xFF4F || addr == 0xFF55 || (addr
            >= 0xFF68 && addr <= 0xFF6B)) {
            self.ppu.read(addr)
        } else if addr == 0xFF70 {
            self.wram.read(addr)
        } else if addr >= 0xFF80 && addr <= 0xFFFE {
            self.hram.read(addr)
        } else if addr == 0xFFFF {
            interrupts.read(addr)
        } else {
            0xFF
        }
    }

    /// Writes that the machine can carry out: OAM DMA only from pages up to
    /// 0xDF, and no new serial transfer while one is pending.
    pub open spec fn accepts_write(&self, addr: u16, val: u8) -> bool {
        &&& Ppu::accepts_write(addr, val)
        &&& (addr == 0xFF01 || addr == 0xFF02 ==> self.serial.accepts_write(addr, val))
    }

    /// Tests `accepts_write`, and names the fault when the write is refused.
    pub fn check_write(&self, addr: u16, val: u8) -> (r: Option<Fault>)
        ensures
            r is None <==> self.accepts_write(addr, val),
            r matches Some(f) ==> (f == Fault::OamDmaSource(val) && addr == 0xFF46) || (f
                == Fault::SerialBusy && addr == 0xFF02),
    {
        if addr == 0xFF46 && val > 0xDF {
            Some(Fault::OamDmaSource(val))
        } else if addr == 0xFF02 && val & 0x81 == 0x81 && self.serial.send_data.is_some() {
            Some(Fault::SerialBusy)
        } else {
            None
        }
    }

    pub open spec fn is_cartridge_write(&self, addr: u16) -> bool {
        (addr <= 0x00FF && !self.bootrom.active) || (0x0100 <= addr <= 0x7FFF) || (0xA000 <= addr
            <= 0xBFFF)
    }

    pub open spec fn is_ppu_write(addr: u16) -> bool {
        (0x8000 <= addr <= 0x9FFF) || (0xFE00 <= addr <= 0xFE9F) || is_ppu_reg(addr)
    }

    /// The effect of a CPU write on the bus: the component that owns the
    /// address changes as its own write says, every other one stays as it was.
    pub open spec fn write_effect(
        old: &Peripherals,
        new: &Peripherals,
        oi: Interrupts,
        ni: Interrupts,
        addr: u16,
        val: u8,
    ) -> bool {
        &&& if old.is_cartridge_write(addr) {
            Cartridge::write_effect(&old.cartridge, &new.cartridge, addr, val)
        } else {
            new.cartridge == old.cartridge
        }
        &&& if Self::is_ppu_write(addr) {
            Ppu::write_effect(&old.ppu, &new.ppu, addr, val)
        } else {
            new.ppu == old.ppu
        }
        &&& if is_wram_addr(addr) || addr == 0xFF70 {
            WRam::write_effect(&old.wram, &new.wram, addr, val)
        } else {
            new.wram == old.wram
        }
        &&& if 0xFF80 <= addr <= 0xFFFE {
            new.hram.0@ == old.hram.0@.update(hram_index(addr), val)
        } else {
            new.hram == old.hram
        }
        &&& new.joypad == if addr == 0xFF00 {
            old.joypad.written(val)
        } else {
            old.joypad
        }
        &&& new.serial == if addr == 0xFF01 || addr == 0xFF02 {
            old.serial.written(addr, val)
        } else {
            old.serial
        }
        &&& new.timer == if 0xFF04 <= addr <= 0xFF07 {
            old.timer.written(addr, val)
        } else {
            old.timer
        }
        &&& ni == if addr == 0xFF0F || addr == 0xFFFF {
            oi.written(addr, val)
        } else {
            oi
        }
        &&& new.bootrom.data == old.bootrom.data
        &&& new.bootrom.active == (old.bootrom.active && (addr != 0xFF50 || val == 0))
    }

    pub fn write(&mut self, interrupts: &mut Interrupts, addr: u16, val: u8)
        requires
            old(self).wf(),
            old(self).accepts_write(addr, val),
        ensures
            final(self).wf(),
            Peripherals::write_effect(old(self), final(self), *old(interrupts), *final(interrupts), addr, val),
    {
        if addr <= 0x00FF {
            if !self.bootrom.is_active() {
                self.cartridge.write(addr, val);
            }
        } else if addr <= 0x7FFF {
            self.cartridge.write(addr, val);
        } else if addr <= 0x9FFF {
            self.ppu.write(addr, val);
        } else if addr <= 0xBFFF {
            self.cartridge.write(addr, val);
        } else if addr <= 0xFDFF {
            self.wram.write(addr, val);
        } else if addr <= 0xFE9F {
            self.ppu.write(addr, val);
        } else if addr == 0xFF00 {
            self.joypad.write(val);
        } else if addr == 0xFF01 || addr == 0xFF02 {
            self.serial.write(addr, val);
        } else if addr >= 0xFF04 && addr <= 0xFF07 {
            self.timer.write(addr, val);
        } else if addr == 0xFF0F {
            interrupts.write(addr, val);
        } else if ((addr >= 0xFF40 && addr <= 0xFF4B) || addr == 0xFF4F || (addr >= 0xFF51 && addr
            <= 0xFF55) || (addr >= 0xFF68 && addr <= 0xFF6B)) {
            self.ppu.write(addr, val);
        } else if addr == 0xFF50 {
            self.bootrom.write(addr, val);
        } else if addr == 0xFF70 {
            self.wram.write(addr, val);
        } else if addr >= 0xFF80 && addr <= 0xFFFE {
            self.hram.write(addr, val);
        } else if addr == 0xFFFF {
            interrupts.write(addr, val);
        }
    }
}


impl Peripherals {
    /// The `len` bytes read from `start` on, the address wrapping at 0xFFFF.
    fn read_block(&self, interrupts: &Interrupts, start: u16, len: u16) -> (r: Vec<u8>)
        requires
            self.wf(),
        ensures
            r@ == Seq::new(len as nat, |i: int| self.peek(*interrupts, start.wrapping_add(i as u16))),
    {
        let mut v: Vec<u8> = Vec::new();
        let mut i: u16 = 0;
        while i < len
            invariant
                self.wf(),
                i <= len,
                v@ == Seq::new(i as nat, |k: int| self.peek(*interrupts, start.wrapping_add(k as u16))),
            decreases len - i,
        {
            let b = self.read(interrupts, start.wrapping_add(i));
            v.push(b);
            i = i + 1;
            assert(v@ =~= Seq::new(i as nat, |k: int| self.peek(*interrupts, start.wrapping_add(k as u16))));
        }
        v
    }

    /// Source and destination of the video DMA once this cycle's HBlank
    /// block, if one is due, is copied.
    pub open spec fn hdma_after_block(p: Ppu) -> (int, int) {
        if p.hblank_dma_due() {
            (p.hdma_src.wrapping_add(0x10) as int, p.hdma_dst + 0x10)
        } else {
            (p.hdma_src as int, p.hdma_dst as int)
        }
    }

    /// A general DMA is pending that runs past the end of the address space
    /// or of video RAM.
    pub open spec fn general_dma_overruns(p: Ppu) -> bool {
        let (src, dst) = Peripherals::hdma_after_block(p);
        p.general_dma matches Some(len) && (src + len > 0x10000 || dst + len > 0x2000)
    }

    /// The devices once the timer and the serial port have stepped.
    pub open spec fn clocked(b0: Peripherals) -> Peripherals {
        Peripherals { timer: b0.timer.next(), serial: b0.serial.next(), ..b0 }
    }

    /// The interrupt registers once the timer and the serial port have stepped.
    pub open spec fn clocked_irq(b0: Peripherals, i0: Interrupts) -> Interrupts {
        Interrupts {
            intr_flags: (i0.intr_flags | (if b0.timer.overflow { TIMER } else { 0 })) | (if b0.serial.raises_interrupt() {
                SERIAL
            } else {
                0
            }),
            ..i0
        }
    }

    /// The `len` bytes from `start` on as the CPU would read them.
    pub open spec fn block(b: Peripherals, i: Interrupts, start: u16, len: nat) -> Seq<u8> {
        Seq::new(len, |k: int| b.peek(i, start.wrapping_add(k as u16)))
    }

    /// The PPU side of a device cycle, after the timer and the serial port
    /// (`m`, `im`): OAM DMA takes `p0` to `p1`, HBlank DMA `p1` to `p2`,
    /// general DMA `p2` to `p3`, and the PPU's own cycle `p3` to `pf` with
    /// interrupt registers `i1`; an overrunning video DMA stops the cycle
    /// there with its fault.
    pub open spec fn ppu_path(
        m: Peripherals,
        im: Interrupts,
        p1: Ppu,
        p2: Ppu,
        p3: Ppu,
        pf: Ppu,
        i1: Interrupts,
        r: Result<bool, Fault>,
    ) -> bool {
        let p0 = m.ppu;
        &&& match p0.oam_dma {
            Some(a) => Ppu::oam_dma_stepped(p0, p1, m.peek(im, a)),
            None => p1 == p0,
        }
        &&& if !p1.hblank_dma_ok() {
            r == Err::<bool, Fault>(Fault::HdmaOverrun) && pf == p1 && i1 == im
        } else {
            &&& match p1.hblank_dma {
                Some(_) => Ppu::hblank_dma_stepped(
                    p1,
                    p2,
                    Peripherals::block(Peripherals { ppu: p1, ..m }, im, p1.hdma_src, 0x10),
                ),
                None => p2 == p1,
            }
            &&& if p2.general_dma matches Some(len) && (p2.hdma_src + len > 0x10000 || p2.hdma_dst
                + len > 0x2000) {
                r == Err::<bool, Fault>(Fault::GeneralDmaOverrun) && pf == p2 && i1 == im
            } else {
                &&& match p2.general_dma {
                    Some(len) => Ppu::general_dma_stepped(
                        p2,
                        p3,
                        Peripherals::block(Peripherals { ppu: p2, ..m }, im, p2.hdma_src, len as nat),
                    ),
                    None => p3 == p2,
                }
                &&& r matches Ok(frame) && Ppu::cycle_stepped(p3, pf, im, i1, frame)
            }
        }
    }

    /// One machine cycle of the devices from `b0` with interrupt registers
    /// `i0` to `b1` and `i1`, with result `r`: the timer and the serial port
    /// step, OAM and video DMA copy, and the PPU steps unless a video DMA
    /// transfer overruns.
    pub open spec fn cycled(b0: Peripherals, i0: Interrupts, b1: Peripherals, i1: Interrupts, r: Result<bool, Fault>) -> bool {
        let p = b0.ppu;
        &&& b1.wf()
        &&& b1.timer == b0.timer.next()
        &&& b1.serial == b0.serial.next()
        &&& b1.bootrom == b0.bootrom && b1.cartridge == b0.cartridge && b1.joypad == b0.joypad
        &&& b1.hram == b0.hram && b1.wram == b0.wram
        &&& b1.ppu.is_cgb == p.is_cgb
        &&& i1.ime == i0.ime && i1.intr_enable == i0.intr_enable
        &&& i1.intr_flags | i0.intr_flags == i1.intr_flags
        &&& (b0.timer.overflow ==> i1.intr_flags & TIMER != 0)
        &&& (b0.serial.raises_interrupt() ==> i1.intr_flags & SERIAL != 0)
        &&& (r == Err::<bool, Fault>(Fault::HdmaOverrun) <==> !p.hblank_dma_ok())
        &&& (r == Err::<bool, Fault>(Fault::GeneralDmaOverrun) <==> p.hblank_dma_ok() && Peripherals::general_dma_overruns(p))
        &&& (r matches Ok(frame) ==> frame == p.frame_ends())
        &&& b1 == Peripherals { ppu: b1.ppu, ..Peripherals::clocked(b0) }
        &&& exists|p1: Ppu, p2: Ppu, p3: Ppu|
            #[trigger] Peripherals::ppu_path(
                Peripherals::clocked(b0),
                Peripherals::clocked_irq(b0, i0),
                p1,
                p2,
                p3,
                b1.ppu,
                i1,
                r,
            )
    }

    pub fn emulate_cycle(&mut self, interrupts: &mut Interrupts) -> (r: Result<bool, Fault>)
        requires
            old(self).wf(),
        ensures
            Peripherals::cycled(*old(self), *old(interrupts), *final(self), *final(interrupts), r),
    {
        let ghost b0 = *self;
        let ghost i0 = *interrupts;
        self.timer.emulate_cycle(interrupts);
        let ghost i1 = *interrupts;
        self.serial.emulate_cycle(interrupts);
        proof {
            let (f0, f1, f2) = (i0.intr_flags, i1.intr_flags, interrupts.intr_flags);
            assert(f2 | f0 == f2 && (f1 & 4 != 0 ==> f2 & 4 != 0) && (f1 == f0 | 4 ==> f1 & 4 != 0) && (f2
                == f1 | 8 ==> f2 & 8 != 0) && f0 | 0 == f0 && f1 | 0 == f1) by (bit_vector)
                requires
                    f1 == f0 || f1 == f0 | 4,
                    f2 == f1 || f2 == f1 | 8;
            assert(*interrupts == Peripherals::clocked_irq(b0, i0));
            assert(*self == Peripherals::clocked(b0));
        }
        let ghost m = *self;
        let ghost im = *interrupts;
        if let Some(addr) = self.ppu.oam_dma {
            let v = self.read(interrupts, addr);
            self.ppu.oam_dma_emulate_cycle(v);
        }
        let ghost p1 = self.ppu;
        if let Some(len) = self.ppu.hblank_dma {
            let vals = self.read_block(interrupts, self.ppu.hdma_src, 0x10);
            assert(vals@ == Peripherals::block(Peripherals { ppu: p1, ..m }, im, p1.hdma_src, 0x10));
            if self.ppu.mode == Mode::HBlank && self.ppu.cycles == HBLANK_CYCLES && !(len >= 0x10
                && self.ppu.hdma_dst + 0x10 <= 0x2000) {
                assert(Peripherals::ppu_path(m, im, p1, p1, p1, self.ppu, *interrupts, Err(Fault::HdmaOverrun)));
                return Err(Fault::HdmaOverrun);
            }
            self.ppu.hblank_dma_emulate_cycle(vals.as_slice());
        }
        let ghost p2 = self.ppu;
        if let Some(len) = self.ppu.general_dma {
            let src = self.ppu.hdma_src;
            if (src as u32) + (len as u32) > 0x10000 || (self.ppu.hdma_dst as u32) + (len as u32) > 0x2000 {
                assert(Peripherals::ppu_path(m, im, p1, p2, p2, self.ppu, *interrupts, Err(Fault::GeneralDmaOverrun)));
                return Err(Fault::GeneralDmaOverrun);
            }
            let vals = self.read_block(interrupts, src, len);
            assert(vals@ == Peripherals::block(Peripherals { ppu: p2, ..m }, im, p2.hdma_src, len as nat));
            self.ppu.general_dma_emulate_cycle(vals);
        }
        let ghost i2 = *interrupts;
        let ghost p3 = self.ppu;
        let frame = self.ppu.emulate_cycle(interrupts);
        proof {
            let m = p3.mode_end_irq();
            let (f0, f2, f3) = (i0.intr_flags, i2.intr_flags, interrupts.intr_flags);
            assert(f3 == f2 || f3 == f2 | m);
            assert(f3 | f0 == f3 && (f2 & 4 != 0 ==> f3 & 4 != 0) && (f2 & 8 != 0 ==> f3 & 8 != 0)) by (bit_vector)
                requires
                    f3 == f2 || f3 == f2 | m,
                    f2 | f0 == f2;
        }
        assert(Peripherals::ppu_path(m, im, p1, p2, p3, self.ppu, *interrupts, Ok(frame)));
        Ok(frame)
    }
}
/// A byte written to work RAM (or its echo), to high RAM, to IE or to
/// enabled cartridge RAM is what a read of the same address gives back
/// afterwards.
pub proof fn lemma_read_after_write(
    b0: Peripherals,
    b1: Peripherals,
    i0: Interrupts,
    i1: Interrupts,
    addr: u16,
    val: u8,
)
    requires
        b0.wf(),
        b0.accepts_write(addr, val),
        Peripherals::write_effect(&b0, &b1, i0, i1, addr, val),
        is_wram_addr(addr) || (0xFF80 <= addr <= 0xFFFE) || addr == 0xFFFF || (0xA000 <= addr
            <= 0xBFFF && b0.cartridge.mbc.sram_enabled() && b0.cartridge.sram@.len() > 0),
    ensures
        b1.peek(i1, addr) == val,
{
    lemma_wram_index_bound(b0.wram.is_cgb, b0.wram.svbk, addr);
    lemma_and_le_u16(addr, 0x7f);
    if 0xA000 <= addr <= 0xBFFF {
        lemma_ram_read_after_write(b0.cartridge, b1.cartridge, addr, val);
    }
}

/// Echo RAM on the bus: 0xE000-0xFDFF reads as the work RAM 0x2000 below.
pub proof fn lemma_bus_echo(b: Peripherals, i: Interrupts, addr: u16)
    requires
        0xC000 <= addr <= 0xDDFF,
    ensures
        b.peek(i, addr) == b.peek(i, (addr + 0x2000) as u16),
{
    lemma_echo_ram(b.wram.is_cgb, b.wram.svbk, addr);
}

/// Work RAM below its echo, and high RAM: where the stack can live.
pub open spec fn is_stack_ram(addr: u16) -> bool {
    (0xC000 <= addr <= 0xDFFF) || (0xFF80 <= addr <= 0xFFFE)
}

/// A write to one byte of work or high RAM changes no other byte there, and
/// no interrupt register.
pub proof fn lemma_ram_write_frame(
    b0: Peripherals,
    b1: Peripherals,
    i0: Interrupts,
    i1: Interrupts,
    addr: u16,
    val: u8,
    other: u16,
)
    requires
        b0.wf(),
        b0.accepts_write(addr, val),
        Peripherals::write_effect(&b0, &b1, i0, i1, addr, val),
        is_stack_ram(addr),
        is_stack_ram(other),
        other != addr,
    ensures
        b1.peek(i1, other) == b0.peek(i0, other),
        i1 == i0,
{
    lemma_wram_index_bound(b0.wram.is_cgb, b0.wram.svbk, addr);
    lemma_wram_index_bound(b0.wram.is_cgb, b0.wram.svbk, other);
    let (c, k) = (addr, other);
    assert({
        &&& (0xC000 <= c <= 0xDFFF && 0xC000 <= k <= 0xDFFF && c != k) ==> (c & 0x1fff) != (k & 0x1fff)
            && ((c <= 0xCFFF) == (k <= 0xCFFF) ==> (c & 0xfff) != (k & 0xfff))
        &&& (0xFF80 <= c <= 0xFFFE && 0xFF80 <= k <= 0xFFFE && c != k) ==> (c & 0x7f) != (k & 0x7f)
        &&& (c <= 0xCFFF ==> (c & 0xfff) < 0x1000) && (k <= 0xCFFF ==> (k & 0xfff) < 0x1000)
    }) by (bit_vector);
    lemma_and_le_u16(addr, 0x7f);
    lemma_and_le_u16(other, 0x7f);
}

} // verus!
