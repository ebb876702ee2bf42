use vstd::prelude::*;

use crate::cpu::{Cache, Cpu};
use crate::peripherals::{is_stack_ram, lemma_ram_write_frame, lemma_read_after_write, Peripherals};
use crate::register::{lemma_pair, lemma_split, pair, Registers};
use crate::interrupts::Interrupts;
use crate::Fault;
use crate::bits::lemma_high_page;

verus! {

/// The 8-bit registers that instructions name (F only through AF).
#[derive(Clone, Copy, PartialEq, Eq, Structural, Debug)]
pub enum Reg8 {
    A,
    B,
    C,
    D,
    E,
    H,
    L,
}

/// The register pairs and the stack pointer.
#[derive(Clone, Copy, PartialEq, Eq, Structural, Debug)]
pub enum Reg16 {
    AF,
    BC,
    DE,
    HL,
    SP,
}

/// Memory addressed by a register: (BC), (DE), (HL), (0xFF00+C), (HL-), (HL+).
#[derive(Clone, Copy, PartialEq, Eq, Structural, Debug)]
pub enum Indirect {
    BC,
    DE,
    HL,
    CFF,
    HLD,
    HLI,
}

/// Memory addressed by an immediate: (nn) or (0xFF00+n).
#[derive(Clone, Copy, PartialEq, Eq, Structural, Debug)]
pub enum Direct8 {
    D,
    DFF,
}

/// Branch conditions on Z and C.
#[derive(Clone, Copy, PartialEq, Eq, Structural, Debug)]
pub enum Cond {
    NZ,
    Z,
    NC,
    C,
}

/// An 8-bit operand.
#[derive(Clone, Copy, PartialEq, Eq, Structural, Debug)]
pub enum Operand8 {
    Reg(Reg8),
    Imm8,
    Ind(Indirect),
    Dir(Direct8),
}

/// A 16-bit operand: a register pair, an immediate, or (nn) as the target of LD (nn), SP.
#[derive(Clone, Copy, PartialEq, Eq, Structural, Debug)]
pub enum Operand16 {
    Reg(Reg16),
    Imm16,
    Dir16,
}

impl Cpu {
    pub open spec fn reg8(self, r: Reg8) -> u8 {
        match r {
            Reg8::A => self.regs.a,
            Reg8::B => self.regs.b,
            Reg8::C => self.regs.c,
            Reg8::D => self.regs.d,
            Reg8::E => self.regs.e,
            Reg8::H => self.regs.h,
            Reg8::L => self.regs.l,
        }
    }

    pub open spec fn with_reg8(self, r: Reg8, v: u8) -> Cpu {
        let regs = self.regs;
        Cpu {
            regs: match r {
                Reg8::A => Registers { a: v, ..regs },
                Reg8::B => Registers { b: v, ..regs },
                Reg8::C => Registers { c: v, ..regs },
                Reg8::D => Registers { d: v, ..regs },
                Reg8::E => Registers { e: v, ..regs },
                Reg8::H => Registers { h: v, ..regs },
                Reg8::L => Registers { l: v, ..regs },
            },
            ..self
        }
    }

    pub open spec fn reg16(self, r: Reg16) -> u16 {
        match r {
            Reg16::AF => pair(self.regs.a, self.regs.f),
            Reg16::BC => pair(self.regs.b, self.regs.c),
            Reg16::DE => pair(self.regs.d, self.regs.e),
            Reg16::HL => pair(self.regs.h, self.regs.l),
            Reg16::SP => self.regs.sp,
        }
    }

    /// The registers after a register pair is written (for AF the low nibble of F stays clear).
    pub open spec fn with_reg16(self, r: Reg16, v: u16) -> Cpu {
        let regs = self.regs;
        let hi = (v >> 8u16) as u8;
        let lo = v as u8;
        Cpu {
            regs: match r {
                Reg16::AF => Registers { a: hi, f: (v & 0xF0u16) as u8, ..regs },
                Reg16::BC => Registers { b: hi, c: lo, ..regs },
                Reg16::DE => Registers { d: hi, e: lo, ..regs },
                Reg16::HL => Registers { h: hi, l: lo, ..regs },
                Reg16::SP => Registers { sp: v, ..regs },
            },
            ..self
        }
    }

    pub open spec fn with_pc(self, pc: u16) -> Cpu {
        Cpu { regs: Registers { pc, ..self.regs }, ..self }
    }

    pub open spec fn with_imm8(self, c: Cache) -> Cpu {
        Cpu { ctx: crate::cpu::Ctx { cache: crate::cpu::Caches { imm8: c, ..self.ctx.cache }, ..self.ctx }, ..self }
    }

    pub open spec fn with_read8(self, c: Cache) -> Cpu {
        Cpu { ctx: crate::cpu::Ctx { cache: crate::cpu::Caches { read8: c, ..self.ctx.cache }, ..self.ctx }, ..self }
    }

    /// The address of an indirect operand.
    pub open spec fn ind_addr(self, i: Indirect) -> u16 {
        match i {
            Indirect::BC => pair(self.regs.b, self.regs.c),
            Indirect::DE => pair(self.regs.d, self.regs.e),
            Indirect::CFF => (0xFF00 + self.regs.c) as u16,
            _ => pair(self.regs.h, self.regs.l),
        }
    }

    /// HL after an access through (HL-) or (HL+).
    pub open spec fn ind_post(self, i: Indirect) -> Cpu {
        let hl = pair(self.regs.h, self.regs.l);
        match i {
            Indirect::HLD => self.with_reg16(Reg16::HL, hl.wrapping_sub(1)),
            Indirect::HLI => self.with_reg16(Reg16::HL, hl.wrapping_add(1)),
            _ => self,
        }
    }

    /// One call of the immediate-byte reader: the first call reads the byte at
    /// PC and advances PC, the second hands it out.
    #[verifier::opaque]
    pub open spec fn imm8_step(self, bus: &Peripherals) -> (Cpu, Option<u8>) {
        let c = self.ctx.cache.imm8;
        if c.step == 0 {
            let v = bus.peek(self.interrupts, self.regs.pc);
            (self.with_pc(self.regs.pc.wrapping_add(1)).with_imm8(Cache { step: 1, val8: v, ..c }), None)
        } else if c.step == 1 {
            (self.with_imm8(Cache { step: 0, ..c }), Some(c.val8))
        } else {
            (self, None)
        }
    }

    pub fn read_reg8(&self, r: Reg8) -> (v: u8)
        ensures
            v == self.reg8(r),
    {
        match r {
            Reg8::A => self.regs.a,
            Reg8::B => self.regs.b,
            Reg8::C => self.regs.c,
            Reg8::D => self.regs.d,
            Reg8::E => self.regs.e,
            Reg8::H => self.regs.h,
            Reg8::L => self.regs.l,
        }
    }

    pub fn write_reg8(&mut self, r: Reg8, v: u8)
        ensures
            *final(self) == old(self).with_reg8(r, v),
    {
        match r {
            Reg8::A => self.regs.a = v,
            Reg8::B => self.regs.b = v,
            Reg8::C => self.regs.c = v,
            Reg8::D => self.regs.d = v,
            Reg8::E => self.regs.e = v,
            Reg8::H => self.regs.h = v,
            Reg8::L => self.regs.l = v,
        }
    }

    pub fn read_reg16(&self, r: Reg16) -> (v: u16)
        ensures
            v == self.reg16(r),
    {
        match r {
            Reg16::AF => self.regs.af(),
            Reg16::BC => self.regs.bc(),
            Reg16::DE => self.regs.de(),
            Reg16::HL => self.regs.hl(),
            Reg16::SP => self.regs.sp,
        }
    }

    pub fn write_reg16(&mut self, r: Reg16, v: u16)
        ensures
            *final(self) == old(self).with_reg16(r, v),
    {
        match r {
            Reg16::AF => self.regs.set_af(v),
            Reg16::BC => self.regs.set_bc(v),
            Reg16::DE => self.regs.set_de(v),
            Reg16::HL => self.regs.set_hl(v),
            Reg16::SP => self.regs.sp = v,
        }
    }

    fn imm8(&mut self, bus: &Peripherals) -> (r: Option<u8>)
        requires
            bus.wf(),
        ensures
            (*final(self), r) == old(self).imm8_step(bus),
    {
        proof {
            reveal(Cpu::imm8_step);
        }
        if self.ctx.cache.imm8.step == 0 {
            let v = bus.read(&self.interrupts, self.regs.pc);
            self.regs.pc = self.regs.pc.wrapping_add(1);
            self.ctx.cache.imm8.val8 = v;
            self.ctx.cache.imm8.step = 1;
            None
        } else if self.ctx.cache.imm8.step == 1 {
            self.ctx.cache.imm8.step = 0;
            Some(self.ctx.cache.imm8.val8)
        } else {
            None
        }
    }
}

impl Cpu {
    pub open spec fn with_cache_write8(self, c: Cache) -> Cpu {
        Cpu { ctx: crate::cpu::Ctx { cache: crate::cpu::Caches { write8: c, ..self.ctx.cache }, ..self.ctx }, ..self }
    }

    pub open spec fn with_fault(self, f: Fault) -> Cpu {
        Cpu { ctx: crate::cpu::Ctx { fault: Some(f), ..self.ctx }, ..self }
    }

    /// The fault that a refused write of `val` to `addr` raises.
    pub open spec fn write_fault(addr: u16, val: u8) -> Fault {
        if addr == 0xFF46 {
            Fault::OamDmaSource(val)
        } else {
            Fault::SerialBusy
        }
    }

    /// `new`/`bus1` are the CPU and bus after `c1` makes the bus write `w`
    /// (if any) on `bus0`: an accepted write changes the bus as its write
    /// effect says (and may change the interrupt registers); a refused one
    /// changes nothing but records its fault.
    pub open spec fn performed(c1: Cpu, w: Option<(u16, u8)>, bus0: Peripherals, bus1: Peripherals, new: Cpu) -> bool {
        match w {
            None => new == c1 && bus1 == bus0,
            Some((a, v)) => if bus0.accepts_write(a, v) {
                &&& new == (Cpu { interrupts: new.interrupts, ..c1 })
                &&& Peripherals::write_effect(&bus0, &bus1, c1.interrupts, new.interrupts, a, v)
            } else {
                new == c1.with_fault(Self::write_fault(a, v)) && bus1 == bus0
            },
        }
    }

    /// Writes `val` to `addr` on the bus, or records the fault if the bus refuses it.
    pub fn bus_write(&mut self, bus: &mut Peripherals, addr: u16, val: u8)
        requires
            old(bus).wf(),
        ensures
            final(bus).wf(),
            Cpu::performed(*old(self), Some((addr, val)), *old(bus), *final(bus), *final(self)),
    {
        match bus.check_write(addr, val) {
            Some(f) => {
                self.ctx.fault = Some(f);
            },
            None => {
                bus.write(&mut self.interrupts, addr, val);
            },
        }
    }

    /// One call of the reader of a direct operand (nn) or (0xFF00+n): the
    /// address bytes come from the immediate reader, then the byte is read.
    #[verifier::opaque]
    pub open spec fn dir8_read_step(self, bus: &Peripherals, d: Direct8) -> (Cpu, Option<u8>) {
        let s0 = self;
        let s1 = if s0.ctx.cache.read8.step == 0 {
            let (t, r) = s0.imm8_step(bus);
            match r {
                Some(lo) => if d == Direct8::DFF {
                    t.with_read8(Cache { step: 2, val8: lo, val16: (0xFF00 + lo) as u16 })
                } else {
                    t.with_read8(Cache { step: 1, val8: lo, ..t.ctx.cache.read8 })
                },
                None => t,
            }
        } else {
            s0
        };
        let s2 = if s1.ctx.cache.read8.step == 1 {
            let (t, r) = s1.imm8_step(bus);
            match r {
                Some(hi) => t.with_read8(
                    Cache { step: 2, val16: pair(hi, s1.ctx.cache.read8.val8), ..t.ctx.cache.read8 },
                ),
                None => t,
            }
        } else {
            s1
        };
        let c = s2.ctx.cache.read8;
        if c.step == 2 {
            let v = bus.peek(s2.interrupts, c.val16);
            (s2.with_read8(Cache { step: 3, val8: v, ..c }), None)
        } else if c.step == 3 {
            (s2.with_read8(Cache { step: 0, ..c }), Some(c.val8))
        } else {
            (s2, None)
        }
    }

    /// One call of the reader of an 8-bit operand: the CPU after the call and
    /// the value, once it is available.
    #[verifier::opaque]
    pub open spec fn read8_step(self, bus: &Peripherals, src: Operand8) -> (Cpu, Option<u8>) {
        match src {
            Operand8::Reg(r) => (self, Some(self.reg8(r))),
            Operand8::Imm8 => self.imm8_step(bus),
            Operand8::Ind(i) => {
                let c = self.ctx.cache.read8;
                if c.step == 0 {
                    let v = bus.peek(self.interrupts, self.ind_addr(i));
                    (self.ind_post(i).with_read8(Cache { step: 1, val8: v, ..c }), None)
                } else if c.step == 1 {
                    (self.with_read8(Cache { step: 0, ..c }), Some(c.val8))
                } else {
                    (self, None)
                }
            },
            Operand8::Dir(d) => self.dir8_read_step(bus, d),
        }
    }

    fn ind_address(&mut self, i: Indirect) -> (addr: u16)
        ensures
            addr == old(self).ind_addr(i),
            *final(self) == old(self).ind_post(i),
    {
        match i {
            Indirect::BC => self.regs.bc(),
            Indirect::DE => self.regs.de(),
            Indirect::HL => self.regs.hl(),
            Indirect::CFF => {
                proof {
                    lemma_high_page(self.regs.c);
                }
                0xFF00 | (self.regs.c as u16)
            },
            Indirect::HLD => {
                let addr = self.regs.hl();
                self.regs.set_hl(addr.wrapping_sub(1));
                addr
            },
            Indirect::HLI => {
                let addr = self.regs.hl();
                self.regs.set_hl(addr.wrapping_add(1));
                addr
            },
        }
    }

    pub fn read8(&mut self, bus: &Peripherals, src: Operand8) -> (r: Option<u8>)
        requires
            bus.wf(),
        ensures
            (*final(self), r) == old(self).read8_step(bus, src),
    {
        proof {
            reveal(Cpu::read8_step);
            reveal(Cpu::dir8_read_step);
            reveal(Cpu::imm8_step);
        }
        match src {
            Operand8::Reg(reg) => Some(self.read_reg8(reg)),
            Operand8::Imm8 => self.imm8(bus),
            Operand8::Ind(i) => {
                if self.ctx.cache.read8.step == 0 {
                    let ghost c0 = *self;
                    let addr = self.ind_address(i);
                    let v = bus.read(&self.interrupts, addr);
                    self.ctx.cache.read8.val8 = v;
                    self.ctx.cache.read8.step = 1;
                    None
                } else if self.ctx.cache.read8.step == 1 {
                    self.ctx.cache.read8.step = 0;
                    Some(self.ctx.cache.read8.val8)
                } else {
                    None
                }
            },
            Operand8::Dir(d) => {
                if self.ctx.cache.read8.step == 0 {
                    if let Some(lo) = self.imm8(bus) {
                        self.ctx.cache.read8.val8 = lo;
                        self.ctx.cache.read8.step = 1;
                        if d == Direct8::DFF {
                            proof {
                                lemma_high_page(lo);
                            }
                            self.ctx.cache.read8.val16 = 0xFF00 | (lo as u16);
                            self.ctx.cache.read8.step = 2;
                        }
                    }
                }
                if self.ctx.cache.read8.step == 1 {
                    if let Some(hi) = self.imm8(bus) {
                        proof {
                            lemma_pair(hi, self.ctx.cache.read8.val8);
                        }
                        self.ctx.cache.read8.val16 = ((hi as u16) << 8) | (self.ctx.cache.read8.val8 as u16);
                        self.ctx.cache.read8.step = 2;
                    }
                }
                if self.ctx.cache.read8.step == 2 {
                    let v = bus.read(&self.interrupts, self.ctx.cache.read8.val16);
                    self.ctx.cache.read8.val8 = v;
                    self.ctx.cache.read8.step = 3;
                    return None;
                }
                if self.ctx.cache.read8.step == 3 {
                    self.ctx.cache.read8.step = 0;
                    Some(self.ctx.cache.read8.val8)
                } else {
                    None
                }
            },
        }
    }
}

impl Cpu {
    pub open spec fn with_read16(self, c: Cache) -> Cpu {
        Cpu { ctx: crate::cpu::Ctx { cache: crate::cpu::Caches { read16: c, ..self.ctx.cache }, ..self.ctx }, ..self }
    }

    pub open spec fn with_write16(self, c: Cache) -> Cpu {
        Cpu { ctx: crate::cpu::Ctx { cache: crate::cpu::Caches { write16: c, ..self.ctx.cache }, ..self.ctx }, ..self }
    }

    pub open spec fn with_push16(self, c: Cache) -> Cpu {
        Cpu { ctx: crate::cpu::Ctx { cache: crate::cpu::Caches { push16: c, ..self.ctx.cache }, ..self.ctx }, ..self }
    }

    pub open spec fn with_pop16(self, c: Cache) -> Cpu {
        Cpu { ctx: crate::cpu::Ctx { cache: crate::cpu::Caches { pop16: c, ..self.ctx.cache }, ..self.ctx }, ..self }
    }

    pub open spec fn with_sp(self, sp: u16) -> Cpu {
        Cpu { regs: Registers { sp, ..self.regs }, ..self }
    }

    /// One call of the writer of an 8-bit operand: the CPU before the bus
    /// write of this call, that write (if any), and whether the operand is written.
    #[verifier::opaque]
    pub open spec fn write8_plan(self, bus: &Peripherals, dst: Operand8, val: u8) -> (Cpu, Option<(u16, u8)>, Option<()>) {
        match dst {
            Operand8::Reg(r) => (self.with_reg8(r, val), None, Some(())),
            Operand8::Imm8 => (self, None, None),
            Operand8::Ind(i) => {
                let c = self.ctx.cache.write8;
                if c.step == 0 {
                    (self.ind_post(i).with_cache_write8(Cache { step: 1, ..c }), Some((self.ind_addr(i), val)), None)
                } else if c.step == 1 {
                    (self.with_cache_write8(Cache { step: 0, ..c }), None, Some(()))
                } else {
                    (self, None, None)
                }
            },
            Operand8::Dir(d) => {
                let s0 = self;
                let s1 = if s0.ctx.cache.write8.step == 0 {
                    let (t, r) = s0.imm8_step(bus);
                    match r {
                        Some(lo) => if d == Direct8::DFF {
                            t.with_cache_write8(Cache { step: 2, val8: lo, val16: (0xFF00 + lo) as u16 })
                        } else {
                            t.with_cache_write8(Cache { step: 1, val8: lo, ..t.ctx.cache.write8 })
                        },
                        None => t,
                    }
                } else {
                    s0
                };
                let s2 = if s1.ctx.cache.write8.step == 1 {
                    let (t, r) = s1.imm8_step(bus);
                    match r {
                        Some(hi) => t.with_cache_write8(
                            Cache { step: 2, val16: pair(hi, s1.ctx.cache.write8.val8), ..t.ctx.cache.write8 },
                        ),
                        None => t,
                    }
                } else {
                    s1
                };
                let c = s2.ctx.cache.write8;
                if c.step == 2 {
                    (s2.with_cache_write8(Cache { step: 3, ..c }), Some((c.val16, val)), None)
                } else if c.step == 3 {
                    (s2.with_cache_write8(Cache { step: 0, ..c }), None, Some(()))
                } else {
                    (s2, None, None)
                }
            },
        }
    }

    pub fn write8(&mut self, bus: &mut Peripherals, dst: Operand8, val: u8) -> (r: Option<()>)
        requires
            old(bus).wf(),
        ensures
            final(bus).wf(),
            r == old(self).write8_plan(old(bus), dst, val).2,
            Cpu::performed(
                old(self).write8_plan(old(bus), dst, val).0,
                old(self).write8_plan(old(bus), dst, val).1,
                *old(bus),
                *final(bus),
                *final(self),
            ),
    {
        proof {
            reveal(Cpu::write8_plan);
            reveal(Cpu::imm8_step);
        }
        match dst {
            Operand8::Reg(reg) => {
                self.write_reg8(reg, val);
                Some(())
            },
            Operand8::Imm8 => None,
            Operand8::Ind(i) => {
                if self.ctx.cache.write8.step == 0 {
                    let addr = self.ind_address(i);
                    self.ctx.cache.write8.step = 1;
                    self.bus_write(bus, addr, val);
                    None
                } else if self.ctx.cache.write8.step == 1 {
                    self.ctx.cache.write8.step = 0;
                    Some(())
                } else {
                    None
                }
            },
            Operand8::Dir(d) => {
                if self.ctx.cache.write8.step == 0 {
                    if let Some(lo) = self.imm8(bus) {
                        self.ctx.cache.write8.val8 = lo;
                        self.ctx.cache.write8.step = 1;
                        if d == Direct8::DFF {
                            proof {
                                lemma_high_page(lo);
                            }
                            self.ctx.cache.write8.val16 = 0xFF00 | (lo as u16);
                            self.ctx.cache.write8.step = 2;
                        }
                    }
                }
                if self.ctx.cache.write8.step == 1 {
                    if let Some(hi) = self.imm8(bus) {
                        proof {
                            lemma_pair(hi, self.ctx.cache.write8.val8);
                        }
                        self.ctx.cache.write8.val16 = ((hi as u16) << 8) | (self.ctx.cache.write8.val8 as u16);
                        self.ctx.cache.write8.step = 2;
                    }
                }
                if self.ctx.cache.write8.step == 2 {
                    let addr = self.ctx.cache.write8.val16;
                    self.ctx.cache.write8.step = 3;
                    self.bus_write(bus, addr, val);
                    return None;
                }
                if self.ctx.cache.write8.step == 3 {
                    self.ctx.cache.write8.step = 0;
                    Some(())
                } else {
                    None
                }
            },
        }
    }

    /// One call of the reader of a 16-bit operand.
    #[verifier::opaque]
    pub open spec fn read16_step(self, bus: &Peripherals, src: Operand16) -> (Cpu, Option<u16>) {
        match src {
            Operand16::Reg(r) => (self, Some(self.reg16(r))),
            Operand16::Dir16 => (self, None),
            Operand16::Imm16 => {
                let s1 = if self.ctx.cache.read16.step == 0 {
                    let (t, r) = self.imm8_step(bus);
                    match r {
                        Some(lo) => t.with_read16(Cache { step: 1, val8: lo, ..t.ctx.cache.read16 }),
                        None => t,
                    }
                } else {
                    self
                };
                let s2 = if s1.ctx.cache.read16.step == 1 {
                    let (t, r) = s1.imm8_step(bus);
                    match r {
                        Some(hi) => t.with_read16(
                            Cache { step: 2, val16: pair(hi, s1.ctx.cache.read16.val8), ..t.ctx.cache.read16 },
                        ),
                        None => t,
                    }
                } else {
                    s1
                };
                let c = s2.ctx.cache.read16;
                if c.step == 2 {
                    (s2.with_read16(Cache { step: 0, ..c }), Some(c.val16))
                } else {
                    (s2, None)
                }
            },
        }
    }

    pub fn read16(&mut self, bus: &Peripherals, src: Operand16) -> (r: Option<u16>)
        requires
            bus.wf(),
        ensures
            (*final(self), r) == old(self).read16_step(bus, src),
    {
        proof {
            reveal(Cpu::read16_step);
            reveal(Cpu::imm8_step);
        }
        match src {
            Operand16::Reg(reg) => Some(self.read_reg16(reg)),
            Operand16::Dir16 => None,
            Operand16::Imm16 => {
                if self.ctx.cache.read16.step == 0 {
                    if let Some(lo) = self.imm8(bus) {
                        self.ctx.cache.read16.val8 = lo;
                        self.ctx.cache.read16.step = 1;
                    }
                }
                if self.ctx.cache.read16.step == 1 {
                    if let Some(hi) = self.imm8(bus) {
                        proof {
                            lemma_pair(hi, self.ctx.cache.read16.val8);
                        }
                        self.ctx.cache.read16.val16 = ((hi as u16) << 8) | (self.ctx.cache.read16.val8 as u16);
                        self.ctx.cache.read16.step = 2;
                    }
                }
                if self.ctx.cache.read16.step == 2 {
                    self.ctx.cache.read16.step = 0;
                    Some(self.ctx.cache.read16.val16)
                } else {
                    None
                }
            },
        }
    }

    /// One call of the writer of a 16-bit operand; (nn) takes the low byte
    /// at nn and the high byte at nn + 1.
    #[verifier::opaque]
    pub open spec fn write16_plan(self, bus: &Peripherals, dst: Operand16, val: u16) -> (Cpu, Option<(u16, u8)>, Option<()>) {
        match dst {
            Operand16::Reg(r) => (self.with_reg16(r, val), None, Some(())),
            Operand16::Imm16 => (self, None, None),
            Operand16::Dir16 => {
                let s1 = if self.ctx.cache.write16.step == 0 {
                    let (t, r) = self.imm8_step(bus);
                    match r {
                        Some(lo) => t.with_write16(Cache { step: 1, val8: lo, ..t.ctx.cache.write16 }),
                        None => t,
                    }
                } else {
                    self
                };
                let s2 = if s1.ctx.cache.write16.step == 1 {
                    let (t, r) = s1.imm8_step(bus);
                    match r {
                        Some(hi) => t.with_write16(
                            Cache { step: 2, val16: pair(hi, s1.ctx.cache.write16.val8), ..t.ctx.cache.write16 },
                        ),
                        None => t,
                    }
                } else {
                    s1
                };
                let c = s2.ctx.cache.write16;
                if c.step == 2 {
                    (s2.with_write16(Cache { step: 3, ..c }), Some((c.val16, val as u8)), None)
                } else if c.step == 3 {
                    (s2.with_write16(Cache { step: 4, ..c }), Some((c.val16.wrapping_add(1), (val >> 8u16) as u8)), None)
                } else if c.step == 4 {
                    (s2.with_write16(Cache { step: 0, ..c }), None, Some(()))
                } else {
                    (s2, None, None)
                }
            },
        }
    }

    pub fn write16(&mut self, bus: &mut Peripherals, dst: Operand16, val: u16) -> (r: Option<()>)
        requires
            old(bus).wf(),
        ensures
            final(bus).wf(),
            r == old(self).write16_plan(old(bus), dst, val).2,
            Cpu::performed(
                old(self).write16_plan(old(bus), dst, val).0,
                old(self).write16_plan(old(bus), dst, val).1,
                *old(bus),
                *final(bus),
                *final(self),
            ),
    {
        proof {
            reveal(Cpu::write16_plan);
            reveal(Cpu::imm8_step);
        }
        match dst {
            Operand16::Reg(reg) => {
                self.write_reg16(reg, val);
                Some(())
            },
            Operand16::Imm16 => None,
            Operand16::Dir16 => {
                if self.ctx.cache.write16.step == 0 {
                    if let Some(lo) = self.imm8(bus) {
                        self.ctx.cache.write16.val8 = lo;
                        self.ctx.cache.write16.step = 1;
                    }
                }
                if self.ctx.cache.write16.step == 1 {
                    if let Some(hi) = self.imm8(bus) {
                        proof {
                            lemma_pair(hi, self.ctx.cache.write16.val8);
                        }
                        self.ctx.cache.write16.val16 = ((hi as u16) << 8) | (self.ctx.cache.write16.val8 as u16);
                        self.ctx.cache.write16.step = 2;
                    }
                }
                if self.ctx.cache.write16.step == 2 {
                    let addr = self.ctx.cache.write16.val16;
                    self.ctx.cache.write16.step = 3;
                    self.bus_write(bus, addr, val as u8);
                    return None;
                }
                if self.ctx.cache.write16.step == 3 {
                    let addr = self.ctx.cache.write16.val16.wrapping_add(1);
                    self.ctx.cache.write16.step = 4;
                    self.bus_write(bus, addr, (val >> 8) as u8);
                    return None;
                }
                if self.ctx.cache.write16.step == 4 {
                    self.ctx.cache.write16.step = 0;
                    Some(())
                } else {
                    None
                }
            },
        }
    }

    /// One call of a push of `val`: a cycle of delay, then the high byte at
    /// SP - 1 and the low byte at SP - 2.
    #[verifier::opaque]
    pub open spec fn push16_plan(self, val: u16) -> (Cpu, Option<(u16, u8)>, Option<()>) {
        let c = self.ctx.cache.push16;
        let sp1 = self.regs.sp.wrapping_sub(1);
        if c.step == 0 {
            (self.with_push16(Cache { step: 1, ..c }), None, None)
        } else if c.step == 1 {
            (self.with_sp(sp1).with_push16(Cache { step: 2, val8: val as u8, ..c }), Some((sp1, (val >> 8u16) as u8)), None)
        } else if c.step == 2 {
            (self.with_sp(sp1).with_push16(Cache { step: 3, ..c }), Some((sp1, c.val8)), None)
        } else if c.step == 3 {
            (self.with_push16(Cache { step: 0, ..c }), None, Some(()))
        } else {
            (self, None, None)
        }
    }

    pub fn push16(&mut self, bus: &mut Peripherals, val: u16) -> (r: Option<()>)
        requires
            old(bus).wf(),
        ensures
            final(bus).wf(),
            r == old(self).push16_plan(val).2,
            Cpu::performed(old(self).push16_plan(val).0, old(self).push16_plan(val).1, *old(bus), *final(bus), *final(self)),
    {
        proof {
            reveal(Cpu::push16_plan);
        }
        if self.ctx.cache.push16.step == 0 {
            self.ctx.cache.push16.step = 1;
            return None;
        }
        if self.ctx.cache.push16.step == 1 {
            let hi = (val >> 8) as u8;
            let lo = val as u8;
            self.regs.sp = self.regs.sp.wrapping_sub(1);
            self.ctx.cache.push16.val8 = lo;
            self.ctx.cache.push16.step = 2;
            let sp = self.regs.sp;
            self.bus_write(bus, sp, hi);
            return None;
        }
        if self.ctx.cache.push16.step == 2 {
            self.regs.sp = self.regs.sp.wrapping_sub(1);
            self.ctx.cache.push16.step = 3;
            let sp = self.regs.sp;
            let v = self.ctx.cache.push16.val8;
            self.bus_write(bus, sp, v);
            return None;
        }
        if self.ctx.cache.push16.step == 3 {
            self.ctx.cache.push16.step = 0;
            Some(())
        } else {
            None
        }
    }

    /// One call of a pop: the low byte at SP, the high byte at SP + 1, then the value.
    #[verifier::opaque]
    pub open spec fn pop16_step(self, bus: &Peripherals) -> (Cpu, Option<u16>) {
        let c = self.ctx.cache.pop16;
        let sp = self.regs.sp;
        if c.step == 0 {
            let lo = bus.peek(self.interrupts, sp);
            (self.with_sp(sp.wrapping_add(1)).with_pop16(Cache { step: 1, val8: lo, ..c }), None)
        } else if c.step == 1 {
            let hi = bus.peek(self.interrupts, sp);
            (self.with_sp(sp.wrapping_add(1)).with_pop16(Cache { step: 2, val16: pair(hi, c.val8), ..c }), None)
        } else if c.step == 2 {
            (self.with_pop16(Cache { step: 0, ..c }), Some(c.val16))
        } else {
            (self, None)
        }
    }

    pub fn pop16(&mut self, bus: &Peripherals) -> (r: Option<u16>)
        requires
            bus.wf(),
        ensures
            (*final(self), r) == old(self).pop16_step(bus),
    {
        proof {
            reveal(Cpu::pop16_step);
        }
        if self.ctx.cache.pop16.step == 0 {
            let lo = bus.read(&self.interrupts, self.regs.sp);
            self.ctx.cache.pop16.val8 = lo;
            self.regs.sp = self.regs.sp.wrapping_add(1);
            self.ctx.cache.pop16.step = 1;
            return None;
        }
        if self.ctx.cache.pop16.step == 1 {
            let hi = bus.read(&self.interrupts, self.regs.sp);
            self.regs.sp = self.regs.sp.wrapping_add(1);
            proof {
                lemma_pair(hi, self.ctx.cache.pop16.val8);
            }
            self.ctx.cache.pop16.val16 = ((hi as u16) << 8) | (self.ctx.cache.pop16.val8 as u16);
            self.ctx.cache.pop16.step = 2;
            return None;
        }
        if self.ctx.cache.pop16.step == 2 {
            self.ctx.cache.pop16.step = 0;
            Some(self.ctx.cache.pop16.val16)
        } else {
            None
        }
    }
}


/// Reading an operand keeps F and A, the interrupt registers, the recorded
/// fault and the instruction's own cache.
pub proof fn lemma_read_frame(c: Cpu, bus: &Peripherals, s8: Operand8, s16: Operand16)
    ensures
        c.read8_step(bus, s8).0.regs.f == c.regs.f,
        c.read8_step(bus, s8).0.regs.a == c.regs.a,
        c.read8_step(bus, s8).0.interrupts == c.interrupts,
        c.read8_step(bus, s8).0.ctx.cache.inst == c.ctx.cache.inst,
        c.read8_step(bus, s8).0.ctx.cache.call_isr == c.ctx.cache.call_isr,
        c.read8_step(bus, s8).0.ctx.fault == c.ctx.fault,
        c.read8_step(bus, s8).0.ctx.int == c.ctx.int,
        c.read16_step(bus, s16).0.regs.f == c.regs.f,
        c.read16_step(bus, s16).0.interrupts == c.interrupts,
        c.read16_step(bus, s16).0.ctx.cache.inst == c.ctx.cache.inst,
        c.read16_step(bus, s16).0.ctx.cache.call_isr == c.ctx.cache.call_isr,
        c.read16_step(bus, s16).0.ctx.fault == c.ctx.fault,
        c.read16_step(bus, s16).0.ctx.int == c.ctx.int,
        c.pop16_step(bus).0.regs.f == c.regs.f,
        c.pop16_step(bus).0.interrupts == c.interrupts,
        c.pop16_step(bus).0.ctx.cache.inst == c.ctx.cache.inst,
        c.pop16_step(bus).0.ctx.cache.call_isr == c.ctx.cache.call_isr,
        c.pop16_step(bus).0.ctx.fault == c.ctx.fault,
{
    reveal(Cpu::imm8_step);
    reveal(Cpu::dir8_read_step);
    reveal(Cpu::read8_step);
    reveal(Cpu::read16_step);
    reveal(Cpu::pop16_step);
}

/// Writing an operand keeps a clear low nibble of F, the interrupt
/// registers, the recorded fault and the instruction's own cache; a call
/// that completes the write makes no bus write.
pub proof fn lemma_write_frame(c: Cpu, bus: &Peripherals, s8: Operand8, s16: Operand16, v8: u8, v16: u16)
    requires
        c.wf(),
    ensures
        c.push16_plan(v16).0.wf(),
        c.push16_plan(v16).0.interrupts == c.interrupts,
        c.push16_plan(v16).0.ctx.cache.inst == c.ctx.cache.inst,
        c.push16_plan(v16).0.ctx.cache.call_isr == c.ctx.cache.call_isr,
        c.push16_plan(v16).0.ctx.fault == c.ctx.fault,
        c.push16_plan(v16).0.regs.pc == c.regs.pc,
        c.push16_plan(v16).2 is Some ==> c.push16_plan(v16).1 is None,
        c.write8_plan(bus, s8, v8).0.wf(),
        c.write8_plan(bus, s8, v8).0.interrupts == c.interrupts,
        c.write8_plan(bus, s8, v8).0.ctx.cache.inst == c.ctx.cache.inst,
        c.write8_plan(bus, s8, v8).0.ctx.fault == c.ctx.fault,
        c.write8_plan(bus, s8, v8).2 is Some ==> c.write8_plan(bus, s8, v8).1 is None,
        c.write16_plan(bus, s16, v16).0.wf(),
        c.write16_plan(bus, s16, v16).0.interrupts == c.interrupts,
        c.write16_plan(bus, s16, v16).0.ctx.cache.inst == c.ctx.cache.inst,
        c.write16_plan(bus, s16, v16).0.ctx.fault == c.ctx.fault,
        c.write16_plan(bus, s16, v16).2 is Some ==> c.write16_plan(bus, s16, v16).1 is None,
{
    reveal(Cpu::imm8_step);
    reveal(Cpu::write8_plan);
    reveal(Cpu::write16_plan);
    reveal(Cpu::push16_plan);
    assert((v16 & 0xF0u16) as u8 & 0x0F == 0) by (bit_vector);
}

/// What a push writes, a pop reads back: four calls of the push of `v` from
/// an idle push (`b1` to `b4` and `c1` to `c4` being the bus and the CPU after
/// each), then three calls of the pop, give `v` back and leave SP where it
/// was, as long as the two stack bytes lie in work or high RAM.
pub proof fn lemma_push_then_pop(
    c0: Cpu,
    b0: Peripherals,
    c1: Cpu,
    b1: Peripherals,
    c2: Cpu,
    b2: Peripherals,
    c3: Cpu,
    b3: Peripherals,
    c4: Cpu,
    b4: Peripherals,
    v: u16,
)
    requires
        b0.wf() && b1.wf() && b2.wf() && b3.wf(),
        c0.ctx.cache.push16.step == 0,
        c0.ctx.cache.pop16.step == 0,
        is_stack_ram(c0.regs.sp.wrapping_sub(1)),
        is_stack_ram(c0.regs.sp.wrapping_sub(2)),
        Cpu::performed(c0.push16_plan(v).0, c0.push16_plan(v).1, b0, b1, c1),
        Cpu::performed(c1.push16_plan(v).0, c1.push16_plan(v).1, b1, b2, c2),
        Cpu::performed(c2.push16_plan(v).0, c2.push16_plan(v).1, b2, b3, c3),
        Cpu::performed(c3.push16_plan(v).0, c3.push16_plan(v).1, b3, b4, c4),
    ensures
        c0.push16_plan(v).2 is None && c1.push16_plan(v).2 is None && c2.push16_plan(v).2 is None,
        c3.push16_plan(v).2 is Some,
        ({
            let (p1, r1) = c4.pop16_step(&b4);
            let (p2, r2) = p1.pop16_step(&b4);
            let (p3, r3) = p2.pop16_step(&b4);
            &&& r1 is None && r2 is None
            &&& r3 == Some(v)
            &&& p3.regs.sp == c0.regs.sp
        }),
{
    reveal(Cpu::push16_plan);
    reveal(Cpu::pop16_step);
    let sp = c0.regs.sp;
    let hi_addr = sp.wrapping_sub(1);
    let lo_addr = hi_addr.wrapping_sub(1);
    assert(sp.wrapping_sub(2) == lo_addr && lo_addr.wrapping_add(1) == hi_addr && hi_addr.wrapping_add(1) == sp
        && lo_addr != hi_addr) by (bit_vector)
        requires
            hi_addr == sp.wrapping_sub(1),
            lo_addr == hi_addr.wrapping_sub(1);
    let hi = (v >> 8u16) as u8;
    let lo = v as u8;
    // The high byte lands at SP - 1.
    assert(c1.regs.sp == sp && c1.ctx.cache.push16.step == 1);
    lemma_read_after_write(b1, b2, c1.interrupts, c2.interrupts, hi_addr, hi);
    lemma_ram_write_frame(b1, b2, c1.interrupts, c2.interrupts, hi_addr, hi, lo_addr);
    // The low byte lands at SP - 2 and leaves SP - 1 alone.
    assert(c2.regs.sp == hi_addr && c2.ctx.cache.push16.step == 2 && c2.ctx.cache.push16.val8 == lo);
    lemma_read_after_write(b2, b3, c2.interrupts, c3.interrupts, lo_addr, lo);
    lemma_ram_write_frame(b2, b3, c2.interrupts, c3.interrupts, lo_addr, lo, hi_addr);
    assert(c3.regs.sp == lo_addr && c3.ctx.cache.push16.step == 3);
    assert(c4.regs.sp == lo_addr && c4.ctx.cache.pop16.step == 0 && b4 == b3);
    assert(b4.peek(c4.interrupts, lo_addr) == lo);
    assert(b4.peek(c4.interrupts, hi_addr) == hi);
    lemma_split(v);
}

} // verus!
