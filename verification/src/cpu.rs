use vstd::prelude::*;
use vstd::arithmetic::power2::{lemma2_to64, pow2};

use crate::cpu::operand::{lemma_write_frame, Operand16, Operand8};
use crate::interrupts::{pending, Interrupts, JOYPAD, SERIAL, STAT, TIMER, VBLANK};
use crate::peripherals::Peripherals;
use crate::register::Registers;
use crate::Fault;

pub mod alu;
pub mod decode;
pub mod instructions;
pub mod operand;

verus! {

/// The progress of one multi-cycle routine: the step it is at and the
/// values it has read so far.
#[derive(Clone, Copy)]
pub struct Cache {
    pub step: u8,
    pub val8: u8,
    pub val16: u16,
}

impl Cache {
    pub fn new() -> (r: Cache)
        ensures
            r == (Cache { step: 0, val8: 0, val16: 0 }),
    {
        Cache { step: 0, val8: 0, val16: 0 }
    }
}

/// One cache per routine that can span several machine cycles.
#[derive(Clone, Copy)]
pub struct Caches {
    pub call_isr: Cache,
    pub inst: Cache,
    pub push16: Cache,
    pub pop16: Cache,
    pub read8: Cache,
    pub imm8: Cache,
    pub read16: Cache,
    pub write8: Cache,
    pub write16: Cache,
}

/// The decoding context: the fetched opcode, whether it follows the CB
/// prefix, whether an interrupt is to be served, and the routine caches.
#[derive(Clone, Copy)]
pub struct Ctx {
    pub opcode: u8,
    pub cb: bool,
    pub int: bool,
    pub cache: Caches,
    pub fault: Option<Fault>,
}

/// The CPU: registers, the interrupt controller and the decoding context.
pub struct Cpu {
    pub regs: Registers,
    pub interrupts: Interrupts,
    pub ctx: Ctx,
}

impl Cpu {
    /// The low nibble of F is always zero.
    pub open spec fn wf(&self) -> bool {
        self.regs.f & 0x0F == 0
    }
}


/// The interrupt served first among the pending ones `p`: the lowest set
/// bit. With nothing pending (the push of the return address may have
/// cleared IE or IF) it is VBLANK.
pub open spec fn lowest_pending(p: u8) -> u8 {
    if p & VBLANK != 0 {
        VBLANK
    } else if p & STAT != 0 {
        STAT
    } else if p & TIMER != 0 {
        TIMER
    } else if p & SERIAL != 0 {
        SERIAL
    } else if p & JOYPAD != 0 {
        JOYPAD
    } else {
        VBLANK
    }
}

/// The address of the service routine of an interrupt.
pub open spec fn isr_vector(m: u8) -> u16 {
    if m == VBLANK {
        0x0040
    } else if m == STAT {
        0x0048
    } else if m == TIMER {
        0x0050
    } else if m == SERIAL {
        0x0058
    } else {
        0x0060
    }
}

impl Cpu {
    /// The CPU at power-on: every register zero, interrupts disabled, and a
    /// NOP in the decoding context, so that the first cycle fetches at 0.
    pub open spec fn initial() -> Cpu {
        let c = Cache { step: 0, val8: 0, val16: 0 };
        Cpu {
            regs: Registers { pc: 0, sp: 0, a: 0, f: 0, b: 0, c: 0, d: 0, e: 0, h: 0, l: 0 },
            interrupts: Interrupts { ime: false, intr_flags: 0, intr_enable: 0 },
            ctx: Ctx {
                opcode: 0,
                cb: false,
                int: false,
                cache: Caches {
                    call_isr: c,
                    inst: c,
                    push16: c,
                    pop16: c,
                    read8: c,
                    imm8: c,
                    read16: c,
                    write8: c,
                    write16: c,
                },
                fault: None,
            },
        }
    }

    pub fn new() -> (r: Cpu)
        ensures
            r == Cpu::initial(),
            r.wf(),
    {
        let cache = Caches {
            call_isr: Cache::new(),
            inst: Cache::new(),
            push16: Cache::new(),
            pop16: Cache::new(),
            read8: Cache::new(),
            imm8: Cache::new(),
            read16: Cache::new(),
            write8: Cache::new(),
            write16: Cache::new(),
        };
        assert(0u8 & 0x0F == 0) by (bit_vector);
        Cpu {
            regs: Registers::new(),
            interrupts: Interrupts::new(),
            ctx: Ctx { opcode: 0, cb: false, int: false, cache, fault: None },
        }
    }

    pub open spec fn with_isr(self, c: Cache) -> Cpu {
        Cpu { ctx: Ctx { cache: Caches { call_isr: c, ..self.ctx.cache }, ..self.ctx }, ..self }
    }

    /// One call of the interrupt service: PC is pushed, the interrupt served
    /// first is acknowledged and PC moves to its vector; in the next call IME
    /// is cleared and the first opcode of the routine is fetched.
    pub open spec fn isr_plan(self, bus: &Peripherals) -> (Cpu, Option<(u16, u8)>) {
        let c = self.ctx.cache.call_isr;
        if c.step == 0 {
            let (c1, w, d) = self.push16_plan(self.regs.pc);
            match d {
                Some(_) => {
                    let m = lowest_pending(pending(c1.interrupts.intr_flags, c1.interrupts.intr_enable));
                    let c2 = Cpu {
                        interrupts: Interrupts { intr_flags: c1.interrupts.intr_flags & !m, ..c1.interrupts },
                        ..c1
                    };
                    (c2.with_pc(isr_vector(m)).with_isr(Cache { step: 1, ..c }), w)
                },
                None => (c1, w),
            }
        } else if c.step == 1 {
            (self.with_ime(false).with_isr(Cache { step: 0, ..c }).fetched(bus), None)
        } else {
            (self, None)
        }
    }

    fn call_isr(&mut self, bus: &mut Peripherals)
        requires
            old(bus).wf(),
            old(self).wf(),
        ensures
            Cpu::completes(old(self).isr_plan(old(bus)), *old(bus), *final(bus), *final(self)),
    {
        if self.ctx.cache.call_isr.step == 0 {
            let pc = self.regs.pc;
            proof {
                lemma_write_frame(*self, bus, Operand8::Imm8, Operand16::Imm16, 0, pc);
            }
            if self.push16(bus, pc).is_some() {
                let p = self.interrupts.get_interrupt();
                let highest_int: u8 = if p & VBLANK != 0 {
                    VBLANK
                } else if p & STAT != 0 {
                    STAT
                } else if p & TIMER != 0 {
                    TIMER
                } else if p & SERIAL != 0 {
                    SERIAL
                } else if p & JOYPAD != 0 {
                    JOYPAD
                } else {
                    VBLANK
                };
                self.interrupts.ack_interrupt(highest_int);
                self.regs.pc = if highest_int == VBLANK {
                    0x0040
                } else if highest_int == STAT {
                    0x0048
                } else if highest_int == TIMER {
                    0x0050
                } else if highest_int == SERIAL {
                    0x0058
                } else {
                    0x0060
                };
                self.ctx.cache.call_isr.step = 1;
            }
            return;
        }
        if self.ctx.cache.call_isr.step == 1 {
            self.interrupts.ime = false;
            self.ctx.cache.call_isr.step = 0;
            self.fetch(bus);
        }
    }

    /// One machine cycle of the CPU: the interrupt service if one was taken
    /// at the last fetch, the instruction in the decoding context otherwise.
    pub open spec fn cycle_plan(self, bus: &Peripherals) -> (Cpu, Option<(u16, u8)>) {
        if self.ctx.int {
            self.isr_plan(bus)
        } else {
            self.decode_plan(bus)
        }
    }

    pub fn emulate_cycle(&mut self, bus: &mut Peripherals)
        requires
            old(bus).wf(),
            old(self).wf(),
        ensures
            Cpu::completes(old(self).cycle_plan(old(bus)), *old(bus), *final(bus), *final(self)),
    {
        if self.ctx.int {
            self.call_isr(bus);
        } else {
            self.decode(bus);
        }
    }
}
/// The interrupt served is requested and enabled, and none of higher
/// priority (a lower bit) is.
pub proof fn lemma_lowest_pending(p: u8)
    requires
        0 < p < 32,
    ensures
        p & lowest_pending(p) != 0,
        p & ((lowest_pending(p) - 1) as u8) == 0,
        p & 3 == 0 ==> p & 1 == 0 && p & 2 == 0,
        p & 7 == 0 ==> p & 1 == 0 && p & 2 == 0 && p & 4 == 0,
        p & 15 == 0 ==> p & 1 == 0 && p & 2 == 0 && p & 4 == 0 && p & 8 == 0,
{
    assert({
        let m: u8 = if p & 1 != 0 {
            1u8
        } else if p & 2 != 0 {
            2u8
        } else if p & 4 != 0 {
            4u8
        } else if p & 8 != 0 {
            8u8
        } else if p & 16 != 0 {
            16u8
        } else {
            1u8
        };
        &&& p & m != 0 && p & ((m - 1) as u8) == 0
        &&& p & 3 == 0 ==> p & 1 == 0 && p & 2 == 0
        &&& p & 7 == 0 ==> p & 1 == 0 && p & 2 == 0 && p & 4 == 0
        &&& p & 15 == 0 ==> p & 1 == 0 && p & 2 == 0 && p & 4 == 0 && p & 8 == 0
    }) by (bit_vector)
        requires
            0 < p < 32;
}

/// The service routines lie 8 bytes apart from 0x0040, in priority order:
/// the interrupt of bit k of IF (k = 0 for V-blank up to 4 for the joypad)
/// is served at 0x0040 + 8 * k. With the interrupt served first being the
/// lowest pending bit, the vector is 0x0040 plus 8 times that bit's number.
pub proof fn lemma_isr_vectors(k: nat, p: u8)
    requires
        k < 5,
    ensures
        isr_vector(pow2(k) as u8) == 0x40 + 8 * k,
        0 < p < 32 && p & (pow2(k) as u8) != 0 && p & ((pow2(k) - 1) as u8) == 0 ==> isr_vector(
            lowest_pending(p),
        ) == 0x40 + 8 * k,
{
    lemma2_to64();
    if 0 < p < 32 && p & (pow2(k) as u8) != 0 && p & ((pow2(k) - 1) as u8) == 0 {
        lemma_lowest_pending(p);
    }
}

} // verus!
