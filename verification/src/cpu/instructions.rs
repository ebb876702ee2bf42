use vstd::prelude::*;

use crate::bits::{lemma_and_le_u8, lemma_byte_arith};
use crate::cpu::alu::{
    adc8, and8, daa8, flags, lemma_or_disjoint, or8, rl8, rlc8, rr8, rrc8, sbc8, sla8, sra8, srl8, swap8, xor8,
};
use crate::cpu::operand::{lemma_read_frame, lemma_write_frame, Cond, Operand16, Operand8, Reg16};
use crate::cpu::{Cache, Caches, Cpu, Ctx};
use crate::interrupts::pending;
use crate::peripherals::Peripherals;
use crate::register::{lemma_flags, lemma_flags_low_nibble, Registers, FLAG_C};
use crate::Fault;

verus! {

/// The eight-bit arithmetic and logic operations on A.
#[derive(Clone, Copy, PartialEq, Eq, Structural, Debug)]
pub enum AluOp {
    Add,
    Adc,
    Sub,
    Sbc,
    Cp,
    And,
    Or,
    Xor,
}

/// The operations that read an operand, change it and write it back.
#[derive(Clone, Copy, PartialEq, Eq, Structural, Debug)]
pub enum RmwOp {
    Inc,
    Dec,
    Rlc,
    Rl,
    Rrc,
    Rr,
    Sla,
    Sra,
    Srl,
    Swap,
    SetBit(u8),
    ResBit(u8),
}

/// A and F after `op` with operand `v` and carry `c`.
pub open spec fn alu8(op: AluOp, a: u8, v: u8, c: bool) -> (u8, u8) {
    match op {
        AluOp::Add => adc8(a, v, false),
        AluOp::Adc => adc8(a, v, c),
        AluOp::Sub => sbc8(a, v, false),
        AluOp::Sbc => sbc8(a, v, c),
        AluOp::Cp => (a, sbc8(a, v, false).1),
        AluOp::And => and8(a, v),
        AluOp::Or => or8(a, v),
        AluOp::Xor => xor8(a, v),
    }
}

/// The new value and F after `op` on `v`, with F `f` before.
pub open spec fn rmw8(op: RmwOp, v: u8, f: u8) -> (u8, u8) {
    let c = f & FLAG_C != 0;
    match op {
        RmwOp::Inc => {
            let r = ((v + 1) % 256) as u8;
            (r, flags(r == 0, false, v % 16 == 15, c))
        },
        RmwOp::Dec => {
            let r = ((v - 1) % 256) as u8;
            (r, flags(r == 0, true, v % 16 == 0, c))
        },
        RmwOp::Rlc => rlc8(v),
        RmwOp::Rl => rl8(v, c),
        RmwOp::Rrc => rrc8(v),
        RmwOp::Rr => rr8(v, c),
        RmwOp::Sla => sla8(v),
        RmwOp::Sra => sra8(v),
        RmwOp::Srl => srl8(v),
        RmwOp::Swap => swap8(v),
        RmwOp::SetBit(b) => (v | (1u8 << b), f),
        RmwOp::ResBit(b) => (v & !(1u8 << b), f),
    }
}

/// The bit number of SET and RES names a bit of a byte.
pub open spec fn rmw_ok(op: RmwOp) -> bool {
    match op {
        RmwOp::SetBit(b) => b < 8,
        RmwOp::ResBit(b) => b < 8,
        _ => true,
    }
}

/// The decimal adjustment of `a` and the new carry, see `daa8`.
#[verifier::spinoff_prover]
#[verifier::rlimit(30)]
fn daa_adjust(a0: u8, n: bool, h: bool, c: bool) -> (r: (u8, bool))
    ensures
        r == daa8(a0, n, h, c),
{
    let mut a = a0;
    let mut cf = false;
    if !n {
        if c || a > 0x99 {
            cf = true;
            a = a.wrapping_add(0x60);
        }
        proof {
            lemma_byte_arith(a);
        }
        if h || a & 0x0f > 0x09 {
            a = a.wrapping_add(0x06);
        }
    } else {
        if c {
            cf = true;
            if h {
                a = a.wrapping_add(0x9A);
            } else {
                a = a.wrapping_add(0xA0);
            }
        } else if h {
            a = a.wrapping_add(0xFA);
        }
    }
    (a, cf)
}

impl Cpu {
    pub open spec fn with_inst(self, c: Cache) -> Cpu {
        Cpu { ctx: Ctx { cache: Caches { inst: c, ..self.ctx.cache }, ..self.ctx }, ..self }
    }

    /// The instruction cache moved to step `s`, its values kept.
    pub open spec fn at_step(self, s: u8) -> Cpu {
        self.with_inst(Cache { step: s, ..self.ctx.cache.inst })
    }

    pub open spec fn with_regs(self, r: Registers) -> Cpu {
        Cpu { regs: r, ..self }
    }

    pub open spec fn with_a_f(self, a: u8, f: u8) -> Cpu {
        self.with_regs(Registers { a, f, ..self.regs })
    }

    pub open spec fn with_f(self, f: u8) -> Cpu {
        self.with_regs(Registers { f, ..self.regs })
    }

    pub open spec fn with_ime(self, ime: bool) -> Cpu {
        Cpu { interrupts: crate::interrupts::Interrupts { ime, ..self.interrupts }, ..self }
    }

    /// The CPU after fetching the next opcode: it is read at PC; if an enabled
    /// interrupt is pending while IME is set, PC stays and the interrupt will be
    /// served, otherwise PC moves past the opcode.
    pub open spec fn fetched(self, bus: &Peripherals) -> Cpu {
        let op = bus.peek(self.interrupts, self.regs.pc);
        let irq = self.interrupts.ime && pending(self.interrupts.intr_flags, self.interrupts.intr_enable) != 0;
        Cpu {
            regs: Registers { pc: if irq { self.regs.pc } else { self.regs.pc.wrapping_add(1) }, ..self.regs },
            ctx: Ctx { opcode: op, cb: false, int: irq, ..self.ctx },
            ..self
        }
    }

    pub fn fetch(&mut self, bus: &Peripherals)
        requires
            bus.wf(),
        ensures
            *final(self) == old(self).fetched(bus),
    {
        self.ctx.opcode = bus.read(&self.interrupts, self.regs.pc);
        if self.interrupts.ime && self.interrupts.get_interrupt() > 0 {
            self.ctx.int = true;
        } else {
            self.regs.pc = self.regs.pc.wrapping_add(1);
            self.ctx.int = false;
        }
        self.ctx.cb = false;
    }

    /// One call of an ALU instruction: once the operand is read, A and F are
    /// updated and the next opcode is fetched.
    pub open spec fn alu_step(self, bus: &Peripherals, src: Operand8, op: AluOp) -> Cpu {
        let (c1, r) = self.read8_step(bus, src);
        match r {
            Some(v) => {
                let (a, f) = alu8(op, c1.regs.a, v, c1.regs.flag_c());
                c1.with_a_f(a, f).fetched(bus)
            },
            None => c1,
        }
    }

    #[verifier::spinoff_prover]
    fn alu_add(&mut self, v: u8, carry: bool)
        requires
            old(self).wf(),
        ensures
            *final(self) == old(self).with_a_f(adc8(old(self).regs.a, v, carry).0, adc8(old(self).regs.a, v, carry).1),
    {
        let a = self.regs.a;
        let c: u8 = if carry { 1 } else { 0 };
        let result = a.wrapping_add(v).wrapping_add(c);
        proof {
            lemma_and_le_u8(a, 0xf);
            lemma_and_le_u8(v, 0xf);
        }
        let h = (a & 0xf) + (v & 0xf) + c > 0xf;
        let cy = (a as u16) + (v as u16) + (c as u16) > 0xff;
        assert(h == (a % 16 + v % 16 + c > 15)) by {
            lemma_byte_arith(a);
            lemma_byte_arith(v);
        }
        assert(result == (a + v + c) % 256);
        self.set_flags(result == 0, false, h, cy);
        self.regs.a = result;
    }

    fn alu_logic(&mut self, v: u8, op: AluOp)
        requires
            old(self).wf(),
            op == AluOp::And || op == AluOp::Or || op == AluOp::Xor,
        ensures
            *final(self) == old(self).with_a_f(
                alu8(op, old(self).regs.a, v, false).0,
                alu8(op, old(self).regs.a, v, false).1,
            ),
    {
        let a = self.regs.a;
        if op == AluOp::And {
            self.set_flags(a & v == 0, false, true, false);
            self.regs.a = a & v;
        } else if op == AluOp::Or {
            self.set_flags(a | v == 0, false, false, false);
            self.regs.a = a | v;
        } else {
            self.set_flags(a ^ v == 0, false, false, false);
            self.regs.a = a ^ v;
        }
    }

    fn apply_alu(&mut self, v: u8, op: AluOp)
        requires
            old(self).wf(),
        ensures
            *final(self) == old(self).with_a_f(
                alu8(op, old(self).regs.a, v, old(self).regs.flag_c()).0,
                alu8(op, old(self).regs.a, v, old(self).regs.flag_c()).1,
            ),
    {
        let cy = self.regs.cf();
        match op {
            AluOp::Add => self.alu_add(v, false),
            AluOp::Adc => self.alu_add(v, cy),
            AluOp::Sub => {
                self.regs.a = self.sub_general(v, false);
            },
            AluOp::Sbc => {
                self.regs.a = self.sub_general(v, cy);
            },
            AluOp::Cp => {
                self.sub_general(v, false);
            },
            _ => self.alu_logic(v, op),
        }
    }

    pub(crate) fn alu(&mut self, bus: &Peripherals, src: Operand8, op: AluOp)
        requires
            bus.wf(),
            old(self).wf(),
        ensures
            *final(self) == old(self).alu_step(bus, src, op),
            final(self).wf(),
    {
        proof {
            lemma_read_frame(*self, bus, src, Operand16::Imm16);
            lemma_flags_low_nibble();
        }
        if let Some(v) = self.read8(bus, src) {
            self.apply_alu(v, op);
            self.fetch(bus);
        }
    }

    pub fn add(&mut self, bus: &Peripherals, src: Operand8)
        requires
            bus.wf(),
            old(self).wf(),
        ensures
            *final(self) == old(self).alu_step(bus, src, AluOp::Add),
            final(self).wf(),
    {
        self.alu(bus, src, AluOp::Add);
    }

    pub fn adc(&mut self, bus: &Peripherals, src: Operand8)
        requires
            bus.wf(),
            old(self).wf(),
        ensures
            *final(self) == old(self).alu_step(bus, src, AluOp::Adc),
            final(self).wf(),
    {
        self.alu(bus, src, AluOp::Adc);
    }

    pub fn sub(&mut self, bus: &Peripherals, src: Operand8)
        requires
            bus.wf(),
            old(self).wf(),
        ensures
            *final(self) == old(self).alu_step(bus, src, AluOp::Sub),
            final(self).wf(),
    {
        self.alu(bus, src, AluOp::Sub);
    }

    pub fn sbc(&mut self, bus: &Peripherals, src: Operand8)
        requires
            bus.wf(),
            old(self).wf(),
        ensures
            *final(self) == old(self).alu_step(bus, src, AluOp::Sbc),
            final(self).wf(),
    {
        self.alu(bus, src, AluOp::Sbc);
    }

    pub fn cp(&mut self, bus: &Peripherals, src: Operand8)
        requires
            bus.wf(),
            old(self).wf(),
        ensures
            *final(self) == old(self).alu_step(bus, src, AluOp::Cp),
            final(self).wf(),
    {
        self.alu(bus, src, AluOp::Cp);
    }

    pub fn and(&mut self, bus: &Peripherals, src: Operand8)
        requires
            bus.wf(),
            old(self).wf(),
        ensures
            *final(self) == old(self).alu_step(bus, src, AluOp::And),
            final(self).wf(),
    {
        self.alu(bus, src, AluOp::And);
    }

    pub fn or(&mut self, bus: &Peripherals, src: Operand8)
        requires
            bus.wf(),
            old(self).wf(),
        ensures
            *final(self) == old(self).alu_step(bus, src, AluOp::Or),
            final(self).wf(),
    {
        self.alu(bus, src, AluOp::Or);
    }

    pub fn xor(&mut self, bus: &Peripherals, src: Operand8)
        requires
            bus.wf(),
            old(self).wf(),
        ensures
            *final(self) == old(self).alu_step(bus, src, AluOp::Xor),
            final(self).wf(),
    {
        self.alu(bus, src, AluOp::Xor);
    }
}


impl Cpu {
    /// What a call that may write to the bus leaves: both sides well formed,
    /// and the write of `plan` (the CPU before the write, and the write)
    /// performed or refused.
    pub open spec fn completes(plan: (Cpu, Option<(u16, u8)>), b0: Peripherals, b1: Peripherals, c1: Cpu) -> bool {
        &&& b1.wf()
        &&& c1.wf()
        &&& Cpu::performed(plan.0, plan.1, b0, b1, c1)
    }

    /// One call of a read-modify-write instruction: the CPU before this
    /// call's bus write, and that write. Step 0 reads the operand and sets
    /// the flags, step 1 writes the new value back and fetches.
    pub open spec fn rmw_plan(self, bus: &Peripherals, src: Operand8, op: RmwOp) -> (Cpu, Option<(u16, u8)>) {
        let s0 = if self.ctx.cache.inst.step == 0 {
            let (c1, r) = self.read8_step(bus, src);
            match r {
                Some(v) => {
                    let (nv, f) = rmw8(op, v, c1.regs.f);
                    c1.with_f(f).with_inst(Cache { step: 1, val8: nv, ..c1.ctx.cache.inst })
                },
                None => c1,
            }
        } else {
            self
        };
        if s0.ctx.cache.inst.step == 1 {
            let (c2, w, d) = s0.write8_plan(bus, src, s0.ctx.cache.inst.val8);
            match d {
                Some(_) => (c2.at_step(0).fetched(bus), w),
                None => (c2, w),
            }
        } else {
            (s0, None)
        }
    }

    fn rmw_incdec(&mut self, v: u8, op: RmwOp) -> (nv: u8)
        requires
            old(self).wf(),
            op == RmwOp::Inc || op == RmwOp::Dec,
        ensures
            nv == rmw8(op, v, old(self).regs.f).0,
            *final(self) == old(self).with_f(rmw8(op, v, old(self).regs.f).1),
    {
        let c = self.regs.cf();
        proof {
            lemma_byte_arith(v);
        }
        if op == RmwOp::Inc {
            let r = v.wrapping_add(1);
            self.set_flags(r == 0, false, v & 0xf == 0xf, c);
            r
        } else {
            let r = v.wrapping_sub(1);
            self.set_flags(r == 0, true, v & 0xf == 0, c);
            r
        }
    }

    #[verifier::spinoff_prover]
    fn rmw_shift(&mut self, v: u8, op: RmwOp) -> (nv: u8)
        requires
            old(self).wf(),
            op == RmwOp::Sla || op == RmwOp::Sra || op == RmwOp::Srl || op == RmwOp::Swap,
        ensures
            nv == rmw8(op, v, old(self).regs.f).0,
            *final(self) == old(self).with_f(rmw8(op, v, old(self).regs.f).1),
    {
        proof {
            lemma_byte_arith(v);
            lemma_or_disjoint(v);
        }
        if op == RmwOp::Sla {
            self.set_flags(v & 0x7f == 0, false, false, v & 0x80 > 0);
            v << 1
        } else if op == RmwOp::Sra {
            self.set_flags(v & 0xFE == 0, false, false, v & 1 > 0);
            (v & 0x80) | (v >> 1)
        } else if op == RmwOp::Srl {
            self.set_flags(v & 0xFE == 0, false, false, v & 1 > 0);
            v >> 1
        } else {
            self.set_flags(v == 0, false, false, false);
            assert((v << 4u8) | (v >> 4u8) == ((v % 16) * 16 + v / 16) as u8) by (bit_vector);
            (v << 4) | (v >> 4)
        }
    }

    /// Computes the new value of a read-modify-write operand and sets F.
    fn rmw_apply(&mut self, v: u8, op: RmwOp) -> (nv: u8)
        requires
            old(self).wf(),
            rmw_ok(op),
        ensures
            nv == rmw8(op, v, old(self).regs.f).0,
            *final(self) == old(self).with_f(rmw8(op, v, old(self).regs.f).1),
    {
        match op {
            RmwOp::Inc | RmwOp::Dec => self.rmw_incdec(v, op),
            RmwOp::Rlc => self.rlc_general(v),
            RmwOp::Rl => self.rl_general(v),
            RmwOp::Rrc => self.rrc_general(v),
            RmwOp::Rr => self.rr_general(v),
            RmwOp::SetBit(b) => v | (1u8 << b),
            RmwOp::ResBit(b) => v & !(1u8 << b),
            _ => self.rmw_shift(v, op),
        }
    }

    pub(crate) fn rmw(&mut self, bus: &mut Peripherals, src: Operand8, op: RmwOp)
        requires
            old(bus).wf(),
            old(self).wf(),
            rmw_ok(op),
        ensures
            Cpu::completes(old(self).rmw_plan(old(bus), src, op), *old(bus), *final(bus), *final(self)),
    {
        proof {
            lemma_read_frame(*self, bus, src, Operand16::Imm16);
            lemma_flags_low_nibble();
        }
        if self.ctx.cache.inst.step == 0 {
            if let Some(v) = self.read8(bus, src) {
                let nv = self.rmw_apply(v, op);
                self.ctx.cache.inst.val8 = nv;
                self.ctx.cache.inst.step = 1;
            }
        }
        if self.ctx.cache.inst.step == 1 {
            let val = self.ctx.cache.inst.val8;
            proof {
                lemma_write_frame(*self, bus, src, Operand16::Imm16, val, 0);
            }
            if self.write8(bus, src, val).is_some() {
                self.ctx.cache.inst.step = 0;
                self.fetch(bus);
            }
        }
    }

    pub fn inc(&mut self, bus: &mut Peripherals, src: Operand8)
        requires
            old(bus).wf(),
            old(self).wf(),
        ensures
            Cpu::completes(old(self).rmw_plan(old(bus), src, RmwOp::Inc), *old(bus), *final(bus), *final(self)),
    {
        self.rmw(bus, src, RmwOp::Inc);
    }

    pub fn dec(&mut self, bus: &mut Peripherals, src: Operand8)
        requires
            old(bus).wf(),
            old(self).wf(),
        ensures
            Cpu::completes(old(self).rmw_plan(old(bus), src, RmwOp::Dec), *old(bus), *final(bus), *final(self)),
    {
        self.rmw(bus, src, RmwOp::Dec);
    }

    pub fn rlc(&mut self, bus: &mut Peripherals, src: Operand8)
        requires
            old(bus).wf(),
            old(self).wf(),
        ensures
            Cpu::completes(old(self).rmw_plan(old(bus), src, RmwOp::Rlc), *old(bus), *final(bus), *final(self)),
    {
        self.rmw(bus, src, RmwOp::Rlc);
    }

    pub fn rl(&mut self, bus: &mut Peripherals, src: Operand8)
        requires
            old(bus).wf(),
            old(self).wf(),
        ensures
            Cpu::completes(old(self).rmw_plan(old(bus), src, RmwOp::Rl), *old(bus), *final(bus), *final(self)),
    {
        self.rmw(bus, src, RmwOp::Rl);
    }

    pub fn rrc(&mut self, bus: &mut Peripherals, src: Operand8)
        requires
            old(bus).wf(),
            old(self).wf(),
        ensures
            Cpu::completes(old(self).rmw_plan(old(bus), src, RmwOp::Rrc), *old(bus), *final(bus), *final(self)),
    {
        self.rmw(bus, src, RmwOp::Rrc);
    }

    pub fn rr(&mut self, bus: &mut Peripherals, src: Operand8)
        requires
            old(bus).wf(),
            old(self).wf(),
        ensures
            Cpu::completes(old(self).rmw_plan(old(bus), src, RmwOp::Rr), *old(bus), *final(bus), *final(self)),
    {
        self.rmw(bus, src, RmwOp::Rr);
    }

    pub fn sla(&mut self, bus: &mut Peripherals, src: Operand8)
        requires
            old(bus).wf(),
            old(self).wf(),
        ensures
            Cpu::completes(old(self).rmw_plan(old(bus), src, RmwOp::Sla), *old(bus), *final(bus), *final(self)),
    {
        self.rmw(bus, src, RmwOp::Sla);
    }

    pub fn sra(&mut self, bus: &mut Peripherals, src: Operand8)
        requires
            old(bus).wf(),
            old(self).wf(),
        ensures
            Cpu::completes(old(self).rmw_plan(old(bus), src, RmwOp::Sra), *old(bus), *final(bus), *final(self)),
    {
        self.rmw(bus, src, RmwOp::Sra);
    }

    pub fn srl(&mut self, bus: &mut Peripherals, src: Operand8)
        requires
            old(bus).wf(),
            old(self).wf(),
        ensures
            Cpu::completes(old(self).rmw_plan(old(bus), src, RmwOp::Srl), *old(bus), *final(bus), *final(self)),
    {
        self.rmw(bus, src, RmwOp::Srl);
    }

    pub fn swap(&mut self, bus: &mut Peripherals, src: Operand8)
        requires
            old(bus).wf(),
            old(self).wf(),
        ensures
            Cpu::completes(old(self).rmw_plan(old(bus), src, RmwOp::Swap), *old(bus), *final(bus), *final(self)),
    {
        self.rmw(bus, src, RmwOp::Swap);
    }

    pub fn set(&mut self, bus: &mut Peripherals, bit: usize, src: Operand8)
        requires
            old(bus).wf(),
            old(self).wf(),
            bit < 8,
        ensures
            Cpu::completes(old(self).rmw_plan(old(bus), src, RmwOp::SetBit(bit as u8)), *old(bus), *final(bus), *final(self)),
    {
        self.rmw(bus, src, RmwOp::SetBit(bit as u8));
    }

    pub fn res(&mut self, bus: &mut Peripherals, bit: usize, src: Operand8)
        requires
            old(bus).wf(),
            old(self).wf(),
            bit < 8,
        ensures
            Cpu::completes(old(self).rmw_plan(old(bus), src, RmwOp::ResBit(bit as u8)), *old(bus), *final(bus), *final(self)),
    {
        self.rmw(bus, src, RmwOp::ResBit(bit as u8));
    }

    /// One call of BIT: once the operand is read, Z tells whether the bit is
    /// clear, N is reset, H set, C kept.
    pub open spec fn bit_step(self, bus: &Peripherals, b: u8, src: Operand8) -> Cpu {
        let (c1, r) = self.read8_step(bus, src);
        match r {
            Some(v) => c1.with_f(flags(v & (1u8 << b) == 0, false, true, c1.regs.flag_c())).fetched(bus),
            None => c1,
        }
    }

    pub fn bit(&mut self, bus: &Peripherals, bit: usize, src: Operand8)
        requires
            bus.wf(),
            old(self).wf(),
            bit < 8,
        ensures
            *final(self) == old(self).bit_step(bus, bit as u8, src),
            final(self).wf(),
    {
        proof {
            lemma_read_frame(*self, bus, src, Operand16::Imm16);
            lemma_flags_low_nibble();
        }
        if let Some(v) = self.read8(bus, src) {
            let m = v & (1u8 << (bit as u8));
            let c = self.regs.cf();
            self.set_flags(m == 0, false, true, c);
            self.fetch(bus);
        }
    }
}


impl Cpu {
    /// Whether a branch condition holds on the flags.
    pub open spec fn cond_holds(self, cond: Cond) -> bool {
        match cond {
            Cond::NZ => !self.regs.flag_z(),
            Cond::Z => self.regs.flag_z(),
            Cond::NC => !self.regs.flag_c(),
            Cond::C => self.regs.flag_c(),
        }
    }

    /// `pc` moved by the signed offset `e`.
    pub open spec fn rel(pc: u16, e: u8) -> u16 {
        pc.wrapping_add((e as i8) as u16)
    }

    fn cond(&self, cond: Cond) -> (r: bool)
        ensures
            r == self.cond_holds(cond),
            cond is C ==> r == (self.regs.f & 0x10 != 0),
            cond is NC ==> r == (self.regs.f & 0x10 == 0),
            cond is Z ==> r == (self.regs.f & 0x80 != 0),
            cond is NZ ==> r == (self.regs.f & 0x80 == 0),
    {
        match cond {
            Cond::NZ => !self.regs.zf(),
            Cond::Z => self.regs.zf(),
            Cond::NC => !self.regs.cf(),
            Cond::C => self.regs.cf(),
        }
    }

    /// One call of JP nn: the target is read, then a cycle passes and the
    /// next opcode is fetched there.
    pub open spec fn jp_step(self, bus: &Peripherals) -> Cpu {
        let c = self.ctx.cache.inst;
        if c.step == 0 {
            let (c1, r) = self.read16_step(bus, Operand16::Imm16);
            match r {
                Some(v) => c1.with_pc(v).at_step(1),
                None => c1,
            }
        } else if c.step == 1 {
            self.at_step(0).fetched(bus)
        } else {
            self
        }
    }

    pub fn jp(&mut self, bus: &Peripherals)
        requires
            bus.wf(),
            old(self).wf(),
        ensures
            *final(self) == old(self).jp_step(bus),
            final(self).wf(),
    {
        proof {
            lemma_read_frame(*self, bus, Operand8::Imm8, Operand16::Imm16);
        }
        if self.ctx.cache.inst.step == 0 {
            if let Some(v) = self.read16(bus, Operand16::Imm16) {
                self.regs.pc = v;
                self.ctx.cache.inst.step = 1;
                return;
            }
        }
        if self.ctx.cache.inst.step == 1 {
            self.ctx.cache.inst.step = 0;
            self.fetch(bus);
        }
    }

    pub fn jp_hl(&mut self, bus: &Peripherals)
        requires
            bus.wf(),
            old(self).wf(),
        ensures
            *final(self) == old(self).with_pc(old(self).reg16(Reg16::HL)).fetched(bus),
            final(self).wf(),
    {
        self.regs.pc = self.regs.hl();
        self.fetch(bus);
    }

    /// One call of JR e: the offset is read and added to PC, then a cycle
    /// passes and the next opcode is fetched.
    pub open spec fn jr_step(self, bus: &Peripherals) -> Cpu {
        let c = self.ctx.cache.inst;
        if c.step == 0 {
            let (c1, r) = self.read8_step(bus, Operand8::Imm8);
            match r {
                Some(v) => c1.with_pc(Cpu::rel(c1.regs.pc, v)).at_step(1),
                None => c1,
            }
        } else if c.step == 1 {
            self.at_step(0).fetched(bus)
        } else {
            self
        }
    }

    pub fn jr(&mut self, bus: &Peripherals)
        requires
            bus.wf(),
            old(self).wf(),
        ensures
            *final(self) == old(self).jr_step(bus),
            final(self).wf(),
    {
        proof {
            lemma_read_frame(*self, bus, Operand8::Imm8, Operand16::Imm16);
        }
        if self.ctx.cache.inst.step == 0 {
            if let Some(v) = self.read8(bus, Operand8::Imm8) {
                self.regs.pc = self.regs.pc.wrapping_add(v as i8 as u16);
                self.ctx.cache.inst.step = 1;
                return;
            }
        }
        if self.ctx.cache.inst.step == 1 {
            self.ctx.cache.inst.step = 0;
            self.fetch(bus);
        }
    }

    /// One call of CALL nn: the target is read, PC is pushed, and the next
    /// opcode is fetched at the target.
    pub open spec fn call_plan(self, bus: &Peripherals) -> (Cpu, Option<(u16, u8)>) {
        let s0 = if self.ctx.cache.inst.step == 0 {
            let (c1, r) = self.read16_step(bus, Operand16::Imm16);
            match r {
                Some(v) => c1.with_inst(Cache { step: 1, val16: v, ..c1.ctx.cache.inst }),
                None => c1,
            }
        } else {
            self
        };
        s0.call_push(bus)
    }

    /// The push half of CALL and of a taken CALL cc.
    pub open spec fn call_push(self, bus: &Peripherals) -> (Cpu, Option<(u16, u8)>) {
        if self.ctx.cache.inst.step == 1 {
            let (c2, w, d) = self.push16_plan(self.regs.pc);
            match d {
                Some(_) => (c2.with_pc(c2.ctx.cache.inst.val16).at_step(0).fetched(bus), w),
                None => (c2, w),
            }
        } else {
            (self, None)
        }
    }

    fn do_call_push(&mut self, bus: &mut Peripherals)
        requires
            old(bus).wf(),
            old(self).wf(),
        ensures
            Cpu::completes(old(self).call_push(old(bus)), *old(bus), *final(bus), *final(self)),
    {
        if self.ctx.cache.inst.step == 1 {
            let pc = self.regs.pc;
            proof {
                lemma_write_frame(*self, bus, Operand8::Imm8, Operand16::Imm16, 0, pc);
            }
            if self.push16(bus, pc).is_some() {
                self.regs.pc = self.ctx.cache.inst.val16;
                self.ctx.cache.inst.step = 0;
                self.fetch(bus);
            }
        }
    }

    pub fn call(&mut self, bus: &mut Peripherals)
        requires
            old(bus).wf(),
            old(self).wf(),
        ensures
            Cpu::completes(old(self).call_plan(old(bus)), *old(bus), *final(bus), *final(self)),
    {
        proof {
            lemma_read_frame(*self, bus, Operand8::Imm8, Operand16::Imm16);
        }
        if self.ctx.cache.inst.step == 0 {
            if let Some(v) = self.read16(bus, Operand16::Imm16) {
                self.ctx.cache.inst.val16 = v;
                self.ctx.cache.inst.step = 1;
            }
        }
        self.do_call_push(bus);
    }

    /// One call of RET (or RETI, which also sets IME before the fetch).
    pub open spec fn ret_step(self, bus: &Peripherals, enable: bool) -> Cpu {
        let c = self.ctx.cache.inst;
        if c.step == 0 {
            let (c1, r) = self.pop16_step(bus);
            match r {
                Some(v) => c1.with_pc(v).at_step(1),
                None => c1,
            }
        } else if c.step == 1 {
            let c2 = if enable { self.with_ime(true) } else { self };
            c2.at_step(0).fetched(bus)
        } else {
            self
        }
    }

    fn ret_general(&mut self, bus: &Peripherals, enable: bool)
        requires
            bus.wf(),
            old(self).wf(),
        ensures
            *final(self) == old(self).ret_step(bus, enable),
            final(self).wf(),
    {
        proof {
            lemma_read_frame(*self, bus, Operand8::Imm8, Operand16::Imm16);
        }
        if self.ctx.cache.inst.step == 0 {
            if let Some(v) = self.pop16(bus) {
                self.regs.pc = v;
                self.ctx.cache.inst.step = 1;
                return;
            }
        }
        if self.ctx.cache.inst.step == 1 {
            if enable {
                self.interrupts.ime = true;
            }
            self.ctx.cache.inst.step = 0;
            self.fetch(bus);
        }
    }

    pub fn ret(&mut self, bus: &Peripherals)
        requires
            bus.wf(),
            old(self).wf(),
        ensures
            *final(self) == old(self).ret_step(bus, false),
            final(self).wf(),
    {
        self.ret_general(bus, false);
    }

    pub fn reti(&mut self, bus: &Peripherals)
        requires
            bus.wf(),
            old(self).wf(),
        ensures
            *final(self) == old(self).ret_step(bus, true),
            final(self).wf(),
    {
        self.ret_general(bus, true);
    }

    /// One call of JP cc, nn: the target is read; if the condition holds PC
    /// takes it and a cycle passes, otherwise the next opcode is fetched at once.
    pub open spec fn jp_c_step(self, bus: &Peripherals, cond: Cond) -> Cpu {
        let c = self.ctx.cache.inst;
        if c.step == 0 {
            let (c1, r) = self.read16_step(bus, Operand16::Imm16);
            match r {
                Some(v) => if c1.cond_holds(cond) {
                    c1.with_pc(v).at_step(1)
                } else {
                    c1.at_step(0).fetched(bus)
                },
                None => c1,
            }
        } else if c.step == 1 {
            self.at_step(0).fetched(bus)
        } else {
            self
        }
    }

    pub fn jp_c(&mut self, bus: &Peripherals, cond: Cond)
        requires
            bus.wf(),
            old(self).wf(),
        ensures
            *final(self) == old(self).jp_c_step(bus, cond),
            final(self).wf(),
    {
        proof {
            lemma_read_frame(*self, bus, Operand8::Imm8, Operand16::Imm16);
        }
        if self.ctx.cache.inst.step == 0 {
            if let Some(v) = self.read16(bus, Operand16::Imm16) {
                self.ctx.cache.inst.step = 1;
                if self.cond(cond) {
                    self.regs.pc = v;
                    return;
                }
            }
        }
        if self.ctx.cache.inst.step == 1 {
            self.ctx.cache.inst.step = 0;
            self.fetch(bus);
        }
    }

    /// One call of JR cc, e, as JP cc with a relative target.
    pub open spec fn jr_c_step(self, bus: &Peripherals, cond: Cond) -> Cpu {
        let c = self.ctx.cache.inst;
        if c.step == 0 {
            let (c1, r) = self.read8_step(bus, Operand8::Imm8);
            match r {
                Some(v) => if c1.cond_holds(cond) {
                    c1.with_pc(Cpu::rel(c1.regs.pc, v)).at_step(1)
                } else {
                    c1.at_step(0).fetched(bus)
                },
                None => c1,
            }
        } else if c.step == 1 {
            self.at_step(0).fetched(bus)
        } else {
            self
        }
    }

    pub fn jr_c(&mut self, bus: &Peripherals, cond: Cond)
        requires
            bus.wf(),
            old(self).wf(),
        ensures
            *final(self) == old(self).jr_c_step(bus, cond),
            final(self).wf(),
    {
        proof {
            lemma_read_frame(*self, bus, Operand8::Imm8, Operand16::Imm16);
        }
        if self.ctx.cache.inst.step == 0 {
            if let Some(v) = self.read8(bus, Operand8::Imm8) {
                self.ctx.cache.inst.step = 1;
                if self.cond(cond) {
                    self.regs.pc = self.regs.pc.wrapping_add(v as i8 as u16);
                    return;
                }
            }
        }
        if self.ctx.cache.inst.step == 1 {
            self.ctx.cache.inst.step = 0;
            self.fetch(bus);
        }
    }

    /// One call of CALL cc, nn: the target is read; if the condition holds
    /// PC is pushed and the target taken, otherwise the next opcode is fetched.
    pub open spec fn call_c_plan(self, bus: &Peripherals, cond: Cond) -> (Cpu, Option<(u16, u8)>) {
        let s0 = if self.ctx.cache.inst.step == 0 {
            let (c1, r) = self.read16_step(bus, Operand16::Imm16);
            match r {
                Some(v) => {
                    let c2 = c1.with_inst(Cache { val16: v, ..c1.ctx.cache.inst });
                    if c2.cond_holds(cond) {
                        c2.at_step(1)
                    } else {
                        c2.fetched(bus)
                    }
                },
                None => c1,
            }
        } else {
            self
        };
        s0.call_push(bus)
    }

    pub fn call_c(&mut self, bus: &mut Peripherals, cond: Cond)
        requires
            old(bus).wf(),
            old(self).wf(),
        ensures
            Cpu::completes(old(self).call_c_plan(old(bus), cond), *old(bus), *final(bus), *final(self)),
    {
        proof {
            lemma_read_frame(*self, bus, Operand8::Imm8, Operand16::Imm16);
        }
        if self.ctx.cache.inst.step == 0 {
            if let Some(v) = self.read16(bus, Operand16::Imm16) {
                self.ctx.cache.inst.val16 = v;
                if self.cond(cond) {
                    self.ctx.cache.inst.step = 1;
                } else {
                    self.fetch(bus);
                }
            }
        }
        self.do_call_push(bus);
    }

    /// One call of RET cc: a cycle to test the condition, then a return as
    /// RET when it holds, and the fetch of the next opcode.
    pub open spec fn ret_c_step(self, bus: &Peripherals, cond: Cond) -> Cpu {
        let c = self.ctx.cache.inst;
        if c.step == 0 {
            self.at_step(1)
        } else {
            let s1 = if c.step == 1 {
                self.at_step(if self.cond_holds(cond) { 2 } else { 3 })
            } else {
                self
            };
            if s1.ctx.cache.inst.step == 2 {
                let (c2, r) = s1.pop16_step(bus);
                match r {
                    Some(v) => c2.with_pc(v).at_step(3),
                    None => c2,
                }
            } else if s1.ctx.cache.inst.step == 3 {
                s1.at_step(0).fetched(bus)
            } else {
                s1
            }
        }
    }

    pub fn ret_c(&mut self, bus: &Peripherals, cond: Cond)
        requires
            bus.wf(),
            old(self).wf(),
        ensures
            *final(self) == old(self).ret_c_step(bus, cond),
            final(self).wf(),
    {
        if self.ctx.cache.inst.step == 0 {
            self.ctx.cache.inst.step = 1;
            return;
        }
        if self.ctx.cache.inst.step == 1 {
            self.ctx.cache.inst.step = if self.cond(cond) { 2 } else { 3 };
        }
        proof {
            lemma_read_frame(*self, bus, Operand8::Imm8, Operand16::Imm16);
        }
        if self.ctx.cache.inst.step == 2 {
            if let Some(v) = self.pop16(bus) {
                self.regs.pc = v;
                self.ctx.cache.inst.step = 3;
                return;
            }
        }
        if self.ctx.cache.inst.step == 3 {
            self.ctx.cache.inst.step = 0;
            self.fetch(bus);
        }
    }

    /// One call of RST: PC is pushed, then the next opcode is fetched at `addr`.
    pub open spec fn rst_plan(self, bus: &Peripherals, addr: u8) -> (Cpu, Option<(u16, u8)>) {
        let (c1, w, d) = self.push16_plan(self.regs.pc);
        match d {
            Some(_) => (c1.with_pc(addr as u16).fetched(bus), w),
            None => (c1, w),
        }
    }

    pub fn rst(&mut self, bus: &mut Peripherals, addr: u8)
        requires
            old(bus).wf(),
            old(self).wf(),
        ensures
            Cpu::completes(old(self).rst_plan(old(bus), addr), *old(bus), *final(bus), *final(self)),
    {
        let pc = self.regs.pc;
        proof {
            lemma_write_frame(*self, bus, Operand8::Imm8, Operand16::Imm16, 0, pc);
        }
        if self.push16(bus, pc).is_some() {
            self.regs.pc = addr as u16;
            self.fetch(bus);
        }
    }
}

impl Cpu {
    /// One call of HALT: with an enabled interrupt pending it ends at once
    /// (with IME clear the next opcode is read without moving PC, which
    /// repeats it); otherwise the CPU waits until one is pending.
    pub open spec fn halt_step(self, bus: &Peripherals) -> Cpu {
        let c = self.ctx.cache.inst;
        let p = pending(self.interrupts.intr_flags, self.interrupts.intr_enable);
        if c.step == 0 {
            if p != 0 {
                if self.interrupts.ime {
                    self.fetched(bus)
                } else {
                    Cpu { ctx: Ctx { opcode: bus.peek(self.interrupts, self.regs.pc), ..self.ctx }, ..self }
                }
            } else {
                self.at_step(1)
            }
        } else if c.step == 1 {
            if p != 0 {
                self.at_step(0).fetched(bus)
            } else {
                self
            }
        } else {
            self
        }
    }

    pub fn halt(&mut self, bus: &Peripherals)
        requires
            bus.wf(),
            old(self).wf(),
        ensures
            *final(self) == old(self).halt_step(bus),
            final(self).wf(),
    {
        if self.ctx.cache.inst.step == 0 {
            if self.interrupts.get_interrupt() > 0 {
                if self.interrupts.ime {
                    self.fetch(bus);
                } else {
                    self.ctx.opcode = bus.read(&self.interrupts, self.regs.pc);
                }
            } else {
                self.ctx.cache.inst.step = 1;
                return;
            }
        } else if self.ctx.cache.inst.step == 1 {
            if self.interrupts.get_interrupt() > 0 {
                self.ctx.cache.inst.step = 0;
                self.fetch(bus);
            }
        }
    }

    /// STOP: a two-byte instruction; its operand byte is skipped and the
    /// CPU goes on with the next instruction.
    pub open spec fn stop_step(self, bus: &Peripherals) -> Cpu {
        Cpu { regs: Registers { pc: self.regs.pc.wrapping_add(1), ..self.regs }, ..self }.fetched(bus)
    }

    pub fn stop(&mut self, bus: &Peripherals)
        requires
            bus.wf(),
            old(self).wf(),
        ensures
            *final(self) == old(self).stop_step(bus),
            final(self).wf(),
    {
        self.regs.pc = self.regs.pc.wrapping_add(1);
        self.fetch(bus);
    }

    /// An opcode outside the instruction set records the fault.
    pub fn undefined(&mut self, bus: &Peripherals)
        ensures
            *final(self) == old(self).with_fault(Fault::UndefinedOpcode(old(self).ctx.opcode)),
    {
        self.ctx.fault = Some(Fault::UndefinedOpcode(self.ctx.opcode));
    }

    pub fn di(&mut self, bus: &Peripherals)
        requires
            bus.wf(),
            old(self).wf(),
        ensures
            *final(self) == old(self).with_ime(false).fetched(bus),
            final(self).wf(),
    {
        self.interrupts.ime = false;
        self.fetch(bus);
    }

    /// EI: the next opcode is fetched with IME as it was, then IME is set.
    pub fn ei(&mut self, bus: &Peripherals)
        requires
            bus.wf(),
            old(self).wf(),
        ensures
            *final(self) == old(self).fetched(bus).with_ime(true),
            final(self).wf(),
    {
        self.fetch(bus);
        self.interrupts.ime = true;
    }

    /// CCF: C inverted, N and H reset, Z kept.
    pub open spec fn ccf_result(self) -> Cpu {
        self.with_f(flags(self.regs.flag_z(), false, false, !self.regs.flag_c()))
    }

    /// SCF: C set, N and H reset, Z kept.
    pub open spec fn scf_result(self) -> Cpu {
        self.with_f(flags(self.regs.flag_z(), false, false, true))
    }

    /// CPL: A inverted, N and H set, Z and C kept.
    pub open spec fn cpl_result(self) -> Cpu {
        self.with_a_f(!self.regs.a, flags(self.regs.flag_z(), true, true, self.regs.flag_c()))
    }

    /// RLCA, RLA, RRCA, RRA: A rotated as by the CB rotations, with Z reset.
    pub open spec fn rlca_result(self) -> Cpu {
        self.with_a_f(rlc8(self.regs.a).0, flags(false, false, false, self.regs.a >= 128))
    }

    pub open spec fn rla_result(self) -> Cpu {
        self.with_a_f(rl8(self.regs.a, self.regs.flag_c()).0, flags(false, false, false, self.regs.a >= 128))
    }

    pub open spec fn rrca_result(self) -> Cpu {
        self.with_a_f(rrc8(self.regs.a).0, flags(false, false, false, self.regs.a % 2 == 1))
    }

    pub open spec fn rra_result(self) -> Cpu {
        self.with_a_f(rr8(self.regs.a, self.regs.flag_c()).0, flags(false, false, false, self.regs.a % 2 == 1))
    }

    pub fn ccf(&mut self, bus: &Peripherals)
        requires
            bus.wf(),
            old(self).wf(),
        ensures
            *final(self) == old(self).ccf_result().fetched(bus),
            final(self).wf(),
    {
        proof {
            lemma_flags_low_nibble();
        }
        let z = self.regs.zf();
        let c = self.regs.cf();
        self.set_flags(z, false, false, !c);
        self.fetch(bus);
    }

    pub fn scf(&mut self, bus: &Peripherals)
        requires
            bus.wf(),
            old(self).wf(),
        ensures
            *final(self) == old(self).scf_result().fetched(bus),
            final(self).wf(),
    {
        proof {
            lemma_flags_low_nibble();
        }
        let z = self.regs.zf();
        self.set_flags(z, false, false, true);
        self.fetch(bus);
    }

    pub fn nop(&mut self, bus: &Peripherals)
        requires
            bus.wf(),
            old(self).wf(),
        ensures
            *final(self) == old(self).fetched(bus),
            final(self).wf(),
    {
        self.fetch(bus);
    }

    /// DAA: A adjusted to packed BCD after an addition or subtraction, Z from
    /// the result, N kept, H cleared, C from the adjustment.
    pub open spec fn daa_result(self) -> Cpu {
        let r = self.regs;
        let (a, c) = daa8(r.a, r.flag_n(), r.flag_h(), r.flag_c());
        self.with_a_f(a, flags(a == 0, r.flag_n(), false, c))
    }

    pub fn daa(&mut self, bus: &Peripherals)
        requires
            bus.wf(),
            old(self).wf(),
        ensures
            *final(self) == old(self).daa_result().fetched(bus),
            final(self).wf(),
    {
        proof {
            lemma_flags_low_nibble();
        }
        let n = self.regs.nf();
        let (a, cf) = daa_adjust(self.regs.a, n, self.regs.hf(), self.regs.cf());
        self.regs.a = a;
        self.set_flags(a == 0, n, false, cf);
        self.fetch(bus);
    }

    pub fn cpl(&mut self, bus: &Peripherals)
        requires
            bus.wf(),
            old(self).wf(),
        ensures
            *final(self) == old(self).cpl_result().fetched(bus),
            final(self).wf(),
    {
        proof {
            lemma_flags_low_nibble();
        }
        let z = self.regs.zf();
        let c = self.regs.cf();
        self.regs.a = !self.regs.a;
        self.set_flags(z, true, true, c);
        self.fetch(bus);
    }

    pub fn rlca(&mut self, bus: &Peripherals)
        requires
            bus.wf(),
            old(self).wf(),
        ensures
            *final(self) == old(self).rlca_result().fetched(bus),
            final(self).wf(),
    {
        let a = self.regs.a;
        proof {
            lemma_flags(0, a == 0, false, false, a >= 128, false);
            lemma_flags_low_nibble();
        }
        self.regs.a = self.rlc_general(a);
        self.regs.set_zf(false);
        self.fetch(bus);
    }

    pub fn rla(&mut self, bus: &Peripherals)
        requires
            bus.wf(),
            old(self).wf(),
        ensures
            *final(self) == old(self).rla_result().fetched(bus),
            final(self).wf(),
    {
        let a = self.regs.a;
        let ghost r = rl8(a, self.regs.flag_c()).0;
        proof {
            lemma_flags(0, r == 0, false, false, a >= 128, false);
            lemma_flags_low_nibble();
        }
        self.regs.a = self.rl_general(a);
        self.regs.set_zf(false);
        self.fetch(bus);
    }

    pub fn rrca(&mut self, bus: &Peripherals)
        requires
            bus.wf(),
            old(self).wf(),
        ensures
            *final(self) == old(self).rrca_result().fetched(bus),
            final(self).wf(),
    {
        let a = self.regs.a;
        proof {
            lemma_flags(0, a == 0, false, false, a % 2 == 1, false);
            lemma_flags_low_nibble();
        }
        self.regs.a = self.rrc_general(a);
        self.regs.set_zf(false);
        self.fetch(bus);
    }

    pub fn rra(&mut self, bus: &Peripherals)
        requires
            bus.wf(),
            old(self).wf(),
        ensures
            *final(self) == old(self).rra_result().fetched(bus),
            final(self).wf(),
    {
        let a = self.regs.a;
        let ghost r = rr8(a, self.regs.flag_c()).0;
        proof {
            lemma_flags(0, r == 0, false, false, a % 2 == 1, false);
            lemma_flags_low_nibble();
        }
        self.regs.a = self.rr_general(a);
        self.regs.set_zf(false);
        self.fetch(bus);
    }
}

impl Cpu {
    /// One call of LD dst, src: step 0 reads the source, step 1 writes the
    /// destination, step 2 fetches the next opcode.
    pub open spec fn ld_plan(self, bus: &Peripherals, dst: Operand8, src: Operand8) -> (Cpu, Option<(u16, u8)>) {
        let s0 = if self.ctx.cache.inst.step == 0 {
            let (c1, r) = self.read8_step(bus, src);
            match r {
                Some(v) => c1.with_inst(Cache { step: 1, val8: v, ..c1.ctx.cache.inst }),
                None => c1,
            }
        } else {
            self
        };
        let (s1, w) = if s0.ctx.cache.inst.step == 1 {
            let (c2, w, d) = s0.write8_plan(bus, dst, s0.ctx.cache.inst.val8);
            match d {
                Some(_) => (c2.at_step(2), w),
                None => (c2, w),
            }
        } else {
            (s0, None)
        };
        if s1.ctx.cache.inst.step == 2 {
            (s1.at_step(0).fetched(bus), w)
        } else {
            (s1, w)
        }
    }

    pub fn ld(&mut self, bus: &mut Peripherals, dst: Operand8, src: Operand8)
        requires
            old(bus).wf(),
            old(self).wf(),
        ensures
            Cpu::completes(old(self).ld_plan(old(bus), dst, src), *old(bus), *final(bus), *final(self)),
    {
        proof {
            lemma_read_frame(*self, bus, src, Operand16::Imm16);
        }
        if self.ctx.cache.inst.step == 0 {
            if let Some(v) = self.read8(bus, src) {
                self.ctx.cache.inst.val8 = v;
                self.ctx.cache.inst.step = 1;
            }
        }
        if self.ctx.cache.inst.step == 1 {
            let val = self.ctx.cache.inst.val8;
            proof {
                lemma_write_frame(*self, bus, dst, Operand16::Imm16, val, 0);
            }
            if self.write8(bus, dst, val).is_some() {
                self.ctx.cache.inst.step = 2;
            }
        }
        if self.ctx.cache.inst.step == 2 {
            self.ctx.cache.inst.step = 0;
            self.fetch(bus);
        }
    }

    /// One call of a 16-bit LD, in the same three steps as LD.
    pub open spec fn ld16_plan(self, bus: &Peripherals, dst: Operand16, src: Operand16) -> (Cpu, Option<(u16, u8)>) {
        let s0 = if self.ctx.cache.inst.step == 0 {
            let (c1, r) = self.read16_step(bus, src);
            match r {
                Some(v) => c1.with_inst(Cache { step: 1, val16: v, ..c1.ctx.cache.inst }),
                None => c1,
            }
        } else {
            self
        };
        let (s1, w) = if s0.ctx.cache.inst.step == 1 {
            let (c2, w, d) = s0.write16_plan(bus, dst, s0.ctx.cache.inst.val16);
            match d {
                Some(_) => (c2.at_step(2), w),
                None => (c2, w),
            }
        } else {
            (s0, None)
        };
        if s1.ctx.cache.inst.step == 2 {
            (s1.at_step(0).fetched(bus), w)
        } else {
            (s1, w)
        }
    }

    pub fn ld16(&mut self, bus: &mut Peripherals, dst: Operand16, src: Operand16)
        requires
            old(bus).wf(),
            old(self).wf(),
        ensures
            Cpu::completes(old(self).ld16_plan(old(bus), dst, src), *old(bus), *final(bus), *final(self)),
    {
        proof {
            lemma_read_frame(*self, bus, Operand8::Imm8, src);
        }
        if self.ctx.cache.inst.step == 0 {
            if let Some(v) = self.read16(bus, src) {
                self.ctx.cache.inst.val16 = v;
                self.ctx.cache.inst.step = 1;
            }
        }
        if self.ctx.cache.inst.step == 1 {
            let val = self.ctx.cache.inst.val16;
            proof {
                lemma_write_frame(*self, bus, Operand8::Imm8, dst, 0, val);
            }
            if self.write16(bus, dst, val).is_some() {
                self.ctx.cache.inst.step = 2;
            }
        }
        if self.ctx.cache.inst.step == 2 {
            self.ctx.cache.inst.step = 0;
            self.fetch(bus);
        }
    }

    /// One call of LD SP, HL: SP takes HL, a cycle passes, the next opcode is fetched.
    pub open spec fn ld_sp_hl_step(self, bus: &Peripherals) -> Cpu {
        let c = self.ctx.cache.inst;
        if c.step == 0 {
            self.with_sp(self.reg16(Reg16::HL)).at_step(1)
        } else if c.step == 1 {
            self.at_step(0).fetched(bus)
        } else {
            self
        }
    }

    pub fn ld_sp_hl(&mut self, bus: &Peripherals)
        requires
            bus.wf(),
            old(self).wf(),
        ensures
            *final(self) == old(self).ld_sp_hl_step(bus),
            final(self).wf(),
    {
        if self.ctx.cache.inst.step == 0 {
            self.regs.sp = self.regs.hl();
            self.ctx.cache.inst.step = 1;
            return;
        }
        if self.ctx.cache.inst.step == 1 {
            self.ctx.cache.inst.step = 0;
            self.fetch(bus);
        }
    }

    /// SP plus the signed byte `v`, and the flags that ADD SP, e and
    /// LD HL, SP+e set: H and C are the carries out of bits 3 and 7 of the
    /// unsigned low byte sum, Z and N are reset.
    pub open spec fn sp_offset(sp: u16, v: u8) -> (u16, u8) {
        let e = (v as i8) as u16;
        (sp.wrapping_add(e), flags(false, false, (sp % 16) + (e % 16) > 15, (sp % 256) + (e % 256) > 255))
    }

    fn sp_plus_e(&self, v: u8) -> (r: (u16, bool, bool))
        ensures
            r.0 == Cpu::sp_offset(self.regs.sp, v).0,
            flags(false, false, r.1, r.2) == Cpu::sp_offset(self.regs.sp, v).1,
    {
        let val = v as i8 as u16;
        let sp = self.regs.sp;
        assert((sp & 0xF) == sp % 16 && (val & 0xF) == val % 16 && (sp & 0xFF) == sp % 256 && (val & 0xFF) == val % 256) by (bit_vector);
        ((sp.wrapping_add(val)), (sp & 0xF) + (val & 0xF) > 0xF, (sp & 0xFF) + (val & 0xFF) > 0xFF)
    }

    /// One call of LD HL, SP+e.
    pub open spec fn ld_hl_sp_e_step(self, bus: &Peripherals) -> Cpu {
        let c = self.ctx.cache.inst;
        if c.step == 0 {
            let (c1, r) = self.read8_step(bus, Operand8::Imm8);
            match r {
                Some(v) => {
                    let (hl, f) = Cpu::sp_offset(c1.regs.sp, v);
                    c1.with_f(f).with_reg16(Reg16::HL, hl).at_step(1)
                },
                None => c1,
            }
        } else if c.step == 1 {
            self.at_step(0).fetched(bus)
        } else {
            self
        }
    }

    pub fn ld_hl_sp_e(&mut self, bus: &Peripherals)
        requires
            bus.wf(),
            old(self).wf(),
        ensures
            *final(self) == old(self).ld_hl_sp_e_step(bus),
            final(self).wf(),
    {
        proof {
            lemma_read_frame(*self, bus, Operand8::Imm8, Operand16::Imm16);
            lemma_flags_low_nibble();
        }
        if self.ctx.cache.inst.step == 0 {
            if let Some(v) = self.read8(bus, Operand8::Imm8) {
                let (hl, h, c) = self.sp_plus_e(v);
                self.set_flags(false, false, h, c);
                self.regs.set_hl(hl);
                self.ctx.cache.inst.step = 1;
                return;
            }
        }
        if self.ctx.cache.inst.step == 1 {
            self.ctx.cache.inst.step = 0;
            self.fetch(bus);
        }
    }

    /// One call of ADD SP, e: the offset is added, two cycles pass, the next
    /// opcode is fetched.
    pub open spec fn add_sp_e_step(self, bus: &Peripherals) -> Cpu {
        let c = self.ctx.cache.inst;
        if c.step == 0 {
            let (c1, r) = self.read8_step(bus, Operand8::Imm8);
            match r {
                Some(v) => {
                    let (sp, f) = Cpu::sp_offset(c1.regs.sp, v);
                    c1.with_f(f).with_sp(sp).at_step(1)
                },
                None => c1,
            }
        } else if c.step == 1 {
            self.at_step(2)
        } else if c.step == 2 {
            self.at_step(0).fetched(bus)
        } else {
            self
        }
    }

    pub fn add_sp_e(&mut self, bus: &Peripherals)
        requires
            bus.wf(),
            old(self).wf(),
        ensures
            *final(self) == old(self).add_sp_e_step(bus),
            final(self).wf(),
    {
        proof {
            lemma_read_frame(*self, bus, Operand8::Imm8, Operand16::Imm16);
            lemma_flags_low_nibble();
        }
        if self.ctx.cache.inst.step == 0 {
            if let Some(v) = self.read8(bus, Operand8::Imm8) {
                let (sp, h, c) = self.sp_plus_e(v);
                self.set_flags(false, false, h, c);
                self.regs.sp = sp;
                self.ctx.cache.inst.step = 1;
                return;
            }
        }
        if self.ctx.cache.inst.step == 1 {
            self.ctx.cache.inst.step = 2;
            return;
        }
        if self.ctx.cache.inst.step == 2 {
            self.ctx.cache.inst.step = 0;
            self.fetch(bus);
        }
    }

    /// One call of PUSH: the register pair is read, pushed, and the next
    /// opcode fetched.
    pub open spec fn push_plan(self, bus: &Peripherals, src: Reg16) -> (Cpu, Option<(u16, u8)>) {
        let s0 = if self.ctx.cache.inst.step == 0 {
            self.with_inst(Cache { step: 1, val16: self.reg16(src), ..self.ctx.cache.inst })
        } else {
            self
        };
        let (s1, w) = if s0.ctx.cache.inst.step == 1 {
            let (c2, w, d) = s0.push16_plan(s0.ctx.cache.inst.val16);
            match d {
                Some(_) => (c2.at_step(2), w),
                None => (c2, w),
            }
        } else {
            (s0, None)
        };
        if s1.ctx.cache.inst.step == 2 {
            (s1.at_step(0).fetched(bus), w)
        } else {
            (s1, w)
        }
    }

    pub fn push(&mut self, bus: &mut Peripherals, src: Reg16)
        requires
            old(bus).wf(),
            old(self).wf(),
        ensures
            Cpu::completes(old(self).push_plan(old(bus), src), *old(bus), *final(bus), *final(self)),
    {
        if self.ctx.cache.inst.step == 0 {
            let v = self.read_reg16(src);
            self.ctx.cache.inst.val16 = v;
            self.ctx.cache.inst.step = 1;
        }
        if self.ctx.cache.inst.step == 1 {
            let val = self.ctx.cache.inst.val16;
            proof {
                lemma_write_frame(*self, bus, Operand8::Imm8, Operand16::Imm16, 0, val);
            }
            if self.push16(bus, val).is_some() {
                self.ctx.cache.inst.step = 2;
            }
        }
        if self.ctx.cache.inst.step == 2 {
            self.ctx.cache.inst.step = 0;
            self.fetch(bus);
        }
    }

    /// One call of POP: once both bytes are read the register pair takes
    /// them (for AF, F keeps only its upper nibble) and the next opcode is fetched.
    pub open spec fn pop_step(self, bus: &Peripherals, dst: Reg16) -> Cpu {
        let (c1, r) = self.pop16_step(bus);
        match r {
            Some(v) => c1.with_reg16(dst, v).fetched(bus),
            None => c1,
        }
    }

    pub fn pop(&mut self, bus: &Peripherals, dst: Reg16)
        requires
            bus.wf(),
            old(self).wf(),
        ensures
            *final(self) == old(self).pop_step(bus, dst),
            final(self).wf(),
    {
        proof {
            lemma_read_frame(*self, bus, Operand8::Imm8, Operand16::Imm16);
        }
        if let Some(v) = self.pop16(bus) {
            assert((v & 0xF0u16) as u8 & 0x0F == 0) by (bit_vector);
            self.write_reg16(dst, v);
            self.fetch(bus);
        }
    }

    /// One call of ADD HL, rr: HL takes the sum, N is reset, H and C are the
    /// carries out of bits 11 and 15, Z is kept; a cycle passes, then the
    /// next opcode is fetched.
    pub open spec fn add_hl_step(self, bus: &Peripherals, src: Reg16) -> Cpu {
        let c = self.ctx.cache.inst;
        if c.step == 0 {
            let val = self.reg16(src);
            let hl = self.reg16(Reg16::HL);
            self.with_f(
                flags(self.regs.flag_z(), false, (hl % 4096) + (val % 4096) > 4095, hl + val > 0xFFFF),
            ).with_reg16(Reg16::HL, hl.wrapping_add(val)).at_step(1)
        } else if c.step == 1 {
            self.at_step(0).fetched(bus)
        } else {
            self
        }
    }

    pub fn add_hl_reg16(&mut self, bus: &Peripherals, src: Reg16)
        requires
            bus.wf(),
            old(self).wf(),
        ensures
            *final(self) == old(self).add_hl_step(bus, src),
            final(self).wf(),
    {
        proof {
            lemma_flags_low_nibble();
        }
        if self.ctx.cache.inst.step == 0 {
            let val = self.read_reg16(src);
            let hl = self.regs.hl();
            assert((hl & 0xFFF) == hl % 4096 && (val & 0xFFF) == val % 4096) by (bit_vector);
            let z = self.regs.zf();
            self.set_flags(z, false, (hl & 0xFFF) + (val & 0xFFF) > 0x0FFF, (hl as u32) + (val as u32) > 0xFFFF);
            self.regs.set_hl(hl.wrapping_add(val));
            self.ctx.cache.inst.step = 1;
            return;
        }
        if self.ctx.cache.inst.step == 1 {
            self.ctx.cache.inst.step = 0;
            self.fetch(bus);
        }
    }

    /// One call of INC rr (`up`) or DEC rr: the pair is read and the new value
    /// written in the first call, the next opcode is fetched in the second.
    pub open spec fn step16_step(self, bus: &Peripherals, src: Reg16, up: bool) -> Cpu {
        let c = self.ctx.cache.inst;
        let s0 = if c.step == 0 {
            let v = self.reg16(src);
            self.with_inst(Cache { step: 1, val16: if up { v.wrapping_add(1) } else { v.wrapping_sub(1) }, ..c })
        } else {
            self
        };
        if s0.ctx.cache.inst.step == 1 {
            s0.with_reg16(src, s0.ctx.cache.inst.val16).at_step(2)
        } else if s0.ctx.cache.inst.step == 2 {
            s0.at_step(0).fetched(bus)
        } else {
            s0
        }
    }

    fn step16(&mut self, bus: &Peripherals, src: Reg16, up: bool)
        requires
            bus.wf(),
            old(self).wf(),
        ensures
            *final(self) == old(self).step16_step(bus, src, up),
            final(self).wf(),
    {
        if self.ctx.cache.inst.step == 0 {
            let v = self.read_reg16(src);
            self.ctx.cache.inst.val16 = if up { v.wrapping_add(1) } else { v.wrapping_sub(1) };
            self.ctx.cache.inst.step = 1;
        }
        if self.ctx.cache.inst.step == 1 {
            let val = self.ctx.cache.inst.val16;
            assert((val & 0xF0u16) as u8 & 0x0F == 0) by (bit_vector);
            self.write_reg16(src, val);
            self.ctx.cache.inst.step = 2;
            return;
        }
        if self.ctx.cache.inst.step == 2 {
            self.ctx.cache.inst.step = 0;
            self.fetch(bus);
        }
    }

    pub fn inc16(&mut self, bus: &Peripherals, src: Reg16)
        requires
            bus.wf(),
            old(self).wf(),
        ensures
            *final(self) == old(self).step16_step(bus, src, true),
            final(self).wf(),
    {
        self.step16(bus, src, true);
    }

    pub fn dec16(&mut self, bus: &Peripherals, src: Reg16)
        requires
            bus.wf(),
            old(self).wf(),
        ensures
            *final(self) == old(self).step16_step(bus, src, false),
            final(self).wf(),
    {
        self.step16(bus, src, false);
    }
}
/// A branch condition is decided by its flag: C holds exactly when the carry
/// flag (bit 4 of F) is set and NC exactly when it is clear; Z exactly when
/// the zero flag (bit 7 of F) is set and NZ exactly when it is clear. So each
/// condition and its opposite never hold together, after SCF the condition
/// C holds and NC does not, and CCF swaps C and NC.
pub proof fn lemma_branch_conditions(c: Cpu)
    ensures
        c.cond_holds(Cond::C) == (c.regs.f & 0x10 != 0),
        c.cond_holds(Cond::NC) == (c.regs.f & 0x10 == 0),
        c.cond_holds(Cond::Z) == (c.regs.f & 0x80 != 0),
        c.cond_holds(Cond::NZ) == (c.regs.f & 0x80 == 0),
        c.cond_holds(Cond::C) != c.cond_holds(Cond::NC),
        c.cond_holds(Cond::Z) != c.cond_holds(Cond::NZ),
        c.scf_result().cond_holds(Cond::C) && !c.scf_result().cond_holds(Cond::NC),
        c.ccf_result().cond_holds(Cond::C) == c.cond_holds(Cond::NC),
        c.scf_result().cond_holds(Cond::Z) == c.cond_holds(Cond::Z),
{
    lemma_flags(0, c.regs.flag_z(), false, false, true, false);
    lemma_flags(0, c.regs.flag_z(), false, false, !c.regs.flag_c(), false);
}

} // verus!
