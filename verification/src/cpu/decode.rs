use vstd::prelude::*;

use crate::cpu::instructions::{rmw_ok, AluOp, RmwOp};
use crate::cpu::operand::{lemma_read_frame, Cond, Direct8, Indirect, Operand16, Operand8, Reg16, Reg8};
use crate::cpu::{Cpu, Ctx};
use crate::peripherals::Peripherals;
use crate::Fault;

verus! {

/// An instruction of the CPU, with its operands.
#[derive(Clone, Copy, PartialEq, Eq, Structural, Debug)]
pub enum Instr {
    Nop,
    Stop,
    Halt,
    Di,
    Ei,
    Ld(Operand8, Operand8),
    Ld16(Operand16, Operand16),
    LdSpHl,
    LdHlSpE,
    Alu(AluOp, Operand8),
    Rmw(RmwOp, Operand8),
    Bit(u8, Operand8),
    Rlca,
    Rla,
    Rrca,
    Rra,
    Daa,
    Cpl,
    Scf,
    Ccf,
    Jp,
    JpHl,
    Jr,
    JpC(Cond),
    JrC(Cond),
    Call,
    CallC(Cond),
    Ret,
    RetC(Cond),
    Reti,
    Rst(u8),
    Push(Reg16),
    Pop(Reg16),
    AddHl(Reg16),
    AddSpE,
    Inc16(Reg16),
    Dec16(Reg16),
    Prefix,
    Undefined,
}

/// The 8-bit operand that a 3-bit field names: B, C, D, E, H, L, (HL), A.
pub open spec fn r8(i: u8) -> Operand8 {
    if i == 0 {
        Operand8::Reg(Reg8::B)
    } else if i == 1 {
        Operand8::Reg(Reg8::C)
    } else if i == 2 {
        Operand8::Reg(Reg8::D)
    } else if i == 3 {
        Operand8::Reg(Reg8::E)
    } else if i == 4 {
        Operand8::Reg(Reg8::H)
    } else if i == 5 {
        Operand8::Reg(Reg8::L)
    } else if i == 6 {
        Operand8::Ind(Indirect::HL)
    } else {
        Operand8::Reg(Reg8::A)
    }
}

/// The register pair of a 2-bit field, with SP (`sp`) or AF as the fourth.
pub open spec fn rp(i: u8, sp: bool) -> Reg16 {
    if i == 0 {
        Reg16::BC
    } else if i == 1 {
        Reg16::DE
    } else if i == 2 {
        Reg16::HL
    } else if sp {
        Reg16::SP
    } else {
        Reg16::AF
    }
}

/// The ALU operation of a 3-bit field: ADD, ADC, SUB, SBC, AND, XOR, OR, CP.
pub open spec fn alu_op(i: u8) -> AluOp {
    if i == 0 {
        AluOp::Add
    } else if i == 1 {
        AluOp::Adc
    } else if i == 2 {
        AluOp::Sub
    } else if i == 3 {
        AluOp::Sbc
    } else if i == 4 {
        AluOp::And
    } else if i == 5 {
        AluOp::Xor
    } else if i == 6 {
        AluOp::Or
    } else {
        AluOp::Cp
    }
}

/// The rotation or shift of a 3-bit field: RLC, RRC, RL, RR, SLA, SRA, SWAP, SRL.
pub open spec fn rot_op(i: u8) -> RmwOp {
    if i == 0 {
        RmwOp::Rlc
    } else if i == 1 {
        RmwOp::Rrc
    } else if i == 2 {
        RmwOp::Rl
    } else if i == 3 {
        RmwOp::Rr
    } else if i == 4 {
        RmwOp::Sla
    } else if i == 5 {
        RmwOp::Sra
    } else if i == 6 {
        RmwOp::Swap
    } else {
        RmwOp::Srl
    }
}

/// The branch condition of a 2-bit field: NZ, Z, NC, C.
pub open spec fn cond_of(i: u8) -> Cond {
    if i == 0 {
        Cond::NZ
    } else if i == 1 {
        Cond::Z
    } else if i == 2 {
        Cond::NC
    } else {
        Cond::C
    }
}

/// The instruction of an opcode, read as the bit fields x (bits 7-6),
/// y (bits 5-3) and z (bits 2-0), with y split into p (bits 5-4) and q (bit 3).
pub open spec fn opcode_instr(op: u8) -> Instr {
    let x = op / 64;
    let y = (op / 8) % 8;
    let z = op % 8;
    let p = y / 2;
    let q = y % 2;
    if x == 1 {
        if op == 0x76 {
            Instr::Halt
        } else {
            Instr::Ld(r8(y), r8(z))
        }
    } else if x == 2 {
        Instr::Alu(alu_op(y), r8(z))
    } else if x == 0 {
        if z == 0 {
            if y == 0 {
                Instr::Nop
            } else if y == 1 {
                Instr::Ld16(Operand16::Dir16, Operand16::Reg(Reg16::SP))
            } else if y == 2 {
                Instr::Stop
            } else if y == 3 {
                Instr::Jr
            } else {
                Instr::JrC(cond_of((y - 4) as u8))
            }
        } else if z == 1 {
            if q == 0 {
                Instr::Ld16(Operand16::Reg(rp(p, true)), Operand16::Imm16)
            } else {
                Instr::AddHl(rp(p, true))
            }
        } else if z == 2 {
            let m = if p == 0 {
                Operand8::Ind(Indirect::BC)
            } else if p == 1 {
                Operand8::Ind(Indirect::DE)
            } else if p == 2 {
                Operand8::Ind(Indirect::HLI)
            } else {
                Operand8::Ind(Indirect::HLD)
            };
            if q == 0 {
                Instr::Ld(m, Operand8::Reg(Reg8::A))
            } else {
                Instr::Ld(Operand8::Reg(Reg8::A), m)
            }
        } else if z == 3 {
            if q == 0 {
                Instr::Inc16(rp(p, true))
            } else {
                Instr::Dec16(rp(p, true))
            }
        } else if z == 4 {
            Instr::Rmw(RmwOp::Inc, r8(y))
        } else if z == 5 {
            Instr::Rmw(RmwOp::Dec, r8(y))
        } else if z == 6 {
            Instr::Ld(r8(y), Operand8::Imm8)
        } else if y == 0 {
            Instr::Rlca
        } else if y == 1 {
            Instr::Rrca
        } else if y == 2 {
            Instr::Rla
        } else if y == 3 {
            Instr::Rra
        } else if y == 4 {
            Instr::Daa
        } else if y == 5 {
            Instr::Cpl
        } else if y == 6 {
            Instr::Scf
        } else {
            Instr::Ccf
        }
    } else {
        if z == 0 {
            if y < 4 {
                Instr::RetC(cond_of(y))
            } else if y == 4 {
                Instr::Ld(Operand8::Dir(Direct8::DFF), Operand8::Reg(Reg8::A))
            } else if y == 5 {
                Instr::AddSpE
            } else if y == 6 {
                Instr::Ld(Operand8::Reg(Reg8::A), Operand8::Dir(Direct8::DFF))
            } else {
                Instr::LdHlSpE
            }
        } else if z == 1 {
            if q == 0 {
                Instr::Pop(rp(p, false))
            } else if p == 0 {
                Instr::Ret
            } else if p == 1 {
                Instr::Reti
            } else if p == 2 {
                Instr::JpHl
            } else {
                Instr::LdSpHl
            }
        } else if z == 2 {
            if y < 4 {
                Instr::JpC(cond_of(y))
            } else if y == 4 {
                Instr::Ld(Operand8::Ind(Indirect::CFF), Operand8::Reg(Reg8::A))
            } else if y == 5 {
                Instr::Ld(Operand8::Dir(Direct8::D), Operand8::Reg(Reg8::A))
            } else if y == 6 {
                Instr::Ld(Operand8::Reg(Reg8::A), Operand8::Ind(Indirect::CFF))
            } else {
                Instr::Ld(Operand8::Reg(Reg8::A), Operand8::Dir(Direct8::D))
            }
        } else if z == 3 {
            if y == 0 {
                Instr::Jp
            } else if y == 1 {
                Instr::Prefix
            } else if y == 6 {
                Instr::Di
            } else if y == 7 {
                Instr::Ei
            } else {
                Instr::Undefined
            }
        } else if z == 4 {
            if y < 4 {
                Instr::CallC(cond_of(y))
            } else {
                Instr::Undefined
            }
        } else if z == 5 {
            if q == 0 {
                Instr::Push(rp(p, false))
            } else if p == 0 {
                Instr::Call
            } else {
                Instr::Undefined
            }
        } else if z == 6 {
            Instr::Alu(alu_op(y), Operand8::Imm8)
        } else {
            Instr::Rst((y * 8) as u8)
        }
    }
}

/// The instruction of an opcode that follows the CB prefix.
pub open spec fn cb_instr(op: u8) -> Instr {
    let x = op / 64;
    let y = (op / 8) % 8;
    let z = op % 8;
    if x == 0 {
        Instr::Rmw(rot_op(y), r8(z))
    } else if x == 1 {
        Instr::Bit(y, r8(z))
    } else if x == 2 {
        Instr::Rmw(RmwOp::ResBit(y), r8(z))
    } else {
        Instr::Rmw(RmwOp::SetBit(y), r8(z))
    }
}

/// The operands of an instruction are in range (bit numbers below 8).
pub open spec fn instr_ok(i: Instr) -> bool {
    match i {
        Instr::Bit(b, _) => b < 8,
        Instr::Rmw(op, _) => rmw_ok(op),
        _ => true,
    }
}

fn r8_of(i: u8) -> (r: Operand8)
    requires
        i < 8,
    ensures
        r == r8(i),
{
    match i {
        0 => Operand8::Reg(Reg8::B),
        1 => Operand8::Reg(Reg8::C),
        2 => Operand8::Reg(Reg8::D),
        3 => Operand8::Reg(Reg8::E),
        4 => Operand8::Reg(Reg8::H),
        5 => Operand8::Reg(Reg8::L),
        6 => Operand8::Ind(Indirect::HL),
        _ => Operand8::Reg(Reg8::A),
    }
}

fn rp_of(i: u8, sp: bool) -> (r: Reg16)
    ensures
        r == rp(i, sp),
{
    if i == 0 {
        Reg16::BC
    } else if i == 1 {
        Reg16::DE
    } else if i == 2 {
        Reg16::HL
    } else if sp {
        Reg16::SP
    } else {
        Reg16::AF
    }
}

fn alu_op_of(i: u8) -> (r: AluOp)
    ensures
        r == alu_op(i),
{
    match i {
        0 => AluOp::Add,
        1 => AluOp::Adc,
        2 => AluOp::Sub,
        3 => AluOp::Sbc,
        4 => AluOp::And,
        5 => AluOp::Xor,
        6 => AluOp::Or,
        _ => AluOp::Cp,
    }
}

fn rot_op_of(i: u8) -> (r: RmwOp)
    ensures
        r == rot_op(i),
{
    match i {
        0 => RmwOp::Rlc,
        1 => RmwOp::Rrc,
        2 => RmwOp::Rl,
        3 => RmwOp::Rr,
        4 => RmwOp::Sla,
        5 => RmwOp::Sra,
        6 => RmwOp::Swap,
        _ => RmwOp::Srl,
    }
}

fn cond_of_field(i: u8) -> (r: Cond)
    ensures
        r == cond_of(i),
{
    match i {
        0 => Cond::NZ,
        1 => Cond::Z,
        2 => Cond::NC,
        _ => Cond::C,
    }
}

/// Decodes an opcode without prefix.
pub fn instr_of(op: u8) -> (r: Instr)
    ensures
        r == opcode_instr(op),
        instr_ok(r),
{
    let x = op / 64;
    let y = (op / 8) % 8;
    let z = op % 8;
    let p = y / 2;
    let q = y % 2;
    if x == 1 {
        if op == 0x76 {
            Instr::Halt
        } else {
            Instr::Ld(r8_of(y), r8_of(z))
        }
    } else if x == 2 {
        Instr::Alu(alu_op_of(y), r8_of(z))
    } else if x == 0 {
        if z == 0 {
            if y == 0 {
                Instr::Nop
            } else if y == 1 {
                Instr::Ld16(Operand16::Dir16, Operand16::Reg(Reg16::SP))
            } else if y == 2 {
                Instr::Stop
            } else if y == 3 {
                Instr::Jr
            } else {
                Instr::JrC(cond_of_field(y - 4))
            }
        } else if z == 1 {
            if q == 0 {
                Instr::Ld16(Operand16::Reg(rp_of(p, true)), Operand16::Imm16)
            } else {
                Instr::AddHl(rp_of(p, true))
            }
        } else if z == 2 {
            let m = if p == 0 {
                Operand8::Ind(Indirect::BC)
            } else if p == 1 {
                Operand8::Ind(Indirect::DE)
            } else if p == 2 {
                Operand8::Ind(Indirect::HLI)
            } else {
                Operand8::Ind(Indirect::HLD)
            };
            if q == 0 {
                Instr::Ld(m, Operand8::Reg(Reg8::A))
            } else {
                Instr::Ld(Operand8::Reg(Reg8::A), m)
            }
        } else if z == 3 {
            if q == 0 {
                Instr::Inc16(rp_of(p, true))
            } else {
                Instr::Dec16(rp_of(p, true))
            }
        } else if z == 4 {
            Instr::Rmw(RmwOp::Inc, r8_of(y))
        } else if z == 5 {
            Instr::Rmw(RmwOp::Dec, r8_of(y))
        } else if z == 6 {
            Instr::Ld(r8_of(y), Operand8::Imm8)
        } else if y == 0 {
            Instr::Rlca
        } else if y == 1 {
            Instr::Rrca
        } else if y == 2 {
            Instr::Rla
        } else if y == 3 {
            Instr::Rra
        } else if y == 4 {
            Instr::Daa
        } else if y == 5 {
            Instr::Cpl
        } else if y == 6 {
            Instr::Scf
        } else {
            Instr::Ccf
        }
    } else {
        if z == 0 {
            if y < 4 {
                Instr::RetC(cond_of_field(y))
            } else if y == 4 {
                Instr::Ld(Operand8::Dir(Direct8::DFF), Operand8::Reg(Reg8::A))
            } else if y == 5 {
                Instr::AddSpE
            } else if y == 6 {
                Instr::Ld(Operand8::Reg(Reg8::A), Operand8::Dir(Direct8::DFF))
            } else {
                Instr::LdHlSpE
            }
        } else if z == 1 {
            if q == 0 {
                Instr::Pop(rp_of(p, false))
            } else if p == 0 {
                Instr::Ret
            } else if p == 1 {
                Instr::Reti
            } else if p == 2 {
                Instr::JpHl
            } else {
                Instr::LdSpHl
            }
        } else if z == 2 {
            if y < 4 {
                Instr::JpC(cond_of_field(y))
            } else if y == 4 {
                Instr::Ld(Operand8::Ind(Indirect::CFF), Operand8::Reg(Reg8::A))
            } else if y == 5 {
                Instr::Ld(Operand8::Dir(Direct8::D), Operand8::Reg(Reg8::A))
            } else if y == 6 {
                Instr::Ld(Operand8::Reg(Reg8::A), Operand8::Ind(Indirect::CFF))
            } else {
                Instr::Ld(Operand8::Reg(Reg8::A), Operand8::Dir(Direct8::D))
            }
        } else if z == 3 {
            if y == 0 {
                Instr::Jp
            } else if y == 1 {
                Instr::Prefix
            } else if y == 6 {
                Instr::Di
            } else if y == 7 {
                Instr::Ei
            } else {
                Instr::Undefined
            }
        } else if z == 4 {
            if y < 4 {
                Instr::CallC(cond_of_field(y))
            } else {
                Instr::Undefined
            }
        } else if z == 5 {
            if q == 0 {
                Instr::Push(rp_of(p, false))
            } else if p == 0 {
                Instr::Call
            } else {
                Instr::Undefined
            }
        } else if z == 6 {
            Instr::Alu(alu_op_of(y), Operand8::Imm8)
        } else {
            Instr::Rst(y * 8)
        }
    }
}

/// Decodes an opcode that follows the CB prefix.
pub fn cb_instr_of(op: u8) -> (r: Instr)
    ensures
        r == cb_instr(op),
        instr_ok(r),
{
    let x = op / 64;
    let y = (op / 8) % 8;
    let z = op % 8;
    if x == 0 {
        Instr::Rmw(rot_op_of(y), r8_of(z))
    } else if x == 1 {
        Instr::Bit(y, r8_of(z))
    } else if x == 2 {
        Instr::Rmw(RmwOp::ResBit(y), r8_of(z))
    } else {
        Instr::Rmw(RmwOp::SetBit(y), r8_of(z))
    }
}


impl Cpu {
    /// One call of an instruction other than the CB prefix: the CPU before
    /// the call's bus write, and that write.
    #[verifier::opaque]
    pub open spec fn base_plan(self, bus: &Peripherals, i: Instr) -> (Cpu, Option<(u16, u8)>) {
        match i {
            Instr::Nop => (self.fetched(bus), None),
            Instr::Stop => (self.stop_step(bus), None),
            Instr::Halt => (self.halt_step(bus), None),
            Instr::Di => (self.with_ime(false).fetched(bus), None),
            Instr::Ei => (self.fetched(bus).with_ime(true), None),
            Instr::Ld(d, s) => self.ld_plan(bus, d, s),
            Instr::Ld16(d, s) => self.ld16_plan(bus, d, s),
            Instr::LdSpHl => (self.ld_sp_hl_step(bus), None),
            Instr::LdHlSpE => (self.ld_hl_sp_e_step(bus), None),
            Instr::Alu(op, s) => (self.alu_step(bus, s, op), None),
            Instr::Rmw(op, s) => self.rmw_plan(bus, s, op),
            Instr::Bit(b, s) => (self.bit_step(bus, b, s), None),
            Instr::Rlca => (self.rlca_result().fetched(bus), None),
            Instr::Rla => (self.rla_result().fetched(bus), None),
            Instr::Rrca => (self.rrca_result().fetched(bus), None),
            Instr::Rra => (self.rra_result().fetched(bus), None),
            Instr::Daa => (self.daa_result().fetched(bus), None),
            Instr::Cpl => (self.cpl_result().fetched(bus), None),
            Instr::Scf => (self.scf_result().fetched(bus), None),
            Instr::Ccf => (self.ccf_result().fetched(bus), None),
            Instr::Jp => (self.jp_step(bus), None),
            Instr::JpHl => (self.with_pc(self.reg16(Reg16::HL)).fetched(bus), None),
            Instr::Jr => (self.jr_step(bus), None),
            Instr::JpC(c) => (self.jp_c_step(bus, c), None),
            Instr::JrC(c) => (self.jr_c_step(bus, c), None),
            Instr::Call => self.call_plan(bus),
            Instr::CallC(c) => self.call_c_plan(bus, c),
            Instr::Ret => (self.ret_step(bus, false), None),
            Instr::RetC(c) => (self.ret_c_step(bus, c), None),
            Instr::Reti => (self.ret_step(bus, true), None),
            Instr::Rst(a) => self.rst_plan(bus, a),
            Instr::Push(r) => self.push_plan(bus, r),
            Instr::Pop(r) => (self.pop_step(bus, r), None),
            Instr::AddHl(r) => (self.add_hl_step(bus, r), None),
            Instr::AddSpE => (self.add_sp_e_step(bus), None),
            Instr::Inc16(r) => (self.step16_step(bus, r, true), None),
            Instr::Dec16(r) => (self.step16_step(bus, r, false), None),
            Instr::Prefix => (self, None),
            Instr::Undefined => (self.with_fault(Fault::UndefinedOpcode(self.ctx.opcode)), None),
        }
    }

    /// One call of the CB prefix: the second opcode byte is read, and once
    /// it is there the instruction it names starts in the same cycle.
    pub open spec fn prefix_plan(self, bus: &Peripherals) -> (Cpu, Option<(u16, u8)>) {
        let (c1, r) = self.read8_step(bus, Operand8::Imm8);
        match r {
            Some(v) => Cpu { ctx: Ctx { opcode: v, cb: true, ..c1.ctx }, ..c1 }.base_plan(bus, cb_instr(v)),
            None => (c1, None),
        }
    }

    /// One call of the instruction in the decoding context.
    pub open spec fn decode_plan(self, bus: &Peripherals) -> (Cpu, Option<(u16, u8)>) {
        if self.ctx.cb {
            self.base_plan(bus, cb_instr(self.ctx.opcode))
        } else if opcode_instr(self.ctx.opcode) is Prefix {
            self.prefix_plan(bus)
        } else {
            self.base_plan(bus, opcode_instr(self.ctx.opcode))
        }
    }

    /// Runs one call of a load, a stack or a control instruction (the CB
    /// prefix does nothing here).
    #[verifier::spinoff_prover]
    fn execute_load(&mut self, bus: &mut Peripherals, i: Instr)
        requires
            old(bus).wf(),
            old(self).wf(),
            instr_ok(i),
            i is Nop || i is Stop || i is Halt || i is Di || i is Ei || i is Ld || i is Ld16 || i is LdSpHl || i is LdHlSpE || i is Push || i is Pop || i is Undefined || i is Prefix,
        ensures
            Cpu::completes(old(self).base_plan(old(bus), i), *old(bus), *final(bus), *final(self)),
    {
        proof {
            reveal(Cpu::base_plan);
        }
        match i {
            Instr::Nop => self.nop(bus),
            Instr::Stop => self.stop(bus),
            Instr::Halt => self.halt(bus),
            Instr::Di => self.di(bus),
            Instr::Ei => self.ei(bus),
            Instr::Ld(d, s) => self.ld(bus, d, s),
            Instr::Ld16(d, s) => self.ld16(bus, d, s),
            Instr::LdSpHl => self.ld_sp_hl(bus),
            Instr::LdHlSpE => self.ld_hl_sp_e(bus),
            Instr::Push(r) => self.push(bus, r),
            Instr::Pop(r) => self.pop(bus, r),
            Instr::Undefined => self.undefined(bus),
            _ => {},
        }
    }

    /// Runs one call of an arithmetic instruction.
    #[verifier::spinoff_prover]
    fn execute_alu(&mut self, bus: &mut Peripherals, i: Instr)
        requires
            old(bus).wf(),
            old(self).wf(),
            instr_ok(i),
            i is Alu || i is Rlca || i is Rla || i is Rrca || i is Rra || i is Daa || i is Cpl || i is Scf || i is Ccf || i is AddHl || i is AddSpE || i is Inc16 || i is Dec16,
        ensures
            Cpu::completes(old(self).base_plan(old(bus), i), *old(bus), *final(bus), *final(self)),
    {
        proof {
            reveal(Cpu::base_plan);
        }
        match i {
            Instr::Alu(op, s) => self.alu(bus, s, op),
            Instr::Rlca => self.rlca(bus),
            Instr::Rla => self.rla(bus),
            Instr::Rrca => self.rrca(bus),
            Instr::Rra => self.rra(bus),
            Instr::Daa => self.daa(bus),
            Instr::Cpl => self.cpl(bus),
            Instr::Scf => self.scf(bus),
            Instr::Ccf => self.ccf(bus),
            Instr::AddHl(r) => self.add_hl_reg16(bus, r),
            Instr::AddSpE => self.add_sp_e(bus),
            Instr::Inc16(r) => self.inc16(bus, r),
            Instr::Dec16(r) => self.dec16(bus, r),
            _ => {},
        }
    }

    /// Runs one call of a CB-prefixed instruction or INC/DEC of an 8-bit operand.
    #[verifier::spinoff_prover]
    fn execute_rmw(&mut self, bus: &mut Peripherals, i: Instr)
        requires
            old(bus).wf(),
            old(self).wf(),
            instr_ok(i),
            i is Rmw || i is Bit,
        ensures
            Cpu::completes(old(self).base_plan(old(bus), i), *old(bus), *final(bus), *final(self)),
    {
        proof {
            reveal(Cpu::base_plan);
        }
        match i {
            Instr::Rmw(op, s) => self.rmw(bus, s, op),
            Instr::Bit(b, s) => self.bit(bus, b as usize, s),
            _ => {},
        }
    }

    /// Runs one call of a jump, call, return or restart.
    #[verifier::spinoff_prover]
    fn execute_flow(&mut self, bus: &mut Peripherals, i: Instr)
        requires
            old(bus).wf(),
            old(self).wf(),
            instr_ok(i),
            i is Jp || i is JpHl || i is Jr || i is JpC || i is JrC || i is Call || i is CallC || i is Ret || i is RetC || i is Reti || i is Rst,
        ensures
            Cpu::completes(old(self).base_plan(old(bus), i), *old(bus), *final(bus), *final(self)),
    {
        proof {
            reveal(Cpu::base_plan);
        }
        match i {
            Instr::Jp => self.jp(bus),
            Instr::JpHl => self.jp_hl(bus),
            Instr::Jr => self.jr(bus),
            Instr::JpC(c) => self.jp_c(bus, c),
            Instr::JrC(c) => self.jr_c(bus, c),
            Instr::Call => self.call(bus),
            Instr::CallC(c) => self.call_c(bus, c),
            Instr::Ret => self.ret(bus),
            Instr::RetC(c) => self.ret_c(bus, c),
            Instr::Reti => self.reti(bus),
            Instr::Rst(a) => self.rst(bus, a),
            _ => {},
        }
    }

    /// Runs one call of `i`.
    pub fn execute(&mut self, bus: &mut Peripherals, i: Instr)
        requires
            old(bus).wf(),
            old(self).wf(),
            instr_ok(i),
        ensures
            Cpu::completes(old(self).base_plan(old(bus), i), *old(bus), *final(bus), *final(self)),
    {
        match i {
            Instr::Alu(..) | Instr::Rlca | Instr::Rla | Instr::Rrca | Instr::Rra | Instr::Daa | Instr::Cpl
            | Instr::Scf | Instr::Ccf | Instr::AddHl(_) | Instr::AddSpE | Instr::Inc16(_) | Instr::Dec16(_) => {
                self.execute_alu(bus, i)
            },
            Instr::Rmw(..) | Instr::Bit(..) => self.execute_rmw(bus, i),
            Instr::Jp | Instr::JpHl | Instr::Jr | Instr::JpC(_) | Instr::JrC(_) | Instr::Call | Instr::CallC(_)
            | Instr::Ret | Instr::RetC(_) | Instr::Reti | Instr::Rst(_) => self.execute_flow(bus, i),
            _ => self.execute_load(bus, i),
        }
    }

    /// Runs one call of the CB prefix.
    fn cb_prefixed(&mut self, bus: &mut Peripherals)
        requires
            old(bus).wf(),
            old(self).wf(),
        ensures
            Cpu::completes(old(self).prefix_plan(old(bus)), *old(bus), *final(bus), *final(self)),
    {
        proof {
            lemma_read_frame(*self, bus, Operand8::Imm8, Operand16::Imm16);
        }
        if let Some(v) = self.read8(bus, Operand8::Imm8) {
            self.ctx.opcode = v;
            self.ctx.cb = true;
            let i = cb_instr_of(v);
            self.execute(bus, i);
        }
    }

    /// Runs one call of the instruction in the decoding context.
    pub fn decode(&mut self, bus: &mut Peripherals)
        requires
            old(bus).wf(),
            old(self).wf(),
        ensures
            Cpu::completes(old(self).decode_plan(old(bus)), *old(bus), *final(bus), *final(self)),
    {
        if self.ctx.cb {
            let i = cb_instr_of(self.ctx.opcode);
            self.execute(bus, i);
        } else {
            let i = instr_of(self.ctx.opcode);
            if let Instr::Prefix = i {
                self.cb_prefixed(bus);
            } else {
                self.execute(bus, i);
            }
        }
    }
}
} // verus!
