use vstd::prelude::*;

use crate::bits::lemma_byte_arith;
use crate::cpu::Cpu;
use crate::register::{lemma_flags, Registers};

verus! {

pub open spec fn bit(c: bool) -> int {
    if c {
        1
    } else {
        0
    }
}

pub open spec fn flags(z: bool, n: bool, h: bool, c: bool) -> u8 {
    Registers::flags_of(z, n, h, c)
}

/// `a + v + carry`: the result and the flags Z, N=0, H (carry out of bit 3), C.
pub open spec fn adc8(a: u8, v: u8, cy: bool) -> (u8, u8) {
    let s = a + v + bit(cy);
    ((s % 256) as u8, flags(s % 256 == 0, false, a % 16 + v % 16 + bit(cy) > 15, s > 255))
}

/// `a - v - carry`: the result and the flags Z, N=1, H (borrow from bit 4), C (borrow).
pub open spec fn sbc8(a: u8, v: u8, cy: bool) -> (u8, u8) {
    let d = a - v - bit(cy);
    ((d % 256) as u8, flags(d % 256 == 0, true, a % 16 < v % 16 + bit(cy), a < v + bit(cy)))
}

pub open spec fn and8(a: u8, v: u8) -> (u8, u8) {
    (a & v, flags(a & v == 0, false, true, false))
}

pub open spec fn or8(a: u8, v: u8) -> (u8, u8) {
    (a | v, flags(a | v == 0, false, false, false))
}

pub open spec fn xor8(a: u8, v: u8) -> (u8, u8) {
    (a ^ v, flags(a ^ v == 0, false, false, false))
}

/// Rotate left; bit 7 goes to C and to bit 0.
pub open spec fn rlc8(v: u8) -> (u8, u8) {
    (((v * 2) % 256 + v / 128) as u8, flags(v == 0, false, false, v >= 128))
}

/// Rotate left through the carry.
pub open spec fn rl8(v: u8, cy: bool) -> (u8, u8) {
    let r = ((v * 2) % 256 + bit(cy)) as u8;
    (r, flags(r == 0, false, false, v >= 128))
}

/// Rotate right; bit 0 goes to C and to bit 7.
pub open spec fn rrc8(v: u8) -> (u8, u8) {
    (((v % 2) * 128 + v / 2) as u8, flags(v == 0, false, false, v % 2 == 1))
}

/// Rotate right through the carry.
pub open spec fn rr8(v: u8, cy: bool) -> (u8, u8) {
    let r = (bit(cy) * 128 + v / 2) as u8;
    (r, flags(r == 0, false, false, v % 2 == 1))
}

/// Shift left arithmetic.
pub open spec fn sla8(v: u8) -> (u8, u8) {
    (((v * 2) % 256) as u8, flags(v % 128 == 0, false, false, v >= 128))
}

/// Shift right arithmetic (bit 7 kept).
pub open spec fn sra8(v: u8) -> (u8, u8) {
    (((if v >= 128 { 128int } else { 0 }) + v / 2) as u8, flags(v < 2, false, false, v % 2 == 1))
}

/// Shift right logical.
pub open spec fn srl8(v: u8) -> (u8, u8) {
    ((v / 2) as u8, flags(v < 2, false, false, v % 2 == 1))
}

/// Exchange the nibbles.
pub open spec fn swap8(v: u8) -> (u8, u8) {
    (((v % 16) * 16 + v / 16) as u8, flags(v == 0, false, false, false))
}

/// Decimal adjust of A after a BCD addition (N clear) or subtraction (N set),
/// from the H and C flags of that operation; returns the value and the new carry.
pub open spec fn daa8(a: u8, n: bool, h: bool, c: bool) -> (u8, bool) {
    if !n {
        let a1 = if c || a > 0x99 { (a + 0x60) % 256 } else { a as int };
        let a2 = if h || a1 % 16 > 9 { (a1 + 0x06) % 256 } else { a1 };
        (a2 as u8, c || a > 0x99)
    } else {
        if c {
            (((a + if h { 0x9Aint } else { 0xA0int }) % 256) as u8, true)
        } else if h {
            (((a + 0xFA) % 256) as u8, false)
        } else {
            (a, false)
        }
    }
}

impl Cpu {
    /// Sets all four flags; with a clear low nibble, F then holds exactly them.
    pub(crate) fn set_flags(&mut self, z: bool, n: bool, h: bool, c: bool)
        requires
            old(self).regs.f & 0x0F == 0,
        ensures
            final(self).regs == (Registers { f: flags(z, n, h, c), ..old(self).regs }),
            final(self).interrupts == old(self).interrupts,
            final(self).ctx == old(self).ctx,
    {
        proof {
            let f = self.regs.f;
            lemma_flags(f, false, false, false, false, false);
            let (fz, fn_, fh, fc) = (f & 0x80 != 0, f & 0x40 != 0, f & 0x20 != 0, f & 0x10 != 0);
            lemma_flags(f, fz, fn_, fh, fc, z);
            lemma_flags(f, z, fn_, fh, fc, n);
            lemma_flags(f, z, n, fh, fc, h);
            lemma_flags(f, z, n, h, fc, c);
        }
        self.regs.set_zf(z);
        self.regs.set_nf(n);
        self.regs.set_hf(h);
        self.regs.set_cf(c);
    }

    /// Subtraction of `val` and the carry `carry` from A; sets the flags and
    /// returns the difference (A itself is not written).
    pub(crate) fn sub_general(&mut self, val: u8, carry: bool) -> (r: u8)
        requires
            old(self).regs.f & 0x0F == 0,
        ensures
            r == sbc8(old(self).regs.a, val, carry).0,
            final(self).regs == (Registers { f: sbc8(old(self).regs.a, val, carry).1, ..old(self).regs }),
            final(self).interrupts == old(self).interrupts,
            final(self).ctx == old(self).ctx,
    {
        let cy: u8 = if carry { 1 } else { 0 };
        let a = self.regs.a;
        let result = a.wrapping_sub(val).wrapping_sub(cy);
        proof {
            lemma_byte_arith(a);
            lemma_byte_arith(val);
        }
        self.set_flags(result == 0, true, (a & 0xf) < (val & 0xf) + cy, (a as u16) < (val as u16) + (cy as u16));
        result
    }

    pub(crate) fn rlc_general(&mut self, val: u8) -> (r: u8)
        requires
            old(self).regs.f & 0x0F == 0,
        ensures
            r == rlc8(val).0,
            final(self).regs == (Registers { f: rlc8(val).1, ..old(self).regs }),
            final(self).interrupts == old(self).interrupts,
            final(self).ctx == old(self).ctx,
    {
        proof {
            lemma_byte_arith(val);
            lemma_or_disjoint(val);
        }
        self.set_flags(val == 0, false, false, val & 0x80 > 0);
        (val << 1) | (val >> 7)
    }

    pub(crate) fn rl_general(&mut self, val: u8) -> (r: u8)
        requires
            old(self).regs.f & 0x0F == 0,
        ensures
            r == rl8(val, old(self).regs.flag_c()).0,
            final(self).regs == (Registers { f: rl8(val, old(self).regs.flag_c()).1, ..old(self).regs }),
            final(self).interrupts == old(self).interrupts,
            final(self).ctx == old(self).ctx,
    {
        let c: u8 = if self.regs.cf() { 1 } else { 0 };
        proof {
            lemma_byte_arith(val);
            lemma_or_disjoint(val);
        }
        let new_val = (val << 1) | c;
        self.set_flags(new_val == 0, false, false, val & 0x80 > 0);
        new_val
    }

    pub(crate) fn rrc_general(&mut self, val: u8) -> (r: u8)
        requires
            old(self).regs.f & 0x0F == 0,
        ensures
            r == rrc8(val).0,
            final(self).regs == (Registers { f: rrc8(val).1, ..old(self).regs }),
            final(self).interrupts == old(self).interrupts,
            final(self).ctx == old(self).ctx,
    {
        proof {
            lemma_byte_arith(val);
            lemma_or_disjoint(val);
        }
        self.set_flags(val == 0, false, false, val & 1 > 0);
        (val << 7) | (val >> 1)
    }

    pub(crate) fn rr_general(&mut self, val: u8) -> (r: u8)
        requires
            old(self).regs.f & 0x0F == 0,
        ensures
            r == rr8(val, old(self).regs.flag_c()).0,
            final(self).regs == (Registers { f: rr8(val, old(self).regs.flag_c()).1, ..old(self).regs }),
            final(self).interrupts == old(self).interrupts,
            final(self).ctx == old(self).ctx,
    {
        let c: u8 = if self.regs.cf() { 1 } else { 0 };
        proof {
            lemma_byte_arith(val);
            lemma_or_disjoint(val);
        }
        let new_val = (c << 7) | (val >> 1);
        self.set_flags(new_val == 0, false, false, val & 1 > 0);
        new_val
    }
}

/// The rotations combine disjoint bit ranges, so OR is addition.
pub(crate) proof fn lemma_or_disjoint(v: u8)
    ensures
        (v << 1u8) | (v >> 7u8) == (v << 1u8) + (v >> 7u8),
        (v << 7u8) | (v >> 1u8) == (v << 7u8) + (v >> 1u8),
        (v << 1u8) | 1u8 == (v << 1u8) + 1,
        (v << 1u8) | 0u8 == (v << 1u8),
        (1u8 << 7u8) | (v >> 1u8) == 128 + (v >> 1u8),
        (0u8 << 7u8) | (v >> 1u8) == (v >> 1u8),
        (v << 4u8) | (v >> 4u8) == (v << 4u8) + (v >> 4u8),
        (v & 0x80) | (v >> 1u8) == (v & 0x80) + (v >> 1u8),
{
    assert({
        &&& (v << 1u8) | (v >> 7u8) == (v << 1u8) + (v >> 7u8)
        &&& (v << 7u8) | (v >> 1u8) == (v << 7u8) + (v >> 1u8)
        &&& (v << 1u8) | 1u8 == (v << 1u8) + 1
        &&& (v << 1u8) | 0u8 == (v << 1u8)
        &&& (1u8 << 7u8) | (v >> 1u8) == 128 + (v >> 1u8)
        &&& (0u8 << 7u8) | (v >> 1u8) == (v >> 1u8)
        &&& (v << 4u8) | (v >> 4u8) == (v << 4u8) + (v >> 4u8)
        &&& (v & 0x80) | (v >> 1u8) == (v & 0x80) + (v >> 1u8)
    }) by (bit_vector);
}


/// A byte holds two decimal digits, one per nibble.
pub open spec fn is_bcd(v: u8) -> bool {
    v / 16 <= 9 && v % 16 <= 9
}

/// The number 0-99 that a packed BCD byte stands for.
pub open spec fn bcd_value(v: u8) -> int {
    (v / 16) * 10 + v % 16
}

/// Rotating left and then right gives the byte back, and so does the other order.
pub proof fn lemma_rotate_inverse(v: u8)
    ensures
        rrc8(rlc8(v).0).0 == v,
        rlc8(rrc8(v).0).0 == v,
{
}

/// A rotation through the carry is undone by the opposite rotation through
/// the carry that it left.
pub proof fn lemma_rotate_carry_inverse(v: u8, c: bool)
    ensures
        rr8(rl8(v, c).0, v >= 128).0 == v,
        rl8(rr8(v, c).0, v % 2 == 1).0 == v,
{
}

/// Swapping the nibbles twice gives the byte back.
pub proof fn lemma_swap_involution(v: u8)
    ensures
        swap8(swap8(v).0).0 == v,
{
}

/// Z after an ALU operation tells whether its result is zero; after CP it
/// tells whether the operands are equal.
pub proof fn lemma_alu_zero_flag(a: u8, v: u8, c: bool)
    ensures
        (adc8(a, v, c).1 & 0x80 != 0) == (adc8(a, v, c).0 == 0),
        (sbc8(a, v, c).1 & 0x80 != 0) == (sbc8(a, v, c).0 == 0),
        (sbc8(a, v, false).1 & 0x80 != 0) == (a == v),
        (and8(a, v).1 & 0x80 != 0) == (and8(a, v).0 == 0),
        (or8(a, v).1 & 0x80 != 0) == (or8(a, v).0 == 0),
        (xor8(a, v).1 & 0x80 != 0) == (xor8(a, v).0 == 0),
        (xor8(a, a).1 & 0x80 != 0),
{
    let d = a - v;
    assert(xor8(a, a).0 == 0) by (bit_vector);
    lemma_flags(0, adc8(a, v, c).0 == 0, false, a % 16 + v % 16 + bit(c) > 15, a + v + bit(c) > 255, false);
    lemma_flags(0, sbc8(a, v, c).0 == 0, true, a % 16 < v % 16 + bit(c), a < v + bit(c), false);
    lemma_flags(0, sbc8(a, v, false).0 == 0, true, a % 16 < v % 16, a < v, false);
    lemma_flags(0, a & v == 0, false, true, false, false);
    lemma_flags(0, a | v == 0, false, false, false, false);
    lemma_flags(0, a ^ v == 0, false, false, false, false);
    lemma_flags(0, a ^ a == 0, false, false, false, false);
}

/// The decimal adjustment after an addition, on digits: the byte sum of
/// 16 * ah + al and 16 * bh + bl, adjusted, is the BCD form of the decimal
/// sum modulo 100, and the adjustment carries exactly when it reaches 100.
proof fn lemma_daa_add_digits(ah: u8, al: u8, bh: u8, bl: u8)
    requires
        ah <= 9 && al <= 9 && bh <= 9 && bl <= 9,
    ensures
        ({
            let sum = 16 * (ah + bh) + al + bl;
            let s = sum % 256;
            let t1 = sum > 255 || s > 0x99;
            let a1 = if t1 { (s + 0x60) % 256 } else { s };
            let a2 = if al + bl > 15 || a1 % 16 > 9 { (a1 + 0x06) % 256 } else { a1 };
            let d = 10 * (ah + bh) + al + bl;
            &&& 0 <= a2 < 256
            &&& a2 / 16 <= 9 && a2 % 16 <= 9
            &&& (a2 / 16) * 10 + a2 % 16 == d % 100
            &&& t1 == (d >= 100)
        }),
{
    assert({
        let sum = 16 * (ah + bh) + al + bl;
        let s = sum % 256;
        let t1 = sum > 255 || s > 0x99;
        let a1 = if t1 { (s + 0x60) % 256 } else { s };
        let a2 = if al + bl > 15 || a1 % 16 > 9 { (a1 + 0x06) % 256 } else { a1 };
        let d = 10 * (ah + bh) + al + bl;
        &&& 0 <= a2 < 256
        &&& a2 / 16 <= 9 && a2 % 16 <= 9
        &&& (a2 / 16) * 10 + a2 % 16 == d % 100
        &&& t1 == (d >= 100)
    }) by (bit_vector)
        requires
            ah <= 9 && al <= 9 && bh <= 9 && bl <= 9;
}

/// After an addition of two packed BCD bytes, DAA gives the BCD sum modulo
/// 100 and sets C exactly when the sum reaches 100.
#[verifier::rlimit(60)]
pub proof fn lemma_daa_after_add(a: u8, b: u8)
    requires
        is_bcd(a),
        is_bcd(b),
    ensures
        ({
            let (s, f) = adc8(a, b, false);
            let (r, c) = daa8(s, false, f & 0x20 != 0, f & 0x10 != 0);
            &&& is_bcd(r)
            &&& bcd_value(r) == (bcd_value(a) + bcd_value(b)) % 100
            &&& c == (bcd_value(a) + bcd_value(b) >= 100)
        }),
{
    let (s, f) = adc8(a, b, false);
    let (ah, al, bh, bl) = (a / 16, a % 16, b / 16, b % 16);
    let sum = 16 * (ah + bh) + al + bl;
    assert(a + b == sum);
    assert(s == sum % 256);
    assert((f & 0x20 != 0) == (al + bl > 15) && (f & 0x10 != 0) == (sum > 255)) by {
        lemma_flags(0, s == 0, false, a % 16 + b % 16 > 15, a + b > 255, false);
    }
    lemma_daa_add_digits(ah, al, bh, bl);
}

/// The decimal adjustment after a subtraction, on digits.
proof fn lemma_daa_sub_digits(ah: u8, al: u8, bh: u8, bl: u8)
    requires
        ah <= 9 && al <= 9 && bh <= 9 && bl <= 9,
    ensures
        ({
            let a = 16 * ah + al;
            let b = 16 * bh + bl;
            let s = (a + 256 - b) % 256;
            let c = a < b;
            let h = al < bl;
            let a2 = if c {
                if h { (s + 0x9A) % 256 } else { (s + 0xA0) % 256 }
            } else if h {
                (s + 0xFA) % 256
            } else {
                s
            };
            let d = (10 * ah + al + 100) - (10 * bh + bl);
            &&& 0 <= a2 < 256
            &&& a2 / 16 <= 9 && a2 % 16 <= 9
            &&& (a2 / 16) * 10 + a2 % 16 == d % 100
            &&& c == (10 * ah + al < 10 * bh + bl)
        }),
{
    assert({
        let a = 16 * ah + al;
        let b = 16 * bh + bl;
        let s = (a + 256 - b) % 256;
        let c = a < b;
        let h = al < bl;
        let a2 = if c {
            if h { (s + 0x9A) % 256 } else { (s + 0xA0) % 256 }
        } else if h {
            (s + 0xFA) % 256
        } else {
            s
        };
        let d = (10 * ah + al + 100) - (10 * bh + bl);
        &&& 0 <= a2 < 256
        &&& a2 / 16 <= 9 && a2 % 16 <= 9
        &&& (a2 / 16) * 10 + a2 % 16 == d % 100
        &&& c == (10 * ah + al < 10 * bh + bl)
    }) by (bit_vector)
        requires
            ah <= 9 && al <= 9 && bh <= 9 && bl <= 9;
}

/// After a subtraction of two packed BCD bytes, DAA gives the BCD difference
/// modulo 100 and sets C exactly when it borrowed.
#[verifier::rlimit(60)]
pub proof fn lemma_daa_after_sub(a: u8, b: u8)
    requires
        is_bcd(a),
        is_bcd(b),
    ensures
        ({
            let (s, f) = sbc8(a, b, false);
            let (r, c) = daa8(s, true, f & 0x20 != 0, f & 0x10 != 0);
            &&& is_bcd(r)
            &&& bcd_value(r) == (bcd_value(a) - bcd_value(b)) % 100
            &&& c == (bcd_value(a) < bcd_value(b))
        }),
{
    let (s, f) = sbc8(a, b, false);
    let (ah, al, bh, bl) = (a / 16, a % 16, b / 16, b % 16);
    assert(a == 16 * ah + al && b == 16 * bh + bl);
    assert(s == (a + 256 - b) % 256);
    assert((f & 0x20 != 0) == (al < bl) && (f & 0x10 != 0) == (a < b)) by {
        lemma_flags(0, s == 0, true, a % 16 < b % 16, a < b, false);
    }
    let da = 10 * ah + al;
    let db = 10 * bh + bl;
    assert((da - db) % 100 == (da + 100 - db) % 100);
    lemma_daa_sub_digits(ah, al, bh, bl);
}

} // verus!
