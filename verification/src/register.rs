use vstd::prelude::*;

verus! {

/// Bit masks of the four flags in the F register.
pub const FLAG_Z: u8 = 0x80;
pub const FLAG_N: u8 = 0x40;
pub const FLAG_H: u8 = 0x20;
pub const FLAG_C: u8 = 0x10;

/// The CPU register file. F holds the flags Z, N, H and C in its upper four bits.
#[derive(Clone, Copy)]
pub struct Registers {
    pub pc: u16,
    pub sp: u16,
    pub a: u8,
    pub f: u8,
    pub b: u8,
    pub c: u8,
    pub d: u8,
    pub e: u8,
    pub h: u8,
    pub l: u8,
}

/// The 16-bit value of a register pair with high byte `hi` and low byte `lo`.
pub open spec fn pair(hi: u8, lo: u8) -> u16 {
    (hi as int * 256 + lo as int) as u16
}

/// `f` with the bits of `mask` set when `on`, cleared otherwise.
pub open spec fn with_flag(f: u8, mask: u8, on: bool) -> u8 {
    if on { f | mask } else { f & !mask }
}

pub proof fn lemma_pair(hi: u8, lo: u8)
    ensures
        ((hi as u16) << 8u16) | (lo as u16) == pair(hi, lo),
        (pair(hi, lo) >> 8u16) as u8 == hi,
        pair(hi, lo) as u8 == lo,
{
    let h16 = hi as u16;
    let l16 = lo as u16;
    let v = pair(hi, lo);
    assert(v == h16 * 256 + l16);
    assert({
        &&& ((h16 << 8u16) | l16) == v
        &&& (v >> 8u16) as u8 == hi
        &&& v as u8 == lo
    }) by (bit_vector)
        requires v == h16 * 256 + l16, h16 == hi as u16, l16 == lo as u16;
}

pub proof fn lemma_split(v: u16)
    ensures
        pair((v >> 8u16) as u8, v as u8) == v,
        (v >> 8u16) < 256,
{
    let hi = (v >> 8u16) as u8;
    let lo = v as u8;
    assert({
        &&& (v >> 8u16) < 256
        &&& (hi as u16) * 256 + (lo as u16) == v
    }) by (bit_vector)
        requires hi == (v >> 8u16) as u8, lo == v as u8;
}

/// Setting a flag bit and then testing the same bit gives back the value set,
/// and bits outside the mask are untouched.
pub proof fn lemma_with_flag(f: u8, mask: u8, on: bool, other: u8)
    requires
        mask == FLAG_Z || mask == FLAG_N || mask == FLAG_H || mask == FLAG_C,
        other == FLAG_Z || other == FLAG_N || other == FLAG_H || other == FLAG_C,
        other != mask,
    ensures
        (with_flag(f, mask, on) & mask != 0) == on,
        mask == FLAG_Z ==> f & !mask == f & 0x7f,
        mask == FLAG_N ==> f & !mask == f & 0xbf,
        mask == FLAG_H ==> f & !mask == f & 0xdf,
        mask == FLAG_C ==> f & !mask == f & 0xef,
        with_flag(f, mask, on) & other == f & other,
{
    assert({
        &&& (mask == 0x80u8 ==> f & !mask == f & 0x7fu8)
        &&& (mask == 0x40u8 ==> f & !mask == f & 0xbfu8)
        &&& (mask == 0x20u8 ==> f & !mask == f & 0xdfu8)
        &&& (mask == 0x10u8 ==> f & !mask == f & 0xefu8)
        &&& (((if on { f | mask } else { f & !mask }) & mask != 0) == on)
        &&& ((if on { f | mask } else { f & !mask }) & other == f & other)
    }) by (bit_vector)
        requires
            mask == 0x80u8 || mask == 0x40u8 || mask == 0x20u8 || mask == 0x10u8,
            other == 0x80u8 || other == 0x40u8 || other == 0x20u8 || other == 0x10u8,
            other != mask;
}

impl Registers {
    pub open spec fn flag_z(self) -> bool {
        self.f & FLAG_Z != 0
    }

    pub open spec fn flag_n(self) -> bool {
        self.f & FLAG_N != 0
    }

    pub open spec fn flag_h(self) -> bool {
        self.f & FLAG_H != 0
    }

    pub open spec fn flag_c(self) -> bool {
        self.f & FLAG_C != 0
    }

    /// The flag register that holds exactly the four given flags (low nibble zero).
    pub open spec fn flags_of(z: bool, n: bool, h: bool, c: bool) -> u8 {
        (if z { 0x80u8 } else { 0u8 }) | (if n { 0x40u8 } else { 0u8 }) | (if h { 0x20u8 } else {
            0u8
        }) | (if c { 0x10u8 } else { 0u8 })
    }

    pub fn new() -> (r: Registers)
        ensures
            r.pc == 0 && r.sp == 0 && r.a == 0 && r.f == 0 && r.b == 0,
            r.c == 0 && r.d == 0 && r.e == 0 && r.h == 0 && r.l == 0,
    {
        Registers { pc: 0, sp: 0, a: 0, f: 0, b: 0, c: 0, d: 0, e: 0, h: 0, l: 0 }
    }

    pub fn af(&self) -> (r: u16)
        ensures
            r == pair(self.a, self.f),
    {
        proof {
            lemma_pair(self.a, self.f);
        }
        ((self.a as u16) << 8) | (self.f as u16)
    }

    pub fn bc(&self) -> (r: u16)
        ensures
            r == pair(self.b, self.c),
    {
        proof {
            lemma_pair(self.b, self.c);
        }
        ((self.b as u16) << 8) | (self.c as u16)
    }

    pub fn de(&self) -> (r: u16)
        ensures
            r == pair(self.d, self.e),
    {
        proof {
            lemma_pair(self.d, self.e);
        }
        ((self.d as u16) << 8) | (self.e as u16)
    }

    pub fn hl(&self) -> (r: u16)
        ensures
            r == pair(self.h, self.l),
    {
        proof {
            lemma_pair(self.h, self.l);
        }
        ((self.h as u16) << 8) | (self.l as u16)
    }

    /// Sets A and F; the lower four bits of F always read as zero.
    pub fn set_af(&mut self, val: u16)
        ensures
            final(self).a == (val >> 8u16) as u8,
            final(self).f == (val & 0xF0u16) as u8,
            pair(final(self).a, final(self).f) == val & 0xFFF0u16,
            final(self).pc == old(self).pc && final(self).sp == old(self).sp,
            final(self).b == old(self).b && final(self).c == old(self).c,
            final(self).d == old(self).d && final(self).e == old(self).e,
            final(self).h == old(self).h && final(self).l == old(self).l,
    {
        self.a = (val >> 8) as u8;
        self.f = (val & 0xF0) as u8;
        proof {
            let a = self.a;
            let f = self.f;
            lemma_pair(a, f);
            assert(((a as u16) << 8u16) | (f as u16) == val & 0xFFF0u16) by (bit_vector)
                requires a == (val >> 8u16) as u8, f == (val & 0xF0u16) as u8;
        }
    }

    pub fn set_bc(&mut self, val: u16)
        ensures
            *final(self) == (Registers { b: (val >> 8u16) as u8, c: val as u8, ..*old(self) }),
            pair(final(self).b, final(self).c) == val,
    {
        self.b = (val >> 8) as u8;
        self.c = val as u8;
        proof {
            lemma_split(val);
        }
    }

    pub fn set_de(&mut self, val: u16)
        ensures
            *final(self) == (Registers { d: (val >> 8u16) as u8, e: val as u8, ..*old(self) }),
            pair(final(self).d, final(self).e) == val,
    {
        self.d = (val >> 8) as u8;
        self.e = val as u8;
        proof {
            lemma_split(val);
        }
    }

    pub fn set_hl(&mut self, val: u16)
        ensures
            *final(self) == (Registers { h: (val >> 8u16) as u8, l: val as u8, ..*old(self) }),
            pair(final(self).h, final(self).l) == val,
    {
        self.h = (val >> 8) as u8;
        self.l = val as u8;
        proof {
            lemma_split(val);
        }
    }

    pub fn zf(&self) -> (r: bool)
        ensures
            r == self.flag_z(),
    {
        (self.f & 0b_1000_0000) > 0
    }

    pub fn nf(&self) -> (r: bool)
        ensures
            r == self.flag_n(),
    {
        (self.f & 0b_0100_0000) > 0
    }

    pub fn hf(&self) -> (r: bool)
        ensures
            r == self.flag_h(),
    {
        (self.f & 0b_0010_0000) > 0
    }

    pub fn cf(&self) -> (r: bool)
        ensures
            r == self.flag_c(),
    {
        (self.f & 0b_0001_0000) > 0
    }

    pub fn set_zf(&mut self, zf: bool)
        ensures
            *final(self) == (Registers { f: with_flag(old(self).f, FLAG_Z, zf), ..*old(self) }),
            final(self).flag_z() == zf,
            final(self).flag_n() == old(self).flag_n(),
            final(self).flag_h() == old(self).flag_h(),
            final(self).flag_c() == old(self).flag_c(),
    {
        proof {
            lemma_with_flag(self.f, FLAG_Z, zf, FLAG_N);
            lemma_with_flag(self.f, FLAG_Z, zf, FLAG_H);
            lemma_with_flag(self.f, FLAG_Z, zf, FLAG_C);
        }
        if zf {
            self.f = self.f | 0b_1000_0000;
        } else {
            self.f = self.f & 0b_0111_1111;
        }
    }

    pub fn set_nf(&mut self, nf: bool)
        ensures
            *final(self) == (Registers { f: with_flag(old(self).f, FLAG_N, nf), ..*old(self) }),
            final(self).flag_n() == nf,
            final(self).flag_z() == old(self).flag_z(),
            final(self).flag_h() == old(self).flag_h(),
            final(self).flag_c() == old(self).flag_c(),
    {
        proof {
            lemma_with_flag(self.f, FLAG_N, nf, FLAG_Z);
            lemma_with_flag(self.f, FLAG_N, nf, FLAG_H);
            lemma_with_flag(self.f, FLAG_N, nf, FLAG_C);
        }
        if nf {
            self.f = self.f | 0b_0100_0000;
        } else {
            self.f = self.f & 0b_1011_1111;
        }
    }

    pub fn set_hf(&mut self, hf: bool)
        ensures
            *final(self) == (Registers { f: with_flag(old(self).f, FLAG_H, hf), ..*old(self) }),
            final(self).flag_h() == hf,
            final(self).flag_z() == old(self).flag_z(),
            final(self).flag_n() == old(self).flag_n(),
            final(self).flag_c() == old(self).flag_c(),
    {
        proof {
            lemma_with_flag(self.f, FLAG_H, hf, FLAG_Z);
            lemma_with_flag(self.f, FLAG_H, hf, FLAG_N);
            lemma_with_flag(self.f, FLAG_H, hf, FLAG_C);
        }
        if hf {
            self.f = self.f | 0b_0010_0000;
        } else {
            self.f = self.f & 0b_1101_1111;
        }
    }

    pub fn set_cf(&mut self, cf: bool)
        ensures
            *final(self) == (Registers { f: with_flag(old(self).f, FLAG_C, cf), ..*old(self) }),
            final(self).flag_c() == cf,
            final(self).flag_z() == old(self).flag_z(),
            final(self).flag_n() == old(self).flag_n(),
            final(self).flag_h() == old(self).flag_h(),
    {
        proof {
            lemma_with_flag(self.f, FLAG_C, cf, FLAG_Z);
            lemma_with_flag(self.f, FLAG_C, cf, FLAG_N);
            lemma_with_flag(self.f, FLAG_C, cf, FLAG_H);
        }
        if cf {
            self.f = self.f | 0b_0001_0000;
        } else {
            self.f = self.f & 0b_1110_1111;
        }
    }
}

/// A flag register with a clear low nibble is determined by its four flags,
/// and setting one flag changes only that flag.
pub proof fn lemma_flags(f: u8, z: bool, n: bool, h: bool, c: bool, b: bool)
    ensures
        f & 0x0F == 0 ==> f == Registers::flags_of(f & FLAG_Z != 0, f & FLAG_N != 0, f & FLAG_H != 0, f & FLAG_C != 0),
        with_flag(Registers::flags_of(z, n, h, c), FLAG_Z, b) == Registers::flags_of(b, n, h, c),
        with_flag(Registers::flags_of(z, n, h, c), FLAG_N, b) == Registers::flags_of(z, b, h, c),
        with_flag(Registers::flags_of(z, n, h, c), FLAG_H, b) == Registers::flags_of(z, n, b, c),
        with_flag(Registers::flags_of(z, n, h, c), FLAG_C, b) == Registers::flags_of(z, n, h, b),
        Registers::flags_of(z, n, h, c) & 0x0F == 0,
        (Registers::flags_of(z, n, h, c) & FLAG_Z != 0) == z,
        (Registers::flags_of(z, n, h, c) & FLAG_N != 0) == n,
        (Registers::flags_of(z, n, h, c) & FLAG_H != 0) == h,
        (Registers::flags_of(z, n, h, c) & FLAG_C != 0) == c,
{
    assert({
        let fz = if z { 0x80u8 } else { 0u8 };
        let fn_ = if n { 0x40u8 } else { 0u8 };
        let fh = if h { 0x20u8 } else { 0u8 };
        let fc = if c { 0x10u8 } else { 0u8 };
        let all = fz | fn_ | fh | fc;
        &&& (f & 0x0F == 0 ==> f == (if f & 0x80 != 0 { 0x80u8 } else { 0u8 }) | (if f & 0x40 != 0 {
            0x40u8
        } else {
            0u8
        }) | (if f & 0x20 != 0 { 0x20u8 } else { 0u8 }) | (if f & 0x10 != 0 { 0x10u8 } else { 0u8 }))
        &&& (if b { all | 0x80 } else { all & !0x80u8 }) == (if b { 0x80u8 } else { 0u8 }) | fn_ | fh | fc
        &&& (if b { all | 0x40 } else { all & !0x40u8 }) == fz | (if b { 0x40u8 } else { 0u8 }) | fh | fc
        &&& (if b { all | 0x20 } else { all & !0x20u8 }) == fz | fn_ | (if b { 0x20u8 } else { 0u8 }) | fc
        &&& (if b { all | 0x10 } else { all & !0x10u8 }) == fz | fn_ | fh | (if b { 0x10u8 } else { 0u8 })
        &&& all & 0x0F == 0
        &&& (all & 0x80 != 0) == z && (all & 0x40 != 0) == n && (all & 0x20 != 0) == h && (all & 0x10 != 0) == c
    }) by (bit_vector);
}

/// Writing a register pair and reading it back gives the value written
/// (for AF, with the low nibble of F cleared).
pub proof fn lemma_pair_roundtrip(v: u16)
    ensures
        pair((v >> 8u16) as u8, v as u8) == v,
        pair((v >> 8u16) as u8, (v & 0xF0u16) as u8) == v & 0xFFF0u16,
{
    lemma_split(v);
    let a = (v >> 8u16) as u8;
    let f = (v & 0xF0u16) as u8;
    lemma_pair(a, f);
    assert(((a as u16) << 8u16) | (f as u16) == v & 0xFFF0u16) by (bit_vector)
        requires a == (v >> 8u16) as u8, f == (v & 0xF0u16) as u8;
}

/// Every flag register built from four flags has a clear low nibble.
pub proof fn lemma_flags_low_nibble()
    ensures
        forall|z: bool, n: bool, h: bool, c: bool| #[trigger] Registers::flags_of(z, n, h, c) & 0x0F == 0,
{
    assert forall|z: bool, n: bool, h: bool, c: bool| #[trigger] Registers::flags_of(z, n, h, c) & 0x0F == 0 by {
        lemma_flags(0, z, n, h, c, false);
    }
}

} // verus!
