use vstd::prelude::*;

verus! {

/// Interrupt request bits, in priority order (bit 0 is served first).
pub const VBLANK: u8 = 1;
pub const STAT: u8 = 2;
pub const TIMER: u8 = 4;
pub const SERIAL: u8 = 8;
pub const JOYPAD: u8 = 16;

/// The interrupt controller: the master enable (IME), the request
/// register IF (0xFF0F) and the enable register IE (0xFFFF).
pub struct Interrupts {
    pub ime: bool,
    pub intr_flags: u8,
    pub intr_enable: u8,
}

/// The interrupts that are both requested and enabled, as a 5-bit mask.
pub open spec fn pending(flags: u8, enable: u8) -> u8 {
    flags & enable & 0x1f
}

impl Interrupts {
    pub fn new() -> (r: Interrupts)
        ensures
            !r.ime,
            r.intr_flags == 0,
            r.intr_enable == 0,
    {
        Interrupts { ime: false, intr_flags: 0, intr_enable: 0 }
    }

    /// Requested and enabled interrupts.
    pub fn get_interrupt(&self) -> (r: u8)
        ensures
            r == pending(self.intr_flags, self.intr_enable),
            r < 32,
    {
        let f = self.intr_flags;
        let e = self.intr_enable;
        let r = f & e & 0b11111;
        assert(r < 32) by (bit_vector)
            requires r == f & e & 0x1fu8;
        r
    }

    /// Requests the interrupts whose bits are set in `val`.
    pub fn irq(&mut self, val: u8)
        ensures
            final(self).intr_flags == old(self).intr_flags | val,
            final(self).intr_enable == old(self).intr_enable,
            final(self).ime == old(self).ime,
    {
        self.intr_flags = self.intr_flags | val;
    }

    /// Acknowledges (clears) the requests whose bits are set in `mask`.
    pub fn ack_interrupt(&mut self, mask: u8)
        ensures
            final(self).intr_flags == old(self).intr_flags & !mask,
            final(self).intr_enable == old(self).intr_enable,
            final(self).ime == old(self).ime,
    {
        self.intr_flags = self.intr_flags & !mask;
    }

    pub open spec fn read_value(&self, addr: u16) -> u8 {
        if addr == 0xFF0F {
            self.intr_flags
        } else {
            self.intr_enable
        }
    }

    pub open spec fn written(self, addr: u16, val: u8) -> Interrupts {
        if addr == 0xFF0F {
            Interrupts { intr_flags: val, ..self }
        } else {
            Interrupts { intr_enable: val, ..self }
        }
    }

    pub fn read(&self, addr: u16) -> (r: u8)
        requires
            addr == 0xFF0F || addr == 0xFFFF,
        ensures
            r == self.read_value(addr),
            addr == 0xFF0F ==> r == self.intr_flags,
            addr == 0xFFFF ==> r == self.intr_enable,
    {
        if addr == 0xFF0F {
            self.intr_flags
        } else {
            self.intr_enable
        }
    }

    pub fn write(&mut self, addr: u16, val: u8)
        requires
            addr == 0xFF0F || addr == 0xFFFF,
        ensures
            *final(self) == old(self).written(addr, val),
            final(self).ime == old(self).ime,
            addr == 0xFF0F ==> final(self).intr_flags == val
                && final(self).intr_enable == old(self).intr_enable,
            addr == 0xFFFF ==> final(self).intr_enable == val
                && final(self).intr_flags == old(self).intr_flags,
    {
        if addr == 0xFF0F {
            self.intr_flags = val;
        } else {
            self.intr_enable = val;
        }
    }
}

/// Requests made one after another add up: OR is associative and 0 requests nothing.
pub proof fn lemma_flags_or(f: u8, a: u8, b: u8)
    ensures
        (f | a) | b == f | (a | b),
        f | 0 == f,
        0 | a == a,
{
    assert((f | a) | b == f | (a | b) && f | 0 == f && 0 | a == a) by (bit_vector);
}

impl Default for Interrupts {
    fn default() -> (r: Interrupts)
        ensures
            !r.ime,
            r.intr_flags == 0,
            r.intr_enable == 0,
    {
        Interrupts::new()
    }
}

/// A requested interrupt stays requested until it is acknowledged:
/// `irq` only adds bits, and `ack_interrupt` clears exactly the bits it is given.
pub proof fn lemma_irq_then_ack(flags: u8, req: u8, mask: u8)
    ensures
        (flags | req) | req == flags | req,
        (flags | req) & req == req,
        ((flags | req) & !mask) & mask == 0,
        ((flags | req) & !mask) & !mask == (flags | req) & !mask,
{
    assert({
        &&& (flags | req) | req == flags | req
        &&& (flags | req) & req == req
        &&& ((flags | req) & !mask) & mask == 0
        &&& ((flags | req) & !mask) & !mask == (flags | req) & !mask
    }) by (bit_vector);
}

} // verus!
