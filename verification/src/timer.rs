use vstd::prelude::*;

use crate::bits::lemma_low_bits_u16;
use crate::interrupts::{Interrupts, TIMER};
use vstd::arithmetic::div_mod::{lemma_add_mod_noop, lemma_mod_mod};

verus! {

/// The timer: the 16-bit divider (its upper byte is DIV, 0xFF04), the
/// counter TIMA (0xFF05), the reload value TMA (0xFF06) and the control TAC (0xFF07).
/// `overflow` marks the cycle after TIMA wrapped, when TMA is loaded and
/// the timer interrupt is requested.
pub struct Timer {
    pub div: u16,
    pub tima: u8,
    pub tma: u8,
    pub tac: u8,
    pub overflow: bool,
}

/// The number of clock ticks between TIMA increments for the clock select of TAC.
pub open spec fn timer_period(tac: u8) -> u16 {
    if tac & 3 == 1 {
        16
    } else if tac & 3 == 2 {
        64
    } else if tac & 3 == 3 {
        256
    } else {
        1024
    }
}

pub open spec fn is_timer_addr(addr: u16) -> bool {
    0xFF04 <= addr <= 0xFF07
}

impl Timer {
    /// The state after one machine cycle (four clock ticks).
    pub open spec fn next(self) -> Timer {
        let div = ((self.div + 4) % 0x10000) as u16;
        if self.overflow {
            Timer { div, tima: self.tma, overflow: false, ..self }
        } else if self.tac & 4 != 0 && div & ((timer_period(self.tac) - 1) as u16) == 0 {
            Timer { div, tima: ((self.tima + 1) % 256) as u8, overflow: self.tima == 255, ..self }
        } else {
            Timer { div, ..self }
        }
    }

    /// The state after `n` machine cycles.
    pub open spec fn after(self, n: nat) -> Timer
        decreases n,
    {
        if n == 0 {
            self
        } else {
            self.after((n - 1) as nat).next()
        }
    }

    pub open spec fn read_value(&self, addr: u16) -> u8 {
        if addr == 0xFF04 {
            (self.div >> 8u16) as u8
        } else if addr == 0xFF05 {
            self.tima
        } else if addr == 0xFF06 {
            self.tma
        } else {
            0b11111000u8 | self.tac
        }
    }

    /// The timer after a write of `val` to `addr`.
    pub open spec fn written(self, addr: u16, val: u8) -> Timer {
        if addr == 0xFF04 {
            Timer { div: 0, ..self }
        } else if addr == 0xFF05 {
            if self.overflow {
                self
            } else {
                Timer { tima: val, ..self }
            }
        } else if addr == 0xFF06 {
            Timer { tma: val, ..self }
        } else {
            Timer { tac: val & 0b111, ..self }
        }
    }

    pub fn new() -> (r: Timer)
        ensures
            r == (Timer { div: 0, tima: 0, tma: 0, tac: 0, overflow: false }),
    {
        Timer { div: 0, tima: 0, tma: 0, tac: 0, overflow: false }
    }

    /// Advances the timer by one machine cycle; when a TIMA overflow from the
    /// previous cycle is pending, TMA is reloaded and the timer interrupt is requested.
    pub fn emulate_cycle(&mut self, interrupts: &mut Interrupts)
        ensures
            *final(self) == old(self).next(),
            old(self).overflow ==> *final(interrupts) == (Interrupts {
                intr_flags: old(interrupts).intr_flags | TIMER,
                ..*old(interrupts)
            }),
            !old(self).overflow ==> *final(interrupts) == *old(interrupts),
    {
        self.div = self.div.wrapping_add(4);
        let modulo: u16 = if self.tac & 0b11 == 0b01 {
            16
        } else if self.tac & 0b11 == 0b10 {
            64
        } else if self.tac & 0b11 == 0b11 {
            256
        } else {
            1024
        };
        if self.overflow {
            self.tima = self.tma;
            self.overflow = false;
            interrupts.irq(TIMER);
        } else if self.tac & 0b100 > 0 && self.div & (modulo - 1) == 0 {
            if self.tima == 0xFF {
                self.tima = 0;
                self.overflow = true;
            } else {
                self.tima = self.tima + 1;
                self.overflow = false;
            }
        }
    }

    pub fn read(&self, addr: u16) -> (r: u8)
        requires
            is_timer_addr(addr),
        ensures
            r == self.read_value(addr),
            addr == 0xFF04 ==> r == (self.div >> 8u16) as u8,
            addr == 0xFF05 ==> r == self.tima,
            addr == 0xFF06 ==> r == self.tma,
            addr == 0xFF07 ==> r == 0b11111000u8 | self.tac,
    {
        if addr == 0xFF04 {
            (self.div >> 8) as u8
        } else if addr == 0xFF05 {
            self.tima
        } else if addr == 0xFF06 {
            self.tma
        } else {
            0b11111000 | self.tac
        }
    }

    /// Writing DIV clears the whole divider; a TIMA write is ignored in the
    /// cycle in which TMA is being reloaded; TAC keeps its low three bits.
    pub fn write(&mut self, addr: u16, val: u8)
        requires
            is_timer_addr(addr),
        ensures
            *final(self) == old(self).written(addr, val),
            addr == 0xFF04 ==> *final(self) == (Timer { div: 0, ..*old(self) }),
            addr == 0xFF05 ==> *final(self) == (if old(self).overflow {
                *old(self)
            } else {
                Timer { tima: val, ..*old(self) }
            }),
            addr == 0xFF06 ==> *final(self) == (Timer { tma: val, ..*old(self) }),
            addr == 0xFF07 ==> *final(self) == (Timer { tac: val & 0b111, ..*old(self) }),
    {
        if addr == 0xFF04 {
            self.div = 0;
        } else if addr == 0xFF05 {
            if !self.overflow {
                self.tima = val;
            }
        } else if addr == 0xFF06 {
            self.tma = val;
        } else {
            self.tac = val & 0b111;
        }
    }
}

impl Default for Timer {
    fn default() -> (r: Timer)
        ensures
            r == (Timer { div: 0, tima: 0, tma: 0, tac: 0, overflow: false }),
    {
        Timer::new()
    }
}

/// While the timer is stopped (TAC bit 2 clear) and no reload is pending,
/// a cycle only advances the divider.
pub proof fn lemma_stopped_timer_keeps_tima(t: Timer)
    requires
        t.tac & 4 == 0,
        !t.overflow,
    ensures
        t.next().tima == t.tima,
        !t.next().overflow,
        t.next().div == (t.div + 4) % 0x10000,
{
}

/// An overflow is always followed by a reload: the cycle after TIMA wraps
/// to zero, TIMA holds TMA.
pub proof fn lemma_overflow_reloads(t: Timer)
    requires
        t.overflow,
    ensures
        t.next().tima == t.tma,
        !t.next().overflow,
{
}

/// `k + 4` clock ticks hold one more whole period than `k` exactly when
/// they end on a period boundary.
proof fn lemma_period_count(k: int, p: int)
    requires
        k >= 0,
        k % 4 == 0,
        p == 16 || p == 64 || p == 256 || p == 1024,
    ensures
        (k + 4) / p == k / p + (if (k + 4) % p == 0 { 1int } else { 0 }),
        k / p <= (k + 4) / p,
{
    if p == 16 {
    } else if p == 64 {
    } else if p == 256 {
    } else {
    }
}

/// A running timer started from a cleared divider, with no reload pending,
/// counts TIMA up once every `timer_period` clock ticks: after `n` machine
/// cycles (4n ticks) TIMA has grown by 4n / period, as long as it does not
/// wrap, no overflow (and so no interrupt) is pending, and the divider
/// holds 4n modulo 2^16.
pub proof fn lemma_timer_counts(t: Timer, n: nat)
    requires
        t.div == 0,
        !t.overflow,
        t.tac & 4 != 0,
        t.tima + (4 * n as int) / (timer_period(t.tac) as int) <= 0xFF,
    ensures
        t.after(n).tima == t.tima + (4 * n as int) / (timer_period(t.tac) as int),
        t.after(n).div == (4 * n) % 0x10000,
        !t.after(n).overflow,
        t.after(n).tac == t.tac && t.after(n).tma == t.tma,
    decreases n,
{
    let p = timer_period(t.tac) as int;
    if n > 0 {
        let k = 4 * (n - 1);
        lemma_period_count(k, p);
        lemma_timer_counts(t, (n - 1) as nat);
        let a = t.after((n - 1) as nat);
        let d = ((a.div + 4) % 0x10000) as u16;
        lemma_add_mod_noop(k, 4, 0x10000);
        assert(d == (k + 4) % 0x10000);
        lemma_low_bits_u16(d);
        lemma_mod_mod(k + 4, p, 0x10000int / p);
        assert((d as int) % p == (k + 4) % p);
    }
}

/// A stopped timer (TAC bit 2 clear) with no reload pending never changes
/// TIMA and never requests an interrupt, however many cycles it runs.
pub proof fn lemma_stopped_timer_stays(t: Timer, n: nat)
    requires
        t.tac & 4 == 0,
        !t.overflow,
    ensures
        t.after(n).tima == t.tima,
        !t.after(n).overflow,
        t.after(n).tac == t.tac,
    decreases n,
{
    if n > 0 {
        lemma_stopped_timer_stays(t, (n - 1) as nat);
    }
}

/// The four TIMA clocks that TAC selects, in clock ticks per increment:
/// select 0 counts every 1024 ticks (4096 Hz at 4194304 Hz), select 1 every
/// 16 (262144 Hz), select 2 every 64 (65536 Hz), select 3 every 256
/// (16384 Hz). A running timer started from a cleared divider with no reload
/// pending shows TIMA grown by floor(4n / period) after n machine cycles, as
/// long as it does not wrap.
pub proof fn lemma_timer_clock_selects(t: Timer, n: nat)
    requires
        t.div == 0,
        !t.overflow,
        t.tac & 4 != 0,
    ensures
        t.tac & 3 == 0 && t.tima + (4 * n as int) / 1024 <= 0xFF ==> t.after(n).tima == t.tima + (4
            * n as int) / 1024,
        t.tac & 3 == 1 && t.tima + (4 * n as int) / 16 <= 0xFF ==> t.after(n).tima == t.tima + (4
            * n as int) / 16,
        t.tac & 3 == 2 && t.tima + (4 * n as int) / 64 <= 0xFF ==> t.after(n).tima == t.tima + (4
            * n as int) / 64,
        t.tac & 3 == 3 && t.tima + (4 * n as int) / 256 <= 0xFF ==> t.after(n).tima == t.tima + (4
            * n as int) / 256,
{
    if t.tima + (4 * n as int) / (timer_period(t.tac) as int) <= 0xFF {
        lemma_timer_counts(t, n);
    }
}

} // verus!
