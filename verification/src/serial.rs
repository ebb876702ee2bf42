use vstd::prelude::*;

use crate::interrupts::{lemma_irq_then_ack, Interrupts, SERIAL};

verus! {

/// The serial port: data SB (0xFF01) and control SC (0xFF02). A transfer
/// started with the internal clock sends `data` after `transfer_cnt` cycles;
/// a byte received from the peer replaces `data` on the next cycle.
pub struct Serial {
    pub data: u8,
    pub control: u8,
    pub transfer_cnt: usize,
    pub send_data: Option<u8>,
    pub recv_data: Option<u8>,
    pub is_cgb: bool,
}

pub open spec fn is_serial_addr(addr: u16) -> bool {
    addr == 0xFF01 || addr == 0xFF02
}

impl Serial {
    /// Whether a write of `val` to `addr` starts a transfer.
    pub open spec fn starts_transfer(addr: u16, val: u8) -> bool {
        addr == 0xFF02 && val & 0x81 == 0x81
    }

    /// Writes that the port accepts: a transfer cannot start while another one
    /// is still waiting to be sent.
    pub open spec fn accepts_write(self, addr: u16, val: u8) -> bool {
        Self::starts_transfer(addr, val) ==> self.send_data is None
    }

    pub open spec fn read_value(&self, addr: u16) -> u8 {
        if addr == 0xFF01 {
            self.data
        } else {
            self.control
        }
    }

    /// The port after a write of `val` to `addr`.
    pub open spec fn written(self, addr: u16, val: u8) -> Serial {
        if addr == 0xFF01 {
            Serial { data: val, ..self }
        } else if Self::starts_transfer(addr, val) {
            Serial {
                control: val,
                transfer_cnt: if val & 2 != 0 && self.is_cgb {
                    4
                } else {
                    128
                },
                send_data: Some(self.data),
                ..self
            }
        } else {
            Serial { control: val, ..self }
        }
    }

    pub fn new(is_cgb: bool) -> (r: Serial)
        ensures
            r == (Serial {
                data: 0,
                control: 0,
                transfer_cnt: 0,
                send_data: None,
                recv_data: None,
                is_cgb,
            }),
    {
        Serial { data: 0, control: 0, transfer_cnt: 0, send_data: None, recv_data: None, is_cgb }
    }

    pub fn read(&self, addr: u16) -> (r: u8)
        requires
            is_serial_addr(addr),
        ensures
            r == self.read_value(addr),
            addr == 0xFF01 ==> r == self.data,
            addr == 0xFF02 ==> r == self.control,
    {
        if addr == 0xFF01 {
            self.data
        } else {
            self.control
        }
    }

    /// Writing SC with bits 7 and 0 set starts a transfer of SB: it takes 4 cycles
    /// on CGB with the fast clock (bit 1), 128 cycles otherwise.
    pub fn write(&mut self, addr: u16, val: u8)
        requires
            is_serial_addr(addr),
            old(self).accepts_write(addr, val),
        ensures
            *final(self) == old(self).written(addr, val),
            addr == 0xFF01 ==> *final(self) == (Serial { data: val, ..*old(self) }),
            addr == 0xFF02 && !Self::starts_transfer(addr, val) ==> *final(self) == (Serial {
                control: val,
                ..*old(self)
            }),
            Self::starts_transfer(addr, val) ==> *final(self) == (Serial {
                control: val,
                transfer_cnt: if val & 2 != 0 && old(self).is_cgb {
                    4
                } else {
                    128
                },
                send_data: Some(old(self).data),
                ..*old(self)
            }),
    {
        if addr == 0xFF01 {
            self.data = val;
        } else {
            self.control = val;
            if self.control & 0x81 == 0x81 {
                if self.control & 0b10 > 0 && self.is_cgb {
                    self.transfer_cnt = 4;
                } else {
                    self.transfer_cnt = 128;
                }
                self.send_data = Some(self.data);
            }
        }
    }

    /// The port after one cycle (the interrupt request is stated by `emulate_cycle`).
    pub open spec fn next(self) -> Serial {
        let s1 = match self.recv_data {
            Some(d) => Serial { data: d, control: self.control & 0x7F, recv_data: None, ..self },
            None => self,
        };
        if s1.transfer_cnt == 0 {
            if s1.send_data is Some {
                Serial { control: s1.control & 0x7F, ..s1 }
            } else {
                s1
            }
        } else {
            Serial { transfer_cnt: (s1.transfer_cnt - 1) as usize, ..s1 }
        }
    }

    /// Whether the cycle completes a reception or a transfer, which requests
    /// the serial interrupt.
    pub open spec fn raises_interrupt(self) -> bool {
        self.recv_data is Some || (self.transfer_cnt == 0 && self.send_data is Some)
    }

    pub fn emulate_cycle(&mut self, interrupts: &mut Interrupts)
        ensures
            *final(self) == old(self).next(),
            old(self).raises_interrupt() ==> *final(interrupts) == (Interrupts {
                intr_flags: old(interrupts).intr_flags | SERIAL,
                ..*old(interrupts)
            }),
            !old(self).raises_interrupt() ==> *final(interrupts) == *old(interrupts),
    {
        let ghost i0 = *interrupts;
        if let Some(d) = self.recv_data {
            self.data = d;
            self.recv_data = None;
            self.control = self.control & 0x7F;
            interrupts.irq(SERIAL);
        }
        if self.transfer_cnt == 0 {
            if self.send_data.is_some() {
                self.control = self.control & 0x7F;
                interrupts.irq(SERIAL);
                proof {
                    lemma_irq_then_ack(i0.intr_flags, SERIAL, 0);
                }
            }
        } else {
            self.transfer_cnt = self.transfer_cnt - 1;
        }
    }

    /// Hands the byte of a finished transfer to the peer.
    pub fn send(&mut self) -> (r: Option<u8>)
        ensures
            old(self).transfer_cnt == 0 && old(self).send_data is Some ==> r == old(self).send_data
                && *final(self) == (Serial { send_data: None, ..*old(self) }),
            !(old(self).transfer_cnt == 0 && old(self).send_data is Some) ==> r is None
                && *final(self) == *old(self),
    {
        if self.transfer_cnt == 0 && self.send_data.is_some() {
            let r = self.send_data;
            self.send_data = None;
            r
        } else {
            None
        }
    }

    /// Whether a call of `send` hands out a byte now.
    pub open spec fn sends(self) -> bool {
        self.transfer_cnt == 0 && self.send_data is Some
    }

    /// Link-cable exchanges that can be made: a port that gets a byte has
    /// none waiting yet, and the two ports do not both finish in one cycle.
    pub open spec fn exchange_ok(a: Serial, b: Serial) -> bool {
        &&& b.sends() ==> a.recv_data is None && b.recv_data is None && !a.sends()
        &&& a.sends() ==> a.recv_data is None && b.recv_data is None
    }

    /// The two ports after a link-cable exchange: when `b` has finished a
    /// transfer, its byte goes to `a` and `a`'s SB to `b`; otherwise, when `a`
    /// has finished, the other way round; otherwise nothing happens.
    pub open spec fn exchanged(a: Serial, b: Serial) -> (Serial, Serial) {
        if b.sends() {
            (
                Serial { recv_data: Some(b.send_data->0), ..a },
                Serial { send_data: None, recv_data: Some(a.data), ..b },
            )
        } else if a.sends() {
            (
                Serial { send_data: None, recv_data: Some(b.data), ..a },
                Serial { recv_data: Some(a.send_data->0), ..b },
            )
        } else {
            (a, b)
        }
    }

    /// Connects two ports by a link cable for one cycle: a finished transfer
    /// on either side swaps the sent byte with the other side's SB.
    pub fn exchange(a: &mut Serial, b: &mut Serial)
        requires
            Serial::exchange_ok(*old(a), *old(b)),
        ensures
            (*final(a), *final(b)) == Serial::exchanged(*old(a), *old(b)),
    {
        if let Some(data) = b.send() {
            b.recv(a.data);
            a.recv(data);
        }
        if let Some(data) = a.send() {
            a.recv(b.data);
            b.recv(data);
        }
    }

    /// Takes a byte from the peer; it lands in SB on the next cycle.
    pub fn recv(&mut self, val: u8)
        requires
            old(self).recv_data is None,
        ensures
            *final(self) == (Serial { recv_data: Some(val), ..*old(self) }),
    {
        self.recv_data = Some(val);
    }
}

} // verus!
