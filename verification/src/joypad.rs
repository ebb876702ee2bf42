use vstd::prelude::*;

use crate::interrupts::{Interrupts, JOYPAD};

verus! {

/// Bits of the joypad register P1 (0xFF00). P15 and P14 select the action
/// and direction buttons (active low); P13-P10 read the selected buttons
/// (0 = pressed).
pub const P15: u8 = 0x20;
pub const P14: u8 = 0x10;
pub const P13: u8 = 0x08;
pub const P12: u8 = 0x04;
pub const P11: u8 = 0x02;
pub const P10: u8 = 0x01;

#[derive(Clone, Copy, PartialEq, Eq, Structural, Hash, Debug)]
pub enum Button {
    Down,
    Up,
    Left,
    Right,
    Start,
    Select,
    B,
    A,
}

/// The P1 line of a button in the direction group (0 for action buttons).
pub open spec fn direction_bit(b: Button) -> u8 {
    match b {
        Button::Down => P13,
        Button::Up => P12,
        Button::Left => P11,
        Button::Right => P10,
        _ => 0,
    }
}

/// The P1 line of a button in the action group (0 for direction buttons).
pub open spec fn action_bit(b: Button) -> u8 {
    match b {
        Button::Start => P13,
        Button::Select => P12,
        Button::B => P11,
        Button::A => P10,
        _ => 0,
    }
}

/// The value of P1 for the select bits of `register` and the button states:
/// the low nibble is the AND of the selected groups (all ones if none is selected).
pub open spec fn p1_value(register: u8, direction: u8, action: u8) -> u8 {
    let r = register | 0x0F;
    let r = if r & P14 == 0 { r & direction } else { r };
    if r & P15 == 0 { r & action } else { r }
}

impl Button {
    fn to_p1_direction(&self) -> (r: u8)
        ensures
            r == direction_bit(*self),
    {
        match self {
            Button::Down => P13,
            Button::Up => P12,
            Button::Left => P11,
            Button::Right => P10,
            _ => 0,
        }
    }

    fn to_p1_action(&self) -> (r: u8)
        ensures
            r == action_bit(*self),
    {
        match self {
            Button::Start => P13,
            Button::Select => P12,
            Button::B => P11,
            Button::A => P10,
            _ => 0,
        }
    }
}

/// The joypad: the register P1 and the state of both button groups
/// (one bit per button, 0 = pressed).
#[derive(Clone)]
pub struct Joypad {
    pub register: u8,
    pub action: u8,
    pub direction: u8,
}

/// The value of P1 computed step by step, as the bit-vector prover sees it.
spec fn p1_steps(r: u8, d: u8, a: u8) -> u8 {
    let r1 = r | 0x0F;
    let r2 = if r1 & 0x10 == 0 { r1 & d } else { r1 };
    if r2 & 0x20 == 0 { r2 & a } else { r2 }
}

proof fn lemma_nibble_bits(x: u8, m: u8, r: u8, d: u8, a: u8)
    by (bit_vector)
    ensures
        m <= 0x0F ==> (x & !m) & 0xF0 == x & 0xF0 && (x | m) & 0xF0 == x & 0xF0,
        r & 0xC0 == 0xC0 && d & 0xF0 == 0xF0 && a & 0xF0 == 0xF0 ==> p1_steps(r, d, a) & 0xC0
            == 0xC0,
        0xCFu8 & 0xC0 == 0xC0,
        0xFFu8 & 0xF0 == 0xF0,
{
}

/// Bit facts on the upper nibbles: clearing or setting one button line
/// (a low-nibble bit) keeps the upper nibble, and recomputing P1 from button
/// groups whose upper nibble is all ones keeps the two top bits of P1.
proof fn lemma_upper_nibbles()
    ensures
        forall|x: u8, m: u8| m <= 0x0F ==> #[trigger] (x & !m) & 0xF0 == x & 0xF0,
        forall|x: u8, m: u8| m <= 0x0F ==> #[trigger] (x | m) & 0xF0 == x & 0xF0,
        forall|r: u8, d: u8, a: u8|
            #![trigger p1_value(r, d, a)]
            r & 0xC0 == 0xC0 && d & 0xF0 == 0xF0 && a & 0xF0 == 0xF0 ==> p1_value(r, d, a) & 0xC0
                == 0xC0,
        0xCFu8 & 0xC0 == 0xC0,
        0xFFu8 & 0xF0 == 0xF0,
{
    lemma_nibble_bits(0, 0, 0, 0, 0);
    assert forall|x: u8, m: u8| m <= 0x0F implies #[trigger] (x & !m) & 0xF0 == x & 0xF0 by {
        lemma_nibble_bits(x, m, 0, 0, 0);
    }
    assert forall|x: u8, m: u8| m <= 0x0F implies #[trigger] (x | m) & 0xF0 == x & 0xF0 by {
        lemma_nibble_bits(x, m, 0, 0, 0);
    }
    assert forall|r: u8, d: u8, a: u8|
        r & 0xC0 == 0xC0 && d & 0xF0 == 0xF0 && a & 0xF0 == 0xF0 implies #[trigger] p1_value(
        r,
        d,
        a,
    ) & 0xC0 == 0xC0 by {
        lemma_nibble_bits(0, 0, r, d, a);
        assert(p1_steps(r, d, a) == p1_value(r, d, a));
    }
}

impl Joypad {
    /// The button groups keep their unused upper nibble at all ones, and P1
    /// its two unused top bits, as the hardware reads them.
    pub open spec fn wf(&self) -> bool {
        &&& self.action & 0xF0 == 0xF0
        &&& self.direction & 0xF0 == 0xF0
        &&& self.register & 0xC0 == 0xC0
    }

    /// The joypad after the CPU writes `val` to P1.
    pub open spec fn written(self, val: u8) -> Joypad {
        Joypad {
            register: p1_value((self.register & 0xCF) | ((P14 | P15) & val), self.direction, self.action),
            ..self
        }
    }

    pub fn new() -> (r: Joypad)
        ensures
            r.register == 0xCF && r.action == 0xFF && r.direction == 0xFF,
            r.wf(),
    {
        proof {
            lemma_upper_nibbles();
        }
        Joypad { register: 0xCF, action: 0xFF, direction: 0xFF }
    }

    pub fn read(&self) -> (r: u8)
        ensures
            r == self.register,
    {
        self.register
    }

    /// Only the select bits P15 and P14 are writable; the button lines are recomputed.
    pub fn write(&mut self, val: u8)
        ensures
            *final(self) == old(self).written(val),
            old(self).wf() ==> final(self).wf(),
            final(self).action == old(self).action,
            final(self).direction == old(self).direction,
            final(self).register == p1_value(
                (old(self).register & 0xCF) | ((P14 | P15) & val),
                old(self).direction,
                old(self).action,
            ),
    {
        let ghost r0 = self.register;
        self.register = (self.register & 0xCF) | ((P14 | P15) & val);
        proof {
            assert(r0 & 0xC0 == 0xC0 ==> ((r0 & 0xCF) | ((P14 | P15) & val)) & 0xC0 == 0xC0)
                by (bit_vector);
        }
        self.action_direction();
    }

    /// Presses a button and requests the joypad interrupt.
    pub fn button_down(&mut self, interrupts: &mut Interrupts, button: Button)
        ensures
            old(self).wf() ==> final(self).wf(),
            final(self).direction == old(self).direction & !direction_bit(button),
            final(self).action == old(self).action & !action_bit(button),
            final(self).register == p1_value(
                old(self).register,
                final(self).direction,
                final(self).action,
            ),
            *final(interrupts) == (Interrupts {
                intr_flags: old(interrupts).intr_flags | JOYPAD,
                ..*old(interrupts)
            }),
    {
        proof {
            lemma_upper_nibbles();
        }
        self.direction = self.direction & !button.to_p1_direction();
        self.action = self.action & !button.to_p1_action();
        self.action_direction();
        interrupts.irq(JOYPAD);
    }

    pub fn button_up(&mut self, button: Button)
        ensures
            old(self).wf() ==> final(self).wf(),
            final(self).direction == old(self).direction | direction_bit(button),
            final(self).action == old(self).action | action_bit(button),
            final(self).register == p1_value(
                old(self).register,
                final(self).direction,
                final(self).action,
            ),
    {
        proof {
            lemma_upper_nibbles();
        }
        self.direction = self.direction | button.to_p1_direction();
        self.action = self.action | button.to_p1_action();
        self.action_direction();
    }

    /// Recomputes the button lines of P1 from the select bits.
    pub fn action_direction(&mut self)
        ensures
            old(self).wf() ==> final(self).wf(),
            final(self).action == old(self).action,
            final(self).direction == old(self).direction,
            final(self).register == p1_value(
                old(self).register,
                old(self).direction,
                old(self).action,
            ),
    {
        proof {
            lemma_upper_nibbles();
        }
        let ghost (r0, d0, a0) = (self.register, self.direction, self.action);
        self.register = self.register | 0x0F;
        if self.register & P14 == 0 {
            self.register = self.register & self.direction;
        }
        if self.register & P15 == 0 {
            self.register = self.register & self.action;
        }
        assert(self.register == p1_value(r0, d0, a0));
    }
}

/// Pressing a released button and releasing it again leaves the button
/// groups as they were.
pub proof fn lemma_press_release(direction: u8, action: u8, button: Button)
    requires
        direction & direction_bit(button) == direction_bit(button),
        action & action_bit(button) == action_bit(button),
    ensures
        (direction & !direction_bit(button)) | direction_bit(button) == direction,
        (action & !action_bit(button)) | action_bit(button) == action,
{
    let d = direction_bit(button);
    let a = action_bit(button);
    assert(forall|x: u8, m: u8| #[trigger] (x & m) == m ==> (x & !m) | m == x) by (bit_vector);
    assert(direction & d == d);
    assert(action & a == a);
}

} // verus!
