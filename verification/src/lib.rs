use vstd::prelude::*;

pub mod bits;
pub mod bootrom;
pub mod cartridge;
pub mod checksum;
pub mod cpu;
pub mod gameboy;
pub mod hram;
pub mod interrupts;
pub mod joypad;
pub mod oam_dma;
pub mod peripherals;
pub mod ppu;
pub mod serial;
pub mod timer;
pub mod wram;
pub mod register;

verus! {

/// The CPU clock in Hz.
pub const CPU_CLOCK_HZ: u128 = 4_194_304;

/// Audio output: samples per callback and the sample rate.
pub const SAMPLES: usize = 512;
pub const SAMPLE_RATE: u128 = 48000;

pub const LCD_WIDTH: usize = 160;
pub const LCD_HEIGHT: usize = 144;
pub const LCD_PIXELS: usize = 23040;

/// A condition under which the machine cannot go on.
#[derive(Clone, Copy, Debug, PartialEq, Eq, Structural)]
pub enum Fault {
    /// OAM DMA was requested from a page above 0xDF.
    OamDmaSource(u8),
    /// A serial transfer was started while the previous byte was still unsent.
    SerialBusy,
    /// An HBlank DMA block was due with less than a block left or no room in video RAM.
    HdmaOverrun,
    /// A general DMA transfer did not fit in the address space or in video RAM.
    GeneralDmaOverrun,
    /// An opcode that the CPU does not define was executed.
    UndefinedOpcode(u8),
}

} // verus!
