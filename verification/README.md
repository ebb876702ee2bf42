# gbemu

A Game Boy emulator core written in Verus: the CPU, the memory bus and the
devices on it are verified against specifications of what one machine cycle
does, and `app/` is a small SDL front end around it.

Layout of `src/`:

- `cpu/` — registers, operands, the instruction set (`instructions.rs`),
  the opcode decoder (`decode.rs`) and the ALU specifications and laws
  (`alu.rs`). Each instruction is a state machine over machine cycles; its
  contract names the CPU state after the call and the bus write it makes.
- `peripherals.rs` — the bus: what a read returns (`peek`), what a write
  changes (`write_effect`), and one cycle of the devices (`cycled`).
- `ppu.rs`, `ppu/render.rs` — the picture processing unit, its DMA engines,
  and the scanline renderer for DMG and CGB.
- `cartridge.rs`, `cartridge/mbc.rs` — header checks and the bank controllers.
- `timer.rs`, `serial.rs`, `joypad.rs`, `interrupts.rs`, `wram.rs`,
  `hram.rs`, `bootrom.rs`, `oam_dma.rs` — the smaller devices.
- `gameboy.rs` — one machine cycle of the whole machine.

The sound unit is not part of the library: its registers read 0xFF.

Usage of the front end: `app <boot rom> <cartridge> [save]`, where the boot
ROM is the 256-byte DMG image or the 0x900-byte CGB image.
