use gbemu::bootrom::Bootrom;
use gbemu::cartridge::Cartridge;
use gbemu::gameboy::GameBoy;
use gbemu::Fault;

/// A 32 KiB ROM-only image: a jump to 0x0150 at 0x0000, `prog` at 0x0150,
/// `extra` pieces of code at given addresses, and a valid header checksum.
fn rom_with(prog: &[u8], extra: &[(usize, &[u8])]) -> Vec<u8> {
    let mut rom = vec![0u8; 0x8000];
    rom[0] = 0xC3;
    rom[1] = 0x50;
    rom[2] = 0x01;
    rom[0x150..0x150 + prog.len()].copy_from_slice(prog);
    for (at, code) in extra {
        rom[*at..*at + code.len()].copy_from_slice(code);
    }
    let mut x: u8 = 0;
    for i in 0x134..=0x14C {
        x = x.wrapping_sub(rom[i]).wrapping_sub(1);
    }
    rom[0x14D] = x;
    rom
}

fn machine_with(prog: &[u8], extra: &[(usize, &[u8])]) -> GameBoy {
    let cartridge = Cartridge::new(rom_with(prog, extra), None).unwrap();
    let bootrom = Bootrom { data: vec![0u8; 256], active: false };
    GameBoy::new(bootrom, cartridge)
}

fn machine(prog: &[u8]) -> GameBoy {
    machine_with(prog, &[])
}

fn run(gb: &mut GameBoy, cycles: usize) -> Result<(), Fault> {
    for _ in 0..cycles {
        gb.emulate_cycle()?;
    }
    Ok(())
}

fn peek(gb: &GameBoy, addr: u16) -> u8 {
    gb.peripherals.read(&gb.cpu.interrupts, addr)
}

#[test]
fn add_sets_zero_half_and_carry() {
    let mut gb = machine(&[0x3E, 0x3A, 0xC6, 0xC6, 0x18, 0xFE]);
    run(&mut gb, 100).unwrap();
    assert_eq!(gb.cpu.regs.a, 0x00);
    assert_eq!(gb.cpu.regs.f, 0xB0);
}

#[test]
fn adc_adds_the_carry() {
    // LD A,0xFF; ADD A,1 (sets C); LD A,0x10; ADC A,0x01
    let mut gb = machine(&[0x3E, 0xFF, 0xC6, 0x01, 0x3E, 0x10, 0xCE, 0x01, 0x18, 0xFE]);
    run(&mut gb, 100).unwrap();
    assert_eq!(gb.cpu.regs.a, 0x12);
    assert_eq!(gb.cpu.regs.f, 0x00);
}

#[test]
fn sbc_subtracts_the_borrow() {
    // LD A,0; SUB 1 (A=0xFF, borrow); SBC A,0x0E -> 0xFF - 0x0E - 1 = 0xF0
    let mut gb = machine(&[0x3E, 0x00, 0xD6, 0x01, 0xDE, 0x0E, 0x18, 0xFE]);
    run(&mut gb, 100).unwrap();
    assert_eq!(gb.cpu.regs.a, 0xF0);
    assert_eq!(gb.cpu.regs.f, 0x40);
}

#[test]
fn daa_after_bcd_addition() {
    let mut gb = machine(&[0x3E, 0x45, 0xC6, 0x38, 0x27, 0x18, 0xFE]);
    run(&mut gb, 100).unwrap();
    assert_eq!(gb.cpu.regs.a, 0x83);
    assert!(!gb.cpu.regs.cf());
}

#[test]
fn daa_carries_past_99() {
    let mut gb = machine(&[0x3E, 0x99, 0xC6, 0x01, 0x27, 0x18, 0xFE]);
    run(&mut gb, 100).unwrap();
    assert_eq!(gb.cpu.regs.a, 0x00);
    assert!(gb.cpu.regs.zf());
    assert!(gb.cpu.regs.cf());
}

#[test]
fn daa_after_bcd_subtraction() {
    let mut gb = machine(&[0x3E, 0x83, 0xD6, 0x38, 0x27, 0x18, 0xFE]);
    run(&mut gb, 100).unwrap();
    assert_eq!(gb.cpu.regs.a, 0x45);
    assert!(gb.cpu.regs.nf());
    assert!(!gb.cpu.regs.cf());
}

#[test]
fn daa_borrow_below_zero() {
    // 0x12 - 0x34 in BCD is 78 with a borrow.
    let mut gb = machine(&[0x3E, 0x12, 0xD6, 0x34, 0x27, 0x18, 0xFE]);
    run(&mut gb, 100).unwrap();
    assert_eq!(gb.cpu.regs.a, 0x78);
    assert!(gb.cpu.regs.cf());
}

#[test]
fn xor_a_clears_a_and_sets_zero() {
    let mut gb = machine(&[0x3E, 0x55, 0xAF, 0x18, 0xFE]);
    run(&mut gb, 100).unwrap();
    assert_eq!(gb.cpu.regs.a, 0);
    assert_eq!(gb.cpu.regs.f, 0x80);
}

#[test]
fn and_or_flags() {
    // LD A,0xF0; AND 0x0F -> 0, Z and H; LD B,A; LD A,0x0F; OR 0xF0 -> 0xFF, no flags
    let mut gb = machine(&[0x3E, 0xF0, 0xE6, 0x0F, 0x47, 0xF5, 0x3E, 0x0F, 0xF6, 0xF0, 0x18, 0xFE]);
    gb.cpu.regs.sp = 0xFFFE;
    run(&mut gb, 100).unwrap();
    assert_eq!(gb.cpu.regs.b, 0);
    assert_eq!(peek(&gb, 0xFFFC), 0xA0);
    assert_eq!(gb.cpu.regs.a, 0xFF);
    assert_eq!(gb.cpu.regs.f, 0x00);
}

#[test]
fn cp_compares_without_changing_a() {
    let mut gb = machine(&[0x3E, 0x10, 0xFE, 0x10, 0x18, 0xFE]);
    run(&mut gb, 100).unwrap();
    assert_eq!(gb.cpu.regs.a, 0x10);
    assert!(gb.cpu.regs.zf());
    assert!(gb.cpu.regs.nf());
}

#[test]
fn inc_wraps_to_zero() {
    let mut gb = machine(&[0x06, 0xFF, 0x04, 0x18, 0xFE]);
    run(&mut gb, 100).unwrap();
    assert_eq!(gb.cpu.regs.b, 0);
    assert!(gb.cpu.regs.zf());
    assert!(gb.cpu.regs.hf());
    assert!(!gb.cpu.regs.nf());
}

#[test]
fn dec_sets_subtract_and_half_borrow() {
    let mut gb = machine(&[0x0E, 0x10, 0x0D, 0x18, 0xFE]);
    run(&mut gb, 100).unwrap();
    assert_eq!(gb.cpu.regs.c, 0x0F);
    assert!(gb.cpu.regs.nf());
    assert!(gb.cpu.regs.hf());
}

#[test]
fn rlca_then_rrca_restores_a() {
    let mut gb = machine(&[0x3E, 0x81, 0x07, 0x47, 0x0F, 0x18, 0xFE]);
    run(&mut gb, 100).unwrap();
    assert_eq!(gb.cpu.regs.b, 0x03);
    assert_eq!(gb.cpu.regs.a, 0x81);
    assert!(gb.cpu.regs.cf());
    assert!(!gb.cpu.regs.zf());
}

#[test]
fn rla_then_rra_restores_a() {
    // SCF; LD A,0x80; RLA -> A=0x01, C=1; RRA -> A=0x80, C=1
    let mut gb = machine(&[0x37, 0x3E, 0x80, 0x17, 0x47, 0x1F, 0x18, 0xFE]);
    run(&mut gb, 100).unwrap();
    assert_eq!(gb.cpu.regs.b, 0x01);
    assert_eq!(gb.cpu.regs.a, 0x80);
    assert!(gb.cpu.regs.cf());
}

#[test]
fn swap_twice_restores_a() {
    let mut gb = machine(&[0x3E, 0x12, 0xCB, 0x37, 0x47, 0xCB, 0x37, 0x18, 0xFE]);
    run(&mut gb, 100).unwrap();
    assert_eq!(gb.cpu.regs.b, 0x21);
    assert_eq!(gb.cpu.regs.a, 0x12);
}

#[test]
fn shifts() {
    // LD A,0x81; SLA A -> 0x02 C; LD B,A; LD A,0x81; SRA A -> 0xC0 C; LD C,A; LD A,0x81; SRL A -> 0x40 C
    let mut gb = machine(&[
        0x3E, 0x81, 0xCB, 0x27, 0x47, 0x3E, 0x81, 0xCB, 0x2F, 0x4F, 0x3E, 0x81, 0xCB, 0x3F, 0x18, 0xFE,
    ]);
    run(&mut gb, 100).unwrap();
    assert_eq!(gb.cpu.regs.b, 0x02);
    assert_eq!(gb.cpu.regs.c, 0xC0);
    assert_eq!(gb.cpu.regs.a, 0x40);
    assert!(gb.cpu.regs.cf());
}

#[test]
fn bit_tests_a_bit() {
    // LD A,0x80; BIT 7,A -> Z clear; LD B,F via PUSH AF is avoided: BIT 0,A -> Z set
    let mut gb = machine(&[0x3E, 0x80, 0xCB, 0x7F, 0x18, 0xFE]);
    run(&mut gb, 100).unwrap();
    assert!(!gb.cpu.regs.zf());
    assert!(gb.cpu.regs.hf());
    let mut gb = machine(&[0x3E, 0x80, 0xCB, 0x47, 0x18, 0xFE]);
    run(&mut gb, 100).unwrap();
    assert!(gb.cpu.regs.zf());
}

#[test]
fn set_and_res_in_memory() {
    // LD HL,0xC000; SET 3,(HL); LD A,(HL); RES 3,(HL); LD B,(HL)
    let mut gb = machine(&[0x21, 0x00, 0xC0, 0xCB, 0xDE, 0x7E, 0xCB, 0x9E, 0x46, 0x18, 0xFE]);
    run(&mut gb, 200).unwrap();
    assert_eq!(gb.cpu.regs.a, 0x08);
    assert_eq!(gb.cpu.regs.b, 0x00);
}

#[test]
fn push_then_pop_gives_the_value_back() {
    let mut gb = machine(&[0x31, 0xFE, 0xFF, 0x01, 0x34, 0x12, 0xC5, 0xD1, 0x18, 0xFE]);
    run(&mut gb, 100).unwrap();
    assert_eq!(gb.cpu.regs.de(), 0x1234);
    assert_eq!(gb.cpu.regs.sp, 0xFFFE);
    assert_eq!(peek(&gb, 0xFFFD), 0x12);
    assert_eq!(peek(&gb, 0xFFFC), 0x34);
}

#[test]
fn pop_af_clears_low_nibble_of_f() {
    let mut gb = machine(&[0x31, 0xFE, 0xFF, 0x01, 0xFF, 0x12, 0xC5, 0xF1, 0x18, 0xFE]);
    run(&mut gb, 100).unwrap();
    assert_eq!(gb.cpu.regs.a, 0x12);
    assert_eq!(gb.cpu.regs.f, 0xF0);
    assert_eq!(gb.cpu.regs.af(), 0x12F0);
}

#[test]
fn call_and_ret() {
    let main = [0x31, 0xFE, 0xFF, 0xCD, 0x60, 0x01, 0x3E, 0x42, 0x18, 0xFE];
    let sub: &[u8] = &[0x06, 0x07, 0xC9];
    let mut gb = machine_with(&main, &[(0x160, sub)]);
    run(&mut gb, 200).unwrap();
    assert_eq!(gb.cpu.regs.b, 0x07);
    assert_eq!(gb.cpu.regs.a, 0x42);
    assert_eq!(gb.cpu.regs.sp, 0xFFFE);
}

#[test]
fn conditional_jumps() {
    // XOR A (Z set); JR NZ,+2 (not taken); LD B,1; JP Z,0x0160 (taken)
    let main = [0xAF, 0x20, 0x02, 0x06, 0x01, 0xCA, 0x60, 0x01, 0x0E, 0x05, 0x18, 0xFE];
    let target: &[u8] = &[0x16, 0x09, 0x18, 0xFE];
    let mut gb = machine_with(&main, &[(0x160, target)]);
    run(&mut gb, 200).unwrap();
    assert_eq!(gb.cpu.regs.b, 0x01);
    assert_eq!(gb.cpu.regs.c, 0x00);
    assert_eq!(gb.cpu.regs.d, 0x09);
}

#[test]
fn rst_calls_its_vector() {
    let main = [0x31, 0xFE, 0xFF, 0xEF, 0x18, 0xFE];
    let vector: &[u8] = &[0x06, 0x28, 0x18, 0xFE];
    let mut gb = machine_with(&main, &[(0x28, vector)]);
    run(&mut gb, 100).unwrap();
    assert_eq!(gb.cpu.regs.b, 0x28);
    assert_eq!(gb.cpu.regs.sp, 0xFFFC);
    assert_eq!(peek(&gb, 0xFFFC), 0x54);
    assert_eq!(peek(&gb, 0xFFFD), 0x01);
}

#[test]
fn sixteen_bit_arithmetic() {
    // LD HL,0x0FFF; LD BC,0x0001; ADD HL,BC; INC DE; DEC SP
    let mut gb = machine(&[0x21, 0xFF, 0x0F, 0x01, 0x01, 0x00, 0x09, 0x13, 0x3B, 0x18, 0xFE]);
    run(&mut gb, 100).unwrap();
    assert_eq!(gb.cpu.regs.hl(), 0x1000);
    assert!(gb.cpu.regs.hf());
    assert!(!gb.cpu.regs.cf());
    assert_eq!(gb.cpu.regs.de(), 0x0001);
    assert_eq!(gb.cpu.regs.sp, 0xFFFF);
}

#[test]
fn ld_hl_sp_plus_offset() {
    // LD SP,0xFFF8; LD HL,SP+8; ADD SP,-8 (0xF8)
    let mut gb = machine(&[0x31, 0xF8, 0xFF, 0xF8, 0x08, 0xE8, 0xF8, 0x18, 0xFE]);
    run(&mut gb, 100).unwrap();
    assert_eq!(gb.cpu.regs.hl(), 0x0000);
    assert_eq!(gb.cpu.regs.sp, 0xFFF0);
    assert!(gb.cpu.regs.cf());
    assert!(!gb.cpu.regs.zf());
}

#[test]
fn ld_direct_sp_stores_both_bytes() {
    let mut gb = machine(&[0x31, 0x34, 0x12, 0x08, 0x00, 0xC0, 0x18, 0xFE]);
    run(&mut gb, 100).unwrap();
    assert_eq!(peek(&gb, 0xC000), 0x34);
    assert_eq!(peek(&gb, 0xC001), 0x12);
}

#[test]
fn stores_reach_work_ram_and_its_echo() {
    // LD HL,0xC000; LD A,0x5A; LD (HL+),A; LD (HL),0x77; LD A,(0xE001)
    let mut gb = machine(&[0x21, 0x00, 0xC0, 0x3E, 0x5A, 0x22, 0x36, 0x77, 0xFA, 0x01, 0xE0, 0x18, 0xFE]);
    run(&mut gb, 100).unwrap();
    assert_eq!(peek(&gb, 0xC000), 0x5A);
    assert_eq!(peek(&gb, 0xE000), 0x5A);
    assert_eq!(gb.cpu.regs.hl(), 0xC001);
    assert_eq!(gb.cpu.regs.a, 0x77);
}

#[test]
fn high_page_loads() {
    // LD A,0x99; LDH (0x80),A; LD C,0x81; LD (C),A; LD A,0; LDH A,(0x80); LD B,A; LD A,(C)
    let mut gb = machine(&[
        0x3E, 0x99, 0xE0, 0x80, 0x0E, 0x81, 0xE2, 0x3E, 0x00, 0xF0, 0x80, 0x47, 0xF2, 0x18, 0xFE,
    ]);
    run(&mut gb, 100).unwrap();
    assert_eq!(peek(&gb, 0xFF80), 0x99);
    assert_eq!(peek(&gb, 0xFF81), 0x99);
    assert_eq!(gb.cpu.regs.b, 0x99);
    assert_eq!(gb.cpu.regs.a, 0x99);
}

#[test]
fn undefined_opcode_faults() {
    let mut gb = machine(&[0xD3]);
    assert_eq!(run(&mut gb, 100), Err(Fault::UndefinedOpcode(0xD3)));
}

#[test]
fn stop_skips_its_operand() {
    // STOP 0x06; LD B,0x42; JR -2: the operand byte 0x06 is not run as LD B.
    let mut gb = machine(&[0x10, 0x06, 0x06, 0x42, 0x18, 0xFE]);
    run(&mut gb, 100).unwrap();
    assert_eq!(gb.cpu.regs.b, 0x42);
}

#[test]
fn oam_dma_from_above_0xdf_faults() {
    let mut gb = machine(&[0x3E, 0xE0, 0xE0, 0x46, 0x18, 0xFE]);
    assert_eq!(run(&mut gb, 100), Err(Fault::OamDmaSource(0xE0)));
}

#[test]
fn enabled_interrupt_is_served_at_its_vector() {
    // LD SP,0xFFFE; LD A,1; LDH (0xFF),A; LDH (0x0F),A; EI; NOP; NOP; JR -2
    let main = [0x31, 0xFE, 0xFF, 0x3E, 0x01, 0xE0, 0xFF, 0xE0, 0x0F, 0xFB, 0x00, 0x00, 0x18, 0xFE];
    let vector: &[u8] = &[0x06, 0x99, 0x18, 0xFE];
    let mut gb = machine_with(&main, &[(0x40, vector)]);
    run(&mut gb, 200).unwrap();
    assert_eq!(gb.cpu.regs.b, 0x99);
    assert_eq!(gb.cpu.interrupts.intr_flags & 0x01, 0);
    assert!(!gb.cpu.interrupts.ime);
    assert_eq!(gb.cpu.regs.sp, 0xFFFC);
}

#[test]
fn reti_returns_and_enables_interrupts() {
    // LD SP,0xFFFE; CALL 0x0160; JR -2 ; at 0x0160: RETI
    let main = [0x31, 0xFE, 0xFF, 0xCD, 0x60, 0x01, 0x06, 0x03, 0x18, 0xFE];
    let sub: &[u8] = &[0xD9];
    let mut gb = machine_with(&main, &[(0x160, sub)]);
    run(&mut gb, 200).unwrap();
    assert!(gb.cpu.interrupts.ime);
    assert_eq!(gb.cpu.regs.b, 0x03);
}

#[test]
fn halt_waits_for_an_interrupt() {
    // HALT with nothing pending: the CPU stays at the next opcode.
    let mut gb = machine(&[0x76, 0x06, 0x01, 0x18, 0xFE]);
    run(&mut gb, 100).unwrap();
    assert_eq!(gb.cpu.regs.b, 0x00);
    // A pending enabled interrupt (IME clear) ends the halt.
    gb.cpu.interrupts.intr_enable = 0x04;
    gb.cpu.interrupts.intr_flags = 0x04;
    run(&mut gb, 100).unwrap();
    assert_eq!(gb.cpu.regs.b, 0x01);
}

#[test]
fn boot_rom_is_unmapped_by_ff50() {
    // Boot ROM: LD A,1; LDH (0x50),A ; the cartridge goes on at 0x0004.
    let mut boot = vec![0u8; 256];
    boot[..4].copy_from_slice(&[0x3E, 0x01, 0xE0, 0x50]);
    let mut rom = rom_with(&[], &[]);
    rom[4..8].copy_from_slice(&[0x06, 0x77, 0x18, 0xFE]);
    let cartridge = Cartridge::new(rom, None).unwrap();
    let mut gb = GameBoy::new(Bootrom { data: boot, active: true }, cartridge);
    assert_eq!(peek(&gb, 0x0000), 0x3E);
    run(&mut gb, 100).unwrap();
    assert!(!gb.peripherals.bootrom.active);
    assert_eq!(gb.cpu.regs.b, 0x77);
    assert_eq!(peek(&gb, 0x0000), 0xC3);
}

#[test]
fn a_frame_ends_every_17556_cycles() {
    // Turn the LCD on and spin.
    let mut gb = machine(&[0x3E, 0x80, 0xE0, 0x40, 0x18, 0xFE]);
    let mut first = None;
    let mut second = None;
    for n in 0..60000usize {
        if gb.emulate_cycle().unwrap() {
            if first.is_none() {
                first = Some(n);
            } else {
                second = Some(n);
                break;
            }
        }
    }
    assert_eq!(second.unwrap() - first.unwrap(), 17556);
}

#[test]
fn second_serial_transfer_while_busy_faults() {
    // LD A,0x81; LDH (0x02),A; LDH (0x02),A
    let mut gb = machine(&[0x3E, 0x81, 0xE0, 0x02, 0xE0, 0x02, 0x18, 0xFE]);
    assert_eq!(run(&mut gb, 100), Err(Fault::SerialBusy));
}

#[test]
fn general_dma_past_the_address_space_faults() {
    // Source 0xFFF0, 32 bytes: LD A,0xFF; LDH (0x51),A; LD A,0xF0; LDH (0x52),A; LD A,1; LDH (0x55),A
    let mut gb = machine(&[0x3E, 0xFF, 0xE0, 0x51, 0x3E, 0xF0, 0xE0, 0x52, 0x3E, 0x01, 0xE0, 0x55, 0x18, 0xFE]);
    assert_eq!(run(&mut gb, 100), Err(Fault::GeneralDmaOverrun));
}

#[test]
fn general_dma_copies_into_video_ram() {
    // Fill 0xC000.. with 0x11, 0x22, then copy 16 bytes from 0xC000 to 0x8010.
    let prog = [
        0x21, 0x00, 0xC0, // LD HL,0xC000
        0x36, 0x11, // LD (HL),0x11
        0x2C, // INC L
        0x36, 0x22, // LD (HL),0x22
        0x3E, 0xC0, 0xE0, 0x51, // HDMA1 = 0xC0
        0xAF, 0xE0, 0x52, // HDMA2 = 0x00
        0xE0, 0x53, // HDMA3 = 0x00
        0x3E, 0x10, 0xE0, 0x54, // HDMA4 = 0x10
        0xAF, 0xE0, 0x55, // HDMA5 = 0x00: 16 bytes at once
        0x18, 0xFE,
    ];
    let mut gb = machine(&prog);
    run(&mut gb, 200).unwrap();
    assert_eq!(peek(&gb, 0x8010), 0x11);
    assert_eq!(peek(&gb, 0x8011), 0x22);
    assert_eq!(peek(&gb, 0x8012), 0x00);
}

#[test]
fn cgb_boot_rom_covers_0200_to_08ff() {
    let mut boot = vec![0u8; 0x900];
    boot[0x10] = 0x11;
    boot[0x200] = 0x22;
    boot[0x8FF] = 0x33;
    let mut rom = rom_with(&[], &[]);
    rom[0x150] = 0x44;
    rom[0x200] = 0x55;
    let cartridge = Cartridge::new(rom, None).unwrap();
    let gb = GameBoy::new(Bootrom::new_cgb(boot).ok().unwrap(), cartridge);
    assert_eq!(peek(&gb, 0x0010), 0x11);
    assert_eq!(peek(&gb, 0x0150), 0x44);
    assert_eq!(peek(&gb, 0x0200), 0x22);
    assert_eq!(peek(&gb, 0x08FF), 0x33);
    assert_eq!(peek(&gb, 0x0900), 0x00);
}

#[test]
fn dmg_boot_rom_leaves_0200_to_the_cartridge() {
    let mut rom = rom_with(&[], &[]);
    rom[0x200] = 0x55;
    let cartridge = Cartridge::new(rom, None).unwrap();
    let gb = GameBoy::new(Bootrom { data: vec![0u8; 256], active: true }, cartridge);
    assert_eq!(peek(&gb, 0x0200), 0x55);
}

#[test]
fn cgb_boot_rom_of_the_wrong_size() {
    assert!(Bootrom::new_cgb(vec![0u8; 0x100]).is_err());
}

#[test]
fn power_on_state_of_the_devices() {
    let gb = machine(&[]);
    assert!(!gb.peripherals.ppu.is_cgb);
    assert_eq!(peek(&gb, 0xFF00), 0xCF);
    assert_eq!(peek(&gb, 0xFF05), 0x00);
    assert_eq!(peek(&gb, 0xFF07), 0xF8);
    assert_eq!(peek(&gb, 0xFF80), 0x00);
    assert_eq!(peek(&gb, 0xC000), 0x00);
    assert_eq!(peek(&gb, 0xFF40), 0x00);
}

#[test]
fn cgb_flag_selects_color_mode() {
    let mut rom = rom_with(&[], &[]);
    rom[0x143] = 0x80;
    let mut x: u8 = 0;
    for i in 0x134..=0x14C {
        x = x.wrapping_sub(rom[i]).wrapping_sub(1);
    }
    rom[0x14D] = x;
    let cartridge = Cartridge::new(rom, None).unwrap();
    assert!(cartridge.is_cgb);
    let gb = GameBoy::new(Bootrom { data: vec![0u8; 256], active: false }, cartridge);
    assert!(gb.peripherals.ppu.is_cgb);
    assert!(gb.peripherals.wram.is_cgb);
}
