use gbemu::bootrom::{Bootrom, BootromError};
use gbemu::cartridge::mbc::{Mbc, Mbc1State};
use gbemu::cartridge::{Cartridge, CartridgeError};

fn header_fixed(mut rom: Vec<u8>) -> Vec<u8> {
    let mut x: u8 = 0;
    for i in 0x134..=0x14C {
        x = x.wrapping_sub(rom[i]).wrapping_sub(1);
    }
    rom[0x14D] = x;
    rom
}

fn image(len: usize, cart_type: u8, rom_code: u8, ram_code: u8) -> Vec<u8> {
    let mut rom = vec![0u8; len];
    rom[0x147] = cart_type;
    rom[0x148] = rom_code;
    rom[0x149] = ram_code;
    header_fixed(rom)
}

#[test]
fn accepts_a_rom_only_image() {
    let mut rom = image(0x8000, 0x00, 0x00, 0x00);
    rom[0x134..0x138].copy_from_slice(b"TEST");
    let rom = header_fixed(rom);
    let c = Cartridge::new(rom, None).unwrap();
    assert_eq!(c.title, "TEST");
    assert_eq!(c.rom_banks, 2);
    assert_eq!(c.sram.len(), 0);
}

#[test]
fn refuses_a_short_image() {
    assert_eq!(Cartridge::new(vec![0u8; 0x4000], None).err(), Some(CartridgeError::InvalidSize));
}

#[test]
fn refuses_a_bad_header_checksum() {
    let mut rom = image(0x8000, 0x00, 0x00, 0x00);
    rom[0x14D] = rom[0x14D].wrapping_add(1);
    assert_eq!(Cartridge::new(rom, None).err(), Some(CartridgeError::ChecksumMismatch));
}

#[test]
fn refuses_a_title_that_is_not_utf8() {
    let mut rom = image(0x8000, 0x00, 0x00, 0x00);
    rom[0x134] = 0xFF;
    rom[0x135] = 0xFE;
    let rom = header_fixed(rom);
    assert_eq!(Cartridge::new(rom, None).err(), Some(CartridgeError::InvalidTitle));
}

#[test]
fn refuses_an_unknown_rom_size() {
    let rom = image(0x8000, 0x00, 0x09, 0x00);
    assert_eq!(Cartridge::new(rom, None).err(), Some(CartridgeError::InvalidRomSize(0x09)));
}

#[test]
fn refuses_an_unsupported_type() {
    let rom = image(0x8000, 0x20, 0x00, 0x00);
    assert_eq!(Cartridge::new(rom, None).err(), Some(CartridgeError::UnsupportedType(0x20)));
}

#[test]
fn refuses_an_unknown_ram_size() {
    let rom = image(0x8000, 0x00, 0x00, 0x06);
    assert_eq!(Cartridge::new(rom, None).err(), Some(CartridgeError::InvalidRamSize(0x06)));
}

#[test]
fn refuses_a_size_that_the_header_does_not_state() {
    let rom = image(0x10000, 0x00, 0x00, 0x00);
    assert_eq!(
        Cartridge::new(rom, None).err(),
        Some(CartridgeError::SizeMismatch { expected: 0x8000, actual: 0x10000 })
    );
}

#[test]
fn mbc1_switches_rom_banks() {
    // 4 banks of 16 KiB; each bank starts with its number.
    let mut rom = image(0x10000, 0x01, 0x01, 0x00);
    for bank in 0..4usize {
        rom[bank * 0x4000 + 0x10] = bank as u8;
    }
    let rom = header_fixed(rom);
    let mut c = Cartridge::new(rom, None).unwrap();
    assert_eq!(c.read(0x4010), 1);
    c.write(0x2000, 3);
    assert_eq!(c.read(0x4010), 3);
    // Bank 0 stays at 0x0000, and selecting bank 0 gives bank 1.
    assert_eq!(c.read(0x0010), 0);
    c.write(0x2000, 0);
    assert_eq!(c.read(0x4010), 1);
}

#[test]
fn cartridge_ram_reads_back_once_enabled() {
    // MBC1 with RAM, 8 KiB.
    let rom = image(0x8000, 0x02, 0x00, 0x02);
    let mut c = Cartridge::new(rom, None).unwrap();
    assert_eq!(c.sram.len(), 0x2000);
    c.write(0x0000, 0x0A);
    c.write(0xA123, 0x42);
    assert_eq!(c.read(0xA123), 0x42);
}

#[test]
fn a_save_replaces_the_ram() {
    let rom = image(0x8000, 0x02, 0x00, 0x02);
    let c = Cartridge::new(rom, Some(vec![7u8; 0x2000])).unwrap();
    assert_eq!(c.sram[0x100], 7);
}

#[test]
fn boot_rom_of_the_wrong_size() {
    assert_eq!(Bootrom::new(vec![0u8; 100]).err(), Some(BootromError::InvalidSize(100)));
}

#[test]
fn boot_rom_with_another_checksum() {
    assert_eq!(Bootrom::new(vec![0u8; 256]).err(), Some(BootromError::NotDmg));
}

#[test]
fn boot_rom_with_the_dmg_checksum() {
    // 252 zero bytes and four bytes chosen so that the CRC-32 is the DMG one.
    let mut data = vec![0u8; 256];
    data[252..].copy_from_slice(&[74, 140, 17, 85]);
    let b = Bootrom::new(data).ok().unwrap();
    assert!(b.is_active());
    assert_eq!(b.read(0xFF), 85);
}

#[test]
fn boot_rom_unmapping_is_final() {
    let mut b = Bootrom { data: vec![0u8; 256], active: true };
    b.write(0xFF50, 0);
    assert!(b.is_active());
    b.write(0xFF50, 1);
    assert!(!b.is_active());
    b.write(0xFF50, 0);
    assert!(!b.is_active());
}

#[test]
fn mbc1_bank_offsets() {
    let mut s = Mbc1State::new();
    assert_eq!(s.rom_offset(false), (0, 0x4000));
    assert_eq!(s.ram_offset(), 0);
    s.rom_bank = 3;
    s.ram_bank = 1;
    s.mode = true;
    assert_eq!(s.rom_offset(false), (0x4000 * 32, 0x4000 * 35));
    assert_eq!(s.rom_offset(true), (0x4000 * 16, 0x4000 * 19));
    s.ram_bank = 2;
    assert_eq!(s.ram_offset(), 0x4000);
}

#[test]
fn refuses_mbc5() {
    let rom = image(0x8000, 0x19, 0x00, 0x00);
    assert_eq!(Cartridge::new(rom, None).err(), Some(CartridgeError::UnsupportedType(0x19)));
}

#[test]
fn refuses_mbc3() {
    let rom = image(0x8000, 0x13, 0x00, 0x00);
    assert_eq!(Cartridge::new(rom, None).err(), Some(CartridgeError::UnsupportedType(0x13)));
}

#[test]
fn cartridge_type_is_checked_before_rom_size() {
    let rom = image(0x8000, 0x20, 0x09, 0x00);
    assert_eq!(Cartridge::new(rom, None).err(), Some(CartridgeError::UnsupportedType(0x20)));
}

#[test]
fn cartridge_ram_keeps_a_byte_across_other_writes() {
    let rom = image(0x8000, 0x02, 0x00, 0x02);
    let mut c = Cartridge::new(rom, None).unwrap();
    c.write(0x0000, 0x0A);
    c.write(0xA010, 0x11);
    c.write(0xA011, 0x22);
    c.write(0xBFFF, 0x33);
    c.write(0xA000, 0x44);
    assert_eq!(c.read(0xA010), 0x11);
    assert_eq!(c.read(0xA011), 0x22);
}

#[test]
fn disabled_cartridge_ram_reads_ff() {
    let rom = image(0x8000, 0x02, 0x00, 0x02);
    let mut c = Cartridge::new(rom, None).unwrap();
    c.write(0xA010, 0x11);
    assert_eq!(c.read(0xA010), 0xFF);
}

#[test]
fn has_ram_follows_the_cartridge_type() {
    assert!(!Cartridge::new(image(0x8000, 0x00, 0x00, 0x00), None).unwrap().mbc.has_ram());
    assert!(!Cartridge::new(image(0x8000, 0x01, 0x00, 0x00), None).unwrap().mbc.has_ram());
    assert!(Cartridge::new(image(0x8000, 0x02, 0x00, 0x02), None).unwrap().mbc.has_ram());
    assert!(Cartridge::new(image(0x8000, 0x09, 0x00, 0x02), None).unwrap().mbc.has_ram());
}

#[test]
fn mbc_new_takes_any_bank_count() {
    assert_eq!(Mbc::new(0x00, 0, false), Mbc::NoMbc { ram: false });
    assert_eq!(
        Mbc::new(0x03, 0, false),
        Mbc::Mbc1 {
            ram: true,
            sram_enable: false,
            low_bank: 1,
            high_bank: 0,
            bank_mode: false,
            rom_banks: 0,
            multicart: false
        }
    );
}

#[test]
fn cartridge_ram_keeps_a_byte_across_rom_bank_switches() {
    let rom = image(0x10000, 0x02, 0x01, 0x02);
    let mut c = Cartridge::new(rom, None).unwrap();
    c.write(0x0000, 0x0A);
    c.write(0xA200, 0x5C);
    c.write(0x2000, 0x03);
    c.write(0xA201, 0x01);
    c.write(0x2000, 0x02);
    assert_eq!(c.read(0xA200), 0x5C);
}
