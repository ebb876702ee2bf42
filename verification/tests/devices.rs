use gbemu::hram::HRam;
use gbemu::interrupts::{Interrupts, JOYPAD, SERIAL, TIMER};
use gbemu::serial::Serial;
use gbemu::joypad::{Button, Joypad};
use gbemu::oam_dma::OamDma;
use gbemu::ppu::Ppu;
use gbemu::register::Registers;
use gbemu::timer::Timer;
use gbemu::wram::WRam;

#[test]
fn register_pairs_read_back() {
    let mut r = Registers::new();
    r.set_bc(0x1234);
    assert_eq!((r.b, r.c), (0x12, 0x34));
    assert_eq!(r.bc(), 0x1234);
    r.set_de(0xBEEF);
    assert_eq!(r.de(), 0xBEEF);
    r.set_hl(0x8001);
    assert_eq!(r.hl(), 0x8001);
    r.set_af(0x12FF);
    assert_eq!(r.af(), 0x12F0);
}

#[test]
fn flag_setters() {
    let mut r = Registers::new();
    r.set_zf(true);
    r.set_cf(true);
    assert_eq!(r.f, 0x90);
    assert!(r.zf() && r.cf() && !r.nf() && !r.hf());
    r.set_zf(false);
    r.set_nf(true);
    r.set_hf(true);
    assert_eq!(r.f, 0x70);
}

#[test]
fn timer_overflow_reloads_and_requests() {
    let mut t = Timer::new();
    let mut i = Interrupts::new();
    t.write(0xFF06, 0xAB);
    t.write(0xFF05, 0xFF);
    t.write(0xFF07, 0x05);
    // Four machine cycles (16 clocks) make one increment at this clock select.
    for _ in 0..4 {
        t.emulate_cycle(&mut i);
    }
    assert_eq!(t.read(0xFF05), 0x00);
    assert_eq!(i.intr_flags & TIMER, 0);
    t.emulate_cycle(&mut i);
    assert_eq!(t.read(0xFF05), 0xAB);
    assert_eq!(i.intr_flags & TIMER, TIMER);
}

#[test]
fn timer_stopped_keeps_tima() {
    let mut t = Timer::new();
    let mut i = Interrupts::new();
    t.write(0xFF05, 0x10);
    for _ in 0..1000 {
        t.emulate_cycle(&mut i);
    }
    assert_eq!(t.read(0xFF05), 0x10);
    assert_eq!(t.read(0xFF04), 15);
    assert_eq!(t.read(0xFF07), 0xF8);
}

#[test]
fn joypad_press_and_release() {
    let mut j = Joypad::new();
    let mut i = Interrupts::new();
    j.write(0x20); // select the directions
    j.button_down(&mut i, Button::Left);
    assert_eq!(j.read() & 0x0F, 0x0D);
    assert_eq!(i.intr_flags & JOYPAD, JOYPAD);
    j.button_up(Button::Left);
    assert_eq!(j.read() & 0x0F, 0x0F);
}

#[test]
fn interrupts_request_and_acknowledge() {
    let mut i = Interrupts::new();
    i.write(0xFFFF, 0x05);
    i.irq(0x01);
    i.irq(0x04);
    assert_eq!(i.get_interrupt(), 0x05);
    i.ack_interrupt(0x01);
    assert_eq!(i.get_interrupt(), 0x04);
    assert_eq!(i.read(0xFF0F), 0x04);
}

#[test]
fn work_ram_echo() {
    let mut w = WRam::new(false);
    w.write(0xC123, 0x42);
    assert_eq!(w.read(0xE123), 0x42);
    w.write(0xFDFF, 0x24);
    assert_eq!(w.read(0xDDFF), 0x24);
}

#[test]
fn work_ram_banks_in_cgb_mode() {
    let mut w = WRam::new(true);
    w.write(0xD000, 1);
    w.write(0xFF70, 2);
    w.write(0xD000, 2);
    assert_eq!(w.read(0xD000), 2);
    w.write(0xFF70, 0);
    assert_eq!(w.read(0xD000), 1);
    assert_eq!(w.read(0xFF70), 0);
}

#[test]
fn high_ram_reads_back() {
    let mut h = HRam::new();
    h.write(0xFF80, 1);
    h.write(0xFFFE, 2);
    assert_eq!(h.read(0xFF80), 1);
    assert_eq!(h.read(0xFFFE), 2);
}

#[test]
fn oam_dma_walks_160_bytes() {
    let mut d = OamDma::new();
    assert!(!d.is_running());
    d.request(0xC1);
    assert!(d.is_running());
    assert_eq!(d.addr(), Some(0xC100));
    let mut n = 1;
    while d.addr().is_some() {
        n += 1;
    }
    assert_eq!(n, 160);
}

#[test]
fn serial_transfer_completes_and_requests() {
    let mut s = Serial::new(false);
    let mut i = Interrupts::new();
    s.write(0xFF01, 0x42);
    s.write(0xFF02, 0x81);
    for _ in 0..127 {
        s.emulate_cycle(&mut i);
    }
    assert_eq!(s.send(), None);
    s.emulate_cycle(&mut i);
    assert_eq!(i.intr_flags & SERIAL, 0);
    s.emulate_cycle(&mut i);
    assert_eq!(i.intr_flags & SERIAL, SERIAL);
    assert_eq!(s.read(0xFF02) & 0x80, 0);
    assert_eq!(s.send(), Some(0x42));
    s.recv(0x99);
    s.emulate_cycle(&mut i);
    assert_eq!(s.read(0xFF01), 0x99);
}

#[test]
fn dmg_background_line_goes_through_bgp() {
    let mut p = Ppu::new(false);
    let mut i = Interrupts::new();
    // Row 0 of tile 0: every pixel has color 1.
    p.write(0x8000, 0xFF);
    p.write(0x8001, 0x00);
    p.write(0xFF47, 0xE4);
    p.write(0xFF40, 0x91);
    // OAM scan (20 cycles) and drawing (43 cycles) draw line 0.
    for _ in 0..63 {
        assert!(!p.emulate_cycle(&mut i));
    }
    let buf = p.pixel_buffer();
    assert_eq!(buf[0], 0xAA);
    assert_eq!(buf[159], 0xAA);
    assert_eq!(p.read(0xFF44), 0);
    assert_eq!(p.read(0xFF41) & 3, 0);
}

#[test]
fn cgb_palette_colour_is_little_endian_rgb555() {
    let mut p = Ppu::new(true);
    p.write(0xFF68, 0x80);
    p.write(0xFF69, 0x00);
    p.write(0xFF69, 0x7C);
    assert_eq!(p.get_color_from_palette_memory(0, 0, false), [0x00, 0x00, 0x1F, 0xFF]);
}

#[test]
fn cgb_palette_red_and_green_channels() {
    let mut p = Ppu::new(true);
    p.write(0xFF6A, 0x80 | 0x02);
    // 0x03E1: red 1, green 31.
    p.write(0xFF6B, 0xE1);
    p.write(0xFF6B, 0x03);
    assert_eq!(p.get_color_from_palette_memory(0, 1, true), [0x01, 0x1F, 0x00, 0xFF]);
}

#[test]
fn timer_counts_once_per_period() {
    // Clock select 2: a period of 64 clocks, 16 machine cycles.
    let mut t = Timer::new();
    let mut i = Interrupts::new();
    t.write(0xFF07, 0x06);
    for _ in 0..1000 {
        t.emulate_cycle(&mut i);
    }
    // 4000 clocks / 64 = 62 increments; the divider holds 4000.
    assert_eq!(t.read(0xFF05), 62);
    assert_eq!(t.div, 4000);
    assert_eq!(i.intr_flags & TIMER, 0);
}

#[test]
fn video_ram_reads_back_outside_drawing() {
    let mut p = Ppu::new(false);
    p.write(0x8123, 0x5A);
    assert_eq!(p.read(0x8123), 0x5A);
    p.write(0x9FFF, 0xA5);
    assert_eq!(p.read(0x9FFF), 0xA5);
}

#[test]
fn oam_is_locked_while_scanning() {
    // At power-on the PPU scans OAM: the write is lost and the read gives 0xFF.
    let mut p = Ppu::new(false);
    p.write(0xFE10, 0x77);
    assert_eq!(p.read(0xFE10), 0xFF);
    assert_eq!(p.oam[0x10], 0x00);
}

#[test]
fn oam_dma_addresses_end_after_160() {
    let mut d = OamDma::new();
    d.request(0xC1);
    for k in 0..160u16 {
        assert_eq!(d.addr(), Some(0xC100 + k));
    }
    assert!(!d.is_running());
    assert_eq!(d.addr(), None);
    assert_eq!(d.addr(), None);
}

#[test]
fn link_cable_swaps_the_finished_byte() {
    let mut a = Serial::new(false);
    let mut b = Serial::new(false);
    a.data = 0x12;
    a.send_data = Some(0x12);
    b.data = 0x34;
    Serial::exchange(&mut a, &mut b);
    assert_eq!(a.send_data, None);
    assert_eq!(a.recv_data, Some(0x34));
    assert_eq!(b.recv_data, Some(0x12));
}

#[test]
fn link_cable_idle_changes_nothing() {
    let mut a = Serial::new(false);
    let mut b = Serial::new(false);
    a.send_data = Some(0x12);
    a.transfer_cnt = 3;
    Serial::exchange(&mut a, &mut b);
    assert_eq!(a.send_data, Some(0x12));
    assert_eq!(a.recv_data, None);
    assert_eq!(b.recv_data, None);
}

#[test]
fn dmg_frame_as_rgb_repeats_each_shade() {
    let mut p = Ppu::new(false);
    p.buffer[0] = 0x55;
    p.buffer[1] = 0xAA;
    p.buffer[23039] = 0x11;
    let rgb = p.pixel_rgb();
    assert_eq!(rgb.len(), 23040 * 3);
    assert_eq!(&rgb[0..6], &[0x55, 0x55, 0x55, 0xAA, 0xAA, 0xAA]);
    assert_eq!(&rgb[69117..69120], &[0x11, 0x11, 0x11]);
}

#[test]
fn joypad_keeps_its_top_bits() {
    let mut j = Joypad::new();
    let mut i = Interrupts::new();
    j.write(0x20);
    j.button_down(&mut i, Button::Down);
    assert_eq!(j.read() & 0xC0, 0xC0);
    assert_eq!(j.read() & 0x0F, 0x07);
    assert_eq!(j.direction & 0xF0, 0xF0);
    j.button_up(Button::Down);
    assert_eq!(j.read(), 0xEF);
}

#[test]
fn video_ram_keeps_a_byte_across_other_writes() {
    let mut p = Ppu::new(false);
    p.write(0x8000, 0x01);
    p.write(0x8001, 0x02);
    p.write(0xFF47, 0xE4);
    p.write(0x9800, 0x03);
    assert_eq!(p.read(0x8000), 0x01);
}
