use vstd::prelude::*;

use crate::bits::lemma_and_le_u8;
use crate::ppu::{
    Mode, Ppu, BUFFER_SIZE, BANK, BG_TILE_MAP, BG_WINDOW_ENABLE, OBJ2BG_PRIORITY, PALETTE, SPRITE_ENABLE,
    TILE_DATA_ADDRESSING_MODE, WINDOW_ENABLE, WINDOW_TILE_MAP, X_FLIP, Y_FLIP,
};
use crate::{LCD_PIXELS, LCD_WIDTH};

verus! {

/// The shade (0xFF white to 0x00 black) that a DMG palette register gives
/// a 2-bit pixel value.
pub open spec fn shade(palette: u8, pixel: u8) -> u8 {
    let c = (palette >> ((pixel * 2) as u8)) & 3;
    if c == 0 {
        0xFF
    } else if c == 1 {
        0xAA
    } else if c == 2 {
        0x55
    } else {
        0x00
    }
}

/// The 2-bit value of the pixel at `row`, `col` of tile `tile` in a video
/// RAM bank: bit `7 - col` of the tile's two bytes for that row.
pub open spec fn tile_pixel(mem: Seq<u8>, tile: int, row: int, col: int) -> u8 {
    let lo = mem[tile * 16 + row * 2];
    let hi = mem[tile * 16 + row * 2 + 1];
    let c = (7 - col) as u8;
    (((hi >> c) & 1) * 2 + ((lo >> c) & 1)) as u8
}

/// The address in video RAM of entry `row`, `col` of tile map 0 (0x9800)
/// or 1 (0x9C00).
pub open spec fn map_index(tile_map: bool, row: int, col: int) -> int {
    0x1800 + (if tile_map { 0x400int } else { 0 }) + row * 32 + col
}

/// The tile that a tile map entry names: tiles 0-255 from 0x8000 in the
/// unsigned mode, otherwise entries 0-127 name tiles 256-383 (0x9000).
pub open spec fn tile_number(lcdc: u8, v: u8) -> int {
    if lcdc & TILE_DATA_ADDRESSING_MODE != 0 || v >= 128 {
        v as int
    } else {
        v as int + 256
    }
}

/// The attributes of the background tile under `y`, `x`: on CGB from the
/// second video RAM bank, on DMG none.
pub open spec fn map_attr(p: Ppu, tile_map: bool, y: u8, x: u8) -> u8 {
    if p.is_cgb {
        p.vram2@[map_index(tile_map, (y / 8) as int, (x / 8) as int)]
    } else {
        0
    }
}

/// The 2-bit pixel of the tile map at `y`, `x`, flipped as asked and read
/// from the chosen tile bank.
pub open spec fn map_pixel(p: Ppu, tile_map: bool, y: u8, x: u8, yflip: bool, xflip: bool, bank2: bool) -> u8 {
    let tile = tile_number(p.lcdc, p.vram@[map_index(tile_map, (y / 8) as int, (x / 8) as int)]);
    let row = if yflip { 7 - (y % 8) } else { (y % 8) as int };
    let col = if xflip { 7 - (x % 8) } else { (x % 8) as int };
    tile_pixel(if bank2 { p.vram2@ } else { p.vram@ }, tile, row, col)
}

/// The pixel under `y`, `x`: on CGB with the flips and bank of the tile's
/// attributes, on DMG plain.
pub open spec fn attr_pixel(p: Ppu, tile_map: bool, y: u8, x: u8) -> u8 {
    if p.is_cgb {
        let a = map_attr(p, tile_map, y, x);
        map_pixel(p, tile_map, y, x, a & Y_FLIP != 0, a & X_FLIP != 0, a & BANK != 0)
    } else {
        map_pixel(p, tile_map, y, x, false, false, false)
    }
}

/// Background coordinates of screen column `i` on the current line.
pub open spec fn bg_y(p: Ppu) -> u8 {
    p.ly.wrapping_add(p.scy)
}

pub open spec fn bg_x(p: Ppu, i: int) -> u8 {
    (i as u8).wrapping_add(p.scx)
}

pub open spec fn bg_map(p: Ppu) -> bool {
    p.lcdc & BG_TILE_MAP != 0
}

pub open spec fn window_map(p: Ppu) -> bool {
    p.lcdc & WINDOW_TILE_MAP != 0
}

/// The first screen column of the window.
pub open spec fn window_start(p: Ppu) -> u8 {
    p.wx.wrapping_sub(7)
}

/// Window x coordinate of screen column `i` (when `i >= window_start`).
pub open spec fn window_x(p: Ppu, i: int) -> u8 {
    ((i as u8) - window_start(p)) as u8
}

pub open spec fn bg_attr_at(p: Ppu, i: int) -> u8 {
    map_attr(p, bg_map(p), bg_y(p), bg_x(p, i))
}

pub open spec fn bg_pixel(p: Ppu, i: int) -> u8 {
    attr_pixel(p, bg_map(p), bg_y(p), bg_x(p, i))
}

pub open spec fn window_attr_at(p: Ppu, i: int) -> u8 {
    map_attr(p, window_map(p), p.wly, window_x(p, i))
}

pub open spec fn window_pixel(p: Ppu, i: int) -> u8 {
    attr_pixel(p, window_map(p), p.wly, window_x(p, i))
}

/// Index in the frame buffer of column `i` of the current line (DMG layout,
/// one byte per pixel).
pub open spec fn line_base(p: Ppu) -> int {
    LCD_WIDTH as int * p.ly
}

/// Whether the window is drawn on the current line (DMG rules).
pub open spec fn dmg_window_on(p: Ppu) -> bool {
    p.lcdc & BG_WINDOW_ENABLE != 0 && p.lcdc & WINDOW_ENABLE != 0 && p.wy <= p.ly
}

/// Whether the window is drawn on the current line (CGB rules).
pub open spec fn cgb_window_on(p: Ppu) -> bool {
    p.lcdc & WINDOW_ENABLE != 0 && p.wy <= p.ly
}

/// The internal window line counter after the current line: it advances
/// only on lines where some window column is on screen.
pub open spec fn wly_after(p: Ppu, on: bool) -> u8 {
    if on && window_start(p) < LCD_WIDTH {
        (p.wly + 1) as u8
    } else {
        p.wly
    }
}

/// The DMG background stage: the line's shades and, per column, whether the
/// background pixel is nonzero.
pub open spec fn dmg_bg_stage(p: Ppu, buf: Seq<u8>, prio: Seq<bool>) -> (Seq<u8>, Seq<bool>) {
    if p.lcdc & BG_WINDOW_ENABLE == 0 {
        (buf, prio)
    } else {
        (
            Seq::new(
                buf.len(),
                |j: int|
                    if line_base(p) <= j < line_base(p) + LCD_WIDTH {
                        shade(p.bgp, bg_pixel(p, j - line_base(p)))
                    } else {
                        buf[j]
                    },
            ),
            Seq::new(prio.len(), |i: int| bg_pixel(p, i) > 0),
        )
    }
}

pub open spec fn dmg_window_stage(p: Ppu, buf: Seq<u8>, prio: Seq<bool>) -> (Seq<u8>, Seq<bool>) {
    if !dmg_window_on(p) {
        (buf, prio)
    } else {
        (
            Seq::new(
                buf.len(),
                |j: int|
                    if line_base(p) + window_start(p) <= j < line_base(p) + LCD_WIDTH {
                        shade(p.bgp, window_pixel(p, j - line_base(p)))
                    } else {
                        buf[j]
                    },
            ),
            Seq::new(
                prio.len(),
                |i: int|
                    if i >= window_start(p) {
                        window_pixel(p, i) > 0
                    } else {
                        prio[i]
                    },
            ),
        )
    }
}

/// A sprite as the renderer sees it: OAM position minus (16, 8).
#[derive(Clone, Copy)]
pub struct Sprite {
    pub y: u8,
    pub x: u8,
    pub tile_idx: u8,
    pub flags: u8,
}

pub open spec fn oam_sprite(oam: Seq<u8>, n: int) -> Sprite {
    Sprite {
        y: oam[4 * n].wrapping_sub(16),
        x: oam[4 * n + 1].wrapping_sub(8),
        tile_idx: oam[4 * n + 2],
        flags: oam[4 * n + 3],
    }
}

pub open spec fn on_line(s: Sprite, ly: u8, size: u8) -> bool {
    ly.wrapping_sub(s.y) < size
}

/// The sprites of the first `n` OAM entries that lie on line `ly`, at most ten,
/// in OAM order.
pub open spec fn selected_upto(oam: Seq<u8>, ly: u8, size: u8, n: int) -> Seq<Sprite>
    decreases n,
{
    if n <= 0 {
        seq![]
    } else {
        let prev = selected_upto(oam, ly, size, n - 1);
        if prev.len() < 10 && on_line(oam_sprite(oam, n - 1), ly, size) {
            prev.push(oam_sprite(oam, n - 1))
        } else {
            prev
        }
    }
}

pub open spec fn selected(p: Ppu) -> Seq<Sprite> {
    selected_upto(p.oam@, p.ly, p.sprite_size(), 40)
}

/// The column of sprite `s` that screen column `i` shows (8 or more: none).
pub open spec fn sprite_col(s: Sprite, i: int) -> u8 {
    (i as u8).wrapping_sub(s.x)
}

/// The 2-bit pixel of sprite `s` at screen column `i` of the current line.
pub open spec fn sprite_pixel(p: Ppu, s: Sprite, i: int) -> u8 {
    let size = p.sprite_size();
    let c = sprite_col(s, i);
    let col = if s.flags & X_FLIP != 0 { 7 - c } else { c as int };
    let dy = p.ly.wrapping_sub(s.y);
    let row = if s.flags & Y_FLIP != 0 { size - 1 - dy } else { dy as int };
    let base = if size == 16 { s.tile_idx & 0xFE } else { s.tile_idx };
    let tile = base as int + (if row >= 8 { 1int } else { 0 });
    let mem = if p.is_cgb && s.flags & BANK != 0 { p.vram2@ } else { p.vram@ };
    tile_pixel(mem, tile, row % 8, col)
}

/// Whether sprite `s` paints column `i` on DMG: it covers the column with a
/// nonzero pixel, and is above the background or the background pixel is zero.
pub open spec fn dmg_paints(p: Ppu, s: Sprite, i: int, prio: Seq<bool>) -> bool {
    sprite_col(s, i) < 8 && sprite_pixel(p, s, i) > 0 && (s.flags & OBJ2BG_PRIORITY == 0
        || !prio[i])
}

/// The sprite that shows at column `i` among the first `n` selected ones on
/// DMG: the painting sprite with the smallest x, the earliest on a tie.
pub open spec fn dmg_winner(p: Ppu, sprites: Seq<Sprite>, i: int, prio: Seq<bool>, n: int) -> Option<
    int,
>
    decreases n,
{
    if n <= 0 {
        None
    } else {
        let best = dmg_winner(p, sprites, i, prio, n - 1);
        if dmg_paints(p, sprites[n - 1], i, prio) && (best is None || sprites[n - 1].x
            < sprites[best->0].x) {
            Some(n - 1)
        } else {
            best
        }
    }
}

pub open spec fn dmg_sprite_shade(p: Ppu, s: Sprite, i: int) -> u8 {
    shade(if s.flags & PALETTE != 0 { p.obp1 } else { p.obp0 }, sprite_pixel(p, s, i))
}

pub open spec fn dmg_sprite_stage(p: Ppu, buf: Seq<u8>, prio: Seq<bool>) -> Seq<u8> {
    if p.lcdc & SPRITE_ENABLE == 0 {
        buf
    } else {
        let sprites = selected(p);
        Seq::new(
            buf.len(),
            |j: int|
                if line_base(p) <= j < line_base(p) + LCD_WIDTH {
                    match dmg_winner(p, sprites, j - line_base(p), prio, sprites.len() as int) {
                        Some(k) => dmg_sprite_shade(p, sprites[k], j - line_base(p)),
                        None => buf[j],
                    }
                } else {
                    buf[j]
                },
        )
    }
}

/// The frame buffer after the current line is drawn in DMG mode.
pub open spec fn dmg_line(p: Ppu) -> Seq<u8> {
    let s1 = dmg_bg_stage(p, p.buffer@, Seq::new(LCD_WIDTH as nat, |i: int| false));
    let s2 = dmg_window_stage(p, s1.0, s1.1);
    dmg_sprite_stage(p, s2.0, s2.1)
}

// ----- CGB -----

/// The RGB555 value of colour `pixel` of palette `palette` in palette memory:
/// eight bytes per palette, two per colour, low byte first.
pub open spec fn palette_rgb555(mem: Seq<u8>, palette: u8, pixel: u8) -> u16 {
    let i = palette as int * 8 + pixel as int * 2;
    (mem[i] as u16) | ((mem[i + 1] as u16) << 8u16)
}

/// Channel `j` (red, green, blue, alpha) of a colour, widened from 5 to 8 bits;
/// alpha is always 0xFF.
pub open spec fn rgba_byte(c: u16, j: int) -> u8 {
    let v: u8 = if j == 0 {
        (c & 0x1F) as u8
    } else if j == 1 {
        ((c >> 5u16) & 0x1F) as u8
    } else if j == 2 {
        ((c >> 10u16) & 0x1F) as u8
    } else {
        0xFF
    };
    (v << 3u8) | (v >> 2u8)
}

pub open spec fn in_line_rgba(p: Ppu, k: int) -> bool {
    line_base(p) * 4 <= k < (line_base(p) + LCD_WIDTH) * 4
}

pub open spec fn cgb_bg_stage(p: Ppu, buf: Seq<u8>) -> (Seq<u8>, Seq<(bool, bool)>) {
    (
        Seq::new(
            buf.len(),
            |k: int|
                if in_line_rgba(p, k) {
                    let i = (k - line_base(p) * 4) / 4;
                    let j = (k - line_base(p) * 4) % 4;
                    rgba_byte(
                        palette_rgb555(p.bg_palette_memory@, bg_attr_at(p, i) & 7, bg_pixel(p, i)),
                        j,
                    )
                } else {
                    buf[k]
                },
        ),
        Seq::new(
            LCD_WIDTH as nat,
            |i: int| (bg_attr_at(p, i) & OBJ2BG_PRIORITY != 0, bg_pixel(p, i) > 0),
        ),
    )
}

pub open spec fn cgb_window_stage(p: Ppu, buf: Seq<u8>, prio: Seq<(bool, bool)>) -> (
    Seq<u8>,
    Seq<(bool, bool)>,
) {
    if !cgb_window_on(p) {
        (buf, prio)
    } else {
        (
            Seq::new(
                buf.len(),
                |k: int|
                    if in_line_rgba(p, k) && (k - line_base(p) * 4) / 4 >= window_start(p) {
                        let i = (k - line_base(p) * 4) / 4;
                        let j = (k - line_base(p) * 4) % 4;
                        rgba_byte(
                            palette_rgb555(
                                p.bg_palette_memory@,
                                window_attr_at(p, i) & 7,
                                window_pixel(p, i),
                            ),
                            j,
                        )
                    } else {
                        buf[k]
                    },
            ),
            Seq::new(
                prio.len(),
                |i: int|
                    if i >= window_start(p) {
                        (window_attr_at(p, i) & OBJ2BG_PRIORITY != 0, window_pixel(p, i) > 0)
                    } else {
                        prio[i]
                    },
            ),
        )
    }
}

/// Whether sprite `s` paints column `i` on CGB: it covers the column with a
/// nonzero pixel, and the background has no priority there.
pub open spec fn cgb_paints(p: Ppu, s: Sprite, i: int, prio: Seq<(bool, bool)>) -> bool {
    sprite_col(s, i) < 8 && sprite_pixel(p, s, i) > 0 && (p.lcdc & BG_WINDOW_ENABLE == 0 || (
    s.flags & OBJ2BG_PRIORITY == 0 && !prio[i].0) || !prio[i].1)
}

/// On CGB the earliest painting sprite in OAM order shows.
pub open spec fn cgb_winner(p: Ppu, sprites: Seq<Sprite>, i: int, prio: Seq<(bool, bool)>, n: int) -> Option<
    int,
>
    decreases n,
{
    if n <= 0 {
        None
    } else {
        let best = cgb_winner(p, sprites, i, prio, n - 1);
        if best is None && cgb_paints(p, sprites[n - 1], i, prio) {
            Some(n - 1)
        } else {
            best
        }
    }
}

pub open spec fn cgb_sprite_stage(p: Ppu, buf: Seq<u8>, prio: Seq<(bool, bool)>) -> Seq<u8> {
    if p.lcdc & SPRITE_ENABLE == 0 {
        buf
    } else {
        let sprites = selected(p);
        Seq::new(
            buf.len(),
            |k: int|
                if in_line_rgba(p, k) {
                    let i = (k - line_base(p) * 4) / 4;
                    let j = (k - line_base(p) * 4) % 4;
                    match cgb_winner(p, sprites, i, prio, sprites.len() as int) {
                        Some(n) => rgba_byte(
                            palette_rgb555(
                                p.sprite_palette_memory@,
                                sprites[n].flags & 7,
                                sprite_pixel(p, sprites[n], i),
                            ),
                            j,
                        ),
                        None => buf[k],
                    }
                } else {
                    buf[k]
                },
        )
    }
}

pub open spec fn cgb_line(p: Ppu) -> Seq<u8> {
    let s1 = cgb_bg_stage(p, p.buffer@);
    let s2 = cgb_window_stage(p, s1.0, s1.1);
    cgb_sprite_stage(p, s2.0, s2.1)
}

/// The frame buffer and window line counter after the current line is drawn.
pub open spec fn rendered(old: Ppu, new: Ppu) -> bool {
    &&& new.buffer@ == (if old.is_cgb {
        cgb_line(old)
    } else {
        dmg_line(old)
    })
    &&& new.wly == (if old.is_cgb {
        wly_after(old, cgb_window_on(old))
    } else {
        wly_after(old, dmg_window_on(old))
    })
}

/// Everything but the frame buffer and the window line counter is as in `b`.
pub open spec fn same_but_picture(a: Ppu, b: Ppu) -> bool {
    &&& a.is_cgb == b.is_cgb && a.mode == b.mode && a.lcdc == b.lcdc && a.stat == b.stat
    &&& a.scy == b.scy && a.scx == b.scx && a.ly == b.ly && a.lyc == b.lyc
    &&& a.bgp == b.bgp && a.obp0 == b.obp0 && a.obp1 == b.obp1 && a.wy == b.wy && a.wx == b.wx
    &&& a.vram@ == b.vram@ && a.vram2@ == b.vram2@ && a.oam@ == b.oam@
    &&& a.bcps == b.bcps && a.ocps == b.ocps && a.vbk == b.vbk
    &&& a.oam_dma == b.oam_dma && a.hdma_src == b.hdma_src && a.hdma_dst == b.hdma_dst
    &&& a.hblank_dma == b.hblank_dma && a.general_dma == b.general_dma
    &&& a.bg_palette_memory@ == b.bg_palette_memory@
    &&& a.sprite_palette_memory@ == b.sprite_palette_memory@
    &&& a.cycles == b.cycles
    &&& a.buffer@.len() == b.buffer@.len()
}

/// Every sprite chosen for a line lies on it, and at most ten are chosen.
pub proof fn lemma_selected(oam: Seq<u8>, ly: u8, size: u8, n: int)
    ensures
        selected_upto(oam, ly, size, n).len() <= 10,
        forall|k: int|
            0 <= k < selected_upto(oam, ly, size, n).len() ==> on_line(
                #[trigger] selected_upto(oam, ly, size, n)[k],
                ly,
                size,
            ),
    decreases n,
{
    if n > 0 {
        lemma_selected(oam, ly, size, n - 1);
    }
}

/// The sprite that wins a column is one of those considered, and paints it.
pub proof fn lemma_dmg_winner(p: Ppu, sprites: Seq<Sprite>, i: int, prio: Seq<bool>, n: int)
    ensures
        dmg_winner(p, sprites, i, prio, n) matches Some(k) ==> 0 <= k < n && dmg_paints(
            p,
            sprites[k],
            i,
            prio,
        ),
    decreases n,
{
    if n > 0 {
        lemma_dmg_winner(p, sprites, i, prio, n - 1);
    }
}

pub proof fn lemma_cgb_winner(p: Ppu, sprites: Seq<Sprite>, i: int, prio: Seq<(bool, bool)>, n: int)
    ensures
        cgb_winner(p, sprites, i, prio, n) matches Some(k) ==> 0 <= k < n && cgb_paints(
            p,
            sprites[k],
            i,
            prio,
        ),
    decreases n,
{
    if n > 0 {
        lemma_cgb_winner(p, sprites, i, prio, n - 1);
    }
}

/// The winning sprite depends only on the registers and memories that
/// drawing does not change.
pub proof fn lemma_winner_congruence(
    p: Ppu,
    q: Ppu,
    sprites: Seq<Sprite>,
    i: int,
    prio: Seq<bool>,
    cprio: Seq<(bool, bool)>,
    n: int,
)
    requires
        same_but_picture(p, q),
    ensures
        dmg_winner(p, sprites, i, prio, n) == dmg_winner(q, sprites, i, prio, n),
        cgb_winner(p, sprites, i, cprio, n) == cgb_winner(q, sprites, i, cprio, n),
    decreases n,
{
    if n > 0 {
        lemma_winner_congruence(p, q, sprites, i, prio, cprio, n - 1);
    }
}

fn shade_of(palette: u8, pixel: u8) -> (r: u8)
    requires
        pixel <= 3,
    ensures
        r == shade(palette, pixel),
{
    match (palette >> (pixel * 2)) & 0b11 {
        0b00 => 0xFF,
        0b01 => 0xAA,
        0b10 => 0x55,
        _ => 0x00,
    }
}

impl Ppu {
    fn get_tile_idx_from_tile_map(&self, tile_map: bool, row: u8, col: u8) -> (r: usize)
        requires
            self.mem_wf(),
            row < 32,
            col < 32,
        ensures
            r == tile_number(self.lcdc, self.vram@[map_index(tile_map, row as int, col as int)]),
            r < 512,
    {
        let start: usize = if tile_map { 0x1C00 } else { 0x1800 };
        let v = self.vram[start + (row as usize) * 32 + col as usize];
        if self.lcdc & TILE_DATA_ADDRESSING_MODE > 0 || v >= 128 {
            v as usize
        } else {
            v as usize + 0x100
        }
    }

    fn get_pixel_from_tile(&self, tile_idx: usize, row: u8, col: u8, from2: bool) -> (r: u8)
        requires
            self.mem_wf(),
            tile_idx < 512,
            row < 8,
            col < 8,
        ensures
            r == tile_pixel(
                if from2 {
                    self.vram2@
                } else {
                    self.vram@
                },
                tile_idx as int,
                row as int,
                col as int,
            ),
            r <= 3,
    {
        let c = 7 - col;
        let a = tile_idx * 16 + (row as usize) * 2;
        let low = if from2 { self.vram2[a] } else { self.vram[a] };
        let high = if from2 { self.vram2[a + 1] } else { self.vram[a + 1] };
        proof {
            lemma_and_le_u8(high >> c, 1);
            lemma_and_le_u8(low >> c, 1);
        }
        ((high >> c) & 1) * 2 + ((low >> c) & 1)
    }

    fn get_bg_attr(&self, tile_map: bool, row: u8, col: u8) -> (r: u8)
        requires
            self.mem_wf(),
            row < 32,
            col < 32,
        ensures
            r == self.vram2@[map_index(tile_map, row as int, col as int)],
    {
        let start: usize = if tile_map { 0x1C00 } else { 0x1800 };
        self.vram2[start + (row as usize) * 32 + col as usize]
    }

    /// The colour `pixel` of palette `palette` as 5-bit red, green and blue
    /// channels and an opaque alpha byte.
    pub fn get_color_from_palette_memory(&self, palette: u8, pixel: u8, is_sprite: bool) -> (r: [u8; 4])
        requires
            self.mem_wf(),
            palette < 8,
            pixel < 4,
        ensures
            ({
                let c = palette_rgb555(
                    if is_sprite {
                        self.sprite_palette_memory@
                    } else {
                        self.bg_palette_memory@
                    },
                    palette,
                    pixel,
                );
                &&& r[0] == (c & 0x1F) as u8
                &&& r[1] == ((c >> 5u16) & 0x1F) as u8
                &&& r[2] == ((c >> 10u16) & 0x1F) as u8
                &&& r[3] == 0xFF
            }),
            forall|j: int|
                0 <= j < 4 ==> (#[trigger] r[j] << 3u8) | (r[j] >> 2u8) == rgba_byte(
                    palette_rgb555(
                        if is_sprite {
                            self.sprite_palette_memory@
                        } else {
                            self.bg_palette_memory@
                        },
                        palette,
                        pixel,
                    ),
                    j,
                ),
    {
        let i = (palette as usize) * 8 + (pixel as usize) * 2;
        let (lo, hi) = if is_sprite {
            (self.sprite_palette_memory[i], self.sprite_palette_memory[i + 1])
        } else {
            (self.bg_palette_memory[i], self.bg_palette_memory[i + 1])
        };
        let rgb555 = (lo as u16) | ((hi as u16) << 8);
        [(rgb555 & 0x1F) as u8, ((rgb555 >> 5) & 0x1F) as u8, ((rgb555 >> 10) & 0x1F) as u8, 0xFF]
    }

    /// The sprites on the current line, at most ten, in OAM order.
    fn select_sprites(&self) -> (r: Vec<Sprite>)
        requires
            self.mem_wf(),
        ensures
            r@ == selected(*self),
    {
        let size: u8 = if self.lcdc & 0x04 > 0 { 16 } else { 8 };
        let mut v: Vec<Sprite> = Vec::new();
        let mut n: usize = 0;
        while n < 40
            invariant
                n <= 40,
                self.mem_wf(),
                size == self.sprite_size(),
                v@ == selected_upto(self.oam@, self.ly, size, n as int),
            decreases 40 - n,
        {
            let s = Sprite {
                y: self.oam[4 * n].wrapping_sub(16),
                x: self.oam[4 * n + 1].wrapping_sub(8),
                tile_idx: self.oam[4 * n + 2],
                flags: self.oam[4 * n + 3],
            };
            if v.len() < 10 && self.ly.wrapping_sub(s.y) < size {
                v.push(s);
            }
            n = n + 1;
        }
        v
    }

    /// The pixel of a sprite on the current line at sprite column `col`.
    fn sprite_pixel_at(&self, s: Sprite, i: usize) -> (r: u8)
        requires
            self.mem_wf(),
            on_line(s, self.ly, self.sprite_size()),
            sprite_col(s, i as int) < 8,
            i < 256,
        ensures
            r == sprite_pixel(*self, s, i as int),
            r <= 3,
    {
        let size: u8 = if self.lcdc & 0x04 > 0 { 16 } else { 8 };
        let c = (i as u8).wrapping_sub(s.x);
        let col = if s.flags & X_FLIP > 0 { 7 - c } else { c };
        let dy = self.ly.wrapping_sub(s.y);
        let row = if s.flags & Y_FLIP > 0 { size - 1 - dy } else { dy };
        let base = if size == 16 { s.tile_idx & 0xFE } else { s.tile_idx };
        let tile = base as usize + if row >= 8 { 1 } else { 0 };
        self.get_pixel_from_tile(tile, row % 8, col, self.is_cgb && s.flags & BANK > 0)
    }

    fn render_bg(&mut self, bg_prio: &mut Vec<bool>)
        requires
            old(self).mem_wf(),
            !old(self).is_cgb,
            old(self).ly < 144,
            old(bg_prio)@.len() == LCD_WIDTH,
        ensures
            final(self).mem_wf(),
            same_but_picture(*final(self), *old(self)),
            final(self).wly == old(self).wly,
            (final(self).buffer@, final(bg_prio)@) == dmg_bg_stage(
                *old(self),
                old(self).buffer@,
                old(bg_prio)@,
            ),
    {
        let ghost p0 = *self;
        if self.lcdc & BG_WINDOW_ENABLE == 0 {
            return;
        }
        let y = self.ly.wrapping_add(self.scy);
        let tm = self.lcdc & BG_TILE_MAP > 0;
        let base = LCD_WIDTH * self.ly as usize;
        let mut i: usize = 0;
        while i < LCD_WIDTH
            invariant
                i <= LCD_WIDTH,
                self.mem_wf(),
                same_but_picture(*self, p0),
                self.wly == p0.wly,
                base == line_base(p0),
                y == bg_y(p0),
                tm == bg_map(p0),
                !p0.is_cgb,
                p0.ly < 144,
                bg_prio@.len() == LCD_WIDTH,
                forall|j: int|
                    0 <= j < self.buffer@.len() ==> #[trigger] self.buffer@[j] == if base <= j < base
                        + i {
                        shade(p0.bgp, bg_pixel(p0, j - base))
                    } else {
                        p0.buffer@[j]
                    },
                forall|k: int| 0 <= k < i ==> #[trigger] bg_prio@[k] == (bg_pixel(p0, k) > 0),
            decreases LCD_WIDTH - i,
        {
            let x = (i as u8).wrapping_add(self.scx);
            let tile_idx = self.get_tile_idx_from_tile_map(tm, y / 8, x / 8);
            let pixel = self.get_pixel_from_tile(tile_idx, y % 8, x % 8, false);
            let shade = shade_of(self.bgp, pixel);
            assert(bg_pixel(p0, i as int) == pixel);
            self.buffer.set(base + i, shade);
            bg_prio.set(i, pixel > 0);
            i = i + 1;
        }
        proof {
            let st = dmg_bg_stage(p0, p0.buffer@, old(bg_prio)@);
            assert(self.buffer@ =~= st.0);
            assert(bg_prio@ =~= st.1);
        }
    }

    fn render_window(&mut self, bg_prio: &mut Vec<bool>)
        requires
            old(self).mem_wf(),
            !old(self).is_cgb,
            old(self).ly < 144,
            old(self).wly <= old(self).ly,
            old(bg_prio)@.len() == LCD_WIDTH,
        ensures
            final(self).mem_wf(),
            same_but_picture(*final(self), *old(self)),
            final(self).wly == wly_after(*old(self), dmg_window_on(*old(self))),
            (final(self).buffer@, final(bg_prio)@) == dmg_window_stage(
                *old(self),
                old(self).buffer@,
                old(bg_prio)@,
            ),
    {
        let ghost p0 = *self;
        if self.lcdc & BG_WINDOW_ENABLE == 0 || self.lcdc & WINDOW_ENABLE == 0 || self.wy > self.ly {
            return;
        }
        let mut wly_add: u8 = 0;
        let y = self.wly;
        let wxs = self.wx.wrapping_sub(7);
        let tm = self.lcdc & WINDOW_TILE_MAP > 0;
        let base = LCD_WIDTH * self.ly as usize;
        let mut i: usize = 0;
        while i < LCD_WIDTH
            invariant
                i <= LCD_WIDTH,
                self.mem_wf(),
                same_but_picture(*self, p0),
                self.wly == p0.wly,
                base == line_base(p0),
                y == p0.wly,
                wxs == window_start(p0),
                tm == window_map(p0),
                !p0.is_cgb,
                p0.ly < 144,
                p0.wly <= p0.ly,
                bg_prio@.len() == LCD_WIDTH,
                wly_add == (if (wxs as int) < i { 1u8 } else { 0u8 }),
                forall|j: int|
                    0 <= j < self.buffer@.len() ==> #[trigger] self.buffer@[j] == if base + wxs
                        <= j < base + i {
                        shade(p0.bgp, window_pixel(p0, j - base))
                    } else {
                        p0.buffer@[j]
                    },
                forall|k: int|
                    0 <= k < LCD_WIDTH ==> #[trigger] bg_prio@[k] == if wxs <= k < i {
                        window_pixel(p0, k) > 0
                    } else {
                        old(bg_prio)@[k]
                    },
            decreases LCD_WIDTH - i,
        {
            if (i as u8) >= wxs {
                let x = (i as u8) - wxs;
                wly_add = 1;
                let tile_idx = self.get_tile_idx_from_tile_map(tm, y / 8, x / 8);
                let pixel = self.get_pixel_from_tile(tile_idx, y % 8, x % 8, false);
                let shade = shade_of(self.bgp, pixel);
                assert(window_pixel(p0, i as int) == pixel);
                self.buffer.set(base + i, shade);
                bg_prio.set(i, pixel > 0);
            }
            i = i + 1;
        }
        self.wly = self.wly + wly_add;
        proof {
            let st = dmg_window_stage(p0, p0.buffer@, old(bg_prio)@);
            assert(self.buffer@ =~= st.0);
            assert(bg_prio@ =~= st.1);
        }
    }


    fn render_sprite(&mut self, bg_prio: &Vec<bool>)
        requires
            old(self).mem_wf(),
            !old(self).is_cgb,
            old(self).ly < 144,
            bg_prio@.len() == LCD_WIDTH,
        ensures
            final(self).mem_wf(),
            same_but_picture(*final(self), *old(self)),
            final(self).wly == old(self).wly,
            final(self).buffer@ == dmg_sprite_stage(*old(self), old(self).buffer@, bg_prio@),
    {
        let ghost p0 = *self;
        if self.lcdc & SPRITE_ENABLE == 0 {
            return;
        }
        let sprites = self.select_sprites();
        proof {
            lemma_selected(self.oam@, self.ly, self.sprite_size(), 40);
        }
        let base = LCD_WIDTH * self.ly as usize;
        let mut i: usize = 0;
        while i < LCD_WIDTH
            invariant
                i <= LCD_WIDTH,
                self.mem_wf(),
                same_but_picture(*self, p0),
                self.wly == p0.wly,
                base == line_base(p0),
                !p0.is_cgb,
                p0.ly < 144,
                p0.lcdc & SPRITE_ENABLE != 0,
                bg_prio@.len() == LCD_WIDTH,
                sprites@ == selected(p0),
                sprites@.len() <= 10,
                forall|k: int|
                    0 <= k < sprites@.len() ==> on_line(
                        #[trigger] sprites@[k],
                        p0.ly,
                        p0.sprite_size(),
                    ),
                forall|j: int|
                    0 <= j < self.buffer@.len() ==> #[trigger] self.buffer@[j] == if base <= j < base
                        + i {
                        match dmg_winner(p0, sprites@, j - base, bg_prio@, sprites@.len() as int) {
                            Some(k) => dmg_sprite_shade(p0, sprites@[k], j - base),
                            None => p0.buffer@[j],
                        }
                    } else {
                        p0.buffer@[j]
                    },
            decreases LCD_WIDTH - i,
        {
            let mut best: Option<usize> = None;
            let mut k: usize = 0;
            while k < sprites.len()
                invariant
                    k <= sprites@.len(),
                    i < LCD_WIDTH,
                    self.mem_wf(),
                    same_but_picture(*self, p0),
                    bg_prio@.len() == LCD_WIDTH,
                    forall|n: int|
                        0 <= n < sprites@.len() ==> on_line(
                            #[trigger] sprites@[n],
                            p0.ly,
                            p0.sprite_size(),
                        ),
                    match best {
                        Some(b) => b < k && dmg_winner(p0, sprites@, i as int, bg_prio@, k as int)
                            == Some(b as int),
                        None => dmg_winner(p0, sprites@, i as int, bg_prio@, k as int) is None,
                    },
                decreases sprites@.len() - k,
            {
                let s = sprites[k];
                let c = (i as u8).wrapping_sub(s.x);
                if c < 8 {
                    let pixel = self.sprite_pixel_at(s, i);
                    if pixel > 0 && (s.flags & OBJ2BG_PRIORITY == 0 || !bg_prio[i]) {
                        let better = match best {
                            None => true,
                            Some(b) => s.x < sprites[b].x,
                        };
                        if better {
                            best = Some(k);
                        }
                    }
                }
                k = k + 1;
            }
            proof {
                lemma_dmg_winner(p0, sprites@, i as int, bg_prio@, sprites@.len() as int);
            }
            if let Some(b) = best {
                let s = sprites[b];
                let pixel = self.sprite_pixel_at(s, i);
                let palette = if s.flags & PALETTE > 0 { self.obp1 } else { self.obp0 };
                let shade = shade_of(palette, pixel);
                self.buffer.set(base + i, shade);
            }
            i = i + 1;
        }
        proof {
            assert(self.buffer@ =~= dmg_sprite_stage(p0, p0.buffer@, bg_prio@));
        }
    }


    /// Writes the widened colour of pixel `idx` (four bytes) into the frame buffer.
    fn put_rgba(&mut self, idx: usize, color: [u8; 4])
        requires
            old(self).mem_wf(),
            idx < LCD_PIXELS,
        ensures
            final(self).mem_wf(),
            same_but_picture(*final(self), *old(self)),
            final(self).wly == old(self).wly,
            forall|k: int|
                0 <= k < final(self).buffer@.len() ==> #[trigger] final(self).buffer@[k] == if idx
                    * 4 <= k < idx * 4 + 4 {
                    (color[k - idx * 4] << 3u8) | (color[k - idx * 4] >> 2u8)
                } else {
                    old(self).buffer@[k]
                },
    {
        let mut j: usize = 0;
        while j < 4
            invariant
                j <= 4,
                idx < LCD_PIXELS,
                self.mem_wf(),
                same_but_picture(*self, *old(self)),
                self.wly == old(self).wly,
                forall|k: int|
                    0 <= k < self.buffer@.len() ==> #[trigger] self.buffer@[k] == if idx * 4 <= k
                        < idx * 4 + j {
                        (color[k - idx * 4] << 3u8) | (color[k - idx * 4] >> 2u8)
                    } else {
                        old(self).buffer@[k]
                    },
            decreases 4 - j,
        {
            let v = (color[j] << 3) | (color[j] >> 2);
            self.buffer.set(idx * 4 + j, v);
            j = j + 1;
        }
    }

    fn render_bg_cgb(&mut self, bg_prio: &mut Vec<(bool, bool)>)
        requires
            old(self).mem_wf(),
            old(self).is_cgb,
            old(self).ly < 144,
            old(bg_prio)@.len() == LCD_WIDTH,
        ensures
            final(self).mem_wf(),
            same_but_picture(*final(self), *old(self)),
            final(self).wly == old(self).wly,
            (final(self).buffer@, final(bg_prio)@) == cgb_bg_stage(*old(self), old(self).buffer@),
    {
        let ghost p0 = *self;
        let y = self.ly.wrapping_add(self.scy);
        let tm = self.lcdc & BG_TILE_MAP > 0;
        let base = LCD_WIDTH * self.ly as usize;
        let mut i: usize = 0;
        while i < LCD_WIDTH
            invariant
                i <= LCD_WIDTH,
                self.mem_wf(),
                same_but_picture(*self, p0),
                self.wly == p0.wly,
                base == line_base(p0),
                y == bg_y(p0),
                tm == bg_map(p0),
                p0.is_cgb,
                p0.ly < 144,
                bg_prio@.len() == LCD_WIDTH,
                forall|k: int|
                    0 <= k < self.buffer@.len() ==> #[trigger] self.buffer@[k] == if base * 4 <= k
                        < (base + i) * 4 {
                        rgba_byte(
                            palette_rgb555(
                                p0.bg_palette_memory@,
                                bg_attr_at(p0, (k - base * 4) / 4) & 7,
                                bg_pixel(p0, (k - base * 4) / 4),
                            ),
                            (k - base * 4) % 4,
                        )
                    } else {
                        p0.buffer@[k]
                    },
                forall|n: int|
                    0 <= n < i ==> #[trigger] bg_prio@[n] == (bg_attr_at(p0, n) & OBJ2BG_PRIORITY
                        != 0, bg_pixel(p0, n) > 0),
            decreases LCD_WIDTH - i,
        {
            let x = (i as u8).wrapping_add(self.scx);
            let tile_idx = self.get_tile_idx_from_tile_map(tm, y / 8, x / 8);
            let attr = self.get_bg_attr(tm, y / 8, x / 8);
            let palette = attr & 0b111;
            let row = if attr & Y_FLIP > 0 { 7 - (y % 8) } else { y % 8 };
            let col = if attr & X_FLIP > 0 { 7 - (x % 8) } else { x % 8 };
            let pixel = self.get_pixel_from_tile(tile_idx, row, col, attr & BANK > 0);
            proof {
                lemma_and_le_u8(attr, 7);
                assert(bg_attr_at(p0, i as int) == attr);
                assert(bg_pixel(p0, i as int) == pixel);
            }
            let color = self.get_color_from_palette_memory(palette, pixel, false);
            self.put_rgba(base + i, color);
            bg_prio.set(i, (attr & OBJ2BG_PRIORITY > 0, pixel > 0));
            i = i + 1;
        }
        proof {
            let st = cgb_bg_stage(p0, p0.buffer@);
            assert(self.buffer@ =~= st.0);
            assert(bg_prio@ =~= st.1);
        }
    }


    fn render_window_cgb(&mut self, bg_prio: &mut Vec<(bool, bool)>)
        requires
            old(self).mem_wf(),
            old(self).is_cgb,
            old(self).ly < 144,
            old(self).wly <= old(self).ly,
            old(bg_prio)@.len() == LCD_WIDTH,
        ensures
            final(self).mem_wf(),
            same_but_picture(*final(self), *old(self)),
            final(self).wly == wly_after(*old(self), cgb_window_on(*old(self))),
            (final(self).buffer@, final(bg_prio)@) == cgb_window_stage(
                *old(self),
                old(self).buffer@,
                old(bg_prio)@,
            ),
    {
        let ghost p0 = *self;
        if self.lcdc & WINDOW_ENABLE == 0 || self.wy > self.ly {
            return;
        }
        let mut wly_add: u8 = 0;
        let y = self.wly;
        let wxs = self.wx.wrapping_sub(7);
        let tm = self.lcdc & WINDOW_TILE_MAP > 0;
        let base = LCD_WIDTH * self.ly as usize;
        let mut i: usize = 0;
        while i < LCD_WIDTH
            invariant
                i <= LCD_WIDTH,
                self.mem_wf(),
                same_but_picture(*self, p0),
                self.wly == p0.wly,
                base == line_base(p0),
                y == p0.wly,
                wxs == window_start(p0),
                tm == window_map(p0),
                p0.is_cgb,
                p0.ly < 144,
                p0.wly <= p0.ly,
                bg_prio@.len() == LCD_WIDTH,
                wly_add == (if (wxs as int) < i { 1u8 } else { 0u8 }),
                forall|k: int|
                    0 <= k < self.buffer@.len() ==> #[trigger] self.buffer@[k] == if base * 4 <= k
                        < (base + i) * 4 && (k - base * 4) / 4 >= wxs {
                        rgba_byte(
                            palette_rgb555(
                                p0.bg_palette_memory@,
                                window_attr_at(p0, (k - base * 4) / 4) & 7,
                                window_pixel(p0, (k - base * 4) / 4),
                            ),
                            (k - base * 4) % 4,
                        )
                    } else {
                        p0.buffer@[k]
                    },
                forall|n: int|
                    0 <= n < LCD_WIDTH ==> #[trigger] bg_prio@[n] == if wxs <= n < i {
                        (window_attr_at(p0, n) & OBJ2BG_PRIORITY != 0, window_pixel(p0, n) > 0)
                    } else {
                        old(bg_prio)@[n]
                    },
            decreases LCD_WIDTH - i,
        {
            if (i as u8) >= wxs {
                let x = (i as u8) - wxs;
                wly_add = 1;
                let tile_idx = self.get_tile_idx_from_tile_map(tm, y / 8, x / 8);
                let attr = self.get_bg_attr(tm, y / 8, x / 8);
                let palette = attr & 0b111;
                let row = if attr & Y_FLIP > 0 { 7 - (y % 8) } else { y % 8 };
                let col = if attr & X_FLIP > 0 { 7 - (x % 8) } else { x % 8 };
                let pixel = self.get_pixel_from_tile(tile_idx, row, col, attr & BANK > 0);
                proof {
                    lemma_and_le_u8(attr, 7);
                    assert(window_attr_at(p0, i as int) == attr);
                    assert(window_pixel(p0, i as int) == pixel);
                }
                let color = self.get_color_from_palette_memory(palette, pixel, false);
                self.put_rgba(base + i, color);
                bg_prio.set(i, (attr & OBJ2BG_PRIORITY > 0, pixel > 0));
            }
            i = i + 1;
        }
        self.wly = self.wly + wly_add;
        proof {
            let st = cgb_window_stage(p0, p0.buffer@, old(bg_prio)@);
            assert(self.buffer@ =~= st.0);
            assert(bg_prio@ =~= st.1);
        }
    }

    fn render_sprite_cgb(&mut self, bg_prio: &Vec<(bool, bool)>)
        requires
            old(self).mem_wf(),
            old(self).is_cgb,
            old(self).ly < 144,
            bg_prio@.len() == LCD_WIDTH,
        ensures
            final(self).mem_wf(),
            same_but_picture(*final(self), *old(self)),
            final(self).wly == old(self).wly,
            final(self).buffer@ == cgb_sprite_stage(*old(self), old(self).buffer@, bg_prio@),
    {
        let ghost p0 = *self;
        if self.lcdc & SPRITE_ENABLE == 0 {
            return;
        }
        let sprites = self.select_sprites();
        proof {
            lemma_selected(self.oam@, self.ly, self.sprite_size(), 40);
        }
        let base = LCD_WIDTH * self.ly as usize;
        let mut i: usize = 0;
        while i < LCD_WIDTH
            invariant
                i <= LCD_WIDTH,
                self.mem_wf(),
                same_but_picture(*self, p0),
                self.wly == p0.wly,
                base == line_base(p0),
                p0.is_cgb,
                p0.ly < 144,
                p0.lcdc & SPRITE_ENABLE != 0,
                bg_prio@.len() == LCD_WIDTH,
                sprites@ == selected(p0),
                sprites@.len() <= 10,
                forall|k: int|
                    0 <= k < sprites@.len() ==> on_line(
                        #[trigger] sprites@[k],
                        p0.ly,
                        p0.sprite_size(),
                    ),
                forall|k: int|
                    0 <= k < self.buffer@.len() ==> #[trigger] self.buffer@[k] == if base * 4 <= k
                        < (base + i) * 4 {
                        match cgb_winner(
                            p0,
                            sprites@,
                            (k - base * 4) / 4,
                            bg_prio@,
                            sprites@.len() as int,
                        ) {
                            Some(n) => rgba_byte(
                                palette_rgb555(
                                    p0.sprite_palette_memory@,
                                    sprites@[n].flags & 7,
                                    sprite_pixel(p0, sprites@[n], (k - base * 4) / 4),
                                ),
                                (k - base * 4) % 4,
                            ),
                            None => p0.buffer@[k],
                        }
                    } else {
                        p0.buffer@[k]
                    },
            decreases LCD_WIDTH - i,
        {
            let mut best: Option<usize> = None;
            let mut k: usize = 0;
            while k < sprites.len()
                invariant
                    k <= sprites@.len(),
                    i < LCD_WIDTH,
                    self.mem_wf(),
                    same_but_picture(*self, p0),
                    p0.is_cgb,
                    bg_prio@.len() == LCD_WIDTH,
                    forall|n: int|
                        0 <= n < sprites@.len() ==> on_line(
                            #[trigger] sprites@[n],
                            p0.ly,
                            p0.sprite_size(),
                        ),
                    match best {
                        Some(b) => b < k && cgb_winner(p0, sprites@, i as int, bg_prio@, k as int)
                            == Some(b as int),
                        None => cgb_winner(p0, sprites@, i as int, bg_prio@, k as int) is None,
                    },
                decreases sprites@.len() - k,
            {
                if best.is_none() {
                    let s = sprites[k];
                    let c = (i as u8).wrapping_sub(s.x);
                    if c < 8 {
                        let pixel = self.sprite_pixel_at(s, i);
                        if pixel > 0 && (self.lcdc & BG_WINDOW_ENABLE == 0 || (s.flags
                            & OBJ2BG_PRIORITY == 0 && !bg_prio[i].0) || !bg_prio[i].1) {
                            best = Some(k);
                        }
                    }
                }
                k = k + 1;
            }
            proof {
                lemma_cgb_winner(p0, sprites@, i as int, bg_prio@, sprites@.len() as int);
            }
            if let Some(b) = best {
                let s = sprites[b];
                let pixel = self.sprite_pixel_at(s, i);
                proof {
                    lemma_and_le_u8(s.flags, 7);
                }
                let color = self.get_color_from_palette_memory(s.flags & 0b111, pixel, true);
                self.put_rgba(base + i, color);
            }
            i = i + 1;
        }
        proof {
            assert(self.buffer@ =~= cgb_sprite_stage(p0, p0.buffer@, bg_prio@));
        }
    }

    /// Draws the current line into the frame buffer: background, window and sprites.
    pub(crate) fn render(&mut self)
        requires
            old(self).mem_wf(),
            old(self).ly < 144,
            old(self).wly <= old(self).ly,
        ensures
            final(self).mem_wf(),
            same_but_picture(*final(self), *old(self)),
            rendered(*old(self), *final(self)),
    {
        let ghost p0 = *self;
        if self.is_cgb {
            let mut bg_prio: Vec<(bool, bool)> = Vec::new();
            let mut n: usize = 0;
            while n < LCD_WIDTH
                invariant
                    n <= LCD_WIDTH,
                    bg_prio@.len() == n,
                decreases LCD_WIDTH - n,
            {
                bg_prio.push((false, false));
                n = n + 1;
            }
            self.render_bg_cgb(&mut bg_prio);
            let ghost s1 = cgb_bg_stage(p0, p0.buffer@);
            let ghost p1 = *self;
            self.render_window_cgb(&mut bg_prio);
            let ghost s2 = cgb_window_stage(p0, s1.0, s1.1);
            proof {
                assert(self.buffer@ =~= s2.0);
                assert(bg_prio@ =~= s2.1);
            }
            let ghost p2 = *self;
            self.render_sprite_cgb(&bg_prio);
            proof {
                assert forall|i: int, n: int|
                    cgb_winner(p2, selected(p2), i, s2.1, n) == cgb_winner(
                        p0,
                        selected(p0),
                        i,
                        s2.1,
                        n,
                    ) by {
                    lemma_winner_congruence(p2, p0, selected(p0), i, seq![], s2.1, n);
                }
                assert(self.buffer@ =~= cgb_sprite_stage(p0, s2.0, s2.1));
            }
        } else {
            let mut bg_prio: Vec<bool> = vec![false; LCD_WIDTH];
            proof {
                assert(bg_prio@ =~= Seq::new(LCD_WIDTH as nat, |i: int| false));
            }
            self.render_bg(&mut bg_prio);
            let ghost s1 = dmg_bg_stage(p0, p0.buffer@, Seq::new(LCD_WIDTH as nat, |i: int| false));
            self.render_window(&mut bg_prio);
            let ghost s2 = dmg_window_stage(p0, s1.0, s1.1);
            proof {
                assert(self.buffer@ =~= s2.0);
                assert(bg_prio@ =~= s2.1);
            }
            let ghost p2 = *self;
            self.render_sprite(&bg_prio);
            proof {
                assert forall|i: int, n: int|
                    dmg_winner(p2, selected(p2), i, s2.1, n) == dmg_winner(
                        p0,
                        selected(p0),
                        i,
                        s2.1,
                        n,
                    ) by {
                    lemma_winner_congruence(p2, p0, selected(p0), i, s2.1, seq![], n);
                }
                assert(self.buffer@ =~= dmg_sprite_stage(p0, s2.0, s2.1));
            }
        }
    }
}

} // verus!
