use vstd::prelude::*;

verus! {

/// Masking never yields more than the mask or the value.
pub proof fn lemma_and_le_u16(x: u16, m: u16)
    ensures
        x & m <= m,
        x & m <= x,
{
    assert(x & m <= m && x & m <= x) by (bit_vector);
}

pub proof fn lemma_and_le_u8(x: u8, m: u8)
    ensures
        x & m <= m,
        x & m <= x,
{
    assert(x & m <= m && x & m <= x) by (bit_vector);
}

pub proof fn lemma_and_le_usize(x: usize, m: usize)
    ensures
        x & m <= m,
        x & m <= x,
        x & 31 == x % 32,
{
    assert(x & m <= m && x & m <= x && x & 31 == x % 32) by (bit_vector);
}

/// The bank counts that a ROM size code 0-8 selects: 2 to 512, a power of two.
pub proof fn lemma_rom_banks(code: u8)
    requires
        code <= 8,
    ensures
        2 <= (1usize << (code as usize + 1)) <= 512,
{
    let n = code as usize;
    assert(2 <= (1usize << (n + 1)) <= 512) by (bit_vector)
        requires n <= 8;
}

/// An address in the I/O page 0xFF00-0xFFFF built from its low byte.
pub proof fn lemma_high_page(x: u8)
    ensures
        0xFF00u16 | (x as u16) == 0xFF00 + x,
{
    assert(0xFF00u16 | (x as u16) == 0xFF00 + x) by (bit_vector);
}

/// The low byte of an address in OAM (0xFE00-0xFE9F) is below 0xA0.
pub proof fn lemma_oam_index(addr: u16)
    requires
        0xFE00 <= addr <= 0xFE9F,
    ensures
        addr & 0xFF < 0xA0,
{
    assert((addr & 0xFFu16) < 0xA0) by (bit_vector)
        requires
            0xFE00u16 <= addr,
            addr <= 0xFE9Fu16,
    ;
}

/// Masking a 16-bit value with 2^k - 1 is taking it modulo 2^k.
pub proof fn lemma_low_bits_u16(d: u16)
    ensures
        d & 15 == d % 16,
        d & 63 == d % 64,
        d & 255 == d % 256,
        d & 1023 == d % 1024,
        d & 0x1fff == d % 0x2000,
        d & 0x3fff == d % 0x4000,
{
    assert(d & 15 == d % 16 && d & 63 == d % 64 && d & 255 == d % 256 && d & 1023 == d % 1024
        && d & 0x1fff == d % 0x2000 && d & 0x3fff == d % 0x4000) by (bit_vector);
}

/// The low byte of an address on page `page` is its offset in the page.
pub proof fn lemma_page_offset(page: u16, j: u16)
    requires
        page <= 0xFF,
        j <= 0xFF,
    ensures
        ((page * 256 + j) as u16) & 0xFF == j,
        ((page * 256 + j) as u16) as u8 == j,
{
    assert(((page * 256 + j) as u16) & 0xFF == j && ((page * 256 + j) as u16) as u8 == j)
        by (bit_vector)
        requires
            page <= 0xFF,
            j <= 0xFF,
    ;
}

/// Bit operations on a byte in arithmetic terms.
pub proof fn lemma_byte_arith(x: u8)
    ensures
        x & 0x0f == x % 16,
        x & 0x1f == x % 32,
        x & 0x7f == x % 128,
        x & 1 == x % 2,
        x & 0xfe == x - x % 2,
        (x & 0x80 != 0) == (x >= 128),
        x & 0x80 == (if x >= 128 { 128u8 } else { 0u8 }),
        x >> 1u8 == x / 2,
        x >> 4u8 == x / 16,
        x >> 7u8 == x / 128,
        x << 1u8 == (x * 2) % 256,
        x << 4u8 == (x * 16) % 256,
        x << 7u8 == (x * 128) % 256,
{
    assert({
        &&& x & 0x0f == x % 16
        &&& x & 0x1f == x % 32
        &&& x & 0x7f == x % 128
        &&& x & 1 == x % 2
        &&& x & 0xfe == x - x % 2
        &&& (x & 0x80 != 0) == (x >= 128)
        &&& x & 0x80 == (if x >= 128 { 128u8 } else { 0u8 })
        &&& x >> 1u8 == x / 2
        &&& x >> 4u8 == x / 16
        &&& x >> 7u8 == x / 128
        &&& x << 1u8 == (x * 2) % 256
        &&& x << 4u8 == (x * 16) % 256
        &&& x << 7u8 == (x * 128) % 256
    }) by (bit_vector);
}

} // verus!
