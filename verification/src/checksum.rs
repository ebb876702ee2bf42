use vstd::prelude::*;

verus! {

/// One bit of the reflected CRC-32 division by the IEEE 802.3 polynomial
/// 0xEDB88320.
pub open spec fn crc32_bit(c: u32) -> u32 {
    if c & 1 == 1 {
        (c >> 1u32) ^ 0xEDB8_8320u32
    } else {
        c >> 1u32
    }
}

/// The CRC register after the byte `b`: the byte is XORed into the low bits
/// and eight bits are divided out.
pub open spec fn crc32_byte(c: u32, b: u8) -> u32 {
    crc32_bit(
        crc32_bit(
            crc32_bit(crc32_bit(crc32_bit(crc32_bit(crc32_bit(crc32_bit(c ^ (b as u32))))))),
        ),
    )
}

/// The CRC register after the bytes of `data`, in order, from `c`.
pub open spec fn crc32_update(c: u32, data: Seq<u8>) -> u32
    decreases data.len(),
{
    if data.len() == 0 {
        c
    } else {
        crc32_update(crc32_byte(c, data[0]), data.drop_first())
    }
}

/// The CRC-32 (IEEE 802.3) of a byte string: the register starts at
/// 0xFFFFFFFF and is inverted at the end.
pub open spec fn crc32_ieee(data: Seq<u8>) -> u32 {
    !crc32_update(0xFFFF_FFFFu32, data)
}

/// Calls `crc::crc32::checksum_ieee`, which computes the CRC-32 (IEEE) of the
/// bytes with a table of the eight-bit steps of the same polynomial; the
/// contract states that result.
#[verifier::external_body]
pub(crate) fn checksum_ieee(data: &[u8]) -> (r: u32)
    ensures
        r == crc32_ieee(data@),
{
    crc::crc32::checksum_ieee(data)
}

} // verus!
