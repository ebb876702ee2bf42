use vstd::prelude::*;

use crate::bits::lemma_page_offset;

verus! {

/// The transfer state after one call of `OamDma::addr`: the next address,
/// or `None` once the byte at offset 0x9F was handed out.
pub open spec fn next_addr(o: Option<u16>) -> Option<u16> {
    match o {
        Some(x) => {
            let y = ((x + 1) % 0x10000) as u16;
            if (y as u8) < 0xA0 {
                Some(y)
            } else {
                None
            }
        },
        None => None,
    }
}

/// The transfer state after `k` calls of `OamDma::addr`.
pub open spec fn addr_after(o: Option<u16>, k: nat) -> Option<u16>
    decreases k,
{
    if k == 0 {
        o
    } else {
        next_addr(addr_after(o, (k - 1) as nat))
    }
}

/// An OAM DMA transfer: the address of the next byte to copy, if one is
/// running. A transfer copies 0xA0 bytes from `page << 8`.
pub struct OamDma(pub Option<u16>);

impl OamDma {
    pub fn new() -> (r: OamDma)
        ensures
            r.0 is None,
    {
        OamDma(None)
    }

    /// Starts a transfer from page `val` (at most 0xDF).
    pub fn request(&mut self, val: u8)
        requires
            val <= 0xDF,
        ensures
            final(self).0 == Some((val as u16 * 256) as u16),
    {
        self.0 = Some((val as u16) * 256);
    }

    /// Returns the address to copy in this cycle and advances; the transfer
    /// ends after the byte at offset 0x9F.
    pub fn addr(&mut self) -> (r: Option<u16>)
        ensures
            r == old(self).0,
            final(self).0 == next_addr(old(self).0),
    {
        let ret = self.0;
        self.0 = match self.0 {
            Some(x) => {
                let y = x.wrapping_add(1);
                if (y as u8) < 0xA0 {
                    Some(y)
                } else {
                    None
                }
            },
            None => None,
        };
        ret
    }

    pub fn is_running(&self) -> (r: bool)
        ensures
            r == self.0 is Some,
    {
        self.0.is_some()
    }
}

/// A transfer requested from page `page` hands out the addresses
/// `page << 8` up to `(page << 8) + 0x9F`, one per call of `OamDma::addr`,
/// and is over after the 160th call.
pub proof fn lemma_transfer_addresses(page: u8, k: nat)
    requires
        page <= 0xDF,
    ensures
        k < 0xA0 ==> addr_after(Some((page as u16 * 256) as u16), k) == Some(
            (page as u16 * 256 + k) as u16,
        ),
        k >= 0xA0 ==> addr_after(Some((page as u16 * 256) as u16), k) is None,
    decreases k,
{
    if k > 0 {
        lemma_transfer_addresses(page, (k - 1) as nat);
        if k <= 0xA0 {
            lemma_page_offset(page as u16, k as u16);
        }
    }
}

/// Once over, a transfer stays over whatever the number of further calls.
pub proof fn lemma_transfer_stays_over(k: nat)
    ensures
        addr_after(None, k) is None,
    decreases k,
{
    if k > 0 {
        lemma_transfer_stays_over((k - 1) as nat);
    }
}

} // verus!
