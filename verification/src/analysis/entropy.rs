//! Bit-level statistics of a range of bit positions, from which the
//! Shannon entropy of that range is computed.

use vstd::prelude::*;
use vstd::arithmetic::power2::pow2;
use vstd::bits::lemma_u128_shr_is_div;

verus! {

/// The bit at position `i` of an address, where positions count bytes in
/// network order and, inside a byte, bits from the least significant one:
/// bit `i % 8` of byte `i / 8`.
pub open spec fn address_bit(addr: u128, i: int) -> nat {
    (addr as nat / pow2((8 * (15 - i / 8) + i % 8) as nat)) % 2
}

/// The positions of `lo..hi` that fall inside an address.
pub open spec fn positions_in_address(lo: int, hi: int) -> nat {
    let h = if hi < 128 { hi } else { 128 };
    if lo < h { (h - lo) as nat } else { 0 }
}

/// How many positions of `lo..hi` inside an address hold a set bit.
pub open spec fn ones_in(addr: u128, lo: int, hi: int) -> nat
    decreases hi - lo,
{
    if lo >= hi || lo >= 128 {
        0
    } else {
        address_bit(addr, lo) + ones_in(addr, lo + 1, hi)
    }
}

/// Counts of the bits found at the positions `start_bit..end_bit` of every
/// address absorbed.
#[derive(Clone, Copy, Debug)]
pub struct EntropySummary {
    pub total_bits: usize,
    pub zero_bits: usize,
    pub one_bits: usize,
}

/// Counts the zero and one bits found at a range of bit positions.
pub struct ShannonEntropyAnalysis {
    start_bit: u8,
    end_bit: u8,
    zero_bits: usize,
    one_bits: usize,
    total_bits: usize,
}

impl ShannonEntropyAnalysis {
    /// The counts so far.
    pub closed spec fn spec_summary(self) -> EntropySummary {
        EntropySummary { total_bits: self.total_bits, zero_bits: self.zero_bits, one_bits: self.one_bits }
    }

    /// The first position counted.
    pub closed spec fn spec_start(self) -> u8 {
        self.start_bit
    }

    /// The position after the last one counted.
    pub closed spec fn spec_end(self) -> u8 {
        self.end_bit
    }

    /// Every counted bit is a zero or a one.
    pub closed spec fn wf(self) -> bool {
        self.zero_bits + self.one_bits == self.total_bits
    }

    /// A fresh analysis of the positions `start_bit..end_bit`.
    pub fn new_with_options(start_bit: u8, end_bit: u8) -> (r: Self)
        ensures
            r.wf(),
            r.spec_start() == start_bit,
            r.spec_end() == end_bit,
            r.spec_summary() == (EntropySummary { total_bits: 0, zero_bits: 0, one_bits: 0 }),
    {
        ShannonEntropyAnalysis { start_bit, end_bit, zero_bits: 0, one_bits: 0, total_bits: 0 }
    }

    /// Counts the bits of `addr` at the positions of the range that fall
    /// inside an address.
    pub fn absorb(&mut self, addr: u128)
        requires
            old(self).wf(),
            old(self).spec_summary().total_bits + 128 <= usize::MAX,
        ensures
            final(self).wf(),
            final(self).spec_start() == old(self).spec_start(),
            final(self).spec_end() == old(self).spec_end(),
            final(self).spec_summary().total_bits == old(self).spec_summary().total_bits
                + positions_in_address(old(self).spec_start() as int, old(self).spec_end() as int),
            final(self).spec_summary().one_bits == old(self).spec_summary().one_bits + ones_in(
                addr,
                old(self).spec_start() as int,
                old(self).spec_end() as int,
            ),
    {
        let mut i: u8 = self.start_bit;
        let end = self.end_bit;
        if i >= end {
            return;
        }
        let ghost lo = self.start_bit as int;
        let ghost hi = self.end_bit as int;
        while i < end
            invariant
                lo <= i <= end,
                hi == end,
                self.start_bit == old(self).start_bit,
                self.end_bit == old(self).end_bit,
                lo == old(self).start_bit,
                self.zero_bits + self.one_bits == self.total_bits,
                self.total_bits == old(self).total_bits + positions_in_address(lo, i as int),
                self.one_bits + ones_in(addr, i as int, hi) == old(self).one_bits + ones_in(addr, lo, hi),
                old(self).total_bits + 128 <= usize::MAX,
                positions_in_address(lo, i as int) <= 128,
            decreases end - i,
        {
            let byte_idx = i / 8;
            let bit_idx = i % 8;
            if byte_idx < 16 {
                let shift: u128 = (8 * (15 - byte_idx) + bit_idx) as u128;
                proof {
                    lemma_u128_shr_is_div(addr, shift);
                }
                let bit = (addr >> shift) % 2;
                assert(bit == address_bit(addr, i as int));
                if bit == 1 {
                    self.one_bits = self.one_bits + 1;
                } else {
                    self.zero_bits = self.zero_bits + 1;
                }
                self.total_bits = self.total_bits + 1;
            }
            i = i + 1;
        }
    }

    /// The counts so far.
    pub fn finalize(&self) -> (r: EntropySummary)
        requires
            self.wf(),
        ensures
            r == self.spec_summary(),
            r.zero_bits + r.one_bits == r.total_bits,
    {
        EntropySummary { total_bits: self.total_bits, zero_bits: self.zero_bits, one_bits: self.one_bits }
    }
}

} // verus!
