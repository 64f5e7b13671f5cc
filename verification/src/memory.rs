//! Work RAM: 256 KiB of on-board RAM mapped at 0x0200_0000 (mirror mask
//! 0x3_FFFF) and 32 KiB of on-chip RAM mapped at 0x0300_0000 (mask 0x7FFF).

use vstd::prelude::*;
use crate::bits::lemma_mask_bounds;

verus! {

pub struct Memory {
    pub wram_board: Vec<u8>,
    pub wram_chip: Vec<u8>,
}

/// An address the memory unit accepts: high byte 0x02 (on-board) or 0x03
/// (on-chip). The bus never passes any other.
pub open spec fn wram_addr(address: u32) -> bool {
    address >> 24 == 0x2 || address >> 24 == 0x3
}

impl Memory {
    pub open spec fn wf(self) -> bool {
        self.wram_board@.len() == 0x4_0000 && self.wram_chip@.len() == 0x8000
    }

    /// The byte the given work-RAM address designates.
    pub open spec fn spec_read_wram(self, address: u32) -> u8
        recommends
            self.wf(),
            wram_addr(address),
    {
        if address >> 24 == 0x2 {
            self.wram_board@[(address & 0x3_FFFF) as int]
        } else {
            self.wram_chip@[(address & 0x7FFF) as int]
        }
    }

    /// The board sequence after a write, unchanged unless the address
    /// selects the on-board region.
    pub open spec fn spec_board_after_write(self, address: u32, value: u8) -> Seq<u8>
        recommends
            self.wf(),
            wram_addr(address),
    {
        if address >> 24 == 0x2 {
            self.wram_board@.update((address & 0x3_FFFF) as int, value)
        } else {
            self.wram_board@
        }
    }

    /// The chip sequence after a write, unchanged unless the address
    /// selects the on-chip region.
    pub open spec fn spec_chip_after_write(self, address: u32, value: u8) -> Seq<u8>
        recommends
            self.wf(),
            wram_addr(address),
    {
        if address >> 24 == 0x3 {
            self.wram_chip@.update((address & 0x7FFF) as int, value)
        } else {
            self.wram_chip@
        }
    }

    pub fn new() -> (m: Memory)
        ensures
            m.wf(),
            m.wram_board@ == Seq::new(0x4_0000, |i: int| 0u8),
            m.wram_chip@ == Seq::new(0x8000, |i: int| 0u8),
    {
        Memory { wram_board: zero_bytes(0x4_0000), wram_chip: zero_bytes(0x8000) }
    }

    pub fn read_wram(&self, address: u32) -> (r: u8)
        requires
            self.wf(),
            wram_addr(address),
        ensures
            r == self.spec_read_wram(address),
    {
        proof {
            lemma_mask_bounds();
        }
        if address >> 24 == 0x2 {
            self.wram_board[(address & 0x3_FFFF) as usize]
        } else {
            self.wram_chip[(address & 0x7FFF) as usize]
        }
    }

    pub fn write_wram(&mut self, address: u32, value: u8)
        requires
            old(self).wf(),
            wram_addr(address),
        ensures
            final(self).wf(),
            final(self).wram_board@ == old(self).spec_board_after_write(address, value),
            final(self).wram_chip@ == old(self).spec_chip_after_write(address, value),
    {
        proof {
            lemma_mask_bounds();
        }
        if address >> 24 == 0x2 {
            self.wram_board.set((address & 0x3_FFFF) as usize, value);
        } else {
            self.wram_chip.set((address & 0x7FFF) as usize, value);
        }
    }
}

/// A zero-filled byte buffer of the given length.
pub fn zero_bytes(n: usize) -> (v: Vec<u8>)
    ensures
        v@ == Seq::new(n as nat, |i: int| 0u8),
{
    let mut v: Vec<u8> = Vec::new();
    let mut i: usize = 0;
    while i < n
        invariant
            i <= n,
            v@ == Seq::new(i as nat, |j: int| 0u8),
        decreases n - i,
    {
        v.push(0);
        i = i + 1;
        proof {
            assert(v@ =~= Seq::new(i as nat, |j: int| 0u8));
        }
    }
    v
}

} // verus!
