//! Cartridge ROM: up to 32 MiB of bytes mapped at 0x0800_0000 with mirror
//! mask 0x1FF_FFFF. Reads past the loaded length return 0 (open bus is
//! approximated as zero); the bus never routes writes here.

use vstd::prelude::*;
use crate::bits::lemma_mask_bounds;
use crate::memory::zero_bytes;

verus! {

pub struct Rom {
    pub data: Vec<u8>,
}

pub struct Cartridge {
    pub rom: Rom,
}

impl Rom {
    fn new() -> (r: Rom)
        ensures
            r.data@ == Seq::new(0x200_0000, |i: int| 0u8),
    {
        Rom { data: zero_bytes(0x200_0000) }
    }
}

impl Cartridge {
    /// The byte a ROM read returns: the address is masked with 0x1FF_FFFF,
    /// and an index beyond the loaded data reads as zero.
    pub open spec fn spec_read_rom(self, address: u32) -> u8 {
        if (address & 0x1FF_FFFF) < self.rom.data@.len() {
            self.rom.data@[(address & 0x1FF_FFFF) as int]
        } else {
            0u8
        }
    }

    pub fn new() -> (c: Cartridge)
        ensures
            c.rom.data@ == Seq::new(0x200_0000, |i: int| 0u8),
    {
        Cartridge { rom: Rom::new() }
    }

    /// Replace the ROM buffer's content with the given cartridge image.
    pub fn load(&mut self, bytes: Vec<u8>)
        ensures
            final(self).rom.data@ == bytes@,
    {
        self.rom.data = bytes;
    }

    pub fn read_rom(&self, address: u32) -> (r: u8)
        ensures
            r == self.spec_read_rom(address),
    {
        proof {
            lemma_mask_bounds();
        }
        let index = (address & 0x1FF_FFFF) as usize;
        if index < self.rom.data.len() {
            self.rom.data[index]
        } else {
            0x0
        }
    }
}

} // verus!
