//! The system bus: decodes addresses by their high byte across work RAM,
//! the PPU and cartridge ROM, and synthesises halfword and word accesses
//! from byte primitives with the rotation real ARM buses exhibit on
//! misaligned reads.

use vstd::prelude::*;
use crate::bits::{lemma_mask_bounds, rot_right32, rotate_right32};
use crate::cartridge::Cartridge;
use crate::errors::EmuError;
use crate::memory::{Memory, wram_addr};
use crate::ppu::{io_read_ok, spec_read_io_byte, spec_write_io, spec_write_pram, spec_write_vram,
    vram_read_index, Ppu, PpuModel};

verus! {

pub struct Bus {
    pub mem: Memory,
    pub cartridge: Cartridge,
    pub ppu: Ppu,
}

/// Everything reachable through the bus, as mathematics.
#[verifier::ext_equal]
pub ghost struct BusModel {
    pub board: Seq<u8>,
    pub chip: Seq<u8>,
    pub rom: Seq<u8>,
    pub ppu: PpuModel,
}

impl BusModel {
    pub open spec fn wf(self) -> bool {
        &&& self.board.len() == 0x4_0000
        &&& self.chip.len() == 0x8000
        &&& self.ppu.wf()
    }
}

/// Whether a byte read of this address decodes to a mapped location.
pub open spec fn read_ok(address: u32) -> bool {
    let hi = address >> 24;
    ||| hi == 0x2
    ||| hi == 0x3
    ||| (hi == 0x4 && io_read_ok(address))
    ||| hi == 0x5
    ||| hi == 0x6
    ||| (0x8 <= hi <= 0xB)
}

/// Whether a byte write of this address decodes (writes into the ROM
/// region decode, but are ignored).
pub open spec fn write_ok(address: u32) -> bool {
    let hi = address >> 24;
    ||| hi == 0x2
    ||| hi == 0x3
    ||| hi == 0x4
    ||| hi == 0x5
    ||| hi == 0x6
    ||| (0x8 <= hi <= 0xB)
}

/// The byte a mapped read returns.
pub open spec fn spec_read_byte(m: BusModel, address: u32) -> u8
    recommends
        m.wf(),
        read_ok(address),
{
    let hi = address >> 24;
    if hi == 0x2 {
        m.board[(address & 0x3_FFFF) as int]
    } else if hi == 0x3 {
        m.chip[(address & 0x7FFF) as int]
    } else if hi == 0x4 {
        spec_read_io_byte(m.ppu, address)
    } else if hi == 0x5 {
        m.ppu.pram[(address & 0x3FF) as int]
    } else if hi == 0x6 {
        m.ppu.vram[vram_read_index(address)]
    } else if (address & 0x1FF_FFFF) < m.rom.len() {
        m.rom[(address & 0x1FF_FFFF) as int]
    } else {
        0u8
    }
}

/// What a byte read returns: the mapped byte, or the fatal decode error
/// naming the address.
pub open spec fn spec_read_byte_r(m: BusModel, address: u32) -> Result<u8, EmuError>
    recommends
        m.wf(),
{
    if read_ok(address) {
        Ok(spec_read_byte(m, address))
    } else {
        Err(EmuError::AddressDecodeError(address))
    }
}

/// The bus after a mapped byte write (ROM writes are ignored).
pub open spec fn spec_write_byte(m: BusModel, address: u32, value: u8) -> BusModel
    recommends
        m.wf(),
        write_ok(address),
{
    let hi = address >> 24;
    if hi == 0x2 {
        BusModel { board: m.board.update((address & 0x3_FFFF) as int, value), ..m }
    } else if hi == 0x3 {
        BusModel { chip: m.chip.update((address & 0x7FFF) as int, value), ..m }
    } else if hi == 0x4 {
        BusModel { ppu: spec_write_io(m.ppu, address, value), ..m }
    } else if hi == 0x5 {
        BusModel { ppu: spec_write_pram(m.ppu, address, value), ..m }
    } else if hi == 0x6 {
        BusModel { ppu: spec_write_vram(m.ppu, address, value), ..m }
    } else {
        m
    }
}

/// What a byte write does: the updated bus, or the fatal decode error.
pub open spec fn spec_write_byte_r(m: BusModel, address: u32, value: u8) -> Result<
    BusModel,
    EmuError,
>
    recommends
        m.wf(),
{
    if write_ok(address) {
        Ok(spec_write_byte(m, address, value))
    } else {
        Err(EmuError::AddressDecodeError(address))
    }
}

/// What a halfword read returns: two bytes assembled little-endian from
/// the aligned address, rotated right by 8 bits when the address was
/// misaligned.
pub open spec fn spec_read_half_r(m: BusModel, address: u32) -> Result<u32, EmuError>
    recommends
        m.wf(),
{
    let aligned = address & !1u32;
    match spec_read_byte_r(m, aligned) {
        Err(e) => Err(e),
        Ok(b0) => match spec_read_byte_r(m, aligned | 1) {
            Err(e) => Err(e),
            Ok(b1) => Ok(
                rot_right32((b0 as u32) | ((b1 as u32) << 8), (8 * (address & 1)) as u32),
            ),
        },
    }
}

/// What a word read returns: four bytes assembled little-endian from the
/// aligned address, rotated right by 8 bits per byte of misalignment.
pub open spec fn spec_read_word_r(m: BusModel, address: u32) -> Result<u32, EmuError>
    recommends
        m.wf(),
{
    let aligned = address & !3u32;
    match spec_read_byte_r(m, aligned) {
        Err(e) => Err(e),
        Ok(b0) => match spec_read_byte_r(m, aligned | 1) {
            Err(e) => Err(e),
            Ok(b1) => match spec_read_byte_r(m, aligned | 2) {
                Err(e) => Err(e),
                Ok(b2) => match spec_read_byte_r(m, aligned | 3) {
                    Err(e) => Err(e),
                    Ok(b3) => Ok(
                        rot_right32(
                            (b0 as u32) | ((b1 as u32) << 8) | ((b2 as u32) << 16) | ((
                            b3 as u32) << 24),
                            (8 * (address & 3)) as u32,
                        ),
                    ),
                },
            },
        },
    }
}

/// What a halfword write does: the value's low bytes land little-endian
/// at the aligned address. Writes do not rotate.
pub open spec fn spec_write_half_r(m: BusModel, address: u32, value: u32) -> Result<
    BusModel,
    EmuError,
>
    recommends
        m.wf(),
{
    let aligned = address & !1u32;
    if write_ok(aligned) {
        Ok(
            spec_write_byte(
                spec_write_byte(m, aligned, value as u8),
                aligned | 1,
                (value >> 8) as u8,
            ),
        )
    } else {
        Err(EmuError::AddressDecodeError(aligned))
    }
}

/// What a word write does: the value's four bytes land little-endian at
/// the aligned address. Writes do not rotate.
pub open spec fn spec_write_word_r(m: BusModel, address: u32, value: u32) -> Result<
    BusModel,
    EmuError,
>
    recommends
        m.wf(),
{
    let aligned = address & !3u32;
    if write_ok(aligned) {
        Ok(
            spec_write_byte(
                spec_write_byte(
                    spec_write_byte(
                        spec_write_byte(m, aligned, value as u8),
                        aligned | 1,
                        (value >> 8) as u8,
                    ),
                    aligned | 2,
                    (value >> 16) as u8,
                ),
                aligned | 3,
                (value >> 24) as u8,
            ),
        )
    } else {
        Err(EmuError::AddressDecodeError(aligned))
    }
}

/// Alignment facts the half and word paths rest on: masking to an aligned
/// address keeps the high byte, offsets within the access stay in the
/// same region, and the misalignment shift is under 32.
pub proof fn lemma_alignment()
    by (bit_vector)
    ensures
        forall|a: u32| #[trigger] (a & !3u32) >> 24 == a >> 24,
        forall|a: u32| #[trigger] ((a & !3u32) | 1) >> 24 == a >> 24,
        forall|a: u32| #[trigger] ((a & !3u32) | 2) >> 24 == a >> 24,
        forall|a: u32| #[trigger] ((a & !3u32) | 3) >> 24 == a >> 24,
        forall|a: u32| #[trigger] (a & !1u32) >> 24 == a >> 24,
        forall|a: u32| #[trigger] ((a & !1u32) | 1) >> 24 == a >> 24,
        forall|a: u32| #[trigger] (a & 3) < 4,
        forall|a: u32| #[trigger] (a & 1) < 2,
        forall|a: u32| (a & !3u32) & !3u32 == a & !3u32 && (a & !3u32) & 3 == 0,
        forall|a: u32| (a & !1u32) & !1u32 == a & !1u32 && (a & !1u32) & 1 == 0,
{
}

impl Bus {
    pub open spec fn model(self) -> BusModel {
        BusModel {
            board: self.mem.wram_board@,
            chip: self.mem.wram_chip@,
            rom: self.cartridge.rom.data@,
            ppu: self.ppu.model(),
        }
    }

    pub open spec fn wf(self) -> bool {
        self.model().wf()
    }

    pub fn new(mem: Memory, cartridge: Cartridge, ppu: Ppu) -> (b: Bus)
        ensures
            b.model() == (BusModel {
                board: mem.wram_board@,
                chip: mem.wram_chip@,
                rom: cartridge.rom.data@,
                ppu: ppu.model(),
            }),
    {
        Bus { mem, cartridge, ppu }
    }

    pub fn read_byte(&self, address: u32) -> (r: Result<u8, EmuError>)
        requires
            self.wf(),
        ensures
            r == spec_read_byte_r(self.model(), address),
    {
        let hi = address >> 24;
        if hi >= 0x08 && hi <= 0x0B {
            Ok(self.cartridge.read_rom(address))
        } else if hi == 0x06 {
            Ok(self.ppu.read_vram(address))
        } else if hi == 0x05 {
            Ok(self.ppu.read_pram(address))
        } else if hi == 0x04 {
            self.ppu.read_io(address)
        } else if hi == 0x02 || hi == 0x03 {
            Ok(self.mem.read_wram(address))
        } else {
            Err(EmuError::AddressDecodeError(address))
        }
    }

    pub fn read_half(&self, address: u32) -> (r: Result<u32, EmuError>)
        requires
            self.wf(),
        ensures
            r == spec_read_half_r(self.model(), address),
    {
        proof {
            lemma_alignment();
        }
        let aligned = address & !1u32;
        let shift = address & 1;
        let b0 = self.read_byte(aligned)?;
        let b1 = self.read_byte(aligned | 1)?;
        let value = (b0 as u32) | ((b1 as u32) << 8);
        Ok(rotate_right32(value, 8 * shift))
    }

    pub fn read_word(&self, address: u32) -> (r: Result<u32, EmuError>)
        requires
            self.wf(),
        ensures
            r == spec_read_word_r(self.model(), address),
    {
        proof {
            lemma_alignment();
        }
        let aligned = address & !3u32;
        let shift = address & 3;
        let b0 = self.read_byte(aligned)?;
        let b1 = self.read_byte(aligned | 1)?;
        let b2 = self.read_byte(aligned | 2)?;
        let b3 = self.read_byte(aligned | 3)?;
        let value = (b0 as u32) | ((b1 as u32) << 8) | ((b2 as u32) << 16) | ((b3 as u32) << 24);
        Ok(rotate_right32(value, 8 * shift))
    }

    pub fn write_byte(&mut self, address: u32, value: u8) -> (r: Result<(), EmuError>)
        requires
            old(self).wf(),
        ensures
            final(self).wf(),
            match spec_write_byte_r(old(self).model(), address, value) {
                Ok(m) => r is Ok && final(self).model() == m,
                Err(e) => r == Err::<(), EmuError>(e) && final(self).model() == old(self).model(),
            },
    {
        let hi = address >> 24;
        if hi == 0x06 {
            self.ppu.write_vram(address, value);
            Ok(())
        } else if hi == 0x05 {
            self.ppu.write_pram(address, value);
            Ok(())
        } else if hi == 0x04 {
            self.ppu.write_io(address, value);
            Ok(())
        } else if hi == 0x02 || hi == 0x03 {
            proof {
                assert(wram_addr(address));
            }
            self.mem.write_wram(address, value);
            Ok(())
        } else if hi >= 0x08 && hi <= 0x0B {
            Ok(())
        } else {
            Err(EmuError::AddressDecodeError(address))
        }
    }

    pub fn write_half(&mut self, address: u32, value: u32) -> (r: Result<(), EmuError>)
        requires
            old(self).wf(),
        ensures
            final(self).wf(),
            match spec_write_half_r(old(self).model(), address, value) {
                Ok(m) => r is Ok && final(self).model() == m,
                Err(e) => r == Err::<(), EmuError>(e) && final(self).model() == old(self).model(),
            },
    {
        proof {
            lemma_alignment();
        }
        let aligned = address & !1u32;
        self.write_byte(aligned, value as u8)?;
        self.write_byte(aligned | 1, (value >> 8) as u8)?;
        Ok(())
    }

    pub fn write_word(&mut self, address: u32, value: u32) -> (r: Result<(), EmuError>)
        requires
            old(self).wf(),
        ensures
            final(self).wf(),
            match spec_write_word_r(old(self).model(), address, value) {
                Ok(m) => r is Ok && final(self).model() == m,
                Err(e) => r == Err::<(), EmuError>(e) && final(self).model() == old(self).model(),
            },
    {
        proof {
            lemma_alignment();
        }
        let aligned = address & !3u32;
        self.write_byte(aligned, value as u8)?;
        self.write_byte(aligned | 1, (value >> 8) as u8)?;
        self.write_byte(aligned | 2, (value >> 16) as u8)?;
        self.write_byte(aligned | 3, (value >> 24) as u8)?;
        Ok(())
    }
}

/// Writing a word and reading back from the aligned address round-trips
/// in work RAM: `read_word(a & !3)` after `write_word(a, v)` yields `v`.
pub proof fn lemma_wram_word_round_trip(m: BusModel, address: u32, value: u32)
    requires
        m.wf(),
        wram_addr(address),
    ensures
        spec_write_word_r(m, address, value) is Ok,
        spec_read_word_r(spec_write_word_r(m, address, value)->Ok_0, address & !3u32) == Ok::<
            u32,
            EmuError,
        >(value),
{
    lemma_alignment();
    lemma_mask_bounds();
    let al = address & !3u32;
    let m2 = spec_write_word_r(m, address, value)->Ok_0;
    assert(al & 3 == 0 && (8 * (al & 3)) as u32 == 0) by (bit_vector)
        requires
            al == address & !3u32,
    ;
    if address >> 24 == 0x2 {
        assert((al | 1) & 0x3_FFFF == (al & 0x3_FFFF) + 1 && (al | 2) & 0x3_FFFF == (al
            & 0x3_FFFF) + 2 && (al | 3) & 0x3_FFFF == (al & 0x3_FFFF) + 3) by (bit_vector)
            requires
                al == address & !3u32,
        ;
        assert(spec_read_byte(m2, al) == (value as u8));
        assert(spec_read_byte(m2, al | 1) == ((value >> 8) as u8));
        assert(spec_read_byte(m2, al | 2) == ((value >> 16) as u8));
        assert(spec_read_byte(m2, al | 3) == ((value >> 24) as u8));
    } else {
        assert((al | 1) & 0x7FFF == (al & 0x7FFF) + 1 && (al | 2) & 0x7FFF == (al & 0x7FFF) + 2 && (
        al | 3) & 0x7FFF == (al & 0x7FFF) + 3) by (bit_vector)
            requires
                al == address & !3u32,
        ;
        assert(spec_read_byte(m2, al) == (value as u8));
        assert(spec_read_byte(m2, al | 1) == ((value >> 8) as u8));
        assert(spec_read_byte(m2, al | 2) == ((value >> 16) as u8));
        assert(spec_read_byte(m2, al | 3) == ((value >> 24) as u8));
    }
    assert(((value as u8) as u32) | (((value >> 8) as u8 as u32) << 8) | (((value >> 16) as u8
        as u32) << 16) | (((value >> 24) as u8 as u32) << 24) == value) by (bit_vector);
}

/// A misaligned word read equals the aligned read rotated right by
/// `8 * (address & 3)` bits.
pub proof fn lemma_read_word_rotation(m: BusModel, address: u32)
    requires
        m.wf(),
        wram_addr(address),
    ensures
        spec_read_word_r(m, address & !3u32) is Ok,
        spec_read_word_r(m, address) == Ok::<u32, EmuError>(
            rot_right32(spec_read_word_r(m, address & !3u32)->Ok_0, (8 * (address & 3)) as u32),
        ),
{
    lemma_alignment();
    let al = address & !3u32;
    assert(al & 3 == 0 && (8 * (al & 3)) as u32 == 0) by (bit_vector)
        requires
            al == address & !3u32,
    ;
}

} // verus!
