//! Picture processing unit: VRAM (96 KiB), palette RAM (1 KiB) with a
//! decoded 512-entry ARGB8888 palette cache, a 240x160 framebuffer, the
//! DISPCNT / DISPSTAT / VCOUNT registers, and the per-scanline driver that
//! interleaves visible rendering with horizontal and vertical blanking.

use vstd::prelude::*;
use crate::bits::lemma_mask_bounds;
use crate::errors::EmuError;
use crate::memory::zero_bytes;

verus! {

pub struct Io {
    pub disp_ctrl: u16,
    pub disp_stat: u16,
    pub v_count: u16,
}

pub struct Ppu {
    pub vram: Vec<u8>,
    pub palette: Vec<u32>,
    pub pram: Vec<u8>,
    pub output: Vec<u32>,
    pub io_regs: Io,
}

/// The PPU's state as mathematics: every backing buffer as a sequence and
/// the three registers as plain values.
#[verifier::ext_equal]
pub ghost struct PpuModel {
    pub vram: Seq<u8>,
    pub palette: Seq<u32>,
    pub pram: Seq<u8>,
    pub output: Seq<u32>,
    pub disp_ctrl: u16,
    pub disp_stat: u16,
    pub v_count: u16,
}

impl PpuModel {
    pub open spec fn wf(self) -> bool {
        &&& self.vram.len() == 0x1_8000
        &&& self.palette.len() == 0x200
        &&& self.pram.len() == 0x400
        &&& self.output.len() == 38400
        &&& self.v_count < 228
    }
}

/// A BGR555 half-word expanded to ARGB8888: each 5-bit channel shifted
/// left by 3, alpha forced to 0xFF.
pub open spec fn argb_of_bgr555(pixel: u32) -> u32 {
    0xFF00_0000u32 | (((pixel & 0x1F) << 3) << 16) | ((((pixel >> 5) & 0x1F) << 3) << 8) | (((
    pixel >> 10) & 0x1F) << 3)
}

/// The VRAM index a read designates: offsets with bit 16 set fall in the
/// mirrored 32 KiB half (mask 0x1_7FFF), the rest in the lower 64 KiB.
pub open spec fn vram_read_index(address: u32) -> int {
    if (address >> 16) & 1 == 1 {
        (address & 0x1_7FFF) as int
    } else {
        (address & 0xFFFF) as int
    }
}

/// The VRAM index a write designates.
pub open spec fn vram_write_index(address: u32) -> int {
    if (address >> 16) & 1 == 1 {
        (address & 0x1_7FFF) as int
    } else {
        (address & 0x1_FFFF) as int
    }
}

/// Whether an I/O address is one of the readable register bytes.
pub open spec fn io_read_ok(address: u32) -> bool {
    address == 0x0400_0000 || address == 0x0400_0001 || address == 0x0400_0004 || address
        == 0x0400_0005 || address == 0x0400_0006
}

/// What a read of a defined I/O register byte returns.
pub open spec fn spec_read_io_byte(p: PpuModel, address: u32) -> u8
    recommends
        io_read_ok(address),
{
    if address == 0x0400_0000 {
        p.disp_ctrl as u8
    } else if address == 0x0400_0001 {
        (p.disp_ctrl >> 8) as u8
    } else if address == 0x0400_0004 {
        p.disp_stat as u8
    } else if address == 0x0400_0005 {
        (p.disp_stat >> 8) as u8
    } else {
        p.v_count as u8
    }
}

/// The PPU after an I/O write: the byte is OR-ed into the addressed half
/// of DISPCNT or DISPSTAT; any other address is ignored.
pub open spec fn spec_write_io(p: PpuModel, address: u32, value: u8) -> PpuModel {
    if address == 0x0400_0000 {
        PpuModel { disp_ctrl: p.disp_ctrl | value as u16, ..p }
    } else if address == 0x0400_0001 {
        PpuModel { disp_ctrl: p.disp_ctrl | ((value as u16) << 8), ..p }
    } else if address == 0x0400_0004 {
        PpuModel { disp_stat: p.disp_stat | value as u16, ..p }
    } else if address == 0x0400_0005 {
        PpuModel { disp_stat: p.disp_stat | ((value as u16) << 8), ..p }
    } else {
        p
    }
}

/// The PPU after a VRAM write.
pub open spec fn spec_write_vram(p: PpuModel, address: u32, value: u8) -> PpuModel
    recommends
        p.wf(),
{
    PpuModel { vram: p.vram.update(vram_write_index(address), value), ..p }
}

/// The PPU after a PRAM write: the byte lands at `address & 0x3FF`, and
/// the palette entry covering that byte pair is rebuilt from the new PRAM
/// contents as a BGR555 colour expanded to ARGB8888.
pub open spec fn spec_write_pram(p: PpuModel, address: u32, value: u8) -> PpuModel
    recommends
        p.wf(),
{
    let pram2 = p.pram.update((address & 0x3FF) as int, value);
    let pair = (address & 0x3FE) as int;
    let pixel = (pram2[pair] as u32) | ((pram2[pair + 1] as u32) << 8);
    PpuModel {
        pram: pram2,
        palette: p.palette.update(((address & 0x3FE) >> 1) as int, argb_of_bgr555(pixel)),
        ..p
    }
}

/// The PPU after `start_hblank`: DISPSTAT bit 1 set.
pub open spec fn spec_start_hblank(p: PpuModel) -> PpuModel {
    PpuModel { disp_stat: p.disp_stat | 2u16, ..p }
}

/// The PPU after `end_hblank`: DISPSTAT bit 1 cleared.
pub open spec fn spec_end_hblank(p: PpuModel) -> PpuModel {
    PpuModel { disp_stat: p.disp_stat & !2u16, ..p }
}

/// The 16-bit little-endian value at `off` in a byte sequence.
pub open spec fn le16_at(bytes: Seq<u8>, off: int) -> u32
    recommends
        0 <= off,
        off + 1 < bytes.len(),
{
    (bytes[off] as u32) | ((bytes[off + 1] as u32) << 8)
}

/// The framebuffer after rasterising line `v_count` in mode 3: pixel `x`
/// of the row is the BGR555 half-word at VRAM offset `v_count * 480 + 2x`
/// expanded to ARGB8888; every other row keeps its contents.
pub open spec fn mode3_output(p: PpuModel) -> Seq<u32>
    recommends
        p.wf(),
        p.v_count < 160,
{
    let y = p.v_count as int;
    Seq::new(
        38400,
        |i: int|
            if y * 240 <= i < y * 240 + 240 {
                argb_of_bgr555(le16_at(p.vram, y * 480 + 2 * (i - y * 240)))
            } else {
                p.output[i]
            },
    )
}

/// The frame base mode 4 reads from: DISPCNT bit 13 clear selects frame 0
/// at offset 0, set selects frame 1 at offset 0xA000.
pub open spec fn mode4_base(disp_ctrl: u16) -> int {
    if (disp_ctrl >> 13) & 1 == 0 {
        0
    } else {
        0xA000
    }
}

/// The framebuffer after rasterising line `v_count` in mode 4: pixel `x`
/// is the decoded palette entry selected by the VRAM byte at
/// `base + v_count * 240 + x`.
pub open spec fn mode4_output(p: PpuModel) -> Seq<u32>
    recommends
        p.wf(),
        p.v_count < 160,
{
    let y = p.v_count as int;
    let base = mode4_base(p.disp_ctrl);
    Seq::new(
        38400,
        |i: int|
            if y * 240 <= i < y * 240 + 240 {
                p.palette[p.vram[base + y * 240 + (i - y * 240)] as int]
            } else {
                p.output[i]
            },
    )
}

/// The PPU after `render_line`. Lines 160 and above only keep the VBlank
/// bookkeeping: DISPSTAT bit 0 is set and VCOUNT advances, wrapping to a
/// clean line 0 (VBlank cleared) after line 227. Visible lines rasterise
/// per the mode in DISPCNT bits 0..2; modes other than 3 and 4 are fatal.
pub open spec fn spec_render_line(p: PpuModel) -> Result<PpuModel, EmuError>
    recommends
        p.wf(),
{
    if p.v_count >= 160 {
        let ds = p.disp_stat | 1u16;
        if p.v_count + 1 == 228 {
            Ok(PpuModel { disp_stat: ds & !1u16, v_count: 0, ..p })
        } else {
            Ok(PpuModel { disp_stat: ds, v_count: (p.v_count + 1) as u16, ..p })
        }
    } else {
        let mode = p.disp_ctrl & 7;
        if mode == 3 {
            Ok(PpuModel { output: mode3_output(p), v_count: (p.v_count + 1) as u16, ..p })
        } else if mode == 4 {
            Ok(PpuModel { output: mode4_output(p), v_count: (p.v_count + 1) as u16, ..p })
        } else {
            Err(EmuError::UnsupportedVideoMode(mode))
        }
    }
}

/// One full scanline of line-driver events, in the frame driver's
/// order: HBlank entered, the line rendered, HBlank left.
pub open spec fn spec_line_step(p: PpuModel) -> Result<PpuModel, EmuError>
    recommends
        p.wf(),
{
    match spec_render_line(spec_start_hblank(p)) {
        Err(e) => Err(e),
        Ok(q) => Ok(spec_end_hblank(q)),
    }
}

/// The PPU after `n` scanlines of line-driver events.
pub open spec fn spec_line_iter(p: PpuModel, n: nat) -> Result<PpuModel, EmuError>
    recommends
        p.wf(),
    decreases n,
{
    if n == 0 {
        Ok(p)
    } else {
        match spec_line_iter(p, (n - 1) as nat) {
            Err(e) => Err(e),
            Ok(q) => spec_line_step(q),
        }
    }
}

/// How the status bits move through one scanline's events.
proof fn lemma_stat_bits(x: u16)
    by (bit_vector)
    ensures
        (x | 2) & 1 == x & 1,
        (x | 2) & 2 == 2,
        (x | 2) & 7 == (x & 5) | 2,
        ((x | 2) | 1) & 2 == 2,
        (((x | 2) | 1) & !1u16) & 2 == 2,
        (x & !2u16) & 2 == 0,
        (x & !2u16) & 1 == x & 1,
        (((x | 2) | 1) & !2u16) & 1 == 1,
        (((x | 2) | 1) & !2u16) & 2 == 0,
        ((((x | 2) | 1) & !1u16) & !2u16) & 1 == 0,
        ((((x | 2) | 1) & !1u16) & !2u16) & 2 == 0,
        ((x | 2) & !2u16) & 1 == x & 1,
        ((x | 2) & !2u16) & 2 == 0,
{
}

/// Across one frame of line-driver events started from a clean line 0,
/// the VBlank bit is set after exactly the scanlines 160 through 226,
/// VCOUNT counts the lines processed, and after all 228 lines the PPU is
/// back at a clean line 0 with VBlank and HBlank both clear.
pub proof fn lemma_vblank_window(p: PpuModel, n: nat)
    requires
        p.wf(),
        p.v_count == 0,
        p.disp_stat & 1 == 0,
        p.disp_stat & 2 == 0,
        p.disp_ctrl & 7 == 3 || p.disp_ctrl & 7 == 4,
        n <= 228,
    ensures
        spec_line_iter(p, n) is Ok,
        spec_line_iter(p, n)->Ok_0.wf(),
        spec_line_iter(p, n)->Ok_0.v_count as nat == (if n == 228 {
            0nat
        } else {
            n
        }),
        (spec_line_iter(p, n)->Ok_0.disp_stat & 1 == 1) <==> (161 <= n <= 227),
        spec_line_iter(p, n)->Ok_0.disp_stat & 2 == 0,
        spec_line_iter(p, n)->Ok_0.disp_ctrl == p.disp_ctrl,
    decreases n,
{
    if n == 0 {
    } else {
        lemma_vblank_window(p, (n - 1) as nat);
        let q = spec_line_iter(p, (n - 1) as nat)->Ok_0;
        lemma_stat_bits(q.disp_stat);
        let s = spec_start_hblank(q);
        assert(s.disp_ctrl & 7 == 3 || s.disp_ctrl & 7 == 4);
        if q.v_count < 160 {
            assert(spec_render_line(s) is Ok);
        }
    }
}

/// For any line, the HBlank bit is set from `start_hblank` through
/// `render_line`, and clear again after `end_hblank`.
pub proof fn lemma_hblank_window(p: PpuModel)
    requires
        p.wf(),
    ensures
        spec_start_hblank(p).disp_stat & 2 == 2,
        match spec_render_line(spec_start_hblank(p)) {
            Ok(q) => q.disp_stat & 2 == 2 && spec_end_hblank(q).disp_stat & 2 == 0,
            Err(_) => true,
        },
{
    lemma_stat_bits(p.disp_stat);
    let s = spec_start_hblank(p);
    match spec_render_line(s) {
        Ok(q) => {
            lemma_stat_bits(q.disp_stat);
        },
        Err(_) => {},
    }
}

/// The BGR555-to-ARGB8888 expansion is injective: two colours that
/// rasterise to the same output pixel agree on all fifteen colour bits.
pub proof fn lemma_bgr555_expansion_injective(c1: u32, c2: u32)
    requires
        argb_of_bgr555(c1) == argb_of_bgr555(c2),
    ensures
        c1 & 0x7FFF == c2 & 0x7FFF,
{
    assert(argb_of_bgr555(c1) == argb_of_bgr555(c2) ==> c1 & 0x7FFF == c2 & 0x7FFF)
        by (bit_vector);
}

impl Ppu {
    pub open spec fn model(self) -> PpuModel {
        PpuModel {
            vram: self.vram@,
            palette: self.palette@,
            pram: self.pram@,
            output: self.output@,
            disp_ctrl: self.io_regs.disp_ctrl,
            disp_stat: self.io_regs.disp_stat,
            v_count: self.io_regs.v_count,
        }
    }

    pub open spec fn wf(self) -> bool {
        self.model().wf()
    }

    pub fn new() -> (p: Ppu)
        ensures
            p.wf(),
            p.model().vram == Seq::new(0x1_8000, |i: int| 0u8),
            p.model().palette == Seq::new(0x200, |i: int| 0u32),
            p.model().pram == Seq::new(0x400, |i: int| 0u8),
            p.model().output == Seq::new(38400, |i: int| 0u32),
            p.model().disp_ctrl == 0u16,
            p.model().disp_stat == 0u16,
            p.model().v_count == 0u16,
    {
        Ppu {
            vram: zero_bytes(0x1_8000),
            palette: zero_words(0x200),
            pram: zero_bytes(0x400),
            output: zero_words(38400),
            io_regs: Io::new(),
        }
    }

    pub fn read_vram(&self, address: u32) -> (r: u8)
        requires
            self.wf(),
        ensures
            r == self.model().vram[vram_read_index(address)],
    {
        proof {
            lemma_mask_bounds();
        }
        if (address >> 16) & 1 == 1 {
            self.vram[(address & 0x1_7FFF) as usize]
        } else {
            self.vram[(address & 0xFFFF) as usize]
        }
    }

    pub fn read_pram(&self, address: u32) -> (r: u8)
        requires
            self.wf(),
        ensures
            r == self.model().pram[(address & 0x3FF) as int],
    {
        proof {
            lemma_mask_bounds();
        }
        self.pram[(address & 0x3FF) as usize]
    }

    pub fn read_io(&self, address: u32) -> (r: Result<u8, EmuError>)
        ensures
            io_read_ok(address) ==> r == Ok::<u8, EmuError>(
                spec_read_io_byte(self.model(), address),
            ),
            !io_read_ok(address) ==> r == Err::<u8, EmuError>(EmuError::AddressDecodeError(
                address,
            )),
    {
        match address {
            0x0400_0000 => Ok(self.io_regs.disp_ctrl as u8),
            0x0400_0001 => Ok((self.io_regs.disp_ctrl >> 8) as u8),
            0x0400_0004 => Ok(self.io_regs.disp_stat as u8),
            0x0400_0005 => Ok((self.io_regs.disp_stat >> 8) as u8),
            0x0400_0006 => Ok(self.io_regs.v_count as u8),
            _ => Err(EmuError::AddressDecodeError(address)),
        }
    }

    pub fn write_vram(&mut self, address: u32, value: u8)
        requires
            old(self).wf(),
        ensures
            final(self).wf(),
            final(self).model() == spec_write_vram(old(self).model(), address, value),
    {
        proof {
            lemma_mask_bounds();
        }
        if (address >> 16) & 1 == 1 {
            self.vram.set((address & 0x1_7FFF) as usize, value);
        } else {
            self.vram.set((address & 0x1_FFFF) as usize, value);
        }
    }

    pub fn write_pram(&mut self, address: u32, value: u8)
        requires
            old(self).wf(),
        ensures
            final(self).wf(),
            final(self).model() == spec_write_pram(old(self).model(), address, value),
    {
        proof {
            lemma_mask_bounds();
            assert((address & 0x3FE) == (address & 0x3FF) || (address & 0x3FE) + 1 == (address
                & 0x3FF)) by (bit_vector);
            assert(((address & 0x3FE) | 1) == (address & 0x3FE) + 1) by (bit_vector);
        }
        self.pram.set((address & 0x3FF) as usize, value);

        let pair = (address & 0x3FE) as usize;
        let pixel: u32 = (self.pram[pair] as u32) | ((self.pram[pair + 1] as u32) << 8);
        let rgba = argb8888(pixel);
        self.palette.set(((address & 0x3FE) >> 1) as usize, rgba);
    }

    pub fn write_io(&mut self, address: u32, value: u8)
        ensures
            final(self).model() == spec_write_io(old(self).model(), address, value),
            final(self).model().wf() == old(self).model().wf(),
    {
        if address == 0x0400_0000 {
            self.io_regs.disp_ctrl = self.io_regs.disp_ctrl | value as u16;
        } else if address == 0x0400_0001 {
            self.io_regs.disp_ctrl = self.io_regs.disp_ctrl | ((value as u16) << 8);
        } else if address == 0x0400_0004 {
            self.io_regs.disp_stat = self.io_regs.disp_stat | value as u16;
        } else if address == 0x0400_0005 {
            self.io_regs.disp_stat = self.io_regs.disp_stat | ((value as u16) << 8);
        }
    }

    pub fn start_hblank(&mut self)
        ensures
            final(self).model() == spec_start_hblank(old(self).model()),
            final(self).model().wf() == old(self).model().wf(),
    {
        self.io_regs.disp_stat = self.io_regs.disp_stat | 0b10;
    }

    pub fn end_hblank(&mut self)
        ensures
            final(self).model() == spec_end_hblank(old(self).model()),
            final(self).model().wf() == old(self).model().wf(),
    {
        self.io_regs.disp_stat = self.io_regs.disp_stat & !0b10;
    }

    pub fn render_line(&mut self) -> (r: Result<(), EmuError>)
        requires
            old(self).wf(),
        ensures
            final(self).wf(),
            match spec_render_line(old(self).model()) {
                Ok(p) => r is Ok && final(self).model() == p,
                Err(e) => r == Err::<(), EmuError>(e) && final(self).model() == old(self).model(),
            },
    {
        if self.io_regs.v_count >= 160 {
            self.io_regs.disp_stat = self.io_regs.disp_stat | 0b01;
            self.io_regs.v_count = self.io_regs.v_count + 1;
            if self.io_regs.v_count == 228 {
                self.io_regs.v_count = 0;
                self.io_regs.disp_stat = self.io_regs.disp_stat & !0b01;
            }
            return Ok(());
        }
        let mode = self.io_regs.disp_ctrl & 0b111;
        if mode == 3 {
            self.render_line_mode3();
        } else if mode == 4 {
            self.render_line_mode4();
        } else {
            return Err(EmuError::UnsupportedVideoMode(mode));
        }
        self.io_regs.v_count = self.io_regs.v_count + 1;
        Ok(())
    }

    fn render_line_mode3(&mut self)
        requires
            old(self).wf(),
            old(self).model().v_count < 160,
        ensures
            final(self).model() == (PpuModel {
                output: mode3_output(old(self).model()),
                ..old(self).model()
            }),
    {
        let y: usize = self.io_regs.v_count as usize;
        let row: usize = y * 240;
        let mut x: usize = 0;
        while x < 240
            invariant
                self.wf(),
                x <= 240,
                y == old(self).model().v_count,
                y < 160,
                row == y * 240,
                self.vram@ == old(self).model().vram,
                self.palette@ == old(self).model().palette,
                self.pram@ == old(self).model().pram,
                self.io_regs.disp_ctrl == old(self).model().disp_ctrl,
                self.io_regs.disp_stat == old(self).model().disp_stat,
                self.io_regs.v_count == old(self).model().v_count,
                forall|j: int|
                    0 <= j < 38400 ==> self.output@[j] == (if row <= j < row + x {
                        argb_of_bgr555(le16_at(old(self).model().vram, y * 480 + 2 * (j - row)))
                    } else {
                        old(self).model().output[j]
                    }),
            decreases 240 - x,
        {
            let va: usize = y * 480 + 2 * x;
            let pixel: u32 = (self.vram[va] as u32) | ((self.vram[va + 1] as u32) << 8);
            let rgba = argb8888(pixel);
            self.output.set(row + x, rgba);
            x = x + 1;
        }
        proof {
            assert(final(self).model().output =~= mode3_output(old(self).model()));
            assert(final(self).model() =~= (PpuModel {
                output: mode3_output(old(self).model()),
                ..old(self).model()
            }));
        }
    }

    fn render_line_mode4(&mut self)
        requires
            old(self).wf(),
            old(self).model().v_count < 160,
        ensures
            final(self).model() == (PpuModel {
                output: mode4_output(old(self).model()),
                ..old(self).model()
            }),
    {
        let y: usize = self.io_regs.v_count as usize;
        let row: usize = y * 240;
        let base: usize = if (self.io_regs.disp_ctrl >> 13) & 1 == 0 {
            0
        } else {
            0xA000
        };
        let mut x: usize = 0;
        while x < 240
            invariant
                self.wf(),
                x <= 240,
                y == old(self).model().v_count,
                y < 160,
                row == y * 240,
                base == mode4_base(old(self).model().disp_ctrl),
                self.vram@ == old(self).model().vram,
                self.palette@ == old(self).model().palette,
                self.pram@ == old(self).model().pram,
                self.io_regs.disp_ctrl == old(self).model().disp_ctrl,
                self.io_regs.disp_stat == old(self).model().disp_stat,
                self.io_regs.v_count == old(self).model().v_count,
                forall|j: int|
                    0 <= j < 38400 ==> self.output@[j] == (if row <= j < row + x {
                        old(self).model().palette[old(self).model().vram[base + y * 240 + (j
                            - row)] as int]
                    } else {
                        old(self).model().output[j]
                    }),
            decreases 240 - x,
        {
            let idx: usize = self.vram[base + y * 240 + x] as usize;
            let entry: u32 = self.palette[idx];
            self.output.set(row + x, entry);
            x = x + 1;
        }
        proof {
            assert(final(self).model().output =~= mode4_output(old(self).model()));
            assert(final(self).model() =~= (PpuModel {
                output: mode4_output(old(self).model()),
                ..old(self).model()
            }));
        }
    }

    pub fn render_screen(&self) -> (r: &Vec<u32>)
        ensures
            r@ == self.model().output,
    {
        &self.output
    }
}

impl Io {
    fn new() -> (io: Io)
        ensures
            io.disp_ctrl == 0u16,
            io.disp_stat == 0u16,
            io.v_count == 0u16,
    {
        Io { disp_ctrl: 0x0, disp_stat: 0x0, v_count: 0x0 }
    }
}

/// Executable BGR555-to-ARGB8888 expansion.
pub fn argb8888(pixel: u32) -> (r: u32)
    ensures
        r == argb_of_bgr555(pixel),
{
    let red: u32 = (pixel & 0x1F) << 3;
    let green: u32 = ((pixel >> 5) & 0x1F) << 3;
    let blue: u32 = ((pixel >> 10) & 0x1F) << 3;
    0xFF00_0000u32 | (red << 16) | (green << 8) | blue
}

/// A zero-filled word buffer of the given length.
pub fn zero_words(n: usize) -> (v: Vec<u32>)
    ensures
        v@ == Seq::new(n as nat, |i: int| 0u32),
{
    let mut v: Vec<u32> = Vec::new();
    let mut i: usize = 0;
    while i < n
        invariant
            i <= n,
            v@ == Seq::new(i as nat, |j: int| 0u32),
        decreases n - i,
    {
        v.push(0);
        i = i + 1;
        proof {
            assert(v@ =~= Seq::new(i as nat, |j: int| 0u32));
        }
    }
    v
}

} // verus!
