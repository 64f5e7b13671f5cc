//! The frame driver: composes CPU and bus, advances the CPU through the
//! visible and blanking portions of each of the 228 scanlines of a
//! frame, and hands out the finished framebuffer.

use vstd::prelude::*;
use crate::arm7tdmi::{initial_proc, spec_steps, ProcModel};
use crate::bus::{Bus, BusModel};
use crate::cartridge::Cartridge;
use crate::cpu::Cpu;
use crate::errors::EmuError;
use crate::memory::Memory;
use crate::ppu::{spec_end_hblank, spec_render_line, spec_start_hblank, Ppu, PpuModel};

verus! {

pub struct HerodGBA {
    pub cpu: Cpu,
    pub bus: Bus,
}

/// The PPU's power-on state: every buffer zeroed, every register zero.
pub open spec fn initial_ppu() -> PpuModel {
    PpuModel {
        vram: Seq::new(0x1_8000, |i: int| 0u8),
        palette: Seq::new(0x200, |i: int| 0u32),
        pram: Seq::new(0x400, |i: int| 0u8),
        output: Seq::new(38400, |i: int| 0u32),
        disp_ctrl: 0,
        disp_stat: 0,
        v_count: 0,
    }
}

/// The bus's power-on state: work RAM and ROM zeroed, the PPU clean.
pub open spec fn initial_bus() -> BusModel {
    BusModel {
        board: Seq::new(0x4_0000, |i: int| 0u8),
        chip: Seq::new(0x8000, |i: int| 0u8),
        rom: Seq::new(0x200_0000, |i: int| 0u8),
        ppu: initial_ppu(),
    }
}

/// One scanline of the frame driver: 1006 CPU cycles of visible time,
/// then HBlank entered, the line rendered, HBlank left, and 226 CPU
/// cycles of blanking time.
pub open spec fn spec_frame_line(p: ProcModel, b: BusModel) -> Result<
    (ProcModel, BusModel),
    EmuError,
> {
    match spec_steps(p, b, 1006) {
        Err(e) => Err(e),
        Ok(pb) => {
            let b1 = BusModel { ppu: spec_start_hblank(pb.1.ppu), ..pb.1 };
            match spec_render_line(b1.ppu) {
                Err(e) => Err(e),
                Ok(pp) => {
                    let b2 = BusModel { ppu: spec_end_hblank(pp), ..b1 };
                    spec_steps(pb.0, b2, 226)
                },
            }
        },
    }
}

/// The machine after `n` scanlines of the frame driver.
pub open spec fn spec_frame_lines(p: ProcModel, b: BusModel, n: nat) -> Result<
    (ProcModel, BusModel),
    EmuError,
>
    decreases n,
{
    if n == 0 {
        Ok((p, b))
    } else {
        match spec_frame_lines(p, b, (n - 1) as nat) {
            Err(e) => Err(e),
            Ok(pb) => spec_frame_line(pb.0, pb.1),
        }
    }
}

/// Once a scanline has faulted, running more scanlines reports the same
/// fault.
pub proof fn lemma_frame_lines_stay_err(p: ProcModel, b: BusModel, n: nat, m: nat)
    requires
        n <= m,
        spec_frame_lines(p, b, n) is Err,
    ensures
        spec_frame_lines(p, b, m) == spec_frame_lines(p, b, n),
    decreases m,
{
    if m > n {
        lemma_frame_lines_stay_err(p, b, n, (m - 1) as nat);
    }
}

impl HerodGBA {
    pub open spec fn wf(self) -> bool {
        self.cpu.wf() && self.bus.wf()
    }

    pub fn new() -> (g: HerodGBA)
        ensures
            g.wf(),
            g.cpu.model() == initial_proc(),
            g.bus.model() == initial_bus(),
    {
        let m = Memory::new();
        let c = Cartridge::new();
        let p = Ppu::new();
        let g = HerodGBA { cpu: Cpu::new(), bus: Bus::new(m, c, p) };
        proof {
            assert(g.bus.model() =~= initial_bus());
        }
        g
    }

    pub fn power(&mut self)
        ensures
            *final(self) == *old(self),
    {
    }

    /// Replace the ROM buffer's content with the given cartridge image.
    pub fn load_cartridge(&mut self, bytes: Vec<u8>)
        requires
            old(self).wf(),
        ensures
            final(self).wf(),
            final(self).cpu == old(self).cpu,
            final(self).bus.model() == (BusModel { rom: bytes@, ..old(self).bus.model() }),
    {
        self.bus.cartridge.load(bytes);
    }

    /// Advance the machine one frame: 228 scanlines, each 1006 visible
    /// cycles, an HBlank-wrapped `render_line`, and 226 blanking cycles.
    /// Returns the finished 240x160 ARGB8888 framebuffer.
    #[verifier::loop_isolation(false)]
    pub fn render_frame(&mut self) -> (r: Result<&Vec<u32>, EmuError>)
        requires
            old(self).wf(),
        ensures
            final(self).wf(),
            match spec_frame_lines(old(self).cpu.model(), old(self).bus.model(), 228) {
                Ok(pb) => {
                    &&& r is Ok
                    &&& final(self).cpu.model() == pb.0
                    &&& final(self).bus.model() == pb.1
                    &&& r->Ok_0@ == pb.1.ppu.output
                },
                Err(e) => r is Err && r->Err_0 == e,
            },
    {
        let mut cycles: u32 = 0;
        let ghost mut lines: nat = 0nat;
        while cycles < 280896
            invariant
                cycles == 1232 * lines,
                lines <= 228,
                cycles <= 280896,
                self.wf(),
                spec_frame_lines(old(self).cpu.model(), old(self).bus.model(), lines) == Ok::<
                    (ProcModel, BusModel),
                    EmuError,
                >((self.cpu.model(), self.bus.model())),
            decreases 280896 - cycles,
        {
            let ghost pit = self.cpu.model();
            let ghost bt = self.bus.model();

            match self.cpu.step(1006, &mut self.bus) {
                Ok(_) => {},
                Err(e) => {
                    proof {
                        assert(spec_frame_lines(
                            old(self).cpu.model(),
                            old(self).bus.model(),
                            lines + 1,
                        ) is Err);
                        lemma_frame_lines_stay_err(
                            old(self).cpu.model(),
                            old(self).bus.model(),
                            lines + 1,
                            228,
                        );
                    }
                    return Err(e);
                },
            }
            self.bus.ppu.start_hblank();
            match self.bus.ppu.render_line() {
                Ok(_) => {},
                Err(e) => {
                    proof {
                        assert(spec_frame_lines(
                            old(self).cpu.model(),
                            old(self).bus.model(),
                            lines + 1,
                        ) is Err);
                        lemma_frame_lines_stay_err(
                            old(self).cpu.model(),
                            old(self).bus.model(),
                            lines + 1,
                            228,
                        );
                    }
                    return Err(e);
                },
            }
            self.bus.ppu.end_hblank();
            match self.cpu.step(226, &mut self.bus) {
                Ok(_) => {},
                Err(e) => {
                    proof {
                        assert(spec_frame_lines(
                            old(self).cpu.model(),
                            old(self).bus.model(),
                            lines + 1,
                        ) is Err);
                        lemma_frame_lines_stay_err(
                            old(self).cpu.model(),
                            old(self).bus.model(),
                            lines + 1,
                            228,
                        );
                    }
                    return Err(e);
                },
            }
            proof {
                assert(spec_frame_line(pit, bt) == Ok::<(ProcModel, BusModel), EmuError>(
                    (self.cpu.model(), self.bus.model()),
                ));
                lines = lines + 1;
            }
            cycles = cycles + 1232;
        }
        proof {
            assert(lines == 228);
        }
        Ok(self.bus.ppu.render_screen())
    }
}

} // verus!
