//! The CPU wrapper around the ARM7TDMI processor.

use vstd::prelude::*;
use crate::arm7tdmi::{initial_proc, spec_steps, ProcModel, Processor};
use crate::bus::{Bus, BusModel};
use crate::errors::EmuError;

verus! {

pub struct Cpu {
    pub processor: Processor,
}

impl Cpu {
    pub open spec fn model(self) -> ProcModel {
        self.processor.model()
    }

    pub open spec fn wf(self) -> bool {
        self.processor.wf()
    }

    pub fn new() -> (c: Cpu)
        ensures
            c.wf(),
            c.model() == initial_proc(),
    {
        Cpu { processor: Processor::new() }
    }

    pub fn power() {
    }

    /// Run `clocks` processor cycles against the bus.
    pub fn step(&mut self, clocks: u32, bus: &mut Bus) -> (r: Result<(), EmuError>)
        requires
            old(self).wf(),
            old(bus).wf(),
        ensures
            final(self).wf(),
            final(bus).wf(),
            match spec_steps(old(self).model(), old(bus).model(), clocks as nat) {
                Ok(pb) => r is Ok && final(self).model() == pb.0 && final(bus).model() == pb.1,
                Err(e) => r == Err::<(), EmuError>(e),
            },
    {
        self.processor.step(clocks, bus)
    }
}

} // verus!
