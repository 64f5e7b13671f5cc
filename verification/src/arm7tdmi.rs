//! The ARM7TDMI processor: banked registers, CPSR condition flags, the
//! two-slot prefetch pipeline, and the 4096-entry dispatch table indexed
//! by a 12-bit hash of each instruction word.

use vstd::prelude::*;
use crate::bits::{lemma_mask_bounds, wadd};
use crate::bus::{spec_read_word_r, Bus, BusModel};
use crate::errors::EmuError;
use crate::instructions::{ArmInstruction, Instruction};

verus! {

pub struct Registers {
    pub r: Vec<u32>,
    pub r13_sp: u32,
    pub r13_fiq: u32,
    pub r13_svc: u32,
    pub r13_abt: u32,
    pub r13_und: u32,
    pub r14: u32,
    pub r14_fiq: u32,
    pub r14_svc: u32,
    pub r14_abt: u32,
    pub r14_und: u32,
    pub r15_pc: u32,
    pub cpsr: u32,
    pub spsr_fiq: u32,
    pub spsr_svc: u32,
    pub spsr_abt: u32,
    pub spsr_irq: u32,
    pub spsr_und: u32,
}

/// The register file as mathematics: the sixteen currently selected
/// registers as one sequence, the remaining bank storage and the status
/// registers as plain values.
#[verifier::ext_equal]
pub ghost struct RegsModel {
    pub gpr: Seq<u32>,
    pub r13_fiq: u32,
    pub r13_svc: u32,
    pub r13_abt: u32,
    pub r13_und: u32,
    pub r14_fiq: u32,
    pub r14_svc: u32,
    pub r14_abt: u32,
    pub r14_und: u32,
    pub cpsr: u32,
    pub spsr_fiq: u32,
    pub spsr_svc: u32,
    pub spsr_abt: u32,
    pub spsr_irq: u32,
    pub spsr_und: u32,
}

/// The processor as mathematics: registers plus the two prefetched words
/// (`pipe0` executes next; `pipe1` is one fetch further ahead).
#[verifier::ext_equal]
pub ghost struct ProcModel {
    pub regs: RegsModel,
    pub pipe0: u32,
    pub pipe1: u32,
}

pub enum PSRFlags {
    Negative,
    Zero,
    Carry,
    Overflow,
    Saturation,
    AbortOff,
    IRQOff,
    FIQOff,
    Thumb,
}

/// The CPSR bit a flag lives in.
pub open spec fn flag_mask(flag: PSRFlags) -> u32
    recommends
        flag is Negative || flag is Zero || flag is Carry || flag is Overflow,
{
    match flag {
        PSRFlags::Negative => 0x8000_0000u32,
        PSRFlags::Zero => 0x4000_0000u32,
        PSRFlags::Carry => 0x2000_0000u32,
        PSRFlags::Overflow => 0x1000_0000u32,
        _ => 0u32,
    }
}

/// A CPSR with one flag forced to the given value.
pub open spec fn spec_set_flag(cpsr: u32, flag: PSRFlags, set: bool) -> u32
    recommends
        flag is Negative || flag is Zero || flag is Carry || flag is Overflow,
{
    if set {
        cpsr | flag_mask(flag)
    } else {
        cpsr & !flag_mask(flag)
    }
}

/// What evaluating a condition field against the CPSR yields. Only EQ,
/// NE, LT, AL and NV are implemented; any other code is fatal.
pub open spec fn spec_check_cond(cpsr: u32, cond: u32) -> Result<bool, EmuError> {
    let n = (cpsr >> 31) & 1 == 1;
    let z = (cpsr >> 30) & 1 == 1;
    let v = (cpsr >> 28) & 1 == 1;
    if cond == 0x0 {
        Ok(z)
    } else if cond == 0x1 {
        Ok(!z)
    } else if cond == 0xB {
        Ok(n != v)
    } else if cond == 0xE {
        Ok(true)
    } else if cond == 0xF {
        Ok(false)
    } else {
        Err(EmuError::UnimplementedCondition(cond))
    }
}

impl Registers {
    pub open spec fn model(self) -> RegsModel {
        RegsModel {
            gpr: Seq::new(
                16,
                |i: int|
                    if 0 <= i < 13 {
                        self.r@[i]
                    } else if i == 13 {
                        self.r13_sp
                    } else if i == 14 {
                        self.r14
                    } else {
                        self.r15_pc
                    },
            ),
            r13_fiq: self.r13_fiq,
            r13_svc: self.r13_svc,
            r13_abt: self.r13_abt,
            r13_und: self.r13_und,
            r14_fiq: self.r14_fiq,
            r14_svc: self.r14_svc,
            r14_abt: self.r14_abt,
            r14_und: self.r14_und,
            cpsr: self.cpsr,
            spsr_fiq: self.spsr_fiq,
            spsr_svc: self.spsr_svc,
            spsr_abt: self.spsr_abt,
            spsr_irq: self.spsr_irq,
            spsr_und: self.spsr_und,
        }
    }

    pub open spec fn wf(self) -> bool {
        self.r@.len() == 13
    }

    fn new() -> (regs: Registers)
        ensures
            regs.wf(),
            regs.model().gpr == Seq::new(16, |i: int| 0u32),
            regs.model() == (RegsModel {
                gpr: Seq::new(16, |i: int| 0u32),
                r13_fiq: 0,
                r13_svc: 0,
                r13_abt: 0,
                r13_und: 0,
                r14_fiq: 0,
                r14_svc: 0,
                r14_abt: 0,
                r14_und: 0,
                cpsr: 0,
                spsr_fiq: 0,
                spsr_svc: 0,
                spsr_abt: 0,
                spsr_irq: 0,
                spsr_und: 0,
            }),
    {
        let mut r: Vec<u32> = Vec::new();
        let mut i: usize = 0;
        while i < 13
            invariant
                i <= 13,
                r@ == Seq::new(i as nat, |j: int| 0u32),
            decreases 13 - i,
        {
            r.push(0);
            i = i + 1;
            proof {
                assert(r@ =~= Seq::new(i as nat, |j: int| 0u32));
            }
        }
        let regs = Registers {
            r,
            r13_sp: 0,
            r13_fiq: 0,
            r13_svc: 0,
            r13_abt: 0,
            r13_und: 0,
            r14: 0,
            r14_fiq: 0,
            r14_svc: 0,
            r14_abt: 0,
            r14_und: 0,
            r15_pc: 0,
            cpsr: 0,
            spsr_fiq: 0,
            spsr_svc: 0,
            spsr_abt: 0,
            spsr_irq: 0,
            spsr_und: 0,
        };
        proof {
            assert(regs.model().gpr =~= Seq::new(16, |i: int| 0u32));
        }
        regs
    }

    pub fn get_reg(&self, reg: u32) -> (r: u32)
        requires
            self.wf(),
            reg <= 15,
        ensures
            r == self.model().gpr[reg as int],
    {
        if reg <= 12 {
            self.r[reg as usize]
        } else if reg == 13 {
            self.r13_sp
        } else if reg == 14 {
            self.r14
        } else {
            self.r15_pc
        }
    }

    pub fn set_reg(&mut self, reg: u32, val: u32)
        requires
            old(self).wf(),
            reg <= 15,
        ensures
            final(self).wf(),
            final(self).model() == (RegsModel {
                gpr: old(self).model().gpr.update(reg as int, val),
                ..old(self).model()
            }),
    {
        if reg <= 12 {
            self.r.set(reg as usize, val);
        } else if reg == 13 {
            self.r13_sp = val;
        } else if reg == 14 {
            self.r14 = val;
        } else {
            self.r15_pc = val;
        }
        proof {
            assert(final(self).model().gpr =~= old(self).model().gpr.update(reg as int, val));
        }
    }

    pub fn set_cpsr(&mut self, flag: PSRFlags, set: bool)
        requires
            old(self).wf(),
            flag is Negative || flag is Zero || flag is Carry || flag is Overflow,
        ensures
            final(self).wf(),
            final(self).model() == (RegsModel {
                cpsr: spec_set_flag(old(self).cpsr, flag, set),
                ..old(self).model()
            }),
    {
        match flag {
            PSRFlags::Negative => {
                if set {
                    self.cpsr = self.cpsr | 0x8000_0000u32;
                } else {
                    self.cpsr = self.cpsr & !0x8000_0000u32;
                }
            },
            PSRFlags::Zero => {
                if set {
                    self.cpsr = self.cpsr | 0x4000_0000u32;
                } else {
                    self.cpsr = self.cpsr & !0x4000_0000u32;
                }
            },
            PSRFlags::Carry => {
                if set {
                    self.cpsr = self.cpsr | 0x2000_0000u32;
                } else {
                    self.cpsr = self.cpsr & !0x2000_0000u32;
                }
            },
            PSRFlags::Overflow => {
                if set {
                    self.cpsr = self.cpsr | 0x1000_0000u32;
                } else {
                    self.cpsr = self.cpsr & !0x1000_0000u32;
                }
            },
            _ => {
                proof {
                    assert(false);
                }
            },
        }
        proof {
            assert(final(self).model().gpr =~= old(self).model().gpr);
        }
    }

    pub fn check_cond(&self, cond: u32) -> (r: Result<bool, EmuError>)
        ensures
            r == spec_check_cond(self.cpsr, cond),
    {
        let n: bool = (self.cpsr >> 31) & 0x01 == 1;
        let z: bool = (self.cpsr >> 30) & 0x01 == 1;
        let v: bool = (self.cpsr >> 28) & 0x01 == 1;
        if cond == 0x0 {
            Ok(z)
        } else if cond == 0x1 {
            Ok(!z)
        } else if cond == 0xB {
            Ok(n != v)
        } else if cond == 0xE {
            Ok(true)
        } else if cond == 0xF {
            Ok(false)
        } else {
            Err(EmuError::UnimplementedCondition(cond))
        }
    }
}

/// The 12-bit dispatch hash of an instruction word: bits 27..20 beside
/// bits 7..4.
pub open spec fn arm_hash(w: u32) -> u32 {
    ((w & 0x0FF0_0000) >> 16) | ((w & 0xF0) >> 4)
}

/// The canonical instruction word a table key stands for: the key's top
/// eight bits as instruction bits 27..20, its low four as bits 7..4.
pub open spec fn synth_word(k: u32) -> u32 {
    ((k & 0xFF0) << 16) | ((k & 0xF) << 4)
}

/// Whether a data-processing-shaped word is really a PSR transfer: TST,
/// TEQ, CMP or CMN encodings with the flag-update bit clear.
pub open spec fn is_psr_transfer(w: u32) -> bool {
    let op = (w >> 21) & 0xF;
    8 <= op <= 11 && (w >> 20) & 1 == 0
}

/// The decode category of an instruction word, following the ARMv4
/// encodings distinguishable by bits 27..20 and 7..4.
pub open spec fn spec_arm_decode(w: u32) -> Instruction {
    let hi2 = (w >> 26) & 3;
    if hi2 == 0 {
        if (w >> 25) & 1 == 1 {
            if is_psr_transfer(w) {
                Instruction::StatusTransfer
            } else {
                Instruction::DataProcessing
            }
        } else if w & 0x0FF0_00F0 == 0x0120_0010 {
            Instruction::BranchAndExchange
        } else if w & 0x0100_00F0 == 0x0000_0090 {
            if (w >> 23) & 1 == 1 {
                Instruction::MultiplyLong
            } else {
                Instruction::Multiply
            }
        } else if w & 0x0100_00F0 == 0x0100_0090 {
            Instruction::SingleDataSwap
        } else if w & 0xF0 == 0xB0 || w & 0xD0 == 0xD0 {
            Instruction::HalfWordSignedTransfer
        } else if is_psr_transfer(w) {
            Instruction::StatusTransfer
        } else {
            Instruction::DataProcessing
        }
    } else if hi2 == 1 {
        Instruction::SingleDataTransfer
    } else if hi2 == 2 {
        if (w >> 25) & 1 == 1 {
            Instruction::BranchAndLink
        } else {
            Instruction::BlockDataTransfer
        }
    } else {
        Instruction::Unknown
    }
}

/// The decode category depends only on instruction bits 27..20 and 7..4,
/// so the canonical word behind a word's hash decodes like the word
/// itself.
pub proof fn lemma_decode_agrees_with_hash(w: u32)
    ensures
        spec_arm_decode(synth_word(arm_hash(w))) == spec_arm_decode(w),
{
    let u = synth_word(arm_hash(w));
    assert(u == w & 0x0FF0_00F0) by (bit_vector)
        requires
            u == synth_word(arm_hash(w)),
    ;
    assert(((w & 0x0FF0_00F0) >> 26) & 3 == (w >> 26) & 3 && ((w & 0x0FF0_00F0) >> 25) & 1 == (w
        >> 25) & 1 && ((w & 0x0FF0_00F0) >> 21) & 0xF == (w >> 21) & 0xF && ((w & 0x0FF0_00F0)
        >> 20) & 1 == (w >> 20) & 1 && ((w & 0x0FF0_00F0) >> 23) & 1 == (w >> 23) & 1 && ((w
        & 0x0FF0_00F0) & 0x0FF0_00F0) == w & 0x0FF0_00F0 && ((w & 0x0FF0_00F0) & 0x0100_00F0) == (w
        & 0x0100_00F0) && ((w & 0x0FF0_00F0) & 0xF0) == (w & 0xF0) && ((w & 0x0FF0_00F0) & 0xD0)
        == (w & 0xD0)) by (bit_vector);
}

pub struct Processor {
    pub regs: Registers,
    pub pipe: Vec<u32>,
    pub exec_arm: Vec<Instruction>,
}

/// The processor's power-on state: PC at the cartridge entry point,
/// everything else zero, the pipeline holding two never-executed words.
pub open spec fn initial_proc() -> ProcModel {
    ProcModel {
        regs: RegsModel {
            gpr: Seq::new(16, |i: int| 0u32).update(15, 0x0800_0000u32),
            r13_fiq: 0,
            r13_svc: 0,
            r13_abt: 0,
            r13_und: 0,
            r14_fiq: 0,
            r14_svc: 0,
            r14_abt: 0,
            r14_und: 0,
            cpsr: 0,
            spsr_fiq: 0,
            spsr_svc: 0,
            spsr_abt: 0,
            spsr_irq: 0,
            spsr_und: 0,
        },
        pipe0: 0xF000_0000u32,
        pipe1: 0xF000_0000u32,
    }
}

impl Processor {
    pub open spec fn model(self) -> ProcModel {
        ProcModel { regs: self.regs.model(), pipe0: self.pipe@[0], pipe1: self.pipe@[1] }
    }

    pub open spec fn wf(self) -> bool {
        &&& self.regs.wf()
        &&& self.pipe@.len() == 2
        &&& self.exec_arm@.len() == 4096
        &&& forall|k: int|
            0 <= k < 4096 ==> self.exec_arm@[k] == spec_arm_decode(synth_word(k as u32))
    }

    /// Power-on state: PC at the cartridge entry point 0x0800_0000, CPSR
    /// zero, every register zero, and the pipeline holding two words of
    /// the never-executed condition so the first fetches warm it up.
    pub fn new() -> (p: Processor)
        ensures
            p.wf(),
            p.model() == initial_proc(),
    {
        let mut regs = Registers::new();
        regs.r15_pc = 0x0800_0000;
        let mut pipe: Vec<u32> = Vec::new();
        pipe.push(0xF000_0000);
        pipe.push(0xF000_0000);
        let exec_arm = Processor::gen_arm_table();
        let p = Processor { regs, pipe, exec_arm };
        proof {
            assert(p.model().regs.gpr =~= Seq::new(16, |i: int| 0u32).update(15, 0x0800_0000u32));
            assert(p.model() =~= initial_proc());
        }
        p
    }

    /// Build the dispatch table: every 12-bit key maps to the decode
    /// category of its canonical instruction word.
    fn gen_arm_table() -> (table: Vec<Instruction>)
        ensures
            table@.len() == 4096,
            forall|k: int| 0 <= k < 4096 ==> table@[k] == spec_arm_decode(synth_word(k as u32)),
    {
        let mut table: Vec<Instruction> = Vec::new();
        let mut i: usize = 0;
        while i < 4096
            invariant
                i <= 4096,
                table@.len() == i,
                forall|k: int| 0 <= k < i ==> table@[k] == spec_arm_decode(synth_word(k as u32)),
            decreases 4096 - i,
        {
            let k = i as u32;
            let word = ((k & 0xFF0) << 16) | ((k & 0xF) << 4);
            table.push(Processor::arm_decode(word));
            i = i + 1;
        }
        table
    }

    /// Classify one instruction word.
    pub fn arm_decode(instr: u32) -> (r: Instruction)
        ensures
            r == spec_arm_decode(instr),
    {
        let hi2 = (instr >> 26) & 3;
        if hi2 == 0 {
            if (instr >> 25) & 1 == 1 {
                if Processor::is_psr(instr) {
                    Instruction::StatusTransfer
                } else {
                    Instruction::DataProcessing
                }
            } else if instr & 0x0FF0_00F0 == 0x0120_0010 {
                Instruction::BranchAndExchange
            } else if instr & 0x0100_00F0 == 0x0000_0090 {
                if (instr >> 23) & 1 == 1 {
                    Instruction::MultiplyLong
                } else {
                    Instruction::Multiply
                }
            } else if instr & 0x0100_00F0 == 0x0100_0090 {
                Instruction::SingleDataSwap
            } else if instr & 0xF0 == 0xB0 || instr & 0xD0 == 0xD0 {
                Instruction::HalfWordSignedTransfer
            } else if Processor::is_psr(instr) {
                Instruction::StatusTransfer
            } else {
                Instruction::DataProcessing
            }
        } else if hi2 == 1 {
            Instruction::SingleDataTransfer
        } else if hi2 == 2 {
            if (instr >> 25) & 1 == 1 {
                Instruction::BranchAndLink
            } else {
                Instruction::BlockDataTransfer
            }
        } else {
            Instruction::Unknown
        }
    }

    fn is_psr(instr: u32) -> (r: bool)
        ensures
            r == is_psr_transfer(instr),
    {
        let op = (instr >> 21) & 0xF;
        8 <= op && op <= 11 && (instr >> 20) & 1 == 0
    }

    /// Run `clocks` fetch-decode-execute cycles against the bus. The
    /// machine afterwards is exactly `spec_steps` of the machine before;
    /// the first fatal error is returned and stops the run.
    #[verifier::loop_isolation(false)]
    pub fn step(&mut self, clocks: u32, bus: &mut Bus) -> (r: Result<(), EmuError>)
        requires
            old(self).wf(),
            old(bus).wf(),
        ensures
            final(self).wf(),
            final(bus).wf(),
            match spec_steps(old(self).model(), old(bus).model(), clocks as nat) {
                Ok(pb) => r is Ok && final(self).model() == pb.0 && final(bus).model() == pb.1,
                Err(e) => r == Err::<(), EmuError>(e),
            },
    {
        let mut c: u32 = 0;
        while c < clocks
            invariant
                c <= clocks,
                self.wf(),
                bus.wf(),
                spec_steps(old(self).model(), old(bus).model(), c as nat) == Ok::<
                    (ProcModel, BusModel),
                    EmuError,
                >((self.model(), bus.model())),
            decreases clocks - c,
        {
            let ghost pit = self.model();
            let ghost bt = bus.model();

            let instr = self.pipe[0];
            let ahead = self.pipe[1];
            self.pipe.set(0, ahead);
            let w = match bus.read_word(self.regs.r15_pc) {
                Ok(w) => w,
                Err(e) => {
                    proof {
                        assert(spec_steps(
                            old(self).model(),
                            old(bus).model(),
                            (c + 1) as nat,
                        ) == Err::<(ProcModel, BusModel), EmuError>(e));
                        lemma_steps_stay_err(
                            old(self).model(),
                            old(bus).model(),
                            (c + 1) as nat,
                            clocks as nat,
                        );
                    }
                    return Err(e);
                },
            };
            self.pipe.set(1, w);
            proof {
                assert(self.model() =~= (ProcModel { pipe0: pit.pipe1, pipe1: w, ..pit }));
            }

            let go = match self.regs.check_cond((instr >> 28) & 0x0F) {
                Ok(g) => g,
                Err(e) => {
                    proof {
                        assert(spec_steps(
                            old(self).model(),
                            old(bus).model(),
                            (c + 1) as nat,
                        ) == Err::<(ProcModel, BusModel), EmuError>(e));
                        lemma_steps_stay_err(
                            old(self).model(),
                            old(bus).model(),
                            (c + 1) as nat,
                            clocks as nat,
                        );
                    }
                    return Err(e);
                },
            };

            if go {
                proof {
                    lemma_dispatch_selects_classification(*self, instr);
                }
                let hash = ((instr & 0x0FF0_0000) >> 16) | ((instr & 0x0000_00F0) >> 4);
                let kind = self.exec_arm[hash as usize];
                let res = match kind {
                    Instruction::DataProcessing => ArmInstruction::data_processing(
                        self,
                        bus,
                        instr,
                    ),
                    Instruction::SingleDataTransfer => ArmInstruction::single_data_transfer(
                        self,
                        bus,
                        instr,
                    ),
                    Instruction::HalfWordSignedTransfer => ArmInstruction::halfword_signed_transfer(
                        self,
                        bus,
                        instr,
                    ),
                    Instruction::BlockDataTransfer => ArmInstruction::block_data_transfer(
                        self,
                        bus,
                        instr,
                    ),
                    Instruction::BranchAndLink => ArmInstruction::branch_and_link(
                        self,
                        bus,
                        instr,
                    ),
                    Instruction::StatusTransfer => ArmInstruction::status_transfer(
                        self,
                        bus,
                        instr,
                    ),
                    Instruction::Multiply => ArmInstruction::multiply(self, bus, instr),
                    Instruction::MultiplyLong => ArmInstruction::multiply_long(self, bus, instr),
                    Instruction::BranchAndExchange => ArmInstruction::branch_and_exchange(
                        self,
                        bus,
                        instr,
                    ),
                    Instruction::Unknown => ArmInstruction::unknown_instruction(self, bus, instr),
                    _ => Err(EmuError::UnimplementedOpcode(instr)),
                };
                match res {
                    Ok(_) => {},
                    Err(e) => {
                        proof {
                            assert(spec_steps(
                                old(self).model(),
                                old(bus).model(),
                                (c + 1) as nat,
                            ) == Err::<(ProcModel, BusModel), EmuError>(e));
                            lemma_steps_stay_err(
                                old(self).model(),
                                old(bus).model(),
                                (c + 1) as nat,
                                clocks as nat,
                            );
                        }
                        return Err(e);
                    },
                }
            }

            let ghost pprev = self.model();
            self.regs.r15_pc = self.regs.r15_pc.wrapping_add(4);
            proof {
                assert(self.model().regs.gpr =~= pprev.regs.gpr.update(
                    15,
                    wadd(pprev.regs.gpr[15], 4),
                ));
                assert(self.model() =~= (ProcModel {
                    regs: RegsModel {
                        gpr: pprev.regs.gpr.update(15, wadd(pprev.regs.gpr[15], 4)),
                        ..pprev.regs
                    },
                    ..pprev
                }));
                assert(spec_step_one(pit, bt) == Ok::<(ProcModel, BusModel), EmuError>(
                    (self.model(), bus.model()),
                ));
            }
            c = c + 1;
        }
        Ok(())
    }

    /// Refill the pipeline after a control transfer: both slots are
    /// fetched from the new PC, which then advances one slot so the
    /// step bookkeeping keeps PC at the executing address plus 8.
    pub fn reload_arm_pipeline(&mut self, bus: &mut Bus) -> (r: Result<(), EmuError>)
        requires
            old(self).wf(),
            old(bus).wf(),
        ensures
            final(self).wf(),
            *final(bus) == *old(bus),
            match spec_reload(old(self).model(), old(bus).model()) {
                Ok(p) => r is Ok && final(self).model() == p,
                Err(e) => r == Err::<(), EmuError>(e),
            },
    {
        let w0 = bus.read_word(self.regs.r15_pc)?;
        self.pipe.set(0, w0);
        let w1 = bus.read_word(self.regs.r15_pc.wrapping_add(4))?;
        self.pipe.set(1, w1);
        self.regs.r15_pc = self.regs.r15_pc.wrapping_add(4);
        proof {
            assert(final(self).model().regs.gpr =~= old(self).model().regs.gpr.update(
                15,
                wadd(old(self).regs.r15_pc, 4),
            ));
            assert(final(self).model() =~= spec_reload(
                old(self).model(),
                old(bus).model(),
            )->Ok_0);
        }
        Ok(())
    }
}

/// The processor after a pipeline reload at the current PC: both slots
/// refetched, PC advanced by one word.
pub open spec fn spec_reload(p: ProcModel, b: BusModel) -> Result<ProcModel, EmuError>
    recommends
        b.wf(),
{
    let pc = p.regs.gpr[15];
    match spec_read_word_r(b, pc) {
        Err(e) => Err(e),
        Ok(w0) => match spec_read_word_r(b, wadd(pc, 4)) {
            Err(e) => Err(e),
            Ok(w1) => Ok(
                ProcModel {
                    regs: RegsModel { gpr: p.regs.gpr.update(15, wadd(pc, 4)), ..p.regs },
                    pipe0: w0,
                    pipe1: w1,
                },
            ),
        },
    }
}

/// One instruction's effect on the whole machine, by decode category.
pub open spec fn spec_exec_instr(p: ProcModel, b: BusModel, instr: u32) -> Result<
    (ProcModel, BusModel),
    EmuError,
> {
    match spec_arm_decode(instr) {
        Instruction::DataProcessing => crate::instructions::spec_dp(p, b, instr),
        Instruction::SingleDataTransfer => crate::instructions::spec_sdt(p, b, instr),
        Instruction::HalfWordSignedTransfer => crate::instructions::spec_half(p, b, instr),
        Instruction::BlockDataTransfer => crate::instructions::spec_block(p, b, instr),
        Instruction::BranchAndLink => crate::instructions::spec_branch_and_link(p, b, instr),
        Instruction::StatusTransfer => Ok((p, b)),
        Instruction::Unknown => Err(EmuError::DecodeUnknown(instr)),
        _ => Err(EmuError::UnimplementedOpcode(instr)),
    }
}

/// One fetch-decode-execute cycle: the pipeline shifts while PC's word
/// is fetched into the far slot, the shifted-out word executes if its
/// condition passes, and PC advances one word.
pub open spec fn spec_step_one(p: ProcModel, b: BusModel) -> Result<
    (ProcModel, BusModel),
    EmuError,
> {
    let instr = p.pipe0;
    match spec_read_word_r(b, p.regs.gpr[15]) {
        Err(e) => Err(e),
        Ok(w) => {
            let p1 = ProcModel { pipe0: p.pipe1, pipe1: w, ..p };
            match spec_check_cond(p.regs.cpsr, (instr >> 28) & 0xF) {
                Err(e) => Err(e),
                Ok(go) => match (if go {
                    spec_exec_instr(p1, b, instr)
                } else {
                    Ok((p1, b))
                }) {
                    Err(e) => Err(e),
                    Ok(pb) => Ok(
                        (
                            ProcModel {
                                regs: RegsModel {
                                    gpr: pb.0.regs.gpr.update(15, wadd(pb.0.regs.gpr[15], 4)),
                                    ..pb.0.regs
                                },
                                ..pb.0
                            },
                            pb.1,
                        ),
                    ),
                },
            }
        },
    }
}

/// The machine after `n` cycles; the first fatal error stops it.
pub open spec fn spec_steps(p: ProcModel, b: BusModel, n: nat) -> Result<
    (ProcModel, BusModel),
    EmuError,
>
    decreases n,
{
    if n == 0 {
        Ok((p, b))
    } else {
        match spec_steps(p, b, (n - 1) as nat) {
            Err(e) => Err(e),
            Ok(pb) => spec_step_one(pb.0, pb.1),
        }
    }
}

/// Once the machine has faulted, running longer reports the same fault.
pub proof fn lemma_steps_stay_err(p: ProcModel, b: BusModel, n: nat, m: nat)
    requires
        n <= m,
        spec_steps(p, b, n) is Err,
    ensures
        spec_steps(p, b, m) == spec_steps(p, b, n),
    decreases m,
{
    if m > n {
        lemma_steps_stay_err(p, b, n, (m - 1) as nat);
    }
}

/// The dispatch table of a well-formed processor selects, for any
/// instruction word, exactly the word's reference decode category.
pub proof fn lemma_dispatch_selects_classification(p: Processor, w: u32)
    requires
        p.wf(),
    ensures
        arm_hash(w) < 4096,
        p.exec_arm@[arm_hash(w) as int] == spec_arm_decode(w),
{
    assert(arm_hash(w) < 4096) by (bit_vector);
    lemma_decode_agrees_with_hash(w);
    lemma_mask_bounds();
}

} // verus!
