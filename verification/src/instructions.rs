//! The ARM instruction handlers: data processing with the full barrel
//! shifter, single and halfword transfers, block transfers, and branches,
//! each specified as a function from machine state to machine state.

use vstd::prelude::*;
use crate::arm7tdmi::{spec_reload, spec_set_flag, ProcModel, Processor, PSRFlags, RegsModel};
use crate::bits::{asr32, bit_set, lemma_mask_bounds, rot_right32, wadd, wsub, arith_shift_right32,
    rotate_right32};
use crate::bus::{spec_read_byte_r, spec_read_half_r, spec_read_word_r, spec_write_byte_r,
    spec_write_half_r, spec_write_word_r, Bus, BusModel};
use crate::errors::EmuError;

verus! {

/// The barrel shifter on a 5-bit immediate amount: the shifted operand
/// and the carry-out, with the ARM encodings of LSR#32, ASR#32 and RRX
/// for a zero amount.
pub open spec fn spec_shift_imm(v: u32, ty: u32, amt: u32, c_in: bool) -> (u32, bool)
    recommends
        ty < 4,
        amt < 32,
{
    if ty == 0 {
        if amt == 0 {
            (v, c_in)
        } else {
            (v << amt, bit_set(v, (32 - amt) as u32))
        }
    } else if ty == 1 {
        if amt == 0 {
            (0u32, bit_set(v, 31))
        } else {
            (v >> amt, bit_set(v, (amt - 1) as u32))
        }
    } else if ty == 2 {
        if amt == 0 {
            ((if bit_set(v, 31) {
                0xFFFF_FFFFu32
            } else {
                0u32
            }), bit_set(v, 31))
        } else {
            (asr32(v, amt), bit_set(v, (amt - 1) as u32))
        }
    } else {
        if amt == 0 {
            (((if c_in {
                1u32
            } else {
                0u32
            }) << 31) | (v >> 1), bit_set(v, 0))
        } else {
            (rot_right32(v, amt), bit_set(v, (amt - 1) as u32))
        }
    }
}

/// The barrel shifter on an amount taken from a register's low byte: an
/// amount of zero leaves operand and carry alone; amounts of 32 and more
/// follow the ARM data sheet.
pub open spec fn spec_shift_reg(v: u32, ty: u32, amt: u32, c_in: bool) -> (u32, bool)
    recommends
        ty < 4,
        amt < 256,
{
    if amt == 0 {
        (v, c_in)
    } else if ty == 0 {
        if amt < 32 {
            (v << amt, bit_set(v, (32 - amt) as u32))
        } else if amt == 32 {
            (0u32, bit_set(v, 0))
        } else {
            (0u32, false)
        }
    } else if ty == 1 {
        if amt < 32 {
            (v >> amt, bit_set(v, (amt - 1) as u32))
        } else if amt == 32 {
            (0u32, bit_set(v, 31))
        } else {
            (0u32, false)
        }
    } else if ty == 2 {
        if amt < 32 {
            (asr32(v, amt), bit_set(v, (amt - 1) as u32))
        } else {
            ((if bit_set(v, 31) {
                0xFFFF_FFFFu32
            } else {
                0u32
            }), bit_set(v, 31))
        }
    } else {
        let rem = amt % 32;
        if rem == 0 {
            (v, bit_set(v, 31))
        } else {
            (rot_right32(v, rem), bit_set(v, (rem - 1) as u32))
        }
    }
}

/// A data-processing instruction's second operand and shifter carry-out:
/// a rotated 8-bit immediate, or a register put through the barrel
/// shifter by an immediate or register amount.
pub open spec fn spec_dp_operand2(p: ProcModel, instr: u32) -> (u32, bool) {
    let c_in = (p.regs.cpsr >> 29) & 1 == 1;
    if (instr >> 25) & 1 == 1 {
        let imm = instr & 0xFF;
        let rot = (2 * ((instr >> 8) & 0xF)) as u32;
        if rot != 0 {
            (rot_right32(imm, rot), bit_set(imm, (rot - 1) as u32))
        } else {
            (imm, c_in)
        }
    } else {
        let rm = p.regs.gpr[(instr & 0xF) as int];
        let ty = (instr >> 5) & 3;
        if (instr >> 4) & 1 == 0 {
            spec_shift_imm(rm, ty, (instr >> 7) & 0x1F, c_in)
        } else {
            spec_shift_reg(rm, ty, p.regs.gpr[((instr >> 8) & 0xF) as int] & 0xFF, c_in)
        }
    }
}

/// A CPSR with all four condition flags set from a result, a carry and
/// an overflow.
pub open spec fn spec_nzcv(cpsr: u32, res: u32, carry: bool, overflow: bool) -> u32 {
    spec_set_flag(
        spec_set_flag(
            spec_set_flag(spec_set_flag(cpsr, PSRFlags::Negative, res >> 31 == 1), PSRFlags::Zero, res == 0),
            PSRFlags::Carry,
            carry,
        ),
        PSRFlags::Overflow,
        overflow,
    )
}

/// The register file after a data-processing instruction, before any
/// pipeline reload. ADD and MOV write Rd; TST and CMP only set flags,
/// with C from the shifter for TST and from the comparison for CMP and
/// V from the operands' sign disagreement; other opcodes are fatal.
pub open spec fn spec_dp_result(p: ProcModel, instr: u32) -> Result<ProcModel, EmuError> {
    let opcode = (instr >> 21) & 0xF;
    let rn = (instr >> 16) & 0xF;
    let rd = (instr >> 12) & 0xF;
    let shifted = spec_dp_operand2(p, instr);
    let op2 = shifted.0;
    let sc = shifted.1;
    let op1 = p.regs.gpr[rn as int];
    if opcode == 0x4 {
        Ok(
            ProcModel {
                regs: RegsModel { gpr: p.regs.gpr.update(rd as int, wadd(op1, op2)), ..p.regs },
                ..p
            },
        )
    } else if opcode == 0x8 {
        let res = op1 & op2;
        Ok(
            ProcModel {
                regs: RegsModel {
                    cpsr: spec_nzcv(p.regs.cpsr, res, sc, ((op1 ^ op2) & (op1 ^ res)) >> 31 == 1),
                    ..p.regs
                },
                ..p
            },
        )
    } else if opcode == 0xA {
        let res = wsub(op1, op2);
        Ok(
            ProcModel {
                regs: RegsModel {
                    cpsr: spec_nzcv(
                        p.regs.cpsr,
                        res,
                        op1 >= op2,
                        ((op1 ^ op2) & (op1 ^ res)) >> 31 == 1,
                    ),
                    ..p.regs
                },
                ..p
            },
        )
    } else if opcode == 0xD {
        Ok(
            ProcModel {
                regs: RegsModel { gpr: p.regs.gpr.update(rd as int, op2), ..p.regs },
                ..p
            },
        )
    } else {
        Err(EmuError::UnimplementedOpcode(instr))
    }
}

/// A data-processing instruction's full effect: the register update,
/// then a pipeline reload whenever the destination field names R15.
pub open spec fn spec_dp(p: ProcModel, b: BusModel, instr: u32) -> Result<
    (ProcModel, BusModel),
    EmuError,
> {
    match spec_dp_result(p, instr) {
        Err(e) => Err(e),
        Ok(p2) => if (instr >> 12) & 0xF == 15 {
            match spec_reload(p2, b) {
                Err(e) => Err(e),
                Ok(p3) => Ok((p3, b)),
            }
        } else {
            Ok((p2, b))
        },
    }
}

/// A branch's target offset: the 24-bit immediate shifted left by 2 and
/// sign-extended to 32 bits.
pub open spec fn branch_offset(instr: u32) -> u32 {
    if bit_set(instr, 23) {
        ((instr & 0xFF_FFFF) << 2) | 0xFC00_0000u32
    } else {
        (instr & 0xFF_FFFF) << 2
    }
}

/// A branch's effect: LR receives PC - 4 when the link bit is set, PC
/// moves by the offset (relative to the prefetched PC, already 8 past
/// the branch), and the pipeline refills from the target.
pub open spec fn spec_branch_and_link(p: ProcModel, b: BusModel, instr: u32) -> Result<
    (ProcModel, BusModel),
    EmuError,
> {
    let pc = p.regs.gpr[15];
    let gpr1 = if bit_set(instr, 24) {
        p.regs.gpr.update(14, wsub(pc, 4))
    } else {
        p.regs.gpr
    };
    let p2 = ProcModel {
        regs: RegsModel { gpr: gpr1.update(15, wadd(pc, branch_offset(instr))), ..p.regs },
        ..p
    };
    match spec_reload(p2, b) {
        Err(e) => Err(e),
        Ok(p3) => Ok((p3, b)),
    }
}

/// A dispatch-table entry: the decode category a 12-bit hash selects.
#[derive(Clone, Copy)]
pub struct ArmInstruction {
    pub name: Instruction,
}

/// The decode categories of the ARMv4 instruction set on this machine.
#[derive(Clone, Copy, Debug, PartialEq, Eq, Structural)]
pub enum Instruction {
    BranchAndLink,
    BranchAndExchange,
    SoftwareInterrupt,
    DataProcessing,
    Multiply,
    MultiplyLong,
    StatusTransfer,
    SingleDataTransfer,
    HalfWordSignedTransfer,
    BlockDataTransfer,
    SingleDataSwap,
    CoprocessorInstructions,
    Unknown,
}

/// A single data transfer's effect (LDR, LDRB, STR, STRB). The offset is
/// a 12-bit immediate or a register shifted by an immediate; pre-indexing
/// applies it before the access, post-indexing writes it back
/// unconditionally after; loads zero-extend bytes into Rd.
pub open spec fn spec_sdt(p: ProcModel, b: BusModel, instr: u32) -> Result<
    (ProcModel, BusModel),
    EmuError,
> {
    let pre = bit_set(instr, 24);
    let up = bit_set(instr, 23);
    let byte = bit_set(instr, 22);
    let wbit = bit_set(instr, 21);
    let load = bit_set(instr, 20);
    let rn = (instr >> 16) & 0xF;
    let rd = (instr >> 12) & 0xF;
    let base = p.regs.gpr[rn as int];
    let offset = if !bit_set(instr, 25) {
        instr & 0xFFF
    } else {
        spec_shift_imm(
            p.regs.gpr[(instr & 0xF) as int],
            (instr >> 5) & 3,
            (instr >> 7) & 0x1F,
            (p.regs.cpsr >> 29) & 1 == 1,
        ).0
    };
    let address = if pre {
        if up {
            wadd(base, offset)
        } else {
            wsub(base, offset)
        }
    } else {
        base
    };
    let wb_val = if up {
        wadd(base, offset)
    } else {
        wsub(base, offset)
    };
    let do_wb = !pre || wbit;
    if load {
        let rv = if byte {
            match spec_read_byte_r(b, address) {
                Err(e) => Err(e),
                Ok(v) => Ok(v as u32),
            }
        } else {
            spec_read_word_r(b, address)
        };
        match rv {
            Err(e) => Err(e),
            Ok(v) => {
                let g1 = p.regs.gpr.update(rd as int, v);
                let g2 = if do_wb {
                    g1.update(rn as int, wb_val)
                } else {
                    g1
                };
                Ok((ProcModel { regs: RegsModel { gpr: g2, ..p.regs }, ..p }, b))
            },
        }
    } else {
        let sv = p.regs.gpr[rd as int];
        let wres = if byte {
            spec_write_byte_r(b, address, sv as u8)
        } else {
            spec_write_word_r(b, address, sv)
        };
        match wres {
            Err(e) => Err(e),
            Ok(b2) => {
                let g2 = if do_wb {
                    p.regs.gpr.update(rn as int, wb_val)
                } else {
                    p.regs.gpr
                };
                Ok((ProcModel { regs: RegsModel { gpr: g2, ..p.regs }, ..p }, b2))
            },
        }
    }
}

/// A halfword transfer's effect (LDRH, STRH). The offset is an 8-bit
/// immediate split across bits 11..8 and 3..0, or Rm; only the unsigned
/// halfword form is modelled, the signed forms are fatal.
pub open spec fn spec_half(p: ProcModel, b: BusModel, instr: u32) -> Result<
    (ProcModel, BusModel),
    EmuError,
> {
    let pre = bit_set(instr, 24);
    let up = bit_set(instr, 23);
    let wbit = bit_set(instr, 21);
    let load = bit_set(instr, 20);
    let rn = (instr >> 16) & 0xF;
    let rd = (instr >> 12) & 0xF;
    let base = p.regs.gpr[rn as int];
    let offset = if bit_set(instr, 22) {
        (instr & 0xF) | ((instr >> 4) & 0xF0)
    } else {
        p.regs.gpr[(instr & 0xF) as int]
    };
    let address = if pre {
        if up {
            wadd(base, offset)
        } else {
            wsub(base, offset)
        }
    } else {
        base
    };
    let wb_val = if up {
        wadd(base, offset)
    } else {
        wsub(base, offset)
    };
    let do_wb = !pre || wbit;
    if (instr >> 5) & 3 != 1 {
        Err(EmuError::UnimplementedOpcode(instr))
    } else if load {
        match spec_read_half_r(b, address) {
            Err(e) => Err(e),
            Ok(v) => {
                let g1 = p.regs.gpr.update(rd as int, v);
                let g2 = if do_wb {
                    g1.update(rn as int, wb_val)
                } else {
                    g1
                };
                Ok((ProcModel { regs: RegsModel { gpr: g2, ..p.regs }, ..p }, b))
            },
        }
    } else {
        match spec_write_half_r(b, address, p.regs.gpr[rd as int]) {
            Err(e) => Err(e),
            Ok(b2) => {
                let g2 = if do_wb {
                    p.regs.gpr.update(rn as int, wb_val)
                } else {
                    p.regs.gpr
                };
                Ok((ProcModel { regs: RegsModel { gpr: g2, ..p.regs }, ..p }, b2))
            },
        }
    }
}

/// How many of the register-list bits below `n` are set.
pub open spec fn count_regs(list: u32, n: u32) -> u32
    recommends
        n <= 16,
    decreases n,
{
    if n == 0 {
        0u32
    } else {
        (count_regs(list, (n - 1) as u32) + (if bit_set(list, (n - 1) as u32) {
            1u32
        } else {
            0u32
        })) as u32
    }
}

/// The transfers of a block instruction from register index `r` upward:
/// each listed register moves one word between the register file and the
/// bus, the address stepping by 4, pre-incremented when `pre` holds.
pub open spec fn spec_block_loop(
    p: ProcModel,
    b: BusModel,
    list: u32,
    load: bool,
    pre: bool,
    r: u32,
    address: u32,
) -> Result<(ProcModel, BusModel, u32), EmuError>
    recommends
        b.wf(),
        r <= 15,
    decreases 15 - r,
{
    if r >= 15 {
        Ok((p, b, address))
    } else if !bit_set(list, r) {
        spec_block_loop(p, b, list, load, pre, (r + 1) as u32, address)
    } else {
        let acc = if pre {
            wadd(address, 4)
        } else {
            address
        };
        if load {
            match spec_read_word_r(b, acc) {
                Err(e) => Err(e),
                Ok(v) => spec_block_loop(
                    ProcModel { regs: RegsModel { gpr: p.regs.gpr.update(r as int, v), ..p.regs }, ..p },
                    b,
                    list,
                    load,
                    pre,
                    (r + 1) as u32,
                    wadd(address, 4),
                ),
            }
        } else {
            match spec_write_word_r(b, acc, p.regs.gpr[r as int]) {
                Err(e) => Err(e),
                Ok(b2) => spec_block_loop(p, b2, list, load, pre, (r + 1) as u32, wadd(address, 4)),
            }
        }
    }
}

/// A block transfer's effect (LDM, STM). Registers 0..14 in the list
/// move in ascending order; a descending block flips the pre bit and
/// pre-decrements the base by the block size so memory order stays
/// ascending; writeback stores the stepped base last. An empty list is
/// fatal; R15 in the list is ignored.
pub open spec fn spec_block(p: ProcModel, b: BusModel, instr: u32) -> Result<
    (ProcModel, BusModel),
    EmuError,
> {
    let pre0 = bit_set(instr, 24);
    let up = bit_set(instr, 23);
    let wbit = bit_set(instr, 21);
    let load = bit_set(instr, 20);
    let rn = (instr >> 16) & 0xF;
    let list = instr & 0xFFFF;
    if list == 0 {
        Err(EmuError::UnimplementedOpcode(instr))
    } else {
        let offset = (4 * count_regs(list, 15)) as u32;
        let base = p.regs.gpr[rn as int];
        let pre = if up {
            pre0
        } else {
            !pre0
        };
        let start = if up {
            base
        } else {
            wsub(base, offset)
        };
        let base_new = if up {
            wadd(base, offset)
        } else {
            wsub(base, offset)
        };
        match spec_block_loop(p, b, list, load, pre, 0, start) {
            Err(e) => Err(e),
            Ok(pba) => {
                let p2 = pba.0;
                let g = if wbit {
                    p2.regs.gpr.update(rn as int, base_new)
                } else {
                    p2.regs.gpr
                };
                Ok((ProcModel { regs: RegsModel { gpr: g, ..p2.regs }, ..p2 }, pba.1))
            },
        }
    }
}

/// After a data-processing instruction whose destination field names
/// R15, the word the pipeline will execute next is exactly the word read
/// from the updated PC: the refill leaves PC one word past the target,
/// with the target's word in the near slot.
pub proof fn lemma_dp_r15_refills_pipeline(p: ProcModel, b: BusModel, instr: u32)
    requires
        p.regs.gpr.len() == 16,
        (instr >> 12) & 0xF == 15,
        spec_dp(p, b, instr) is Ok,
    ensures
        spec_dp(p, b, instr)->Ok_0.1 == b,
        spec_read_word_r(b, wsub(spec_dp(p, b, instr)->Ok_0.0.regs.gpr[15], 4)) == Ok::<
            u32,
            EmuError,
        >(spec_dp(p, b, instr)->Ok_0.0.pipe0),
{
    let p1 = spec_dp_result(p, instr)->Ok_0;
    let pc1 = p1.regs.gpr[15];
    let p2 = spec_reload(p1, b)->Ok_0;
    assert(p2.regs.gpr[15] == wadd(pc1, 4));
    assert(wsub(wadd(pc1, 4), 4) == pc1);
}

/// After a branch, the next word to execute comes from the branch's own
/// address plus 8 plus the sign-extended offset (the prefetched PC plus
/// the offset), PC rests one word past that target, and with the link
/// bit set LR holds the branch's address plus 4.
pub proof fn lemma_branch_target_and_link(p: ProcModel, b: BusModel, instr: u32)
    requires
        p.regs.gpr.len() == 16,
        spec_branch_and_link(p, b, instr) is Ok,
    ensures
        spec_read_word_r(b, wadd(p.regs.gpr[15], branch_offset(instr))) == Ok::<u32, EmuError>(
            spec_branch_and_link(p, b, instr)->Ok_0.0.pipe0,
        ),
        spec_branch_and_link(p, b, instr)->Ok_0.0.regs.gpr[15] == wadd(
            wadd(p.regs.gpr[15], branch_offset(instr)),
            4,
        ),
        bit_set(instr, 24) ==> spec_branch_and_link(p, b, instr)->Ok_0.0.regs.gpr[14] == wsub(
            p.regs.gpr[15],
            4,
        ),
{
    let pc = p.regs.gpr[15];
    let target = wadd(pc, branch_offset(instr));
    let gpr1 = if bit_set(instr, 24) {
        p.regs.gpr.update(14, wsub(pc, 4))
    } else {
        p.regs.gpr
    };
    let p2 = ProcModel {
        regs: RegsModel { gpr: gpr1.update(15, target), ..p.regs },
        ..p
    };
    assert(p2.regs.gpr[15] == target);
    let p3 = spec_reload(p2, b)->Ok_0;
    assert(p3.regs.gpr[15] == wadd(target, 4));
    assert(p3.regs.gpr[14] == gpr1[14]);
}

/// Executable barrel shift by a 5-bit immediate amount.
fn shift_by_imm(v: u32, ty: u32, amt: u32, c_in: bool) -> (r: (u32, bool))
    requires
        ty < 4,
        amt < 32,
    ensures
        r == spec_shift_imm(v, ty, amt, c_in),
{
    proof {
        lemma_mask_bounds();
    }
    if ty == 0 {
        if amt == 0 {
            (v, c_in)
        } else {
            (v << amt, (v >> (32 - amt)) & 1 == 1)
        }
    } else if ty == 1 {
        if amt == 0 {
            (0, (v >> 31) & 1 == 1)
        } else {
            (v >> amt, (v >> (amt - 1)) & 1 == 1)
        }
    } else if ty == 2 {
        if amt == 0 {
            (if (v >> 31) & 1 == 1 {
                0xFFFF_FFFF
            } else {
                0
            }, (v >> 31) & 1 == 1)
        } else {
            (arith_shift_right32(v, amt), (v >> (amt - 1)) & 1 == 1)
        }
    } else {
        if amt == 0 {
            (((if c_in {
                1u32
            } else {
                0u32
            }) << 31) | (v >> 1), v & 1 == 1)
        } else {
            (rotate_right32(v, amt), (v >> (amt - 1)) & 1 == 1)
        }
    }
}

/// Executable barrel shift by a register's low byte.
fn shift_by_reg(v: u32, ty: u32, amt: u32, c_in: bool) -> (r: (u32, bool))
    requires
        ty < 4,
        amt < 256,
    ensures
        r == spec_shift_reg(v, ty, amt, c_in),
{
    proof {
        lemma_mask_bounds();
    }
    if amt == 0 {
        (v, c_in)
    } else if ty == 0 {
        if amt < 32 {
            (v << amt, (v >> (32 - amt)) & 1 == 1)
        } else if amt == 32 {
            (0, v & 1 == 1)
        } else {
            (0, false)
        }
    } else if ty == 1 {
        if amt < 32 {
            (v >> amt, (v >> (amt - 1)) & 1 == 1)
        } else if amt == 32 {
            (0, (v >> 31) & 1 == 1)
        } else {
            (0, false)
        }
    } else if ty == 2 {
        if amt < 32 {
            (arith_shift_right32(v, amt), (v >> (amt - 1)) & 1 == 1)
        } else {
            (if (v >> 31) & 1 == 1 {
                0xFFFF_FFFF
            } else {
                0
            }, (v >> 31) & 1 == 1)
        }
    } else {
        let rem = amt % 32;
        if rem == 0 {
            (v, (v >> 31) & 1 == 1)
        } else {
            (rotate_right32(v, rem), (v >> (rem - 1)) & 1 == 1)
        }
    }
}

/// Executable second-operand computation for data processing.
fn dp_operand2(cpu: &Processor, instr: u32) -> (r: (u32, bool))
    requires
        cpu.wf(),
    ensures
        r == spec_dp_operand2(cpu.model(), instr),
{
    proof {
        lemma_mask_bounds();
    }
    let c_in = (cpu.regs.cpsr >> 29) & 1 == 1;
    if (instr >> 25) & 1 == 1 {
        let imm = instr & 0xFF;
        let rot = 2 * ((instr >> 8) & 0xF);
        if rot != 0 {
            (rotate_right32(imm, rot), (imm >> (rot - 1)) & 1 == 1)
        } else {
            (imm, c_in)
        }
    } else {
        let rm = cpu.regs.get_reg(instr & 0xF);
        let ty = (instr >> 5) & 3;
        if (instr >> 4) & 1 == 0 {
            shift_by_imm(rm, ty, (instr >> 7) & 0x1F, c_in)
        } else {
            let rs = cpu.regs.get_reg((instr >> 8) & 0xF);
            shift_by_reg(rm, ty, rs & 0xFF, c_in)
        }
    }
}

impl ArmInstruction {
    /// The dispatch table resolved to the unknown handler: fatal, naming
    /// the instruction word.
    pub fn unknown_instruction(cpu: &mut Processor, bus: &mut Bus, opcode: u32) -> (r: Result<
        (),
        EmuError,
    >)
        ensures
            *final(cpu) == *old(cpu),
            *final(bus) == *old(bus),
            r == Err::<(), EmuError>(EmuError::DecodeUnknown(opcode)),
    {
        Err(EmuError::DecodeUnknown(opcode))
    }

    /// Multiply is not modelled: fatal.
    pub fn multiply(cpu: &mut Processor, bus: &mut Bus, instr: u32) -> (r: Result<(), EmuError>)
        ensures
            *final(cpu) == *old(cpu),
            *final(bus) == *old(bus),
            r == Err::<(), EmuError>(EmuError::UnimplementedOpcode(instr)),
    {
        Err(EmuError::UnimplementedOpcode(instr))
    }

    /// Multiply-long is not modelled: fatal.
    pub fn multiply_long(cpu: &mut Processor, bus: &mut Bus, instr: u32) -> (r: Result<
        (),
        EmuError,
    >)
        ensures
            *final(cpu) == *old(cpu),
            *final(bus) == *old(bus),
            r == Err::<(), EmuError>(EmuError::UnimplementedOpcode(instr)),
    {
        Err(EmuError::UnimplementedOpcode(instr))
    }

    /// PSR transfers are decoded but their effects are deferred: the
    /// handler leaves the whole machine unchanged.
    pub fn status_transfer(cpu: &mut Processor, bus: &mut Bus, instr: u32) -> (r: Result<
        (),
        EmuError,
    >)
        ensures
            *final(cpu) == *old(cpu),
            *final(bus) == *old(bus),
            r is Ok,
    {
        let _ = instr;
        Ok(())
    }

    /// Execute a data-processing instruction: decode the opcode, the S
    /// and I bits, Rn, Rd and operand 2, apply ADD, TST, CMP or MOV, and
    /// refill the pipeline when Rd names R15.
    pub fn data_processing(cpu: &mut Processor, bus: &mut Bus, instr: u32) -> (r: Result<
        (),
        EmuError,
    >)
        requires
            old(cpu).wf(),
            old(bus).wf(),
        ensures
            final(cpu).wf(),
            final(bus).wf(),
            match spec_dp(old(cpu).model(), old(bus).model(), instr) {
                Ok(pb) => r is Ok && final(cpu).model() == pb.0 && final(bus).model() == pb.1,
                Err(e) => r == Err::<(), EmuError>(e),
            },
    {
        proof {
            lemma_mask_bounds();
        }
        let opcode = (instr >> 21) & 0x0F;
        let rn = (instr >> 16) & 0x0F;
        let rd = (instr >> 12) & 0x0F;
        let shifted = dp_operand2(cpu, instr);
        let op2 = shifted.0;
        let carry = shifted.1;
        let op1 = cpu.regs.get_reg(rn);

        if opcode == 0x04 {
            cpu.regs.set_reg(rd, op1.wrapping_add(op2));
        } else if opcode == 0x08 {
            let res: u32 = op1 & op2;
            cpu.regs.set_cpsr(PSRFlags::Negative, (res >> 31) == 1);
            cpu.regs.set_cpsr(PSRFlags::Zero, res == 0);
            cpu.regs.set_cpsr(PSRFlags::Carry, carry);
            cpu.regs.set_cpsr(PSRFlags::Overflow, (((op1 ^ op2) & (op1 ^ res)) >> 31) == 1);
        } else if opcode == 0x0A {
            let res = op1.wrapping_sub(op2);
            cpu.regs.set_cpsr(PSRFlags::Negative, (res >> 31) == 1);
            cpu.regs.set_cpsr(PSRFlags::Zero, res == 0);
            cpu.regs.set_cpsr(PSRFlags::Carry, op1 >= op2);
            cpu.regs.set_cpsr(PSRFlags::Overflow, (((op1 ^ op2) & (op1 ^ res)) >> 31) == 1);
        } else if opcode == 0x0D {
            cpu.regs.set_reg(rd, op2);
        } else {
            return Err(EmuError::UnimplementedOpcode(instr));
        }

        if rd == 15 {
            cpu.reload_arm_pipeline(bus)?;
        }
        Ok(())
    }

    /// Execute a single data transfer: compute the offset and indexed
    /// address, move a byte or word between Rd and the bus, and write the
    /// stepped base back for post-indexed or writeback forms.
    pub fn single_data_transfer(cpu: &mut Processor, bus: &mut Bus, instr: u32) -> (r: Result<
        (),
        EmuError,
    >)
        requires
            old(cpu).wf(),
            old(bus).wf(),
        ensures
            final(cpu).wf(),
            final(bus).wf(),
            match spec_sdt(old(cpu).model(), old(bus).model(), instr) {
                Ok(pb) => r is Ok && final(cpu).model() == pb.0 && final(bus).model() == pb.1,
                Err(e) => r == Err::<(), EmuError>(e),
            },
    {
        proof {
            lemma_mask_bounds();
        }
        let pre = (instr >> 24) & 1 == 1;
        let up = (instr >> 23) & 1 == 1;
        let byte = (instr >> 22) & 1 == 1;
        let wbit = (instr >> 21) & 1 == 1;
        let load = (instr >> 20) & 1 == 1;
        let rn = (instr >> 16) & 0x0F;
        let rd = (instr >> 12) & 0x0F;
        let base = cpu.regs.get_reg(rn);
        let offset = if (instr >> 25) & 1 == 0 {
            instr & 0xFFF
        } else {
            let rm = cpu.regs.get_reg(instr & 0xF);
            let shifted = shift_by_imm(
                rm,
                (instr >> 5) & 3,
                (instr >> 7) & 0x1F,
                (cpu.regs.cpsr >> 29) & 1 == 1,
            );
            shifted.0
        };
        let address = if pre {
            if up {
                base.wrapping_add(offset)
            } else {
                base.wrapping_sub(offset)
            }
        } else {
            base
        };

        if load {
            let v: u32 = if byte {
                bus.read_byte(address)? as u32
            } else {
                bus.read_word(address)?
            };
            cpu.regs.set_reg(rd, v);
        } else {
            let sv = cpu.regs.get_reg(rd);
            if byte {
                bus.write_byte(address, sv as u8)?;
            } else {
                bus.write_word(address, sv)?;
            }
        }

        if !pre || wbit {
            let wb_val = if up {
                base.wrapping_add(offset)
            } else {
                base.wrapping_sub(offset)
            };
            cpu.regs.set_reg(rn, wb_val);
        }
        Ok(())
    }

    /// Execute a halfword transfer: assemble the offset, index the base,
    /// and move an unsigned halfword between Rd and the bus.
    pub fn halfword_signed_transfer(cpu: &mut Processor, bus: &mut Bus, instr: u32) -> (r: Result<
        (),
        EmuError,
    >)
        requires
            old(cpu).wf(),
            old(bus).wf(),
        ensures
            final(cpu).wf(),
            final(bus).wf(),
            match spec_half(old(cpu).model(), old(bus).model(), instr) {
                Ok(pb) => r is Ok && final(cpu).model() == pb.0 && final(bus).model() == pb.1,
                Err(e) => r == Err::<(), EmuError>(e),
            },
    {
        proof {
            lemma_mask_bounds();
        }
        let pre = (instr >> 24) & 1 == 1;
        let up = (instr >> 23) & 1 == 1;
        let wbit = (instr >> 21) & 1 == 1;
        let load = (instr >> 20) & 1 == 1;
        let rn = (instr >> 16) & 0x0F;
        let rd = (instr >> 12) & 0x0F;
        let base = cpu.regs.get_reg(rn);
        let offset = if (instr >> 22) & 1 == 1 {
            (instr & 0x0F) | ((instr >> 4) & 0xF0)
        } else {
            cpu.regs.get_reg(instr & 0x0F)
        };
        let address = if pre {
            if up {
                base.wrapping_add(offset)
            } else {
                base.wrapping_sub(offset)
            }
        } else {
            base
        };

        if (instr >> 5) & 3 != 1 {
            return Err(EmuError::UnimplementedOpcode(instr));
        }
        if load {
            let v = bus.read_half(address)?;
            cpu.regs.set_reg(rd, v);
        } else {
            let sv = cpu.regs.get_reg(rd);
            bus.write_half(address, sv)?;
        }

        if !pre || wbit {
            let wb_val = if up {
                base.wrapping_add(offset)
            } else {
                base.wrapping_sub(offset)
            };
            cpu.regs.set_reg(rn, wb_val);
        }
        Ok(())
    }

    /// Execute a block transfer: count the listed registers, derive the
    /// starting address and final base, move each listed register in
    /// ascending order, and write the final base back when requested.
    #[verifier::loop_isolation(false)]
    pub fn block_data_transfer(cpu: &mut Processor, bus: &mut Bus, instr: u32) -> (r: Result<
        (),
        EmuError,
    >)
        requires
            old(cpu).wf(),
            old(bus).wf(),
        ensures
            final(cpu).wf(),
            final(bus).wf(),
            match spec_block(old(cpu).model(), old(bus).model(), instr) {
                Ok(pb) => r is Ok && final(cpu).model() == pb.0 && final(bus).model() == pb.1,
                Err(e) => r == Err::<(), EmuError>(e),
            },
    {
        proof {
            lemma_mask_bounds();
        }
        let pre0 = (instr >> 24) & 1 == 1;
        let up = (instr >> 23) & 1 == 1;
        let wbit = (instr >> 21) & 1 == 1;
        let load = (instr >> 20) & 1 == 1;
        let rn = (instr >> 16) & 0x0F;
        let list = instr & 0xFFFF;
        if list == 0 {
            return Err(EmuError::UnimplementedOpcode(instr));
        }

        let mut cnt: u32 = 0;
        let mut idx: u32 = 0;
        while idx < 15
            invariant
                idx <= 15,
                cnt == count_regs(list, idx),
                cnt <= idx,
            decreases 15 - idx,
        {
            if (list >> idx) & 1 == 1 {
                cnt = cnt + 1;
            }
            idx = idx + 1;
        }
        let offset: u32 = 4 * cnt;

        let base = cpu.regs.get_reg(rn);
        let pre = if up {
            pre0
        } else {
            !pre0
        };
        let mut address = if up {
            base
        } else {
            base.wrapping_sub(offset)
        };
        let base_new = if up {
            base.wrapping_add(offset)
        } else {
            base.wrapping_sub(offset)
        };
        let ghost p0 = cpu.model();
        let ghost b0 = bus.model();
        let ghost start = address;

        let mut reg: u32 = 0;
        while reg < 15
            invariant
                reg <= 15,
                cpu.wf(),
                bus.wf(),
                spec_block_loop(p0, b0, list, load, pre, 0, start) == spec_block_loop(
                    cpu.model(),
                    bus.model(),
                    list,
                    load,
                    pre,
                    reg,
                    address,
                ),
            decreases 15 - reg,
        {
            let ghost pit = cpu.model();
            let ghost bit = bus.model();
            let ghost addr0 = address;
            if (list >> reg) & 1 == 1 {
                if pre {
                    address = address.wrapping_add(4);
                }
                if load {
                    match bus.read_word(address) {
                        Ok(v) => {
                            cpu.regs.set_reg(reg, v);
                        },
                        Err(e) => {
                            proof {
                                assert(spec_block_loop(pit, bit, list, load, pre, reg, addr0)
                                    == Err::<(ProcModel, BusModel, u32), EmuError>(e));
                            }
                            return Err(e);
                        },
                    }
                } else {
                    let sv = cpu.regs.get_reg(reg);
                    match bus.write_word(address, sv) {
                        Ok(_) => {},
                        Err(e) => {
                            proof {
                                assert(spec_block_loop(pit, bit, list, load, pre, reg, addr0)
                                    == Err::<(ProcModel, BusModel, u32), EmuError>(e));
                            }
                            return Err(e);
                        },
                    }
                }
                if !pre {
                    address = address.wrapping_add(4);
                }
                proof {
                    assert(address == wadd(addr0, 4));
                    assert(spec_block_loop(pit, bit, list, load, pre, reg, addr0)
                        == spec_block_loop(
                        cpu.model(),
                        bus.model(),
                        list,
                        load,
                        pre,
                        (reg + 1) as u32,
                        address,
                    ));
                }
            }
            reg = reg + 1;
        }

        if wbit {
            cpu.regs.set_reg(rn, base_new);
        }
        Ok(())
    }

    /// Execute a branch: write PC - 4 to LR when linking, move PC by the
    /// sign-extended word offset, and refill the pipeline.
    pub fn branch_and_link(cpu: &mut Processor, bus: &mut Bus, instr: u32) -> (r: Result<
        (),
        EmuError,
    >)
        requires
            old(cpu).wf(),
            old(bus).wf(),
        ensures
            final(cpu).wf(),
            final(bus).wf(),
            match spec_branch_and_link(old(cpu).model(), old(bus).model(), instr) {
                Ok(pb) => r is Ok && final(cpu).model() == pb.0 && final(bus).model() == pb.1,
                Err(e) => r == Err::<(), EmuError>(e),
            },
    {
        let link = (instr >> 24) & 1 == 1;
        let imm24 = instr & 0x00FF_FFFF;
        let offset = if (instr >> 23) & 1 == 1 {
            (imm24 << 2) | 0xFC00_0000u32
        } else {
            imm24 << 2
        };
        let pc = cpu.regs.r15_pc;
        if link {
            cpu.regs.set_reg(14, pc.wrapping_sub(4));
        }
        cpu.regs.set_reg(15, pc.wrapping_add(offset));
        cpu.reload_arm_pipeline(bus)?;
        Ok(())
    }

    /// Branch-and-exchange would enter Thumb state, which this core does
    /// not model: fatal.
    pub fn branch_and_exchange(cpu: &mut Processor, bus: &mut Bus, instr: u32) -> (r: Result<
        (),
        EmuError,
    >)
        ensures
            *final(cpu) == *old(cpu),
            *final(bus) == *old(bus),
            r == Err::<(), EmuError>(EmuError::UnimplementedOpcode(instr)),
    {
        Err(EmuError::UnimplementedOpcode(instr))
    }
}

} // verus!
