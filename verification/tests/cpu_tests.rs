//! Processor behaviour: decode, dispatch, data processing, transfers,
//! branches, and whole frames through the frame driver.

use herod_gba_core::arm7tdmi::Processor;
use herod_gba_core::bus::Bus;
use herod_gba_core::cartridge::Cartridge;
use herod_gba_core::errors::EmuError;
use herod_gba_core::gba::HerodGBA;
use herod_gba_core::instructions::{ArmInstruction, Instruction};
use herod_gba_core::memory::Memory;
use herod_gba_core::ppu::Ppu;

fn bus_with_rom(words: &[u32]) -> Bus {
    let mut bytes = Vec::new();
    for w in words {
        bytes.extend_from_slice(&w.to_le_bytes());
    }
    let mut cart = Cartridge::new();
    cart.load(bytes);
    let mut bus = Bus::new(Memory::new(), cart, Ppu::new());
    // keep a valid video mode selected in case a frame is driven
    bus.write_byte(0x0400_0000, 0x03).unwrap();
    bus
}

fn hash_of(w: u32) -> usize {
    (((w & 0x0FF0_0000) >> 16) | ((w & 0xF0) >> 4)) as usize
}

#[test]
fn decode_classifies_instruction_families() {
    assert!(matches!(Processor::arm_decode(0xE3A0_0001), Instruction::DataProcessing));
    assert!(matches!(Processor::arm_decode(0xE080_2001), Instruction::DataProcessing));
    assert!(matches!(Processor::arm_decode(0xE320_F000), Instruction::StatusTransfer));
    assert!(matches!(Processor::arm_decode(0xE121_F001), Instruction::StatusTransfer));
    assert!(matches!(Processor::arm_decode(0xE12F_FF11), Instruction::BranchAndExchange));
    assert!(matches!(Processor::arm_decode(0xE009_0192), Instruction::Multiply));
    assert!(matches!(Processor::arm_decode(0xE089_0192), Instruction::MultiplyLong));
    assert!(matches!(Processor::arm_decode(0xE101_0092), Instruction::SingleDataSwap));
    assert!(matches!(Processor::arm_decode(0xE1C1_00B0), Instruction::HalfWordSignedTransfer));
    assert!(matches!(Processor::arm_decode(0xE591_2000), Instruction::SingleDataTransfer));
    assert!(matches!(Processor::arm_decode(0xE92D_0003), Instruction::BlockDataTransfer));
    assert!(matches!(Processor::arm_decode(0xEA00_0001), Instruction::BranchAndLink));
    assert!(matches!(Processor::arm_decode(0xEF00_0000), Instruction::Unknown));
}

#[test]
fn dispatch_table_matches_reference_classification() {
    let cpu = Processor::new();
    for &w in &[
        0xE3A0_0001_u32,
        0xE080_2001,
        0xE591_2000,
        0xE92D_0003,
        0xEA00_0001,
        0xE1C1_00B0,
        0xEF00_0000,
        0xE12F_FF11,
    ] {
        assert_eq!(cpu.exec_arm[hash_of(w)], Processor::arm_decode(w));
    }
}

#[test]
fn mov_immediate_after_one_executed_step() {
    // MOV R0, #1 at the entry point; the first two cycles only warm the
    // pipeline up, so the instruction has executed by cycle three with
    // PC at the prefetch address plus 4.
    let mut bus = bus_with_rom(&[0xE3A0_0001]);
    let mut cpu = Processor::new();
    cpu.step(3, &mut bus).unwrap();
    assert_eq!(cpu.regs.get_reg(0), 1);
    assert_eq!(cpu.regs.get_reg(15), 0x0800_000C);
}

#[test]
fn mov_mov_add_computes_sum() {
    let mut bus = bus_with_rom(&[0xE3A0_0005, 0xE3A0_1007, 0xE080_2001]);
    let mut cpu = Processor::new();
    cpu.step(5, &mut bus).unwrap();
    assert_eq!(cpu.regs.get_reg(0), 5);
    assert_eq!(cpu.regs.get_reg(1), 7);
    assert_eq!(cpu.regs.get_reg(2), 12);
}

#[test]
fn branch_forward_refills_pipeline() {
    // B with offset field 1 branches from PC-at-fetch + 8 to +12; after
    // the refill, PC sits two instructions past the target.
    let mut bus = bus_with_rom(&[0xEA00_0001, 0, 0, 0xE3A0_1007, 0xE3A0_0005]);
    let mut cpu = Processor::new();
    cpu.step(3, &mut bus).unwrap();
    assert_eq!(cpu.regs.get_reg(15), 0x0800_0014);
    assert_eq!(cpu.pipe[0], 0xE3A0_1007);
    assert_eq!(cpu.pipe[1], 0xE3A0_0005);
}

#[test]
fn branch_and_link_sets_lr_to_branch_addr_plus_4() {
    let mut bus = bus_with_rom(&[0xEB00_0001]);
    let mut cpu = Processor::new();
    cpu.step(3, &mut bus).unwrap();
    assert_eq!(cpu.regs.get_reg(14), 0x0800_0004);
    assert_eq!(cpu.regs.get_reg(15), 0x0800_0014);
}

#[test]
fn mov_to_pc_refetches_from_target() {
    // MOV R15, #0x08000000: the pipeline refills from the new PC, so the
    // next executed instruction is the word at the target.
    let mut bus = bus_with_rom(&[0xE3A0_F302, 0xE3A0_1007]);
    let mut cpu = Processor::new();
    cpu.step(3, &mut bus).unwrap();
    assert_eq!(cpu.pipe[0], 0xE3A0_F302);
    assert_eq!(cpu.pipe[1], 0xE3A0_1007);
    assert_eq!(cpu.regs.get_reg(15), 0x0800_0008);
}

#[test]
fn cmp_sets_flags() {
    let mut bus = bus_with_rom(&[0xE3A0_0005, 0xE350_0005, 0xE350_0006]);
    let mut cpu = Processor::new();
    // MOV R0,#5 then CMP R0,#5: Z and C set, N clear
    cpu.step(4, &mut bus).unwrap();
    let cpsr = cpu.regs.cpsr;
    assert_eq!((cpsr >> 30) & 1, 1, "Z after equal compare");
    assert_eq!((cpsr >> 29) & 1, 1, "C after no-borrow compare");
    assert_eq!((cpsr >> 31) & 1, 0, "N after equal compare");
    // CMP R0,#6: borrow clears C, sign sets N
    cpu.step(1, &mut bus).unwrap();
    let cpsr = cpu.regs.cpsr;
    assert_eq!((cpsr >> 30) & 1, 0);
    assert_eq!((cpsr >> 29) & 1, 0);
    assert_eq!((cpsr >> 31) & 1, 1);
}

#[test]
fn tst_takes_carry_from_rotated_immediate() {
    // TST R0, #0x80000000 on R0 == 0: Z set, C from the rotation's
    // carry-out (bit 1 of the raw immediate 2)
    let mut bus = bus_with_rom(&[0xE310_0102]);
    let mut cpu = Processor::new();
    cpu.step(3, &mut bus).unwrap();
    let cpsr = cpu.regs.cpsr;
    assert_eq!((cpsr >> 30) & 1, 1);
    assert_eq!((cpsr >> 29) & 1, 1);
}

#[test]
fn condition_codes_gate_execution() {
    // CMP R0,#1 leaves Z clear, so the EQ-conditional MOV is skipped and
    // the NE-conditional MOV runs.
    let mut bus = bus_with_rom(&[0xE350_0001, 0x03A0_1063, 0x13A0_2042]);
    let mut cpu = Processor::new();
    cpu.step(5, &mut bus).unwrap();
    assert_eq!(cpu.regs.get_reg(1), 0);
    assert_eq!(cpu.regs.get_reg(2), 0x42);
}

#[test]
fn unimplemented_condition_is_fatal() {
    let cpu = Processor::new();
    assert_eq!(cpu.regs.check_cond(0x2), Err(EmuError::UnimplementedCondition(0x2)));
}

#[test]
fn unimplemented_dp_opcode_is_fatal() {
    let mut bus = bus_with_rom(&[0]);
    let mut cpu = Processor::new();
    // EOR is not modelled
    assert_eq!(
        ArmInstruction::data_processing(&mut cpu, &mut bus, 0xE020_0001),
        Err(EmuError::UnimplementedOpcode(0xE020_0001))
    );
}

#[test]
fn software_interrupt_resolves_to_unknown_handler() {
    let mut bus = bus_with_rom(&[0xEF00_0000]);
    let mut cpu = Processor::new();
    assert_eq!(cpu.step(3, &mut bus), Err(EmuError::DecodeUnknown(0xEF00_0000)));
}

#[test]
fn str_then_ldr_round_trips_through_wram() {
    // MOV R1,#0x02000000; MOV R0,#0xAB; STR R0,[R1]; LDR R2,[R1]
    let mut bus = bus_with_rom(&[0xE3A0_1402, 0xE3A0_00AB, 0xE581_0000, 0xE591_2000]);
    let mut cpu = Processor::new();
    cpu.step(6, &mut bus).unwrap();
    assert_eq!(cpu.regs.get_reg(2), 0xAB);
    assert_eq!(bus.read_byte(0x0200_0000).unwrap(), 0xAB);
}

#[test]
fn ldrb_loads_single_byte() {
    // store 0xAB then load a byte from one past the base
    let mut bus = bus_with_rom(&[0xE3A0_1402, 0xE3A0_00AB, 0xE581_0000, 0xE5D1_2001]);
    let mut cpu = Processor::new();
    cpu.step(6, &mut bus).unwrap();
    assert_eq!(cpu.regs.get_reg(2), 0);
    let mut bus = bus_with_rom(&[0xE3A0_1402, 0xE3A0_00AB, 0xE581_0000, 0xE5D1_2000]);
    let mut cpu = Processor::new();
    cpu.step(6, &mut bus).unwrap();
    assert_eq!(cpu.regs.get_reg(2), 0xAB);
}

#[test]
fn ldr_with_shifted_register_offset() {
    // MOV R1,#0x02000000; MOV R0,#0xCD; STR R0,[R1]; MOV R3,#0;
    // LDR R2,[R1, R3, LSL #2]
    let mut bus = bus_with_rom(&[
        0xE3A0_1402,
        0xE3A0_00CD,
        0xE581_0000,
        0xE3A0_3000,
        0xE791_2103,
    ]);
    let mut cpu = Processor::new();
    cpu.step(7, &mut bus).unwrap();
    assert_eq!(cpu.regs.get_reg(2), 0xCD);
}

#[test]
fn strh_then_ldrh_moves_halfword() {
    // MOV R1,#0x03000000; MOV R0,#0xAB; STRH R0,[R1]; LDRH R2,[R1]
    let mut bus = bus_with_rom(&[0xE3A0_1403, 0xE3A0_00AB, 0xE1C1_00B0, 0xE1D1_20B0]);
    let mut cpu = Processor::new();
    cpu.step(6, &mut bus).unwrap();
    assert_eq!(cpu.regs.get_reg(2), 0xAB);
    assert_eq!(bus.read_half(0x0300_0000).unwrap(), 0xAB);
}

#[test]
fn push_then_pop_block_transfer() {
    // MOV R13,#0x03000000; ADD R13,R13,#0x100; MOV R0,#5; MOV R1,#7;
    // STMDB R13!,{R0,R1}; LDMIA R13!,{R3,R4}
    let mut bus = bus_with_rom(&[
        0xE3A0_D403,
        0xE28D_DC01,
        0xE3A0_0005,
        0xE3A0_1007,
        0xE92D_0003,
        0xE8BD_0018,
    ]);
    let mut cpu = Processor::new();
    cpu.step(8, &mut bus).unwrap();
    assert_eq!(cpu.regs.get_reg(3), 5);
    assert_eq!(cpu.regs.get_reg(4), 7);
    assert_eq!(cpu.regs.get_reg(13), 0x0300_0100);
}

#[test]
fn empty_block_transfer_list_is_fatal() {
    let mut bus = bus_with_rom(&[0]);
    let mut cpu = Processor::new();
    assert_eq!(
        ArmInstruction::block_data_transfer(&mut cpu, &mut bus, 0xE92D_0000),
        Err(EmuError::UnimplementedOpcode(0xE92D_0000))
    );
}

#[test]
fn frame_driver_cycles_vcount_once() {
    let mut gba = HerodGBA::new();
    gba.power();
    gba.bus.write_byte(0x0400_0000, 0x03).unwrap();
    {
        let frame = gba.render_frame().unwrap();
        assert_eq!(frame.len(), 240 * 160);
    }
    // VCOUNT has cycled through 0..227 and wrapped; VBlank is clear
    assert_eq!(gba.bus.ppu.read_io(0x0400_0006).unwrap(), 0);
    assert_eq!(gba.bus.ppu.read_io(0x0400_0004).unwrap() & 0b01, 0);
}

#[test]
fn frame_driver_renders_loaded_program() {
    // MOV R0,#1 then idle: the frame completes and the framebuffer is
    // black (VRAM is zero) with alpha forced on
    let mut gba = HerodGBA::new();
    let mut bytes = Vec::new();
    bytes.extend_from_slice(&0xE3A0_0001_u32.to_le_bytes());
    gba.load_cartridge(bytes);
    gba.bus.write_byte(0x0400_0000, 0x03).unwrap();
    let frame = gba.render_frame().unwrap();
    assert_eq!(frame[0], 0xFF00_0000);
    assert_eq!(frame[38399], 0xFF00_0000);
}

#[test]
fn barrel_shifter_covers_all_shift_types() {
    // MOV R0,#0x80000000; MOV R3,#31; MOV R2,R0,LSR R3;
    // MOV R4,R0,ASR #31; MOV R5,R0,LSR #0 (LSR #32 encoding);
    // MOV R6,#1; MOV R7,R6,ROR #1
    let mut bus = bus_with_rom(&[
        0xE3A0_0102,
        0xE3A0_301F,
        0xE1A0_2330,
        0xE1A0_4FC0,
        0xE1A0_5020,
        0xE3A0_6001,
        0xE1A0_70E6,
    ]);
    let mut cpu = Processor::new();
    cpu.step(9, &mut bus).unwrap();
    assert_eq!(cpu.regs.get_reg(2), 1);
    assert_eq!(cpu.regs.get_reg(4), 0xFFFF_FFFF);
    assert_eq!(cpu.regs.get_reg(5), 0);
    assert_eq!(cpu.regs.get_reg(7), 0x8000_0000);
}
