use lib::cpu::{
    cop0::{CAUSE_BD, CAUSE_BT},
    Cpu,
};
use lib::bus::Bus;

fn i(op: u32, rs: u32, rt: u32, imm: i16) -> u32 {
    (op << 26) | (rs << 21) | (rt << 16) | (imm as u16 as u32)
}

fn r(rs: u32, rt: u32, rd: u32, shamt: u32, funct: u32) -> u32 {
    (rs << 21) | (rt << 16) | (rd << 11) | (shamt << 6) | funct
}

fn j(op: u32, target: u32) -> u32 {
    (op << 26) | ((target >> 2) & 0x03ff_ffff)
}

fn jr(reg: u32) -> u32 {
    r(reg, 0, 0, 0, 0x08)
}

fn cop(op: u32, rs: u32, rt: u32, rd: u32, funct: u32) -> u32 {
    (op << 26) | (rs << 21) | (rt << 16) | (rd << 11) | funct
}

fn write_program(bus: &mut Bus, base: u32, words: &[u32]) {
    for (i, word) in words.iter().enumerate() {
        bus.write32(base + (i as u32 * 4), *word);
    }
}

#[test]
fn executes_basic_integer_and_memory_ops() {
    let mut cpu = Cpu::new();
    let mut bus = Bus::new(None);
    cpu.set_pc(0x8000_0000);
    write_program(
        &mut bus,
        0x0000_0000,
        &[
            i(0x09, 0, 1, 0x1234), // addiu r1,r0,0x1234
            i(0x0d, 1, 2, 0x00ff), // ori r2,r1,0xff
            i(0x2b, 0, 2, 0x100),  // sw r2,0x100(r0)
            i(0x23, 0, 3, 0x100),  // lw r3,0x100(r0)
            r(3, 2, 4, 0, 0x21),   // addu r4,r3,r2 (load delay sees old r3)
            r(3, 2, 5, 0, 0x21),   // addu r5,r3,r2
        ],
    );

    for _ in 0..6 {
        cpu.step(&mut bus);
    }

    assert_eq!(cpu.regs[1], 0x1234);
    assert_eq!(cpu.regs[2], 0x12ff);
    assert_eq!(cpu.regs[3], 0x12ff);
    assert_eq!(cpu.regs[4], 0x12ff);
    assert_eq!(cpu.regs[5], 0x25fe);
}

#[test]
fn register_write_cancels_pending_load_to_same_register() {
    let mut cpu = Cpu::new();
    let mut bus = Bus::new(None);
    cpu.set_pc(0x8000_0000);
    write_program(
        &mut bus,
        0x0000_0000,
        &[
            i(0x09, 0, 1, 0x100),  // addiu r1,r0,0x100
            i(0x09, 0, 2, 0x1234), // addiu r2,r0,0x1234
            i(0x2b, 1, 2, 0),      // sw r2,0(r1)
            i(0x23, 1, 3, 0),      // lw r3,0(r1)
            i(0x09, 0, 3, 0x55aa), // addiu r3,r0,0x55aa cancels the load
            0x0000_0000,
        ],
    );

    for _ in 0..6 {
        cpu.step(&mut bus);
    }

    assert_eq!(cpu.regs[3], 0x55aa);
}

#[test]
fn jal_link_cancels_pending_load_to_ra() {
    let mut cpu = Cpu::new();
    let mut bus = Bus::new(None);
    cpu.set_pc(0x8000_0000);
    write_program(
        &mut bus,
        0x0000_0000,
        &[
            i(0x09, 0, 1, 0x100), // addiu r1,r0,0x100; RAM at 0x100 is zero
            i(0x23, 1, 31, 0),    // lw ra,0(r1)
            j(0x03, 0x8000_0014), // jal target; link should survive old pending load
            0x0000_0000,          // delay slot
            i(0x09, 0, 2, 1),     // skipped
            r(31, 0, 3, 0, 0x21), // addu r3,ra,r0
        ],
    );

    for _ in 0..6 {
        cpu.step(&mut bus);
    }

    assert_eq!(cpu.regs[2], 0);
    assert_eq!(cpu.regs[3], 0x8000_0010);
}

#[test]
fn consecutive_loads_to_same_register_keep_first_load_invisible() {
    let mut cpu = Cpu::new();
    let mut bus = Bus::new(None);
    cpu.set_pc(0x8000_0000);
    cpu.regs[5] = 4;
    bus.write32(0x0000_0100, 1);
    bus.write32(0x0000_0104, 2);
    write_program(
        &mut bus,
        0x0000_0000,
        &[
            i(0x09, 0, 4, 0x100), // addiu a0,r0,0x100
            i(0x23, 4, 5, 0),     // lw a1,0(a0)
            i(0x23, 4, 5, 4),     // lw a1,4(a0)
            r(5, 0, 2, 0, 0x21),  // move v0,a1; sees original
            r(5, 0, 3, 0, 0x21),  // move v1,a1; sees second load
        ],
    );

    for _ in 0..5 {
        cpu.step(&mut bus);
    }

    assert_eq!(cpu.regs[2], 4);
    assert_eq!(cpu.regs[3], 2);
}

#[test]
fn pcsx_lwl_lwr_no_delay_reads_original_register() {
    let mut cpu = Cpu::new();
    let mut bus = Bus::new(None);
    cpu.set_pc(0x8000_0000);
    cpu.regs[5] = 0xaabb_ccdd;
    bus.write32(0x0000_0100, 0x1122_3344);
    bus.write32(0x0000_0104, 0x5566_7788);
    write_program(
        &mut bus,
        0x0000_0000,
        &[
            i(0x09, 0, 4, 0x100), // addiu a0,r0,0x100
            i(0x22, 4, 5, 4),     // lwl a1,4(a0)
            i(0x26, 4, 5, 1),     // lwr a1,1(a0)
            r(5, 0, 2, 0, 0x21),  // move v0,a1; no delay, sees original
            r(5, 0, 3, 0, 0x21),  // move v1,a1; now sees merged load
        ],
    );

    for _ in 0..5 {
        cpu.step(&mut bus);
    }

    assert_eq!(cpu.regs[2], 0xaabb_ccdd);
    assert_eq!(cpu.regs[3], 0x8811_2233);
}

#[test]
fn pcsx_lwl_lwr_delayed_cases_merge_pending_loads() {
    let mut cpu = Cpu::new();
    let mut bus = Bus::new(None);
    cpu.set_pc(0x8000_0000);
    cpu.regs[5] = 0xaabb_ccdd;
    bus.write32(0x0000_0100, 0x1122_3344);
    bus.write32(0x0000_0104, 0x5566_7788);
    write_program(
        &mut bus,
        0x0000_0000,
        &[
            i(0x09, 0, 4, 0x100), // addiu a0,r0,0x100
            i(0x22, 4, 5, 4),     // lwl a1,4(a0)
            0x0000_0000,          // wait one instruction
            r(5, 0, 2, 0, 0x21),  // move v0,a1
            i(0x22, 4, 5, 4),     // lwl a1,4(a0)
            i(0x26, 4, 5, 1),     // lwr a1,1(a0)
            0x0000_0000,          // wait one instruction
            r(5, 0, 3, 0, 0x21),  // move v1,a1
        ],
    );

    for _ in 0..8 {
        cpu.step(&mut bus);
    }

    assert_eq!(cpu.regs[2], 0x88bb_ccdd);
    assert_eq!(cpu.regs[3], 0x8811_2233);
}

#[test]
fn pcsx_unaligned_load_pairs_merge_different_words_and_lw_base() {
    let mut cpu = Cpu::new();
    let mut bus = Bus::new(None);
    cpu.set_pc(0x8000_0000);
    cpu.regs[5] = 0xeeff_effe;
    bus.write32(0x0000_0100, 0x1122_3344);
    bus.write32(0x0000_0104, 0x5566_7788);
    bus.write32(0x0000_0108, 0xaabb_ccdd);
    write_program(
        &mut bus,
        0x0000_0000,
        &[
            i(0x09, 0, 4, 0x100), // addiu a0,r0,0x100
            i(0x22, 4, 5, 4),     // lwl a1,4(a0)
            i(0x26, 4, 5, 5),     // lwr a1,5(a0)
            0x0000_0000,          // wait one instruction
            r(5, 0, 2, 0, 0x21),  // move v0,a1
            i(0x23, 4, 5, 8),     // lw a1,8(a0)
            i(0x26, 4, 5, 1),     // lwr a1,1(a0)
            0x0000_0000,          // wait one instruction
            r(5, 0, 3, 0, 0x21),  // move v1,a1
        ],
    );

    for _ in 0..9 {
        cpu.step(&mut bus);
    }

    assert_eq!(cpu.regs[2], 0x8855_6677);
    assert_eq!(cpu.regs[3], 0xaa11_2233);
}

#[test]
fn pcsx_divide_by_zero_results_match_r3000a() {
    let mut cpu = Cpu::new();
    let mut bus = Bus::new(None);
    cpu.set_pc(0x8000_0000);
    write_program(
        &mut bus,
        0x0000_0000,
        &[
            i(0x09, 0, 1, 42),   // addiu r1,r0,42
            r(1, 0, 0, 0, 0x1a), // div r1,r0
            r(0, 0, 2, 0, 0x10), // mfhi r2
            r(0, 0, 3, 0, 0x12), // mflo r3
            i(0x09, 0, 4, -42),  // addiu r4,r0,-42
            r(4, 0, 0, 0, 0x1a), // div r4,r0
            r(0, 0, 5, 0, 0x10), // mfhi r5
            r(0, 0, 6, 0, 0x12), // mflo r6
            r(1, 0, 0, 0, 0x1b), // divu r1,r0
            r(0, 0, 7, 0, 0x10), // mfhi r7
            r(0, 0, 8, 0, 0x12), // mflo r8
        ],
    );

    for _ in 0..11 {
        cpu.step(&mut bus);
    }

    assert_eq!(cpu.regs[2], 42);
    assert_eq!(cpu.regs[3], 0xffff_ffff);
    assert_eq!(cpu.regs[5], (-42i32) as u32);
    assert_eq!(cpu.regs[6], 1);
    assert_eq!(cpu.regs[7], 42);
    assert_eq!(cpu.regs[8], 0xffff_ffff);
}

#[test]
fn pcsx_bltzal_not_taken_still_writes_link_register() {
    let mut cpu = Cpu::new();
    let mut bus = Bus::new(None);
    cpu.set_pc(0x8000_0000);
    write_program(
        &mut bus,
        0x0000_0000,
        &[
            i(0x01, 0, 0x10, 1),  // bltzal r0,+1; not taken, but links
            0x0000_0000,          // delay slot
            r(31, 0, 2, 0, 0x21), // move v0,ra
            i(0x09, 0, 3, 1),     // addiu r3,r0,1; confirms fallthrough
        ],
    );

    for _ in 0..4 {
        cpu.step(&mut bus);
    }

    assert_eq!(cpu.regs[2], 0x8000_0008);
    assert_eq!(cpu.regs[3], 1);
}

#[test]
fn pcsx_branch_in_branch_delay_slot_uses_current_pc_base() {
    let mut cpu = Cpu::new();
    let mut bus = Bus::new(None);
    cpu.set_pc(0x8000_0000);
    cpu.regs[31] = 0x8000_003c;
    write_program(
        &mut bus,
        0x0000_0000,
        &[
            i(0x09, 0, 2, 1),   // li v0,1
            i(0x04, 0, 0, 4),   // b t1branch1
            i(0x04, 0, 0, 6),   // b t1branch2; delay slot of first branch
            i(0x0d, 2, 2, 2),   // no
            jr(31),             // no
            i(0x0d, 2, 2, 4),   // no
            i(0x0d, 2, 2, 8),   // t1branch1: yes
            jr(31),             // no
            i(0x0d, 2, 2, 16),  // no
            i(0x0d, 2, 2, 32),  // t1branch2: no
            jr(31),             // no
            i(0x0d, 2, 2, 64),  // no
            i(0x0d, 2, 2, 128), // yes
            jr(31),             // return
            i(0x0d, 2, 2, 256), // delay slot: yes
            0x0000_0000,        // return target
        ],
    );

    for _ in 0..7 {
        cpu.step(&mut bus);
    }

    assert_eq!(cpu.regs[2], 0x189);
}

#[test]
fn pcsx_branch_in_branch_delay_slot_execution_order() {
    let mut cpu = Cpu::new();
    let mut bus = Bus::new(None);
    cpu.set_pc(0x8000_0000);
    cpu.regs[31] = 0x8000_003c;
    write_program(
        &mut bus,
        0x0000_0000,
        &[
            i(0x09, 0, 2, 1),    // li v0,1
            i(0x04, 0, 0, 4),    // b t2branch1
            i(0x04, 0, 0, 6),    // b t2branch2; delay slot of first branch
            i(0x09, 2, 2, 3),    // no
            jr(31),              // no
            r(0, 0, 2, 0, 0x21), // no
            i(0x09, 2, 2, 1),    // t2branch1: v0=2
            jr(31),              // no
            r(0, 0, 2, 0, 0x21), // no
            r(0, 2, 2, 3, 0x00), // t2branch2: no
            jr(31),              // no
            i(0x09, 2, 2, 5),    // no
            r(0, 2, 2, 2, 0x00), // v0=8
            jr(31),              // return
            i(0x09, 2, 2, 1),    // delay slot: v0=9
            0x0000_0000,
        ],
    );

    for _ in 0..7 {
        cpu.step(&mut bus);
    }

    assert_eq!(cpu.regs[2], 9);
}

#[test]
fn pcsx_jump_in_jump_delay_slot_uses_absolute_second_target() {
    let mut cpu = Cpu::new();
    let mut bus = Bus::new(None);
    cpu.set_pc(0x8000_0000);
    cpu.regs[31] = 0x8000_003c;
    write_program(
        &mut bus,
        0x0000_0000,
        &[
            i(0x09, 0, 2, 1),     // li v0,1
            j(0x02, 0x8000_0018), // j t1jump1
            j(0x02, 0x8000_0024), // j t1jump2; delay slot
            i(0x0d, 2, 2, 2),     // no
            jr(31),               // no
            i(0x0d, 2, 2, 4),     // no
            i(0x0d, 2, 2, 8),     // t1jump1: yes
            jr(31),               // no
            i(0x0d, 2, 2, 16),    // no
            i(0x0d, 2, 2, 32),    // t1jump2: yes
            jr(31),               // return
            i(0x0d, 2, 2, 64),    // delay slot: yes
            i(0x0d, 2, 2, 128),   // no
            jr(31),               // no
            i(0x0d, 2, 2, 256),   // no
            0x0000_0000,
        ],
    );

    for _ in 0..7 {
        cpu.step(&mut bus);
    }

    assert_eq!(cpu.regs[2], 0x69);
}

#[test]
fn pcsx_jump_in_jump_delay_slot_execution_order() {
    let mut cpu = Cpu::new();
    let mut bus = Bus::new(None);
    cpu.set_pc(0x8000_0000);
    cpu.regs[31] = 0x8000_003c;
    write_program(
        &mut bus,
        0x0000_0000,
        &[
            i(0x09, 0, 2, 1),     // li v0,1
            j(0x02, 0x8000_0018), // j t2jump1
            j(0x02, 0x8000_0024), // j t2jump2; delay slot
            i(0x09, 2, 2, 3),     // no
            jr(31),               // no
            r(0, 0, 2, 0, 0x21),  // no
            i(0x09, 2, 2, 1),     // t2jump1: v0=2
            jr(31),               // no
            r(0, 0, 2, 0, 0x21),  // no
            r(0, 2, 2, 3, 0x00),  // t2jump2: v0=16
            jr(31),               // return
            i(0x09, 2, 2, 5),     // delay slot: v0=21
            r(0, 2, 2, 2, 0x00),  // no
            jr(31),               // no
            i(0x09, 2, 2, 1),     // no
            0x0000_0000,
        ],
    );

    for _ in 0..7 {
        cpu.step(&mut bus);
    }

    assert_eq!(cpu.regs[2], 21);
}

#[test]
fn executes_branch_delay_slot() {
    let mut cpu = Cpu::new();
    let mut bus = Bus::new(None);
    cpu.set_pc(0x8000_0000);
    write_program(
        &mut bus,
        0x0000_0000,
        &[
            i(0x09, 0, 1, 1), // addiu r1,r0,1
            i(0x04, 1, 1, 2), // beq r1,r1,+2, target 0x10
            i(0x09, 0, 2, 2), // delay slot
            i(0x09, 0, 2, 3), // skipped
            i(0x09, 0, 3, 4), // target
        ],
    );

    for _ in 0..5 {
        cpu.step(&mut bus);
    }

    assert_eq!(cpu.regs[2], 2);
    assert_eq!(cpu.regs[3], 4);
}

#[test]
fn raises_syscall_exception_to_boot_vector() {
    let mut cpu = Cpu::new();
    let mut bus = Bus::new(None);
    cpu.set_pc(0x8000_0000);
    write_program(&mut bus, 0x0000_0000, &[0x0000_000c]);

    cpu.step(&mut bus);

    assert_eq!(cpu.pc, 0xbfc0_0180);
    assert_eq!(cpu.cop0.epc(), 0x8000_0000);
}

#[test]
fn exception_in_taken_branch_delay_slot_sets_bd_and_branch_epc() {
    let mut cpu = Cpu::new();
    let mut bus = Bus::new(None);
    cpu.set_pc(0x8000_0000);
    write_program(
        &mut bus,
        0x0000_0000,
        &[
            i(0x04, 0, 0, 1), // beq r0,r0,+1
            i(0x23, 0, 1, 1), // delay slot: unaligned lw
            i(0x09, 0, 2, 2),
        ],
    );

    cpu.step(&mut bus);
    cpu.step(&mut bus);

    assert_eq!(cpu.pc, 0xbfc0_0180);
    assert_eq!(cpu.cop0.epc(), 0x8000_0000);
    assert_eq!(cpu.cop0.bad_vaddr(), 0x0000_0001);
    assert_ne!(cpu.cop0.cause() & CAUSE_BD, 0);
    assert_ne!(cpu.cop0.cause() & CAUSE_BT, 0);
    assert_eq!(cpu.cop0.read(6), 0x8000_0008);
    assert_eq!((cpu.cop0.cause() >> 2) & 0x1f, 4);
}

#[test]
fn exception_in_not_taken_branch_delay_slot_still_sets_bd() {
    let mut cpu = Cpu::new();
    let mut bus = Bus::new(None);
    cpu.set_pc(0x8000_0000);
    write_program(
        &mut bus,
        0x0000_0000,
        &[
            i(0x09, 0, 1, 1), // addiu r1,r0,1
            i(0x04, 0, 1, 1), // beq r0,r1,+1 (not taken)
            i(0x23, 0, 2, 1), // delay slot: unaligned lw
            i(0x09, 0, 3, 3),
        ],
    );

    cpu.step(&mut bus);
    cpu.step(&mut bus);
    cpu.step(&mut bus);

    assert_eq!(cpu.pc, 0xbfc0_0180);
    assert_eq!(cpu.cop0.epc(), 0x8000_0004);
    assert_eq!(cpu.cop0.bad_vaddr(), 0x0000_0001);
    assert_ne!(cpu.cop0.cause() & CAUSE_BD, 0);
    assert_eq!(cpu.cop0.cause() & CAUSE_BT, 0);
    assert_eq!(cpu.cop0.read(6), 0);
    assert_eq!((cpu.cop0.cause() >> 2) & 0x1f, 4);
}

#[test]
fn invalid_cop0_register_read_raises_reserved_instruction() {
    let mut cpu = Cpu::new();
    let mut bus = Bus::new(None);
    cpu.set_pc(0x8000_0000);
    write_program(
        &mut bus,
        0x0000_0000,
        &[
            cop(0x10, 0x00, 1, 0, 0), // mfc0 r1,BPC; invalid on PS1
        ],
    );

    cpu.step(&mut bus);

    assert_eq!(cpu.pc, 0xbfc0_0180);
    assert_eq!(cpu.cop0.epc(), 0x8000_0000);
    assert_eq!((cpu.cop0.cause() >> 2) & 0x1f, 10);
}

#[test]
fn unusable_coprocessor_exception_sets_cause_ce() {
    let mut cpu = Cpu::new();
    let mut bus = Bus::new(None);
    cpu.set_pc(0x8000_0000);
    write_program(
        &mut bus,
        0x0000_0000,
        &[
            cop(0x11, 0x10, 0, 0, 0), // COP1 command
        ],
    );

    cpu.step(&mut bus);

    assert_eq!(cpu.pc, 0xbfc0_0180);
    assert_eq!((cpu.cop0.cause() >> 2) & 0x1f, 11);
    assert_eq!((cpu.cop0.cause() >> 28) & 0x3, 1);
}

#[test]
fn unusable_lwc_swc_cop0_paths_set_cause_ce_zero() {
    let mut cpu = Cpu::new();
    let mut bus = Bus::new(None);
    cpu.set_pc(0x8000_0000);
    write_program(
        &mut bus,
        0x0000_0000,
        &[
            i(0x30, 0, 1, 0), // lwc0 r1,0(r0)
        ],
    );

    cpu.step(&mut bus);

    assert_eq!(cpu.pc, 0xbfc0_0180);
    assert_eq!((cpu.cop0.cause() >> 2) & 0x1f, 11);
    assert_eq!((cpu.cop0.cause() >> 28) & 0x3, 0);

    cpu.set_pc(0x8000_0004);
    write_program(
        &mut bus,
        0x0000_0004,
        &[
            i(0x38, 0, 1, 0), // swc0 r1,0(r0)
        ],
    );

    cpu.step(&mut bus);

    assert_eq!(cpu.pc, 0xbfc0_0180);
    assert_eq!((cpu.cop0.cause() >> 2) & 0x1f, 11);
    assert_eq!((cpu.cop0.cause() >> 28) & 0x3, 0);
}

#[test]
fn software_interrupt_uses_status_mask_and_cause_pending_bits() {
    let mut cpu = Cpu::new();
    let mut bus = Bus::new(None);
    cpu.set_pc(0x8000_0000);
    write_program(
        &mut bus,
        0x0000_0000,
        &[
            i(0x09, 0, 1, 0x0101),     // addiu r1,r0,IE|IM0
            cop(0x10, 0x04, 1, 12, 0), // mtc0 r1,SR
            i(0x09, 0, 2, 0x0100),     // addiu r2,r0,software interrupt 0
            cop(0x10, 0x04, 2, 13, 0), // mtc0 r2,Cause
            0x0000_0000,               // interrupted before this executes
        ],
    );

    for _ in 0..5 {
        cpu.step(&mut bus);
    }

    assert_eq!(cpu.pc, 0x8000_0080);
    assert_eq!(cpu.cop0.epc(), 0x8000_0010);
    assert_eq!((cpu.cop0.cause() >> 2) & 0x1f, 0);
    assert_ne!(cpu.cop0.cause() & 0x0100, 0);
}

#[test]
fn misaligned_instruction_fetch_sets_bad_vaddr() {
    let mut cpu = Cpu::new();
    let mut bus = Bus::new(None);
    cpu.set_pc(0x8000_0002);

    cpu.step(&mut bus);

    assert_eq!(cpu.pc, 0xbfc0_0180);
    assert_eq!(cpu.cop0.epc(), 0x8000_0002);
    assert_eq!(cpu.cop0.bad_vaddr(), 0x8000_0002);
    assert_eq!(cpu.cop0.cause() & CAUSE_BD, 0);
    assert_eq!((cpu.cop0.cause() >> 2) & 0x1f, 4);
}

#[test]
fn unaligned_store_and_load_pairs_use_little_endian_byte_order() {
    let mut cpu = Cpu::new();
    let mut bus = Bus::new(None);
    cpu.set_pc(0x8000_0000);
    write_program(
        &mut bus,
        0x0000_0000,
        &[
            i(0x09, 0, 1, 0x100),  // addiu r1,r0,0x100
            i(0x0f, 0, 2, 0x1122), // lui r2,0x1122
            i(0x0d, 2, 2, 0x3344), // ori r2,r2,0x3344
            i(0x2a, 1, 2, 4),      // swl r2,4(r1)
            i(0x2e, 1, 2, 1),      // swr r2,1(r1)
            i(0x22, 1, 3, 4),      // lwl r3,4(r1)
            i(0x26, 1, 3, 1),      // lwr r3,1(r1)
            0x0000_0000,           // nop; wait for load delay
        ],
    );

    for _ in 0..8 {
        cpu.step(&mut bus);
    }

    assert_eq!(bus.read8(0x101), 0x44);
    assert_eq!(bus.read8(0x102), 0x33);
    assert_eq!(bus.read8(0x103), 0x22);
    assert_eq!(bus.read8(0x104), 0x11);
    assert_eq!(cpu.regs[3], 0x1122_3344);
}

#[test]
fn isolated_cache_mode_redirects_data_stores_away_from_ram() {
    let mut cpu = Cpu::new();
    let mut bus = Bus::new(None);
    cpu.set_pc(0x8000_0000);
    write_program(
        &mut bus,
        0x0000_0000,
        &[
            i(0x0f, 0, 1, 0x0001),     // lui r1,0x0001 ; COP0 SR.IsC
            cop(0x10, 0x04, 1, 12, 0), // mtc0 r1,SR
            i(0x09, 0, 2, 0x1234),     // addiu r2,r0,0x1234
            i(0x2b, 0, 2, 0x100),      // sw r2,0x100(r0) ; isolated
            cop(0x10, 0x04, 0, 12, 0), // mtc0 r0,SR
            i(0x23, 0, 3, 0x100),      // lw r3,0x100(r0) ; normal RAM
            0x0000_0000,               // nop; wait for load delay
        ],
    );

    for _ in 0..7 {
        cpu.step(&mut bus);
    }

    assert_eq!(bus.read32(0x0000_0100), 0);
    assert_eq!(bus.isolated_cache_read32(0x0000_0100), 0x0000_1234);
    assert_eq!(cpu.regs[3], 0);
}

#[test]
fn scratchpad_fetch_raises_instruction_bus_error() {
    let mut cpu = Cpu::new();
    let mut bus = Bus::new(None);
    cpu.set_pc(0x1f80_0000);
    cpu.step(&mut bus);
    assert_eq!(cpu.pc, 0xbfc0_0180);
    assert_eq!((cpu.cop0.cause() >> 2) & 0x1f, 6);
    assert_eq!(cpu.cop0.epc(), 0x1f80_0000);
}
