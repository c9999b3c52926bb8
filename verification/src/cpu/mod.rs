//! The R3000A CPU: instruction decoding and execution with branch delay
//! slots, load delays, exceptions, and the COP0 and GTE coprocessors.
pub mod cop0;
pub mod gte;

use crate::bus::{byte_read, byte_written, half_read, half_written, instruction_read, isolated_byte_written, isolated_half_written, isolated_word_written, word_read, word_written, is_io, is_ram, isolated_read8_spec, isolated_read_spec, physical_addr_spec, Bus, FetchError};
use cop0::{Cop0, Exception, ExceptionContext};
use gte::Gte;
use vstd::prelude::*;

verus! {

broadcast use crate::bits::group_bits;

#[derive(Debug, Clone)]
pub struct Cpu {
    pub regs: [u32; 32],
    pub hi: u32,
    pub lo: u32,
    pub pc: u32,
    pub next_pc: u32,
    pub cop0: Cop0,
    pub gte: Gte,
    pub load_delay: Option<(usize, u32)>,
    pub load_delay_merge: Option<(usize, u32)>,
    pub reg_write_mask: u32,
    pub in_delay_slot: bool,
    pub in_delay_slot_branch_taken: bool,
    pub in_delay_slot_branch_target: u32,
    pub next_is_delay_slot: bool,
    pub next_delay_slot_branch_taken: bool,
    pub next_delay_slot_branch_target: u32,
    pub halted: bool,
}

pub open spec fn rs_spec(opcode: u32) -> int {
    ((opcode >> 21u32) & 0x1f) as int
}

pub open spec fn rt_spec(opcode: u32) -> int {
    ((opcode >> 16u32) & 0x1f) as int
}

pub open spec fn rd_spec(opcode: u32) -> int {
    ((opcode >> 11u32) & 0x1f) as int
}

/// The 16-bit immediate, sign-extended.
pub open spec fn imm_se_spec(opcode: u32) -> u32 {
    (opcode as u16 as i16 as i32) as u32
}

/// The 16-bit immediate, zero-extended.
pub open spec fn imm_z_spec(opcode: u32) -> u32 {
    opcode & 0xffff
}

/// Whether adding `b` to `a` with result `result` overflowed as signed
/// 32-bit numbers: both operands differ in sign from the result.
pub open spec fn add_overflow_spec(a: u32, b: u32, result: u32) -> bool {
    (a ^ result) & (b ^ result) & 0x8000_0000 != 0
}

pub open spec fn slt_spec(a: u32, b: u32) -> u32 {
    if (a as i32) < (b as i32) { 1 } else { 0 }
}

pub open spec fn sltu_spec(a: u32, b: u32) -> u32 {
    if a < b { 1 } else { 0 }
}

/// The register file after writing `value` to register `index`; writes to
/// r0 are discarded.
pub open spec fn reg_update(regs: Seq<u32>, index: int, value: u32) -> Seq<u32> {
    if index == 0 { regs } else { regs.update(index, value) }
}

/// The register-write mask after an instruction writes `index` (register 0
/// is never written).
pub open spec fn mask_with(mask: u32, index: int) -> u32 {
    if index != 0 {
        mask | (1u32 << index as u32)
    } else {
        mask
    }
}

/// The destination and value of an ALU instruction (immediate or SPECIAL
/// group), given rs, rt, HI and LO; `None` for any other instruction.
pub open spec fn alu_result(opcode: u32, s: u32, t: u32, hi: u32, lo: u32) -> Option<(int, u32)> {
    match immediate_value(opcode, s) {
        Some(v) => Some((rt_spec(opcode), v)),
        None => if opcode >> 26u32 == 0 {
            match special_value(opcode, s, t, hi, lo) {
                Some(v) => Some((rd_spec(opcode), v)),
                None => None,
            }
        } else {
            None
        },
    }
}

/// The result a SPECIAL-group ALU instruction writes to rd, given rs, rt,
/// HI and LO; `None` for the other SPECIAL instructions.
pub open spec fn special_value(opcode: u32, s: u32, t: u32, hi: u32, lo: u32) -> Option<u32> {
    let f = opcode & 0x3f;
    let shamt = (opcode >> 6u32) & 0x1f;
    if f == 0x00 {
        Some(t << shamt)
    } else if f == 0x02 {
        Some(t >> shamt)
    } else if f == 0x03 {
        Some(((t as i32) >> (shamt as i32)) as u32)
    } else if f == 0x04 {
        Some(t << (s & 0x1f))
    } else if f == 0x06 {
        Some(t >> (s & 0x1f))
    } else if f == 0x07 {
        Some(((t as i32) >> ((s & 0x1f) as i32)) as u32)
    } else if f == 0x10 {
        Some(hi)
    } else if f == 0x12 {
        Some(lo)
    } else if f == 0x21 {
        Some(((s + t) % 0x1_0000_0000) as u32)
    } else if f == 0x23 {
        Some(((s - t + 0x1_0000_0000) % 0x1_0000_0000) as u32)
    } else if f == 0x24 {
        Some(s & t)
    } else if f == 0x25 {
        Some(s | t)
    } else if f == 0x26 {
        Some(s ^ t)
    } else if f == 0x27 {
        Some(!(s | t))
    } else if f == 0x2a {
        Some(slt_spec(s, t))
    } else if f == 0x2b {
        Some(sltu_spec(s, t))
    } else {
        None
    }
}

/// The result an immediate ALU instruction writes to rt, given rs; `None`
/// for other primary opcodes.
pub open spec fn immediate_value(opcode: u32, s: u32) -> Option<u32> {
    let op = opcode >> 26u32;
    if op == 0x09 {
        Some(((s + imm_se_spec(opcode)) % 0x1_0000_0000) as u32)
    } else if op == 0x0a {
        Some(slt_spec(s, imm_se_spec(opcode)))
    } else if op == 0x0b {
        Some(sltu_spec(s, imm_se_spec(opcode)))
    } else if op == 0x0c {
        Some(s & imm_z_spec(opcode))
    } else if op == 0x0d {
        Some(s | imm_z_spec(opcode))
    } else if op == 0x0e {
        Some(s ^ imm_z_spec(opcode))
    } else if op == 0x0f {
        Some(opcode << 16u32)
    } else {
        None
    }
}

/// HI and LO after a multiplication: the 64-bit product's halves.
pub open spec fn mult_spec(s: u32, t: u32, signed: bool) -> (u32, u32) {
    let u: u64 = if signed { ((s as i32) * (t as i32)) as u64 } else { (s * t) as u64 };
    ((u >> 32u64) as u32, u as u32)
}

/// Division truncating toward zero.
pub open spec fn trunc_div(n: int, d: int) -> int {
    let q = (if n < 0 { -n } else { n }) / (if d < 0 { -d } else { d });
    if (n < 0) == (d < 0) { q } else { -q }
}

/// HI and LO after a division: remainder and quotient, with the fixed
/// results for division by zero (LO = -1, or 1 for a negative signed
/// dividend; HI = dividend) and the wrapped quotient of -2^31 / -1.
pub open spec fn div_spec(n: u32, d: u32, signed: bool) -> (u32, u32) {
    if d == 0 {
        (n, if signed && (n as i32) < 0 { 1u32 } else { 0xffff_ffffu32 })
    } else if signed {
        let q = trunc_div(n as i32 as int, d as i32 as int);
        let r = (n as i32) - (d as i32) * q;
        (r as u32, q as u32)
    } else {
        (n % d, n / d)
    }
}

/// A branch target: the delay slot's address plus the offset in words.
pub open spec fn branch_offset(opcode: u32) -> u32 {
    ((opcode as u16 as i16 as i32) * 4) as u32
}

impl Cpu {
    pub open spec fn wf(&self) -> bool {
        &&& self.gte.wf()
        &&& match self.load_delay {
            Some((r, v)) => 0 < r < 32,
            None => true,
        }
        &&& match self.load_delay_merge {
            Some((r, v)) => 0 < r < 32,
            None => true,
        }
    }

    /// A register as instructions read it: r0 is always zero.
    pub open spec fn spec_reg(&self, index: int) -> u32 {
        if index == 0 { 0 } else { self.regs[index] }
    }

    /// The power-on state: the reset vector, clear registers, COP0 and GTE reset.
    pub open spec fn is_reset(&self) -> bool {
        &&& forall|i: int| 0 <= i < 32 ==> #[trigger] self.regs[i] == 0
        &&& self.hi == 0 && self.lo == 0
        &&& self.pc == 0xbfc0_0000 && self.next_pc == 0xbfc0_0004
        &&& self.cop0.is_reset()
        &&& self.gte.wf()
        &&& forall|i: int| 0 <= i < 32 ==> #[trigger] self.gte.data[i] == 0 && self.gte.control[i] == 0
        &&& self.load_delay is None && self.load_delay_merge is None
        &&& self.reg_write_mask == 0
        &&& !self.in_delay_slot && !self.in_delay_slot_branch_taken && self.in_delay_slot_branch_target == 0
        &&& !self.next_is_delay_slot && !self.next_delay_slot_branch_taken && self.next_delay_slot_branch_target == 0
        &&& !self.halted
    }

    /// The CPU right after an exception was taken at the handler `vector`.
    pub open spec fn entered_handler(&self, vector: u32) -> bool {
        &&& self.pc == vector
        &&& self.next_pc == ((vector + 4) % 0x1_0000_0000) as u32
        &&& !self.in_delay_slot && !self.next_is_delay_slot
        &&& self.load_delay is None && self.load_delay_merge is None
    }

    pub fn new() -> (r: Self)
        ensures
            r.wf(),
            r.is_reset(),
    {
        Cpu {
            regs: [0u32; 32],
            hi: 0,
            lo: 0,
            pc: 0xbfc0_0000,
            next_pc: 0xbfc0_0004,
            cop0: Cop0::new(),
            gte: Gte::new(),
            load_delay: None,
            load_delay_merge: None,
            reg_write_mask: 0,
            in_delay_slot: false,
            in_delay_slot_branch_taken: false,
            in_delay_slot_branch_target: 0,
            next_is_delay_slot: false,
            next_delay_slot_branch_taken: false,
            next_delay_slot_branch_target: 0,
            halted: false,
        }
    }

    pub fn reset(&mut self)
        ensures
            final(self).wf(),
            final(self).is_reset(),
    {
        *self = Self::new();
    }

    /// Jumps to `pc` with no branch or load in flight.
    pub fn set_pc(&mut self, pc: u32)
        requires
            old(self).wf(),
        ensures
            final(self).wf(),
            *final(self) == (Cpu {
                pc,
                next_pc: pc.wrapping_add(4),
                in_delay_slot: false,
                in_delay_slot_branch_taken: false,
                in_delay_slot_branch_target: 0,
                next_is_delay_slot: false,
                next_delay_slot_branch_taken: false,
                next_delay_slot_branch_target: 0,
                load_delay: None,
                load_delay_merge: None,
                reg_write_mask: 0,
                ..*old(self)
            }),
    {
        self.pc = pc;
        self.next_pc = pc.wrapping_add(4);
        self.in_delay_slot = false;
        self.in_delay_slot_branch_taken = false;
        self.in_delay_slot_branch_target = 0;
        self.next_is_delay_slot = false;
        self.next_delay_slot_branch_taken = false;
        self.next_delay_slot_branch_target = 0;
        self.load_delay = None;
        self.load_delay_merge = None;
        self.reg_write_mask = 0;
    }

    fn reg(&self, index: usize) -> (r: u32)
        requires
            index < 32,
        ensures
            r == self.spec_reg(index as int),
    {
        if index == 0 {
            0
        } else {
            self.regs[index]
        }
    }

    fn set_reg(&mut self, index: usize, value: u32)
        requires
            index < 32,
        ensures
            final(self).regs@ == reg_update(old(self).regs@, index as int, value),
            index != 0 ==> final(self).reg_write_mask == old(self).reg_write_mask | (1u32 << index as u32),
            index == 0 ==> final(self).reg_write_mask == old(self).reg_write_mask,
            *final(self) == (Cpu { regs: final(self).regs, reg_write_mask: final(self).reg_write_mask, ..*old(self) }),
    {
        if index != 0 {
            self.reg_write_mask = self.reg_write_mask | (1u32 << (index as u32));
            self.regs[index] = value;
        }
    }

    fn write_reg_now(&mut self, index: usize, value: u32)
        requires
            index < 32,
        ensures
            final(self).regs@ == reg_update(old(self).regs@, index as int, value),
            *final(self) == (Cpu { regs: final(self).regs, ..*old(self) }),
    {
        if index != 0 {
            self.regs[index] = value;
        }
    }

    /// Schedules a load result for `index`, visible after the next instruction.
    fn set_load(&mut self, index: usize, value: u32)
        requires
            index < 32,
        ensures
            *final(self) == (Cpu {
                load_delay: if index != 0 { Some((index, value)) } else { old(self).load_delay },
                ..*old(self)
            }),
    {
        if index != 0 {
            self.load_delay = Some((index, value));
        }
    }

    /// The value LWL/LWR merge into: a load still in flight to the same
    /// register, else the register.
    fn load_merge_base(&self, index: usize) -> (r: u32)
        requires
            index < 32,
        ensures
            r == match self.load_delay {
                Some((p, v)) if p == index => v,
                _ => match self.load_delay_merge {
                    Some((p, v)) if p == index => v,
                    _ => self.spec_reg(index as int),
                },
            },
    {
        match self.load_delay {
            Some((pending, value)) => {
                if pending == index {
                    return value;
                }
            },
            None => {},
        }
        match self.load_delay_merge {
            Some((pending, value)) => {
                if pending == index {
                    return value;
                }
            },
            None => {},
        }
        self.reg(index)
    }
}

/// The register value after LWL merges `word` in at byte `offset`.
pub fn lwl_merge(base: u32, word: u32, offset: u32) -> (r: u32)
    ensures
        r == lwl_value(base, word, offset),
{
    if offset == 0 {
        (base & 0x00ff_ffff) | (word << 24u32)
    } else if offset == 1 {
        (base & 0x0000_ffff) | (word << 16u32)
    } else if offset == 2 {
        (base & 0x0000_00ff) | (word << 8u32)
    } else {
        word
    }
}

/// The register value after LWR merges `word` in at byte `offset`.
pub fn lwr_merge(base: u32, word: u32, offset: u32) -> (r: u32)
    ensures
        r == lwr_value(base, word, offset),
{
    if offset == 0 {
        word
    } else if offset == 1 {
        (base & 0xff00_0000) | (word >> 8u32)
    } else if offset == 2 {
        (base & 0xffff_0000) | (word >> 16u32)
    } else {
        (base & 0xffff_ff00) | (word >> 24u32)
    }
}

pub fn rs(opcode: u32) -> (r: usize)
    ensures
        r == rs_spec(opcode),
        r < 32,
{
    ((opcode >> 21u32) & 0x1f) as usize
}

pub fn rt(opcode: u32) -> (r: usize)
    ensures
        r == rt_spec(opcode),
        r < 32,
{
    ((opcode >> 16u32) & 0x1f) as usize
}

pub fn rd(opcode: u32) -> (r: usize)
    ensures
        r == rd_spec(opcode),
        r < 32,
{
    ((opcode >> 11u32) & 0x1f) as usize
}

pub fn imm_se(opcode: u32) -> (r: u32)
    ensures
        r == imm_se_spec(opcode),
{
    (opcode as u16 as i16 as i32) as u32
}

pub fn imm_z(opcode: u32) -> (r: u32)
    ensures
        r == imm_z_spec(opcode),
{
    opcode & 0xffff
}

/// The effective address of a load or store: rs plus the signed offset.
pub fn ea(cpu: &Cpu, opcode: u32) -> (r: u32)
    ensures
        r == ((cpu.spec_reg(rs_spec(opcode)) + imm_se_spec(opcode)) % 0x1_0000_0000) as u32,
{
    cpu.reg(rs(opcode)).wrapping_add(imm_se(opcode))
}

pub fn slt_signed(a: u32, b: u32) -> (r: u32)
    ensures
        r == slt_spec(a, b),
{
    if (a as i32) < (b as i32) {
        1
    } else {
        0
    }
}

pub fn add_overflow(a: u32, b: u32, result: u32) -> (r: bool)
    ensures
        r == add_overflow_spec(a, b, result),
{
    ((a ^ result) & (b ^ result) & 0x8000_0000) != 0
}

/// The overflow test of ADD, ADDI and SUB is exactly signed 32-bit
/// overflow of the sum.
pub proof fn lemma_add_overflow_is_signed_overflow(a: u32, b: u32)
    ensures
        add_overflow_spec(a, b, ((a + b) % 0x1_0000_0000) as u32) <==> !(i32::MIN <= (a as i32) + (b as i32)
            <= i32::MAX),
{
    let r: u32 = ((a + b) % 0x1_0000_0000) as u32;
    assert(r == ((a + b) % 0x1_0000_0000) as u32 ==> ((a ^ r) & (b ^ r) & 0x8000_0000 != 0 <==> !(i32::MIN <= (a
        as i32) + (b as i32) <= i32::MAX))) by (bit_vector);
}

} // verus!

verus! {

impl Cpu {
    /// Takes an exception: COP0 records it (with the delay-slot state of the
    /// faulting instruction) and execution continues at the handler with
    /// nothing in flight.
    fn raise_exception(&mut self, exception: Exception, pc: u32, bad_vaddr: Option<u32>, coprocessor: Option<u8>)
        requires
            old(self).wf(),
        ensures
            final(self).wf(),
            took_exception(*old(self), *final(self), exception, pc, bad_vaddr, coprocessor),
    {
        let vector = self.cop0.enter_exception(ExceptionContext {
            exception,
            epc: pc,
            in_delay_slot: self.in_delay_slot,
            delay_slot_branch_taken: self.in_delay_slot_branch_taken,
            delay_slot_branch_target: self.in_delay_slot_branch_target,
            bad_vaddr,
            coprocessor,
        });
        self.pc = vector;
        self.next_pc = vector.wrapping_add(4);
        self.in_delay_slot = false;
        self.in_delay_slot_branch_taken = false;
        self.in_delay_slot_branch_target = 0;
        self.next_is_delay_slot = false;
        self.next_delay_slot_branch_taken = false;
        self.next_delay_slot_branch_target = 0;
        self.load_delay = None;
        self.load_delay_merge = None;
        self.reg_write_mask = 0;
    }

    /// A conditional branch: the next instruction is a delay slot, and when
    /// taken the one after it is at the target.
    fn branch(&mut self, condition: bool, opcode: u32, pc: u32)
        ensures
            branch_done(*old(self), condition, opcode, pc, *final(self)),
    {
        self.next_is_delay_slot = true;
        if condition {
            let offset = ((opcode as u16 as i16 as i32) * 4) as u32;
            let target = if self.in_delay_slot {
                self.pc.wrapping_add(offset)
            } else {
                pc.wrapping_add(4).wrapping_add(offset)
            };
            self.next_pc = target;
            self.next_delay_slot_branch_taken = true;
            self.next_delay_slot_branch_target = target;
        } else {
            self.next_delay_slot_branch_taken = false;
            self.next_delay_slot_branch_target = 0;
        }
    }

    /// An unconditional jump to `target` after the delay slot.
    fn branch_to(&mut self, target: u32)
        ensures
            *final(self) == (Cpu {
                next_pc: target,
                next_is_delay_slot: true,
                next_delay_slot_branch_taken: true,
                next_delay_slot_branch_target: target,
                ..*old(self)
            }),
    {
        self.next_pc = target;
        self.next_is_delay_slot = true;
        self.next_delay_slot_branch_taken = true;
        self.next_delay_slot_branch_target = target;
    }

    /// J / JAL: the target's low 28 bits come from the instruction.
    fn jump(&mut self, opcode: u32, link: bool)
        ensures
            jump_done(*old(self), opcode, link, *final(self)),
    {
        if link {
            self.set_reg(31, self.pc.wrapping_add(4));
        }
        let target = (self.pc & 0xf000_0000) | ((opcode & 0x03ff_ffff) << 2u32);
        self.branch_to(target);
    }

    fn addi(&mut self, opcode: u32, pc: u32, trap_on_overflow: bool)
        requires
            old(self).wf(),
        ensures
            final(self).wf(),
            addi_done(*old(self), opcode, pc, trap_on_overflow, *final(self)),
    {
        let a = self.reg(rs(opcode));
        let b = imm_se(opcode);
        let result = a.wrapping_add(b);
        if trap_on_overflow && add_overflow(a, b, result) {
            self.raise_exception(Exception::Overflow, pc, None, None);
        } else {
            self.set_reg(rt(opcode), result);
        }
    }

    fn add_sub(&mut self, opcode: u32, pc: u32, add: bool, trap_on_overflow: bool)
        requires
            old(self).wf(),
        ensures
            final(self).wf(),
            ({
                let s = old(self).spec_reg(rs_spec(opcode));
                let t = old(self).spec_reg(rt_spec(opcode));
                let operand = if add { t } else { (((!t) as int + 1) % 0x1_0000_0000) as u32 };
                let result = if add {
                    ((s + t) % 0x1_0000_0000) as u32
                } else {
                    ((s - t + 0x1_0000_0000) % 0x1_0000_0000) as u32
                };
                if trap_on_overflow && add_overflow_spec(s, operand, result) {
                    took_exception(*old(self), *final(self), Exception::Overflow, pc, None, None)
                } else {
                    &&& final(self).regs@ == reg_update(old(self).regs@, rd_spec(opcode), result)
                    &&& final(self).reg_write_mask == mask_with(old(self).reg_write_mask, rd_spec(opcode))
                    &&& *final(self) == (Cpu { regs: final(self).regs, reg_write_mask: final(self).reg_write_mask, ..*old(self) })
                }
            }),
    {
        let a = self.reg(rs(opcode));
        let b = self.reg(rt(opcode));
        let (operand, result) = if add {
            (b, a.wrapping_add(b))
        } else {
            ((!b).wrapping_add(1), a.wrapping_sub(b))
        };
        if trap_on_overflow && add_overflow(a, operand, result) {
            self.raise_exception(Exception::Overflow, pc, None, None);
        } else {
            self.set_reg(rd(opcode), result);
        }
    }

    fn mult(&mut self, opcode: u32, signed: bool)
        ensures
            (final(self).hi, final(self).lo) == mult_spec(
                old(self).spec_reg(rs_spec(opcode)),
                old(self).spec_reg(rt_spec(opcode)),
                signed,
            ),
            *final(self) == (Cpu { hi: final(self).hi, lo: final(self).lo, ..*old(self) }),
    {
        let a = self.reg(rs(opcode));
        let b = self.reg(rt(opcode));
        let result: u64 = if signed {
            proof {
                crate::bits::lemma_mul_bounds(a as i32 as int, b as i32 as int, 0x8000_0000, 0x8000_0000);
            }
            let p: i64 = (a as i32 as i64) * (b as i32 as i64);
            p as u64
        } else {
            proof {
                crate::bits::lemma_mul_bounds(a as int, b as int, 0xffff_ffff, 0xffff_ffff);
            }
            (a as u64) * (b as u64)
        };
        self.lo = result as u32;
        self.hi = (result >> 32u64) as u32;
    }

    fn div(&mut self, opcode: u32, signed: bool)
        ensures
            (final(self).hi, final(self).lo) == div_spec(
                old(self).spec_reg(rs_spec(opcode)),
                old(self).spec_reg(rt_spec(opcode)),
                signed,
            ),
            *final(self) == (Cpu { hi: final(self).hi, lo: final(self).lo, ..*old(self) }),
    {
        let n = self.reg(rs(opcode));
        let d = self.reg(rt(opcode));
        if d == 0 {
            self.lo = if signed && (n as i32) < 0 {
                1
            } else {
                0xffff_ffff
            };
            self.hi = n;
            return;
        }
        if signed {
            let sn = n as i32;
            let sd = d as i32;
            assert(sd != 0) by {
                assert((d as i32) as u32 == d);
            }
            let an: u32 = if sn < 0 { (0 - (sn as i64)) as u32 } else { sn as u32 };
            let ad: u32 = if sd < 0 { (0 - (sd as i64)) as u32 } else { sd as u32 };
            let q_abs = an / ad;
            let q: i64 = if (sn < 0) == (sd < 0) { q_abs as i64 } else { -(q_abs as i64) };
            proof {
                assert(0 <= q_abs <= 0x8000_0000);
                crate::bits::lemma_mul_bounds(sd as int, q as int, 0x8000_0000, 0x8000_0000);
            }
            let r: i64 = sn as i64 - (sd as i64) * q;
            self.lo = q as u32;
            self.hi = r as u32;
        } else {
            self.lo = n / d;
            self.hi = n % d;
        }
    }
}

} // verus!

verus! {

/// The effective address of a load or store: rs plus the sign-extended
/// immediate, wrapping.
pub open spec fn ea_spec(cpu: Cpu, opcode: u32) -> u32 {
    ((cpu.spec_reg(rs_spec(opcode)) + imm_se_spec(opcode)) % 0x1_0000_0000) as u32
}

/// A loaded byte, sign- or zero-extended.
pub open spec fn extend8(value: u8, signed: bool) -> u32 {
    if signed { value as i8 as i32 as u32 } else { value as u32 }
}

/// A loaded half-word, sign- or zero-extended.
pub open spec fn extend16(value: u16, signed: bool) -> u32 {
    if signed { value as i16 as i32 as u32 } else { value as u32 }
}

/// The value a load merges into: a load still in flight to the same
/// register, else the one that just landed, else the register.
pub open spec fn merge_base(cpu: Cpu, index: int) -> u32 {
    match cpu.load_delay {
        Some((p, v)) if p == index => v,
        _ => match cpu.load_delay_merge {
            Some((p, v)) if p == index => v,
            _ => cpu.spec_reg(index),
        },
    }
}

/// LWL: the low bytes of the aligned memory word, up to the addressed one,
/// replace the top of the register.
pub open spec fn lwl_value(base: u32, word: u32, offset: u32) -> u32 {
    if offset == 0 {
        (base & 0x00ff_ffff) | (word << 24u32)
    } else if offset == 1 {
        (base & 0x0000_ffff) | (word << 16u32)
    } else if offset == 2 {
        (base & 0x0000_00ff) | (word << 8u32)
    } else {
        word
    }
}

/// LWR: the high bytes of the aligned memory word, from the addressed one,
/// replace the bottom of the register.
pub open spec fn lwr_value(base: u32, word: u32, offset: u32) -> u32 {
    if offset == 0 {
        word
    } else if offset == 1 {
        (base & 0xff00_0000) | (word >> 8u32)
    } else if offset == 2 {
        (base & 0xffff_0000) | (word >> 16u32)
    } else {
        (base & 0xffff_ff00) | (word >> 24u32)
    }
}

/// SWL on RAM byte `i` (the addressed one, `offset` bytes into its word):
/// the register's high bytes go to the addressed byte and those below it.
pub open spec fn swl_ram(ram: Seq<u8>, i: int, value: u32, offset: u32) -> Seq<u8> {
    if offset == 0 {
        ram.update(i, (value >> 24u32) as u8)
    } else if offset == 1 {
        ram.update(i - 1, (value >> 16u32) as u8).update(i, (value >> 24u32) as u8)
    } else {
        ram.update(i - 2, (value >> 8u32) as u8).update(i - 1, (value >> 16u32) as u8).update(i, (value >> 24u32) as u8)
    }
}

/// SWR on RAM byte `i`: the register's low bytes go to the addressed byte
/// and those above it.
pub open spec fn swr_ram(ram: Seq<u8>, i: int, value: u32, offset: u32) -> Seq<u8> {
    if offset == 1 {
        ram.update(i, value as u8).update(i + 1, (value >> 8u32) as u8).update(i + 2, (value >> 16u32) as u8)
    } else if offset == 2 {
        ram.update(i, value as u8).update(i + 1, (value >> 8u32) as u8)
    } else {
        ram.update(i, value as u8)
    }
}

/// Bytes of one aligned word lie next to each other in physical memory, and
/// in main RAM in the same mirror.
proof fn lemma_word_bytes_contiguous(addr: u32, k: int)
    requires
        -(addr % 4) <= k <= 3 - addr % 4,
    ensures
        physical_addr_spec((addr + k) as u32) == physical_addr_spec(addr) + k,
        is_ram(physical_addr_spec(addr)) ==> is_ram(physical_addr_spec((addr + k) as u32)) && physical_addr_spec(
            (addr + k) as u32,
        ) % 0x20_0000 == physical_addr_spec(addr) % 0x20_0000 + k,
{
    let q = addr / 4;
    vstd::arithmetic::div_mod::lemma_fundamental_div_mod(addr as int, 4);
    let p = physical_addr_spec(addr) as int;
    assert(p % 4 == addr % 4) by {
        vstd::arithmetic::div_mod::lemma_fundamental_div_mod(p, 4);
    }
    if is_ram(physical_addr_spec(addr)) {
        let m = p / 0x20_0000;
        vstd::arithmetic::div_mod::lemma_fundamental_div_mod(p, 0x20_0000);
        let r = p % 0x20_0000;
        assert(r % 4 == p % 4) by {
            vstd::arithmetic::div_mod::lemma_fundamental_div_mod(r, 4);
            vstd::arithmetic::div_mod::lemma_fundamental_div_mod(p, 4);
        }
        vstd::arithmetic::div_mod::lemma_fundamental_div_mod(r, 4);
        vstd::arithmetic::div_mod::lemma_fundamental_div_mod_converse(p + k, 0x20_0000, m, r + k);
    }
}

/// The CPU `n` after `o` took `exception` at `pc`: COP0 records it (with
/// the delay-slot state of the faulting instruction, EPC and BadVaddr) and
/// execution continues at the handler with nothing in flight; registers,
/// HI, LO and the GTE are untouched.
pub open spec fn took_exception(
    o: Cpu,
    n: Cpu,
    exception: Exception,
    pc: u32,
    bad_vaddr: Option<u32>,
    coprocessor: Option<u8>,
) -> bool {
    let vector = if cop0::exception_status(o.cop0.regs[12]) & cop0::STATUS_BEV != 0 {
        0xbfc0_0180u32
    } else {
        0x8000_0080u32
    };
    &&& n.entered_handler(vector)
    &&& n.cop0.regs[14] == if o.in_delay_slot { pc.wrapping_sub(4) } else { pc }
    &&& n.cop0.regs[13] == cop0::exception_cause(
        o.cop0.regs[13],
        ExceptionContext {
            exception,
            epc: pc,
            in_delay_slot: o.in_delay_slot,
            delay_slot_branch_taken: o.in_delay_slot_branch_taken,
            delay_slot_branch_target: o.in_delay_slot_branch_target,
            bad_vaddr,
            coprocessor,
        },
    )
    &&& n.cop0.regs[12] == cop0::exception_status(o.cop0.regs[12])
    &&& n.cop0.regs[8] == match bad_vaddr {
        Some(a) => a,
        None => o.cop0.regs[8],
    }
    &&& n.regs == o.regs
    &&& n.hi == o.hi && n.lo == o.lo
    &&& n.gte == o.gte
    &&& n.cop0.regs[6] == if o.in_delay_slot && o.in_delay_slot_branch_taken {
        o.in_delay_slot_branch_target
    } else {
        o.cop0.regs[6]
    }
    &&& forall|i: int|
        0 <= i < 16 && i != 6 && i != 8 && i != 12 && i != 13 && i != 14 ==> #[trigger] n.cop0.regs[i] == o.cop0.regs[i]
    &&& n == (Cpu {
        pc: vector,
        next_pc: n.next_pc,
        cop0: n.cop0,
        load_delay: None,
        load_delay_merge: None,
        in_delay_slot: false,
        in_delay_slot_branch_taken: false,
        in_delay_slot_branch_target: 0,
        next_is_delay_slot: false,
        next_delay_slot_branch_taken: false,
        next_delay_slot_branch_target: 0,
        reg_write_mask: 0,
        ..o
    })
}

/// The handler address of an exception taken with status register `sr`.
pub open spec fn exception_vector(sr: u32) -> u32 {
    if cop0::exception_status(sr) & cop0::STATUS_BEV != 0 { 0xbfc0_0180u32 } else { 0x8000_0080u32 }
}

impl Cpu {
    fn data_read8(&self, bus: &mut Bus, addr: u32) -> (r: u8)
        requires
            old(bus).wf(),
        ensures
            final(bus).wf(),
            final(bus).ram@ == old(bus).ram@,
            self.cop0.spec_cache_isolated() ==> *final(bus) == *old(bus) && r == isolated_read8_spec(*old(bus), addr),
            !self.cop0.spec_cache_isolated() && !is_io(physical_addr_spec(addr)) ==> r == old(bus).memory_byte(
                physical_addr_spec(addr),
            ) && *final(bus) == (Bus { open_bus: final(bus).open_bus, ..*old(bus) }),
            data_byte_read(*self, *old(bus), addr, *final(bus), r),
    {
        proof {
            reveal(data_byte_read);
        }
        if self.cop0.cache_isolated() {
            bus.isolated_cache_read8(addr)
        } else {
            bus.read8(addr)
        }
    }

    fn data_read16(&self, bus: &mut Bus, addr: u32) -> (r: u16)
        requires
            old(bus).wf(),
        ensures
            final(bus).wf(),
            final(bus).ram@ == old(bus).ram@,
            self.cop0.spec_cache_isolated() ==> *final(bus) == *old(bus) && r == (isolated_read8_spec(*old(bus), addr) as u16)
                | ((isolated_read8_spec(*old(bus), ((addr + 1) % 0x1_0000_0000) as u32) as u16) << 8u16),
            !self.cop0.spec_cache_isolated() && is_ram(physical_addr_spec(addr)) && addr % 2 == 0 ==> r == old(bus).ram_half(
                physical_addr_spec(addr),
            ),
            data_half_read(*self, *old(bus), addr, *final(bus), r),
    {
        proof {
            reveal(data_half_read);
        }
        if self.cop0.cache_isolated() {
            bus.isolated_cache_read16(addr)
        } else {
            bus.read16(addr)
        }
    }

    fn data_read32(&self, bus: &mut Bus, addr: u32) -> (r: u32)
        requires
            old(bus).wf(),
        ensures
            final(bus).wf(),
            final(bus).ram@ == old(bus).ram@,
            self.cop0.spec_cache_isolated() ==> *final(bus) == *old(bus) && r == isolated_read_spec(*old(bus), addr),
            !self.cop0.spec_cache_isolated() && is_ram(physical_addr_spec(addr)) && addr % 4 == 0 ==> r == old(bus).ram_word(
                physical_addr_spec(addr),
            ),
            data_word_read(*self, *old(bus), addr, *final(bus), r),
    {
        proof {
            reveal(data_word_read);
        }
        if self.cop0.cache_isolated() {
            bus.isolated_cache_read32(addr)
        } else {
            bus.read32(addr)
        }
    }

    fn data_write8(&self, bus: &mut Bus, addr: u32, value: u8)
        requires
            old(bus).wf(),
        ensures
            final(bus).wf(),
            self.cop0.spec_cache_isolated() ==> final(bus).ram@ == old(bus).ram@,
            !self.cop0.spec_cache_isolated() && is_ram(physical_addr_spec(addr)) ==> final(bus).ram@ == old(bus).ram@.update(
                (physical_addr_spec(addr) % 0x20_0000) as int,
                value,
            ),
            data_byte_written(*self, *old(bus), addr, value, *final(bus)),
    {
        proof {
            reveal(data_byte_written);
        }
        if self.cop0.cache_isolated() {
            bus.isolated_cache_write8(addr, value);
        } else {
            bus.write8(addr, value);
        }
    }

    fn data_write16(&self, bus: &mut Bus, addr: u32, value: u16)
        requires
            old(bus).wf(),
        ensures
            final(bus).wf(),
            self.cop0.spec_cache_isolated() ==> final(bus).ram@ == old(bus).ram@,
            !self.cop0.spec_cache_isolated() && is_ram(physical_addr_spec(addr)) && addr % 2 == 0 ==> {
                let i = (physical_addr_spec(addr) % 0x20_0000) as int;
                final(bus).ram@ == old(bus).ram@.update(i, value as u8).update(i + 1, (value >> 8u16) as u8)
            },
            data_half_written(*self, *old(bus), addr, value, *final(bus)),
    {
        proof {
            reveal(data_half_written);
        }
        if self.cop0.cache_isolated() {
            bus.isolated_cache_write16(addr, value);
        } else {
            bus.write16(addr, value);
        }
    }

    /// Stores go to the isolated cache instead of memory while COP0 isolates it.
    fn data_write32(&self, bus: &mut Bus, addr: u32, value: u32)
        requires
            old(bus).wf(),
        ensures
            final(bus).wf(),
            !self.cop0.spec_cache_isolated() && is_ram(physical_addr_spec(addr)) && addr % 4 == 0 ==> final(bus).ram_word(
                physical_addr_spec(addr),
            ) == value,
            self.cop0.spec_cache_isolated() ==> final(bus).ram@ == old(bus).ram@,
            data_word_written(*self, *old(bus), addr, value, *final(bus)),
    {
        proof {
            reveal(data_word_written);
        }
        if self.cop0.cache_isolated() {
            bus.isolated_cache_write32(addr, value);
        } else {
            bus.write32(addr, value);
        }
    }

    /// LB/LBU: a byte, sign- or zero-extended, is scheduled for rt.
    fn load8(&mut self, opcode: u32, bus: &mut Bus, signed: bool)
        requires
            old(self).wf(),
            old(bus).wf(),
        ensures
            final(self).wf(),
            final(bus).wf(),
            load8_done(*old(self), *old(bus), opcode, signed, *final(self), *final(bus)),
    {
        let addr = ea(self, opcode);
        let value = self.data_read8(bus, addr);
        let extended = if signed {
            value as i8 as i32 as u32
        } else {
            value as u32
        };
        self.set_load(rt(opcode), extended);
    }

    /// LH/LHU: an aligned half-word, sign- or zero-extended, is scheduled
    /// for rt; a misaligned address raises an address error.
    fn load16(&mut self, opcode: u32, bus: &mut Bus, pc: u32, signed: bool)
        requires
            old(self).wf(),
            old(bus).wf(),
        ensures
            final(self).wf(),
            final(bus).wf(),
            load16_done(*old(self), *old(bus), opcode, pc, signed, *final(self), *final(bus)),
    {
        let addr = ea(self, opcode);
        proof {
            crate::bits::lemma_mask_mod_u32(addr);
        }
        if (addr & 1) != 0 {
            self.raise_exception(Exception::AddressLoad, pc, Some(addr), None);
            return;
        }
        let value = self.data_read16(bus, addr);
        let extended = if signed {
            value as i16 as i32 as u32
        } else {
            value as u32
        };
        self.set_load(rt(opcode), extended);
    }

    /// LW: an aligned word is scheduled for rt after the next instruction; a
    /// misaligned address raises an address error with BadVaddr set.
    fn load32(&mut self, opcode: u32, bus: &mut Bus, pc: u32)
        requires
            old(self).wf(),
            old(bus).wf(),
        ensures
            final(self).wf(),
            final(bus).wf(),
            load32_done(*old(self), *old(bus), opcode, pc, *final(self), *final(bus)),
    {
        let addr = ea(self, opcode);
        proof {
            crate::bits::lemma_mask_mod_u32(addr);
        }
        if (addr & 3) != 0 {
            self.raise_exception(Exception::AddressLoad, pc, Some(addr), None);
            return;
        }
        let value = self.data_read32(bus, addr);
        self.set_load(rt(opcode), value);
    }

    /// LWL: the aligned word's low bytes go into the top of the register.
    #[verifier::spinoff_prover]
    fn lwl(&mut self, opcode: u32, bus: &mut Bus)
        requires
            old(self).wf(),
            old(bus).wf(),
        ensures
            final(self).wf(),
            final(bus).wf(),
            lwl_done(*old(self), *old(bus), opcode, *final(self), *final(bus)),
    {
        let addr = ea(self, opcode);
        proof {
            assert(addr & 3 == addr % 4) by {
                crate::bits::lemma_mask_mod_u32(addr);
            }
            assert((addr & !3u32) % 4 == 0) by {
                crate::bits::lemma_gpu_fields(addr);
            }
        }
        let aligned = addr & !3u32;
        let word = self.data_read32(bus, aligned);
        let merged = self.load_merge_base(rt(opcode));
        let value = lwl_merge(merged, word, addr & 3);
        self.set_load(rt(opcode), value);
    }

    /// LWR: the aligned word's high bytes go into the bottom of the register.
    #[verifier::spinoff_prover]
    fn lwr(&mut self, opcode: u32, bus: &mut Bus)
        requires
            old(self).wf(),
            old(bus).wf(),
        ensures
            final(self).wf(),
            final(bus).wf(),
            lwr_done(*old(self), *old(bus), opcode, *final(self), *final(bus)),
    {
        let addr = ea(self, opcode);
        proof {
            assert(addr & 3 == addr % 4) by {
                crate::bits::lemma_mask_mod_u32(addr);
            }
            assert((addr & !3u32) % 4 == 0) by {
                crate::bits::lemma_gpu_fields(addr);
            }
        }
        let aligned = addr & !3u32;
        let word = self.data_read32(bus, aligned);
        let merged = self.load_merge_base(rt(opcode));
        let value = lwr_merge(merged, word, addr & 3);
        self.set_load(rt(opcode), value);
    }

    /// SB: the low byte of rt is written.
    fn store8(&mut self, opcode: u32, bus: &mut Bus)
        requires
            old(self).wf(),
            old(bus).wf(),
        ensures
            final(self).wf(),
            final(bus).wf(),
            store8_done(*old(self), *old(bus), opcode, *final(self), *final(bus)),
    {
        let addr = ea(self, opcode);
        let value = self.reg(rt(opcode)) as u8;
        self.data_write8(bus, addr, value);
    }

    /// SH: the low half-word of rt is written to an aligned address; a
    /// misaligned one raises an address error and writes nothing.
    fn store16(&mut self, opcode: u32, bus: &mut Bus, pc: u32)
        requires
            old(self).wf(),
            old(bus).wf(),
        ensures
            final(self).wf(),
            final(bus).wf(),
            store16_done(*old(self), *old(bus), opcode, pc, *final(self), *final(bus)),
    {
        let addr = ea(self, opcode);
        proof {
            crate::bits::lemma_mask_mod_u32(addr);
        }
        if (addr & 1) != 0 {
            self.raise_exception(Exception::AddressStore, pc, Some(addr), None);
            return;
        }
        let value = self.reg(rt(opcode)) as u16;
        self.data_write16(bus, addr, value);
    }

    /// SW: an aligned word of rt is written; a misaligned address raises an
    /// address error with BadVaddr set and writes nothing.
    fn store32(&mut self, opcode: u32, bus: &mut Bus, pc: u32)
        requires
            old(self).wf(),
            old(bus).wf(),
        ensures
            final(self).wf(),
            final(bus).wf(),
            store32_done(*old(self), *old(bus), opcode, pc, *final(self), *final(bus)),
    {
        let addr = ea(self, opcode);
        proof {
            crate::bits::lemma_mask_mod_u32(addr);
        }
        if (addr & 3) != 0 {
            self.raise_exception(Exception::AddressStore, pc, Some(addr), None);
            return;
        }
        let value = self.reg(rt(opcode));
        self.data_write32(bus, addr, value);
    }

    /// SWL: the register's high bytes go to the low end of the aligned word.
    fn swl(&mut self, opcode: u32, bus: &mut Bus)
        requires
            old(self).wf(),
            old(bus).wf(),
        ensures
            final(self).wf(),
            final(bus).wf(),
            swl_done(*old(self), *old(bus), opcode, *final(self), *final(bus)),
    {
        let addr = ea(self, opcode);
        let value = self.reg(rt(opcode));
        proof {
            assert(addr & 3 == addr % 4) by {
                crate::bits::lemma_mask_mod_u32(addr);
            }
            assert((addr & !3u32) % 4 == 0) by {
                crate::bits::lemma_gpu_fields(addr);
            }
            if addr % 4 >= 1 {
                lemma_word_bytes_contiguous(addr, -1);
            }
            if addr % 4 >= 2 {
                lemma_word_bytes_contiguous(addr, -2);
            }
        }
        if (addr & 3) == 0 {
            self.data_write8(bus, addr, (value >> 24u32) as u8);
        } else if (addr & 3) == 1 {
            self.data_write8(bus, addr - 1, (value >> 16u32) as u8);
            let ghost b1 = *bus;
            self.data_write8(bus, addr, (value >> 24u32) as u8);
            assert(data_byte_written(*self, b1, addr, (value >> 24u32) as u8, *bus));
        } else if (addr & 3) == 2 {
            self.data_write8(bus, addr - 2, (value >> 8u32) as u8);
            let ghost b1 = *bus;
            self.data_write8(bus, addr - 1, (value >> 16u32) as u8);
            let ghost b2 = *bus;
            self.data_write8(bus, addr, (value >> 24u32) as u8);
            assert(data_byte_written(*self, b1, (addr - 1) as u32, (value >> 16u32) as u8, b2));
        } else {
            self.data_write32(bus, addr & !3u32, value);
        }
    }

    /// SWR: the register's low bytes go to the high end of the aligned word.
    fn swr(&mut self, opcode: u32, bus: &mut Bus)
        requires
            old(self).wf(),
            old(bus).wf(),
        ensures
            final(self).wf(),
            final(bus).wf(),
            swr_done(*old(self), *old(bus), opcode, *final(self), *final(bus)),
    {
        let addr = ea(self, opcode);
        let value = self.reg(rt(opcode));
        proof {
            assert(addr & 3 == addr % 4) by {
                crate::bits::lemma_mask_mod_u32(addr);
            }
            if addr % 4 <= 2 {
                lemma_word_bytes_contiguous(addr, 1);
            }
            if addr % 4 <= 1 {
                lemma_word_bytes_contiguous(addr, 2);
            }
        }
        if (addr & 3) == 0 {
            self.data_write32(bus, addr, value);
        } else if (addr & 3) == 1 {
            self.data_write8(bus, addr, value as u8);
            let ghost b1 = *bus;
            self.data_write8(bus, addr + 1, (value >> 8u32) as u8);
            let ghost b2 = *bus;
            self.data_write8(bus, addr + 2, (value >> 16u32) as u8);
            assert(data_byte_written(*self, b1, (addr + 1) as u32, (value >> 8u32) as u8, b2));
        } else if (addr & 3) == 2 {
            self.data_write8(bus, addr, value as u8);
            let ghost b1 = *bus;
            self.data_write8(bus, addr + 1, (value >> 8u32) as u8);
            assert(data_byte_written(*self, b1, (addr + 1) as u32, (value >> 8u32) as u8, *bus));
        } else {
            self.data_write8(bus, addr, value as u8);
        }
    }

    /// LWC2: an aligned word to a GTE data register.
    fn lwc2(&mut self, opcode: u32, bus: &mut Bus, pc: u32)
        requires
            old(self).wf(),
            old(bus).wf(),
        ensures
            final(self).wf(),
            final(bus).wf(),
            lwc2_done(*old(self), *old(bus), opcode, pc, *final(self), *final(bus)),
    {
        let addr = ea(self, opcode);
        proof {
            assert(addr & 3 == addr % 4) by {
                crate::bits::lemma_mask_mod_u32(addr);
            }
        }
        if (addr & 3) != 0 {
            self.raise_exception(Exception::AddressLoad, pc, Some(addr), None);
            return;
        }
        let value = self.data_read32(bus, addr);
        self.gte.write_data(rt(opcode), value);
    }

    /// SWC2: a GTE data register to an aligned word.
    fn swc2(&mut self, opcode: u32, bus: &mut Bus, pc: u32)
        requires
            old(self).wf(),
            old(bus).wf(),
        ensures
            final(self).wf(),
            final(bus).wf(),
            swc2_done(*old(self), *old(bus), opcode, pc, *final(self), *final(bus)),
    {
        let addr = ea(self, opcode);
        proof {
            assert(addr & 3 == addr % 4) by {
                crate::bits::lemma_mask_mod_u32(addr);
            }
        }
        if (addr & 3) != 0 {
            self.raise_exception(Exception::AddressStore, pc, Some(addr), None);
            return;
        }
        let value = self.gte.read_data(rt(opcode));
        self.data_write32(bus, addr, value);
    }
}

} // verus!

verus! {

impl Cpu {
    /// The SPECIAL group: shifts, jumps through registers, SYSCALL and
    /// BREAK, HI/LO moves, multiply and divide, and three-register ALU ops.
    fn execute_special(&mut self, opcode: u32, pc: u32)
        requires
            old(self).wf(),
        ensures
            final(self).wf(),
            special_done(*old(self), opcode, pc, *final(self)),
    {
        let shamt = (opcode >> 6u32) & 0x1f;
        let f = opcode & 0x3f;
        let d = rd(opcode);
        let s = self.reg(rs(opcode));
        let t = self.reg(rt(opcode));
        if f == 0x00 {
            self.set_reg(d, t << shamt);
        } else if f == 0x02 {
            self.set_reg(d, t >> shamt);
        } else if f == 0x03 {
            self.set_reg(d, ((t as i32) >> (shamt as i32)) as u32);
        } else if f == 0x04 {
            self.set_reg(d, t << (s & 0x1f));
        } else if f == 0x06 {
            self.set_reg(d, t >> (s & 0x1f));
        } else if f == 0x07 {
            self.set_reg(d, ((t as i32) >> ((s & 0x1f) as i32)) as u32);
        } else if f == 0x08 {
            self.branch_to(s);
        } else if f == 0x09 {
            let link = self.pc.wrapping_add(4);
            self.branch_to(s);
            self.set_reg(if d == 0 { 31 } else { d }, link);
        } else if f == 0x0c {
            self.raise_exception(Exception::Syscall, pc, None, None);
        } else if f == 0x0d {
            self.raise_exception(Exception::Break, pc, None, None);
        } else if f == 0x10 {
            self.set_reg(d, self.hi);
        } else if f == 0x11 {
            self.hi = s;
        } else if f == 0x12 {
            self.set_reg(d, self.lo);
        } else if f == 0x13 {
            self.lo = s;
        } else if f == 0x18 {
            self.mult(opcode, true);
        } else if f == 0x19 {
            self.mult(opcode, false);
        } else if f == 0x1a {
            self.div(opcode, true);
        } else if f == 0x1b {
            self.div(opcode, false);
        } else if f == 0x20 {
            self.add_sub(opcode, pc, true, true);
        } else if f == 0x21 {
            self.add_sub(opcode, pc, true, false);
        } else if f == 0x22 {
            self.add_sub(opcode, pc, false, true);
        } else if f == 0x23 {
            self.add_sub(opcode, pc, false, false);
        } else if f == 0x24 {
            self.set_reg(d, s & t);
        } else if f == 0x25 {
            self.set_reg(d, s | t);
        } else if f == 0x26 {
            self.set_reg(d, s ^ t);
        } else if f == 0x27 {
            self.set_reg(d, !(s | t));
        } else if f == 0x2a {
            self.set_reg(d, slt_signed(s, t));
        } else if f == 0x2b {
            self.set_reg(d, if s < t { 1 } else { 0 });
        } else {
            self.raise_exception(Exception::ReservedInstruction, pc, None, None);
        }
    }

    /// BLTZ, BGEZ, BLTZAL and BGEZAL (the linking forms link whether or not taken).
    fn execute_bcondz(&mut self, opcode: u32, pc: u32)
        requires
            old(self).wf(),
        ensures
            final(self).wf(),
            bcondz_done(*old(self), opcode, pc, *final(self)),
    {
        let value = self.reg(rs(opcode)) as i32;
        let kind = rt(opcode);
        if kind == 0x00 {
            self.branch(value < 0, opcode, pc);
        } else if kind == 0x01 {
            self.branch(value >= 0, opcode, pc);
        } else if kind == 0x10 {
            self.set_reg(31, self.pc.wrapping_add(4));
            self.branch(value < 0, opcode, pc);
        } else if kind == 0x11 {
            self.set_reg(31, self.pc.wrapping_add(4));
            self.branch(value >= 0, opcode, pc);
        } else {
            self.raise_exception(Exception::ReservedInstruction, pc, None, None);
        }
    }

    /// COP0: MFC0 (a load-delayed read that may fault), MTC0, and RFE.
    fn execute_cop0(&mut self, opcode: u32, pc: u32)
        requires
            old(self).wf(),
        ensures
            final(self).wf(),
            cop0_done(*old(self), opcode, pc, *final(self)),
    {
        let rs_field = rs(opcode);
        if rs_field == 0x00 {
            match self.cop0.read_checked(rd(opcode)) {
                Ok(value) => self.set_load(rt(opcode), value),
                Err(exception) => self.raise_exception(exception, pc, None, None),
            }
        } else if rs_field == 0x02 {
            self.raise_exception(Exception::ReservedInstruction, pc, None, None);
        } else if rs_field == 0x04 {
            let value = self.reg(rt(opcode));
            self.cop0.write(rd(opcode), value);
        } else if rs_field == 0x06 {
            self.raise_exception(Exception::ReservedInstruction, pc, None, None);
        } else if rs_field == 0x10 && (opcode & 0x3f) == 0x10 {
            self.cop0.rfe();
        } else if rs_field == 0x10 {
            self.raise_exception(Exception::ReservedInstruction, pc, None, None);
        } else {
            self.raise_exception(Exception::CoprocessorUnusable, pc, None, Some(0));
        }
    }

    /// COP2: MFC2/CFC2 (load-delayed), MTC2/CTC2, and GTE commands.
    fn execute_cop2(&mut self, opcode: u32, pc: u32)
        requires
            old(self).wf(),
        ensures
            final(self).wf(),
            cop2_done(*old(self), opcode, pc, *final(self)),
    {
        let kind = rs(opcode);
        if kind == 0x00 {
            let value = self.gte.read_data(rd(opcode));
            self.set_load(rt(opcode), value);
        } else if kind == 0x02 {
            let value = self.gte.read_control(rd(opcode));
            self.set_load(rt(opcode), value);
        } else if kind == 0x04 {
            let value = self.reg(rt(opcode));
            self.gte.write_data(rd(opcode), value);
        } else if kind == 0x06 {
            let value = self.reg(rt(opcode));
            self.gte.write_control(rd(opcode), value);
        } else if kind >= 0x10 {
            self.gte.execute_command(opcode);
        } else {
            self.raise_exception(Exception::CoprocessorUnusable, pc, None, Some(2));
        }
    }

    /// Decodes and executes one instruction; `pc` is its address.
    fn execute(&mut self, opcode: u32, bus: &mut Bus, pc: u32)
        requires
            old(self).wf(),
            old(bus).wf(),
        ensures
            final(self).wf(),
            final(bus).wf(),
            ({
                let s = old(self).spec_reg(rs_spec(opcode));
                &&& alu_result(opcode, s, old(self).spec_reg(rt_spec(opcode)), old(self).hi, old(self).lo) matches Some((d, v)) ==> {
                    &&& final(self).regs@ == reg_update(old(self).regs@, d, v)
                    &&& final(self).reg_write_mask == mask_with(old(self).reg_write_mask, d)
                    &&& *final(self) == (Cpu { regs: final(self).regs, reg_write_mask: final(self).reg_write_mask, ..*old(self) })
                    &&& *final(bus) == *old(bus)
                }
                &&& opcode >> 26u32 == 0x02 ==> final(self).next_pc == (old(self).pc & 0xf000_0000) | ((opcode
                    & 0x03ff_ffff) << 2u32) && final(self).regs == old(self).regs
            }),
            executed(*old(self), *old(bus), opcode, pc, *final(self), *final(bus)),
    {
        let op = opcode >> 26u32;
        if op == 0x00 {
            self.execute_special(opcode, pc);
        } else if op == 0x01 {
            self.execute_bcondz(opcode, pc);
        } else if op == 0x02 {
            self.jump(opcode, false);
        } else if op == 0x03 {
            self.jump(opcode, true);
        } else if op == 0x04 {
            let c = self.reg(rs(opcode)) == self.reg(rt(opcode));
            self.branch(c, opcode, pc);
        } else if op == 0x05 {
            let c = self.reg(rs(opcode)) != self.reg(rt(opcode));
            self.branch(c, opcode, pc);
        } else if op == 0x06 {
            let c = (self.reg(rs(opcode)) as i32) <= 0;
            self.branch(c, opcode, pc);
        } else if op == 0x07 {
            let c = (self.reg(rs(opcode)) as i32) > 0;
            self.branch(c, opcode, pc);
        } else if op == 0x08 {
            self.addi(opcode, pc, true);
        } else if op == 0x09 {
            self.addi(opcode, pc, false);
        } else if op == 0x0a {
            let v = slt_signed(self.reg(rs(opcode)), imm_se(opcode));
            self.set_reg(rt(opcode), v);
        } else if op == 0x0b {
            let v: u32 = if self.reg(rs(opcode)) < imm_se(opcode) { 1 } else { 0 };
            self.set_reg(rt(opcode), v);
        } else if op == 0x0c {
            let v = self.reg(rs(opcode)) & imm_z(opcode);
            self.set_reg(rt(opcode), v);
        } else if op == 0x0d {
            let v = self.reg(rs(opcode)) | imm_z(opcode);
            self.set_reg(rt(opcode), v);
        } else if op == 0x0e {
            let v = self.reg(rs(opcode)) ^ imm_z(opcode);
            self.set_reg(rt(opcode), v);
        } else if op == 0x0f {
            self.set_reg(rt(opcode), opcode << 16u32);
        } else if op == 0x10 {
            self.execute_cop0(opcode, pc);
        } else if op == 0x11 || op == 0x31 || op == 0x39 {
            self.raise_exception(Exception::CoprocessorUnusable, pc, None, Some(1));
        } else if op == 0x12 {
            self.execute_cop2(opcode, pc);
        } else if op == 0x13 || op == 0x33 || op == 0x3b {
            self.raise_exception(Exception::CoprocessorUnusable, pc, None, Some(3));
        } else if op == 0x20 {
            self.load8(opcode, bus, true);
        } else if op == 0x21 {
            self.load16(opcode, bus, pc, true);
        } else if op == 0x22 {
            self.lwl(opcode, bus);
        } else if op == 0x23 {
            self.load32(opcode, bus, pc);
        } else if op == 0x24 {
            self.load8(opcode, bus, false);
        } else if op == 0x25 {
            self.load16(opcode, bus, pc, false);
        } else if op == 0x26 {
            self.lwr(opcode, bus);
        } else if op == 0x28 {
            self.store8(opcode, bus);
        } else if op == 0x29 {
            self.store16(opcode, bus, pc);
        } else if op == 0x2a {
            self.swl(opcode, bus);
        } else if op == 0x2b {
            self.store32(opcode, bus, pc);
        } else if op == 0x2e {
            self.swr(opcode, bus);
        } else if op == 0x30 || op == 0x38 {
            self.raise_exception(Exception::CoprocessorUnusable, pc, None, Some(0));
        } else if op == 0x32 {
            self.lwc2(opcode, bus, pc);
        } else if op == 0x3a {
            self.swc2(opcode, bus, pc);
        } else {
            self.raise_exception(Exception::ReservedInstruction, pc, None, None);
        }
    }

    /// Fetches the instruction at the program counter and executes it, or
    /// takes an instruction bus error.
    fn fetch_and_execute(&mut self, bus: &mut Bus)
        requires
            old(self).wf(),
            old(bus).wf(),
        ensures
            final(self).wf(),
            final(bus).wf(),
            final(self).regs[0] == 0 || final(self).regs == old(self).regs,
            fetched_and_executed(old(self).pc, old(self).load_delay, latched(*old(self)), *old(bus), *final(self), *final(bus)),
    {
        let ghost c = latched(*self);
        let pc = self.pc;
        let fetch: Result<u32, FetchError> = if bus.instruction_bus_error(pc) {
            Err(FetchError::BusError)
        } else {
            Ok(bus.read32(pc))
        };
        let ghost b1 = *bus;
        let opcode = match fetch {
            Ok(word) => word,
            Err(_) => {
                self.in_delay_slot = self.next_is_delay_slot;
                self.in_delay_slot_branch_taken = self.next_delay_slot_branch_taken;
                self.in_delay_slot_branch_target = self.next_delay_slot_branch_target;
                assert(*self == c);
                self.raise_exception(Exception::InstructionBusError, pc, None, None);
                proof {
                    assert(instruction_read(*old(bus), old(self).pc, b1, fetch));
                }
                return;
            },
        };
        let delayed_load = self.load_delay;
        self.load_delay = None;
        self.load_delay_merge = delayed_load;
        self.reg_write_mask = 0;
        let was_delay_slot = self.next_is_delay_slot;
        let was_delay_slot_branch_taken = self.next_delay_slot_branch_taken;
        let was_delay_slot_branch_target = self.next_delay_slot_branch_target;
        self.pc = self.next_pc;
        self.next_pc = self.next_pc.wrapping_add(4);
        self.in_delay_slot = was_delay_slot;
        self.in_delay_slot_branch_taken = was_delay_slot_branch_taken;
        self.in_delay_slot_branch_target = was_delay_slot_branch_target;
        self.next_is_delay_slot = false;
        self.next_delay_slot_branch_taken = false;
        self.next_delay_slot_branch_target = 0;

        let ghost before = *self;
        assert(before == prepared(c));
        self.execute(opcode, bus, pc);
        let ghost m = *self;

        self.load_delay_merge = None;
        match delayed_load {
            Some((reg, value)) => {
                proof {
                    let t = before.spec_reg(rt_spec(opcode));
                    match alu_result(opcode, before.spec_reg(rs_spec(opcode)), t, before.hi, before.lo) {
                        Some((d, v)) => crate::bits::lemma_single_bits_overlap(d as u32, reg as u32),
                        None => {},
                    }
                }
                let next_load_to_same_reg = match self.load_delay {
                    Some((next_reg, _)) => next_reg == reg,
                    None => false,
                };
                if !next_load_to_same_reg && (self.reg_write_mask & (1u32 << (reg as u32))) == 0 {
                    self.write_reg_now(reg, value);
                }
            },
            None => {},
        }
        self.reg_write_mask = 0;
        self.regs[0] = 0;
        self.in_delay_slot = false;
        self.in_delay_slot_branch_taken = false;
        self.in_delay_slot_branch_target = 0;
        proof {
            assert(instruction_read(*old(bus), old(self).pc, b1, fetch));
            assert(executed(prepared(c), b1, opcode, old(self).pc, m, *bus));
            assert(landed(m, old(self).load_delay, *self));
            assert(fetched_and_executed(old(self).pc, old(self).load_delay, c, *old(bus), *self, *bus));
        }
    }

    /// Executes one instruction, or takes a pending interrupt or a
    /// misaligned-fetch error instead.  A load scheduled by the previous
    /// instruction lands after this one, unless this one wrote the same
    /// register or loads it again.  Every step costs two cycles.
    pub fn step(&mut self, bus: &mut Bus) -> (r: u32)
        requires
            old(self).wf(),
            old(bus).wf(),
        ensures
            final(self).wf(),
            final(bus).wf(),
            r == 2,
            cpu_stepped(*old(self), *old(bus), *final(self), *final(bus)),
    {
        let pending = bus.irq.pending();
        self.cop0.set_interrupt_pending(pending);
        let ghost cause = self.cop0.regs[13];
        let ghost irq = old(self).cop0.regs[12] & cop0::STATUS_IE != 0 && old(self).cop0.regs[12] & cause
            & cop0::INTERRUPT_MASK != 0;
        proof {
            assert(self.cop0.regs[12] == old(self).cop0.regs[12]);
            assert(self.cop0.regs[13] == cause);
            assert(cause == interrupt_cause(*old(self), *old(bus)));
        }
        let ghost c = Cpu {
            in_delay_slot: self.next_is_delay_slot,
            in_delay_slot_branch_taken: self.next_delay_slot_branch_taken,
            in_delay_slot_branch_target: self.next_delay_slot_branch_target,
            ..*self
        };
        proof {
            assert(sampled(*old(self), cause, c));
        }
        if self.cop0.interrupts_enabled() {
            self.in_delay_slot = self.next_is_delay_slot;
            self.in_delay_slot_branch_taken = self.next_delay_slot_branch_taken;
            self.in_delay_slot_branch_target = self.next_delay_slot_branch_target;
            let pc = self.pc;
            assert(*self == c);
            self.raise_exception(Exception::Interrupt, pc, None, None);
            assert(took_exception(c, *self, Exception::Interrupt, old(self).pc, None, None));
            assert(irq);
            assert(sampled(*old(self), cause, c) && (irq ==> took_exception(c, *self, Exception::Interrupt, old(self).pc, None, None) && *bus == *old(bus)));
            return 2;
        }
        proof {
            crate::bits::lemma_mask_mod_u32(self.pc);
        }
        if (self.pc & 3) != 0 {
            let pc = self.pc;
            self.in_delay_slot = self.next_is_delay_slot;
            self.in_delay_slot_branch_taken = self.next_delay_slot_branch_taken;
            self.in_delay_slot_branch_target = self.next_delay_slot_branch_target;
            assert(*self == c);
            self.raise_exception(Exception::AddressLoad, pc, Some(pc), None);
            return 2;
        }
        proof {
            assert(c == latched(*self));
        }
        self.fetch_and_execute(bus);
        proof {
            assert(!irq);
            assert(old(self).pc % 4 == 0);
            assert(fetched_and_executed(old(self).pc, old(self).load_delay, c, *old(bus), *self, *bus));
            assert(sampled(*old(self), cause, c));
        }
        2
    }
}

/// A conditional branch at `pc`.
pub open spec fn branch_done(o: Cpu, condition: bool, opcode: u32, pc: u32, n: Cpu) -> bool {
    let target = if o.in_delay_slot {
        ((o.pc + branch_offset(opcode)) % 0x1_0000_0000) as u32
    } else {
        ((pc + 4 + branch_offset(opcode)) % 0x1_0000_0000) as u32
    };
    if condition {
        n == (Cpu {
            next_pc: target,
            next_is_delay_slot: true,
            next_delay_slot_branch_taken: true,
            next_delay_slot_branch_target: target,
            ..o
        })
    } else {
        n == (Cpu {
            next_is_delay_slot: true,
            next_delay_slot_branch_taken: false,
            next_delay_slot_branch_target: 0,
            ..o
        })
    }
}

/// J or JAL.
pub open spec fn jump_done(o: Cpu, opcode: u32, link: bool, n: Cpu) -> bool {
    let target = (o.pc & 0xf000_0000) | ((opcode & 0x03ff_ffff) << 2u32);
    let jumped = Cpu {
        next_pc: target,
        next_is_delay_slot: true,
        next_delay_slot_branch_taken: true,
        next_delay_slot_branch_target: target,
        ..o
    };
    if link {
        &&& n.regs@ == reg_update(o.regs@, 31, o.pc.wrapping_add(4))
        &&& n == (Cpu { regs: n.regs, reg_write_mask: mask_with(o.reg_write_mask, 31), ..jumped })
    } else {
        n == jumped
    }
}

/// ADDI or ADDIU at `pc`.
pub open spec fn addi_done(o: Cpu, opcode: u32, pc: u32, trap_on_overflow: bool, n: Cpu) -> bool {
    let s = o.spec_reg(rs_spec(opcode));
    let result = ((s + imm_se_spec(opcode)) % 0x1_0000_0000) as u32;
    if trap_on_overflow && add_overflow_spec(s, imm_se_spec(opcode), result) {
        took_exception(o, n, Exception::Overflow, pc, None, None)
    } else {
        &&& n.regs@ == reg_update(o.regs@, rt_spec(opcode), result)
        &&& n.reg_write_mask == mask_with(o.reg_write_mask, rt_spec(opcode))
        &&& n == (Cpu { regs: n.regs, reg_write_mask: n.reg_write_mask, ..o })
    }
}

/// LB or LBU.
pub open spec fn load8_done(o: Cpu, ob: Bus, opcode: u32, signed: bool, n: Cpu, nb: Bus) -> bool {
    &&& (n == (Cpu { load_delay: n.load_delay, ..o }))
    &&& (({
        let addr = ea_spec(o, opcode);
        let rt = rt_spec(opcode);
        let iso = o.cop0.spec_cache_isolated();
        &&& rt == 0 ==> n.load_delay == o.load_delay
        &&& rt != 0 && !iso && !is_io(physical_addr_spec(addr)) ==> n.load_delay == Some(
            (rt as usize, extend8(ob.memory_byte(physical_addr_spec(addr)), signed)),
        )
        &&& rt != 0 && iso ==> n.load_delay == Some((rt as usize, extend8(isolated_read8_spec(ob, addr), signed)))
        &&& nb.ram@ == ob.ram@
    }))
    &&& exists|v: u8|
        #[trigger] data_byte_read(o, ob, ea_spec(o, opcode), nb, v) && n == (Cpu {
            load_delay: load_scheduled(o, rt_spec(opcode), extend8(v, signed)),
            ..o
        })
}

/// LH or LHU at `pc`.
pub open spec fn load16_done(o: Cpu, ob: Bus, opcode: u32, pc: u32, signed: bool, n: Cpu, nb: Bus) -> bool {
    &&& (({
        let addr = ea_spec(o, opcode);
        let p = physical_addr_spec(addr);
        let rt = rt_spec(opcode);
        let iso = o.cop0.spec_cache_isolated();
        &&& addr % 2 != 0 ==> n.entered_handler(exception_vector(o.cop0.regs[12]))
            && n.cop0.regs[8] == addr && nb == ob
        &&& addr % 2 == 0 ==> n == (Cpu { load_delay: n.load_delay, ..o })
            && nb.ram@ == ob.ram@
        &&& addr % 2 == 0 && rt == 0 ==> n.load_delay == o.load_delay
        &&& addr % 2 == 0 && rt != 0 && !iso && is_ram(p) ==> n.load_delay == Some(
            (rt as usize, extend16(ob.ram_half(p), signed)),
        )
        &&& addr % 2 == 0 && rt != 0 && iso ==> n.load_delay == Some(
            (
                rt as usize,
                extend16(
                    (isolated_read8_spec(ob, addr) as u16) | ((isolated_read8_spec(
                        ob,
                        ((addr + 1) % 0x1_0000_0000) as u32,
                    ) as u16) << 8u16),
                    signed,
                ),
            ),
        )
    }))
    &&& ea_spec(o, opcode) % 2 != 0 ==> took_exception(o, n, Exception::AddressLoad, pc, Some(ea_spec(o, opcode)), None)
    &&& ea_spec(o, opcode) % 2 == 0 ==> exists|v: u16|
        #[trigger] data_half_read(o, ob, ea_spec(o, opcode), nb, v) && n == (Cpu {
            load_delay: load_scheduled(o, rt_spec(opcode), extend16(v, signed)),
            ..o
        })
}

/// LW at `pc`.
pub open spec fn load32_done(o: Cpu, ob: Bus, opcode: u32, pc: u32, n: Cpu, nb: Bus) -> bool {
    &&& (({
        let addr = ((o.spec_reg(rs_spec(opcode)) + imm_se_spec(opcode)) % 0x1_0000_0000) as u32;
        &&& addr % 4 != 0 ==> n.entered_handler(exception_vector(o.cop0.regs[12]))
            && n.cop0.regs[8] == addr && nb == ob
        &&& addr % 4 == 0 && rt_spec(opcode) != 0 && !o.cop0.spec_cache_isolated() && is_ram(physical_addr_spec(addr))
            ==> n.load_delay == Some((rt_spec(opcode) as usize, ob.ram_word(physical_addr_spec(addr))))
    }))
    &&& ea_spec(o, opcode) % 4 != 0 ==> took_exception(o, n, Exception::AddressLoad, pc, Some(ea_spec(o, opcode)), None)
    &&& ea_spec(o, opcode) % 4 == 0 ==> exists|v: u32|
        #[trigger] data_word_read(o, ob, ea_spec(o, opcode), nb, v) && n == (Cpu {
            load_delay: load_scheduled(o, rt_spec(opcode), v),
            ..o
        })
}

/// LWL.
pub open spec fn lwl_done(o: Cpu, ob: Bus, opcode: u32, n: Cpu, nb: Bus) -> bool {
    &&& (nb.ram@ == ob.ram@)
    &&& (n == (Cpu { load_delay: n.load_delay, ..o }))
    &&& (({
        let addr = ea_spec(o, opcode);
        let aligned = addr & !3u32;
        let rt = rt_spec(opcode);
        let base = merge_base(o, rt);
        let iso = o.cop0.spec_cache_isolated();
        &&& rt == 0 ==> n.load_delay == o.load_delay
        &&& rt != 0 && !iso && is_ram(physical_addr_spec(aligned)) ==> n.load_delay == Some(
            (rt as usize, lwl_value(base, ob.ram_word(physical_addr_spec(aligned)), addr % 4)),
        )
        &&& rt != 0 && iso ==> n.load_delay == Some(
            (rt as usize, lwl_value(base, isolated_read_spec(ob, aligned), addr % 4)),
        )
    }))
    &&& exists|v: u32|
        #[trigger] data_word_read(o, ob, ea_spec(o, opcode) & !3u32, nb, v) && n == (Cpu {
            load_delay: load_scheduled(o, rt_spec(opcode), lwl_value(merge_base(o, rt_spec(opcode)), v, ea_spec(o, opcode) % 4)),
            ..o
        })
}

/// LWR.
pub open spec fn lwr_done(o: Cpu, ob: Bus, opcode: u32, n: Cpu, nb: Bus) -> bool {
    &&& (nb.ram@ == ob.ram@)
    &&& (n == (Cpu { load_delay: n.load_delay, ..o }))
    &&& (({
        let addr = ea_spec(o, opcode);
        let aligned = addr & !3u32;
        let rt = rt_spec(opcode);
        let base = merge_base(o, rt);
        let iso = o.cop0.spec_cache_isolated();
        &&& rt == 0 ==> n.load_delay == o.load_delay
        &&& rt != 0 && !iso && is_ram(physical_addr_spec(aligned)) ==> n.load_delay == Some(
            (rt as usize, lwr_value(base, ob.ram_word(physical_addr_spec(aligned)), addr % 4)),
        )
        &&& rt != 0 && iso ==> n.load_delay == Some(
            (rt as usize, lwr_value(base, isolated_read_spec(ob, aligned), addr % 4)),
        )
    }))
    &&& exists|v: u32|
        #[trigger] data_word_read(o, ob, ea_spec(o, opcode) & !3u32, nb, v) && n == (Cpu {
            load_delay: load_scheduled(o, rt_spec(opcode), lwr_value(merge_base(o, rt_spec(opcode)), v, ea_spec(o, opcode) % 4)),
            ..o
        })
}

/// SB.
pub open spec fn store8_done(o: Cpu, ob: Bus, opcode: u32, n: Cpu, nb: Bus) -> bool {
    &&& (n == o)
    &&& (({
        let p = physical_addr_spec(ea_spec(o, opcode));
        let iso = o.cop0.spec_cache_isolated();
        &&& iso ==> nb.ram@ == ob.ram@
        &&& !iso && is_ram(p) ==> nb.ram@ == ob.ram@.update(
            (p % 0x20_0000) as int,
            o.spec_reg(rt_spec(opcode)) as u8,
        )
    }))
    &&& data_byte_written(o, ob, ea_spec(o, opcode), o.spec_reg(rt_spec(opcode)) as u8, nb)
}

/// SH at `pc`.
pub open spec fn store16_done(o: Cpu, ob: Bus, opcode: u32, pc: u32, n: Cpu, nb: Bus) -> bool {
    &&& (({
        let addr = ea_spec(o, opcode);
        let p = physical_addr_spec(addr);
        let i = (p % 0x20_0000) as int;
        let v = o.spec_reg(rt_spec(opcode)) as u16;
        let iso = o.cop0.spec_cache_isolated();
        &&& addr % 2 != 0 ==> n.entered_handler(exception_vector(o.cop0.regs[12]))
            && n.cop0.regs[8] == addr && nb == ob
        &&& addr % 2 == 0 ==> n == o
        &&& addr % 2 == 0 && iso ==> nb.ram@ == ob.ram@
        &&& addr % 2 == 0 && !iso && is_ram(p) ==> nb.ram@ == ob.ram@.update(i, v as u8).update(
            i + 1,
            (v >> 8u16) as u8,
        )
    }))
    &&& ea_spec(o, opcode) % 2 != 0 ==> took_exception(o, n, Exception::AddressStore, pc, Some(ea_spec(o, opcode)), None)
    &&& ea_spec(o, opcode) % 2 == 0 ==> data_half_written(o, ob, ea_spec(o, opcode), o.spec_reg(rt_spec(opcode)) as u16, nb)
}

/// SW at `pc`.
pub open spec fn store32_done(o: Cpu, ob: Bus, opcode: u32, pc: u32, n: Cpu, nb: Bus) -> bool {
    &&& (({
        let addr = ((o.spec_reg(rs_spec(opcode)) + imm_se_spec(opcode)) % 0x1_0000_0000) as u32;
        &&& addr % 4 != 0 ==> n.entered_handler(exception_vector(o.cop0.regs[12]))
            && n.cop0.regs[8] == addr && nb == ob
        &&& addr % 4 == 0 ==> n == o
        &&& addr % 4 == 0 && !o.cop0.spec_cache_isolated() && is_ram(physical_addr_spec(addr))
            ==> nb.ram_word(physical_addr_spec(addr)) == o.spec_reg(rt_spec(opcode))
    }))
    &&& ea_spec(o, opcode) % 4 != 0 ==> took_exception(o, n, Exception::AddressStore, pc, Some(ea_spec(o, opcode)), None)
    &&& ea_spec(o, opcode) % 4 == 0 ==> data_word_written(o, ob, ea_spec(o, opcode), o.spec_reg(rt_spec(opcode)), nb)
}

/// SWL.
pub open spec fn swl_done(o: Cpu, ob: Bus, opcode: u32, n: Cpu, nb: Bus) -> bool {
    &&& (n == o)
    &&& (({
        let addr = ea_spec(o, opcode);
        let p = physical_addr_spec(addr);
        let v = o.spec_reg(rt_spec(opcode));
        let iso = o.cop0.spec_cache_isolated();
        &&& iso ==> nb.ram@ == ob.ram@
        &&& !iso && addr % 4 != 3 && is_ram(p) ==> nb.ram@ == swl_ram(ob.ram@, (p % 0x20_0000) as int, v, addr % 4)
        &&& !iso && addr % 4 == 3 && is_ram(physical_addr_spec(addr & !3u32)) ==> nb.ram_word(
            physical_addr_spec(addr & !3u32),
        ) == v
    }))
    &&& swl_bytes_written(o, ob, ea_spec(o, opcode), o.spec_reg(rt_spec(opcode)), nb)
}

/// SWR.
pub open spec fn swr_done(o: Cpu, ob: Bus, opcode: u32, n: Cpu, nb: Bus) -> bool {
    &&& (n == o)
    &&& (({
        let addr = ea_spec(o, opcode);
        let p = physical_addr_spec(addr);
        let v = o.spec_reg(rt_spec(opcode));
        let iso = o.cop0.spec_cache_isolated();
        &&& iso ==> nb.ram@ == ob.ram@
        &&& !iso && addr % 4 != 0 && is_ram(p) ==> nb.ram@ == swr_ram(ob.ram@, (p % 0x20_0000) as int, v, addr % 4)
        &&& !iso && addr % 4 == 0 && is_ram(p) ==> nb.ram_word(p) == v
    }))
    &&& swr_bytes_written(o, ob, ea_spec(o, opcode), o.spec_reg(rt_spec(opcode)), nb)
}

/// LWC2 at `pc`.
pub open spec fn lwc2_done(o: Cpu, ob: Bus, opcode: u32, pc: u32, n: Cpu, nb: Bus) -> bool {
    &&& (({
        let addr = ea_spec(o, opcode);
        let p = physical_addr_spec(addr);
        let iso = o.cop0.spec_cache_isolated();
        &&& addr % 4 != 0 ==> n.entered_handler(exception_vector(o.cop0.regs[12]))
            && n.cop0.regs[8] == addr && nb == ob
        &&& addr % 4 == 0 ==> n == (Cpu { gte: n.gte, ..o }) && nb.ram@
            == ob.ram@
        &&& addr % 4 == 0 && !iso && is_ram(p) ==> n.gte@ == o.gte@.write_data(
            rt_spec(opcode),
            ob.ram_word(p),
        )
        &&& addr % 4 == 0 && iso ==> n.gte@ == o.gte@.write_data(
            rt_spec(opcode),
            isolated_read_spec(ob, addr),
        )
    }))
    &&& ea_spec(o, opcode) % 4 != 0 ==> took_exception(o, n, Exception::AddressLoad, pc, Some(ea_spec(o, opcode)), None)
    &&& ea_spec(o, opcode) % 4 == 0 ==> exists|v: u32|
        #[trigger] data_word_read(o, ob, ea_spec(o, opcode), nb, v) && n.gte@ == o.gte@.write_data(rt_spec(opcode), v)
}

/// SWC2 at `pc`.
pub open spec fn swc2_done(o: Cpu, ob: Bus, opcode: u32, pc: u32, n: Cpu, nb: Bus) -> bool {
    &&& (({
        let addr = ea_spec(o, opcode);
        let p = physical_addr_spec(addr);
        let iso = o.cop0.spec_cache_isolated();
        &&& addr % 4 != 0 ==> n.entered_handler(exception_vector(o.cop0.regs[12]))
            && n.cop0.regs[8] == addr && nb == ob
        &&& addr % 4 == 0 ==> n == o
        &&& addr % 4 == 0 && iso ==> nb.ram@ == ob.ram@
        &&& addr % 4 == 0 && !iso && is_ram(p) ==> nb.ram_word(p) == o.gte@.read_data(rt_spec(opcode))
    }))
    &&& ea_spec(o, opcode) % 4 != 0 ==> took_exception(o, n, Exception::AddressStore, pc, Some(ea_spec(o, opcode)), None)
    &&& ea_spec(o, opcode) % 4 == 0 ==> data_word_written(o, ob, ea_spec(o, opcode), o.gte@.read_data(rt_spec(opcode)), nb)
}

/// A SPECIAL-group instruction at `pc`.
pub open spec fn special_done(o: Cpu, opcode: u32, pc: u32, n: Cpu) -> bool {
    let s = o.spec_reg(rs_spec(opcode));
    let t = o.spec_reg(rt_spec(opcode));
    let f = opcode & 0x3f;
    let d = rd_spec(opcode);
    let jumped = Cpu {
        next_pc: s,
        next_is_delay_slot: true,
        next_delay_slot_branch_taken: true,
        next_delay_slot_branch_target: s,
        ..o
    };
    if let Some(v) = special_value(opcode, s, t, o.hi, o.lo) {
        &&& n.regs@ == reg_update(o.regs@, d, v)
        &&& n.reg_write_mask == mask_with(o.reg_write_mask, d)
        &&& n == (Cpu { regs: n.regs, reg_write_mask: n.reg_write_mask, ..o })
    } else if f == 0x08 {
        n == jumped
    } else if f == 0x09 {
        let link = if d == 0 { 31 } else { d };
        &&& n.regs@ == reg_update(o.regs@, link, o.pc.wrapping_add(4))
        &&& n == (Cpu { regs: n.regs, reg_write_mask: mask_with(o.reg_write_mask, link), ..jumped })
    } else if f == 0x0c {
        took_exception(o, n, Exception::Syscall, pc, None, None)
    } else if f == 0x0d {
        took_exception(o, n, Exception::Break, pc, None, None)
    } else if f == 0x11 {
        n == (Cpu { hi: s, ..o })
    } else if f == 0x13 {
        n == (Cpu { lo: s, ..o })
    } else if f == 0x18 || f == 0x19 {
        (n.hi, n.lo) == mult_spec(s, t, f == 0x18) && n == (Cpu { hi: n.hi, lo: n.lo, ..o })
    } else if f == 0x1a || f == 0x1b {
        (n.hi, n.lo) == div_spec(s, t, f == 0x1a) && n == (Cpu { hi: n.hi, lo: n.lo, ..o })
    } else if f == 0x20 || f == 0x22 {
        let add = f == 0x20;
        let operand = if add { t } else { (((!t) as int + 1) % 0x1_0000_0000) as u32 };
        let result = if add { ((s + t) % 0x1_0000_0000) as u32 } else { ((s - t + 0x1_0000_0000) % 0x1_0000_0000) as u32 };
        if add_overflow_spec(s, operand, result) {
            took_exception(o, n, Exception::Overflow, pc, None, None)
        } else {
            &&& n.regs@ == reg_update(o.regs@, d, result)
            &&& n.reg_write_mask == mask_with(o.reg_write_mask, d)
            &&& n == (Cpu { regs: n.regs, reg_write_mask: n.reg_write_mask, ..o })
        }
    } else {
        took_exception(o, n, Exception::ReservedInstruction, pc, None, None)
    }
}

/// A BCONDZ-group instruction at `pc`.
pub open spec fn bcondz_done(o: Cpu, opcode: u32, pc: u32, n: Cpu) -> bool {
    let negative = (o.spec_reg(rs_spec(opcode)) as i32) < 0;
    let kind = rt_spec(opcode);
    let linked = Cpu {
        regs: n.regs,
        reg_write_mask: mask_with(o.reg_write_mask, 31),
        ..o
    };
    let link = reg_update(o.regs@, 31, ((o.pc + 4) % 0x1_0000_0000) as u32);
    if kind == 0x00 {
        branch_done(o, negative, opcode, pc, n)
    } else if kind == 0x01 {
        branch_done(o, !negative, opcode, pc, n)
    } else if kind == 0x10 {
        n.regs@ == link && branch_done(linked, negative, opcode, pc, n)
    } else if kind == 0x11 {
        n.regs@ == link && branch_done(linked, !negative, opcode, pc, n)
    } else {
        took_exception(o, n, Exception::ReservedInstruction, pc, None, None)
    }
}

/// A COP0 instruction at `pc`.
pub open spec fn cop0_done(o: Cpu, opcode: u32, pc: u32, n: Cpu) -> bool {
    &&& (({
        let kind = rs_spec(opcode);
        let rt = rt_spec(opcode);
        &&& kind == 0x00 ==> match cop0::cop0_read_spec(o.cop0, rd_spec(opcode)) {
            Ok(v) => n == (Cpu {
                load_delay: if rt != 0 { Some((rt as usize, v)) } else { o.load_delay },
                ..o
            }),
            Err(e) => took_exception(o, n, e, pc, None, None),
        }
        &&& kind == 0x04 ==> n == (Cpu { cop0: n.cop0, ..o }) && n.cop0.regs@
            == cop0::cop0_write_spec(o.cop0.regs@, rd_spec(opcode), o.spec_reg(rt))
        &&& kind == 0x10 && opcode & 0x3f == 0x10 ==> n == (Cpu { cop0: n.cop0, ..o })
            && n.cop0.regs@ == o.cop0.regs@.update(12, cop0::rfe_status(o.cop0.regs[12]))
        &&& kind == 0x02 || kind == 0x06 || (kind == 0x10 && opcode & 0x3f != 0x10) ==> took_exception(
            o,
            n,
            Exception::ReservedInstruction,
            pc,
            None,
            None,
        )
        &&& !(kind == 0x00 || kind == 0x02 || kind == 0x04 || kind == 0x06 || kind == 0x10) ==> took_exception(
            o,
            n,
            Exception::CoprocessorUnusable,
            pc,
            None,
            Some(0u8),
        )
    }))
}

/// A COP2 instruction at `pc`.
pub open spec fn cop2_done(o: Cpu, opcode: u32, pc: u32, n: Cpu) -> bool {
    let kind = rs_spec(opcode);
    let rt = rt_spec(opcode);
    let rd = rd_spec(opcode);
    let loaded = |value: u32| if rt != 0 { Some((rt as usize, value)) } else { o.load_delay };
    if kind == 0x00 {
        n == (Cpu { load_delay: loaded(o.gte@.read_data(rd)), ..o })
    } else if kind == 0x02 {
        n == (Cpu { load_delay: loaded(o.gte@.control[rd % 32]), ..o })
    } else if kind == 0x04 {
        n == (Cpu { gte: n.gte, ..o }) && n.gte@ == o.gte@.write_data(rd, o.spec_reg(rt))
    } else if kind == 0x06 {
        n == (Cpu { gte: n.gte, ..o }) && gte::gte_control_written(o.gte, rd as usize, o.spec_reg(rt), n.gte)
    } else if kind >= 0x10 {
        n == (Cpu { gte: n.gte, ..o }) && n.gte@ == o.gte@.execute(opcode)
    } else {
        took_exception(o, n, Exception::CoprocessorUnusable, pc, None, Some(2u8))
    }
}

/// A data byte read at `addr` as the CPU makes it: from the isolated cache
/// when the cache is isolated, else from the bus.
#[verifier::opaque]
pub open spec fn data_byte_read(o: Cpu, ob: Bus, addr: u32, nb: Bus, r: u8) -> bool {
    if o.cop0.spec_cache_isolated() {
        r == isolated_read8_spec(ob, addr) && nb == ob
    } else {
        byte_read(ob, addr, nb, r)
    }
}

/// A data halfword read at `addr` as the CPU makes it.
#[verifier::opaque]
pub open spec fn data_half_read(o: Cpu, ob: Bus, addr: u32, nb: Bus, r: u16) -> bool {
    if o.cop0.spec_cache_isolated() {
        &&& r == (isolated_read8_spec(ob, addr) as u16) | ((isolated_read8_spec(ob, ((addr + 1) % 0x1_0000_0000) as u32)
            as u16) << 8u16)
        &&& nb == ob
    } else {
        half_read(ob, addr, nb, r)
    }
}

/// A data word read at `addr` as the CPU makes it.
#[verifier::opaque]
pub open spec fn data_word_read(o: Cpu, ob: Bus, addr: u32, nb: Bus, r: u32) -> bool {
    if o.cop0.spec_cache_isolated() {
        r == isolated_read_spec(ob, addr) && nb == ob
    } else {
        word_read(ob, addr, nb, r)
    }
}

/// A data byte store of `value` at `addr` as the CPU makes it.
#[verifier::opaque]
pub open spec fn data_byte_written(o: Cpu, ob: Bus, addr: u32, value: u8, nb: Bus) -> bool {
    if o.cop0.spec_cache_isolated() {
        isolated_byte_written(ob, addr, value, nb)
    } else {
        byte_written(ob, addr, value, nb)
    }
}

/// A data halfword store of `value` at `addr` as the CPU makes it.
#[verifier::opaque]
pub open spec fn data_half_written(o: Cpu, ob: Bus, addr: u32, value: u16, nb: Bus) -> bool {
    if o.cop0.spec_cache_isolated() {
        isolated_half_written(ob, addr, value, nb)
    } else {
        half_written(ob, addr, value, nb)
    }
}

/// A data word store of `value` at `addr` as the CPU makes it.
#[verifier::opaque]
pub open spec fn data_word_written(o: Cpu, ob: Bus, addr: u32, value: u32, nb: Bus) -> bool {
    if o.cop0.spec_cache_isolated() {
        isolated_word_written(ob, addr, value, nb)
    } else {
        word_written(ob, addr, value, nb)
    }
}

/// The stores SWL makes for address `addr` and register value `v`: the
/// high bytes of `v`, down to the low end of the aligned word.
pub open spec fn swl_bytes_written(o: Cpu, ob: Bus, addr: u32, v: u32, nb: Bus) -> bool {
    let k = addr % 4;
    if k == 0 {
        data_byte_written(o, ob, addr, (v >> 24u32) as u8, nb)
    } else if k == 1 {
        exists|b1: Bus|
            #[trigger] data_byte_written(o, ob, (addr - 1) as u32, (v >> 16u32) as u8, b1) && data_byte_written(
                o,
                b1,
                addr,
                (v >> 24u32) as u8,
                nb,
            )
    } else if k == 2 {
        exists|b1: Bus, b2: Bus|
            #[trigger] data_byte_written(o, ob, (addr - 2) as u32, (v >> 8u32) as u8, b1) && #[trigger] data_byte_written(
                o,
                b1,
                (addr - 1) as u32,
                (v >> 16u32) as u8,
                b2,
            ) && data_byte_written(o, b2, addr, (v >> 24u32) as u8, nb)
    } else {
        data_word_written(o, ob, addr & !3u32, v, nb)
    }
}

/// The stores SWR makes for address `addr` and register value `v`: the
/// low bytes of `v`, up to the high end of the aligned word.
pub open spec fn swr_bytes_written(o: Cpu, ob: Bus, addr: u32, v: u32, nb: Bus) -> bool {
    let k = addr % 4;
    if k == 0 {
        data_word_written(o, ob, addr, v, nb)
    } else if k == 1 {
        exists|b1: Bus, b2: Bus|
            #[trigger] data_byte_written(o, ob, addr, v as u8, b1) && #[trigger] data_byte_written(
                o,
                b1,
                (addr + 1) as u32,
                (v >> 8u32) as u8,
                b2,
            ) && data_byte_written(o, b2, (addr + 2) as u32, (v >> 16u32) as u8, nb)
    } else if k == 2 {
        exists|b1: Bus|
            #[trigger] data_byte_written(o, ob, addr, v as u8, b1) && data_byte_written(
                o,
                b1,
                (addr + 1) as u32,
                (v >> 8u32) as u8,
                nb,
            )
    } else {
        data_byte_written(o, ob, addr, v as u8, nb)
    }
}

/// The load delay after a load of `value` into register `rt` (a load into
/// register 0 leaves it as it was).
pub open spec fn load_scheduled(o: Cpu, rt: int, value: u32) -> Option<(usize, u32)> {
    if rt != 0 { Some((rt as usize, value)) } else { o.load_delay }
}

/// The instruction `opcode` at `pc` executed on `o` with bus `ob`, giving
/// `n` and `nb`: dispatched by its major opcode to its group's effect.
pub open spec fn executed(o: Cpu, ob: Bus, opcode: u32, pc: u32, n: Cpu, nb: Bus) -> bool {
    let op = opcode >> 26u32;
    let s = o.spec_reg(rs_spec(opcode));
    let t = o.spec_reg(rt_spec(opcode));
    if op == 0x00 {
        special_done(o, opcode, pc, n) && nb == ob
    } else if op == 0x01 {
        bcondz_done(o, opcode, pc, n) && nb == ob
    } else if op == 0x02 || op == 0x03 {
        jump_done(o, opcode, op == 0x03, n) && nb == ob
    } else if op == 0x04 {
        branch_done(o, s == t, opcode, pc, n) && nb == ob
    } else if op == 0x05 {
        branch_done(o, s != t, opcode, pc, n) && nb == ob
    } else if op == 0x06 {
        branch_done(o, (s as i32) <= 0, opcode, pc, n) && nb == ob
    } else if op == 0x07 {
        branch_done(o, (s as i32) > 0, opcode, pc, n) && nb == ob
    } else if op == 0x08 || op == 0x09 {
        addi_done(o, opcode, pc, op == 0x08, n) && nb == ob
    } else if 0x0a <= op <= 0x0f {
        &&& alu_result(opcode, s, t, o.hi, o.lo) matches Some((d, v))
        &&& n.regs@ == reg_update(o.regs@, d, v)
        &&& n.reg_write_mask == mask_with(o.reg_write_mask, d)
        &&& n == (Cpu { regs: n.regs, reg_write_mask: n.reg_write_mask, ..o })
        &&& nb == ob
    } else if op == 0x10 {
        cop0_done(o, opcode, pc, n) && nb == ob
    } else if op == 0x11 || op == 0x31 || op == 0x39 {
        took_exception(o, n, Exception::CoprocessorUnusable, pc, None, Some(1u8)) && nb == ob
    } else if op == 0x12 {
        cop2_done(o, opcode, pc, n) && nb == ob
    } else if op == 0x13 || op == 0x33 || op == 0x3b {
        took_exception(o, n, Exception::CoprocessorUnusable, pc, None, Some(3u8)) && nb == ob
    } else if op == 0x20 || op == 0x24 {
        load8_done(o, ob, opcode, op == 0x20, n, nb)
    } else if op == 0x21 || op == 0x25 {
        load16_done(o, ob, opcode, pc, op == 0x21, n, nb)
    } else if op == 0x22 {
        lwl_done(o, ob, opcode, n, nb)
    } else if op == 0x23 {
        load32_done(o, ob, opcode, pc, n, nb)
    } else if op == 0x26 {
        lwr_done(o, ob, opcode, n, nb)
    } else if op == 0x28 {
        store8_done(o, ob, opcode, n, nb)
    } else if op == 0x29 {
        store16_done(o, ob, opcode, pc, n, nb)
    } else if op == 0x2a {
        swl_done(o, ob, opcode, n, nb)
    } else if op == 0x2b {
        store32_done(o, ob, opcode, pc, n, nb)
    } else if op == 0x2e {
        swr_done(o, ob, opcode, n, nb)
    } else if op == 0x30 || op == 0x38 {
        took_exception(o, n, Exception::CoprocessorUnusable, pc, None, Some(0u8)) && nb == ob
    } else if op == 0x32 {
        lwc2_done(o, ob, opcode, pc, n, nb)
    } else if op == 0x3a {
        swc2_done(o, ob, opcode, pc, n, nb)
    } else {
        took_exception(o, n, Exception::ReservedInstruction, pc, None, None) && nb == ob
    }
}

/// Cause with its interrupt-pending bit showing whether the interrupt
/// controller has an enabled request.
pub open spec fn interrupt_cause(o: Cpu, ob: Bus) -> u32 {
    if ob.irq.spec_pending() {
        o.cop0.regs[13] | cop0::CAUSE_IP2
    } else {
        o.cop0.regs[13] & !cop0::CAUSE_IP2
    }
}

/// `c` is `o` with Cause's interrupt-pending bit set to `cause` and the
/// branch-delay state of the instruction about to run latched.
pub open spec fn sampled(o: Cpu, cause: u32, c: Cpu) -> bool {
    &&& c == (Cpu {
        cop0: c.cop0,
        in_delay_slot: o.next_is_delay_slot,
        in_delay_slot_branch_taken: o.next_delay_slot_branch_taken,
        in_delay_slot_branch_target: o.next_delay_slot_branch_target,
        ..o
    })
    &&& c.cop0.regs@ == o.cop0.regs@.update(13, cause)
}

/// The CPU as an instruction fetched from `c.pc` starts: the program counter
/// moves on, the pending load is set aside to land after it, and no branch
/// is pending yet.
pub open spec fn prepared(c: Cpu) -> Cpu {
    Cpu {
        pc: c.next_pc,
        next_pc: ((c.next_pc + 4) % 0x1_0000_0000) as u32,
        load_delay: None,
        load_delay_merge: c.load_delay,
        reg_write_mask: 0,
        next_is_delay_slot: false,
        next_delay_slot_branch_taken: false,
        next_delay_slot_branch_target: 0,
        ..c
    }
}

/// After the instruction (`m`): the load set aside (`delayed`) lands unless
/// the instruction wrote that register or loads it again; register 0 reads
/// zero and the per-instruction state is cleared.
pub open spec fn landed(m: Cpu, delayed: Option<(usize, u32)>, n: Cpu) -> bool {
    let regs = match delayed {
        Some((reg, v)) => if !(m.load_delay matches Some((r2, _)) && r2 == reg) && m.reg_write_mask & (1u32 << (reg
            as u32)) == 0 {
            reg_update(m.regs@, reg as int, v)
        } else {
            m.regs@
        },
        None => m.regs@,
    };
    &&& n == (Cpu {
        regs: n.regs,
        load_delay_merge: None,
        reg_write_mask: 0,
        in_delay_slot: false,
        in_delay_slot_branch_taken: false,
        in_delay_slot_branch_target: 0,
        ..m
    })
    &&& n.regs@ == regs.update(0, 0)
}

/// The instruction read at `pc` and what follows: an instruction bus error, or the
/// fetched instruction executed and the pending load landed.
pub open spec fn fetched_and_executed(
    pc: u32,
    delayed: Option<(usize, u32)>,
    c: Cpu,
    ob: Bus,
    n: Cpu,
    nb: Bus,
) -> bool {
    exists|b1: Bus, f: Result<u32, FetchError>|
        {
            &&& #[trigger] instruction_read(ob, pc, b1, f)
            &&& f is Err ==> took_exception(c, n, Exception::InstructionBusError, pc, None, None) && nb == b1
            &&& f matches Ok(opcode) ==> exists|m: Cpu|
                #[trigger] executed(prepared(c), b1, opcode, pc, m, nb) && landed(m, delayed, n)
        }
}

/// `o` with the branch-delay state of the instruction about to run latched.
pub open spec fn latched(o: Cpu) -> Cpu {
    Cpu {
        in_delay_slot: o.next_is_delay_slot,
        in_delay_slot_branch_taken: o.next_delay_slot_branch_taken,
        in_delay_slot_branch_target: o.next_delay_slot_branch_target,
        ..o
    }
}

/// One CPU step from `o` with bus `ob` to `n` with bus `nb`: Cause records
/// whether the interrupt controller has a request; an enabled interrupt
/// is taken, a misaligned program counter raises an address error, and
/// otherwise one instruction is fetched and executed.
pub open spec fn cpu_stepped(o: Cpu, ob: Bus, n: Cpu, nb: Bus) -> bool {
    let cause = interrupt_cause(o, ob);
    let sr = o.cop0.regs[12];
    let irq = sr & cop0::STATUS_IE != 0 && sr & cause & cop0::INTERRUPT_MASK != 0;
    &&& n.regs[0] == 0 || n.regs == o.regs
    &&& exists|c: Cpu|
        {
            &&& #[trigger] sampled(o, cause, c)
            &&& irq ==> took_exception(c, n, Exception::Interrupt, o.pc, None, None) && nb == ob
            &&& !irq && o.pc % 4 != 0 ==> took_exception(c, n, Exception::AddressLoad, o.pc, Some(o.pc), None)
                && nb == ob
            &&& !irq && o.pc % 4 == 0 ==> fetched_and_executed(o.pc, o.load_delay, c, ob, n, nb)
        }
}

impl Default for Cpu {
    fn default() -> (r: Self)
        ensures
            r.wf(),
            r.is_reset(),
    {
        Self::new()
    }
}

} // verus!

verus! {

/// Shifting right arithmetically is shifting right logically with the
/// vacated high bits filled with copies of the sign bit.
proof fn lemma_arithmetic_shift_bits(t: u32, s: u32)
    by (bit_vector)
    requires
        s < 32,
    ensures
        ((t as i32) >> s) as u32 == (t >> s) | (if t & 0x8000_0000u32 != 0 {
            !(0xffff_ffffu32 >> s)
        } else {
            0u32
        }),
        (((t as i32) >> s) as u32) & 0x8000_0000u32 == t & 0x8000_0000u32,
{
}

/// SRA shifts rt right by the shift amount with the sign bit copied into
/// every vacated bit: the result is the logical shift with its high bits
/// filled by rt's sign, and a negative rt stays negative.
pub proof fn lemma_sra_keeps_sign(o: Cpu, opcode: u32, pc: u32, n: Cpu)
    requires
        special_done(o, opcode, pc, n),
        opcode & 0x3f == 0x03,
        rd_spec(opcode) != 0,
    ensures
        ({
            let t = o.spec_reg(rt_spec(opcode));
            let s = (opcode >> 6u32) & 0x1f;
            let r = n.regs[rd_spec(opcode)];
            &&& r == (t >> s) | (if t & 0x8000_0000u32 != 0 { !(0xffff_ffffu32 >> s) } else { 0u32 })
            &&& r & 0x8000_0000u32 == t & 0x8000_0000u32
        }),
{
    let t = o.spec_reg(rt_spec(opcode));
    let s = (opcode >> 6u32) & 0x1f;
    assert(s < 32) by {
        crate::bits::lemma_and_le_u32(opcode >> 6u32, 0x1f);
    }
    lemma_arithmetic_shift_bits(t, s);
    assert(n.regs@[rd_spec(opcode)] == n.regs[rd_spec(opcode)]);
}

} // verus!

verus! {

/// The logical shifts: SRL and SRLV divide rt by two to the shift amount
/// (rounding down), SLL and SLLV multiply it when the product fits; the
/// variable forms take the amount from the low five bits of rs.
pub proof fn lemma_logical_shifts_scale(o: Cpu, opcode: u32, pc: u32, n: Cpu)
    requires
        special_done(o, opcode, pc, n),
        rd_spec(opcode) != 0,
        opcode & 0x3f == 0x00 || opcode & 0x3f == 0x02 || opcode & 0x3f == 0x04 || opcode & 0x3f == 0x06,
    ensures
        ({
            let t = o.spec_reg(rt_spec(opcode));
            let f = opcode & 0x3f;
            let s = if f == 0x00 || f == 0x02 {
                (opcode >> 6u32) & 0x1f
            } else {
                o.spec_reg(rs_spec(opcode)) & 0x1f
            };
            let r = n.regs[rd_spec(opcode)];
            &&& (f == 0x02 || f == 0x06) ==> r as nat == t as nat / vstd::arithmetic::power2::pow2(s as nat)
            &&& (f == 0x00 || f == 0x04) && t * vstd::arithmetic::power2::pow2(s as nat) <= u32::MAX ==> r as nat == t
                * vstd::arithmetic::power2::pow2(s as nat)
        }),
{
    let t = o.spec_reg(rt_spec(opcode));
    let f = opcode & 0x3f;
    let s = if f == 0x00 || f == 0x02 {
        (opcode >> 6u32) & 0x1f
    } else {
        o.spec_reg(rs_spec(opcode)) & 0x1f
    };
    assert(s < 32) by {
        crate::bits::lemma_and_le_u32(opcode >> 6u32, 0x1f);
        crate::bits::lemma_and_le_u32(o.spec_reg(rs_spec(opcode)), 0x1f);
    }
    vstd::bits::lemma_u32_shr_is_div(t, s);
    if t * vstd::arithmetic::power2::pow2(s as nat) <= u32::MAX {
        vstd::bits::lemma_u32_shl_is_mul(t, s);
    }
    assert(n.regs@[rd_spec(opcode)] == n.regs[rd_spec(opcode)]);
}

} // verus!
