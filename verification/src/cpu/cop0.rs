//! System control coprocessor (COP0): status, cause, EPC and exception entry.
use vstd::prelude::*;

verus! {

pub const STATUS_IE: u32 = 0x0000_0001u32;
pub const STATUS_ISC: u32 = 0x0001_0000u32;
pub const STATUS_BEV: u32 = 0x0040_0000u32;
pub const CAUSE_IP2: u32 = 0x0000_0400u32;
pub const CAUSE_BT: u32 = 0x4000_0000u32;
pub const CAUSE_BD: u32 = 0x8000_0000u32;
pub const CAUSE_EXCODE_MASK: u32 = 0x7cu32;
pub const CAUSE_CE_MASK: u32 = 0x3000_0000u32;
pub const INTERRUPT_MASK: u32 = 0xff00u32;
pub const CAUSE_SOFTWARE_INTERRUPT_MASK: u32 = 0x0300u32;

#[derive(Debug, Clone, Copy, PartialEq, Eq, Structural)]
pub enum Exception {
    Interrupt,
    AddressLoad,
    AddressStore,
    InstructionBusError,
    Syscall,
    Break,
    ReservedInstruction,
    CoprocessorUnusable,
    Overflow,
}

/// The ExcCode that the hardware stores in Cause bits 2 to 6.
pub open spec fn exception_code_spec(e: Exception) -> u32 {
    match e {
        Exception::Interrupt => 0,
        Exception::AddressLoad => 4,
        Exception::AddressStore => 5,
        Exception::InstructionBusError => 6,
        Exception::Syscall => 8,
        Exception::Break => 9,
        Exception::ReservedInstruction => 10,
        Exception::CoprocessorUnusable => 11,
        Exception::Overflow => 12,
    }
}

impl Exception {
    pub fn code(self) -> (r: u32)
        ensures
            r == exception_code_spec(self),
            r < 32,
    {
        match self {
            Exception::Interrupt => 0,
            Exception::AddressLoad => 4,
            Exception::AddressStore => 5,
            Exception::InstructionBusError => 6,
            Exception::Syscall => 8,
            Exception::Break => 9,
            Exception::ReservedInstruction => 10,
            Exception::CoprocessorUnusable => 11,
            Exception::Overflow => 12,
        }
    }
}

/// Everything exception entry needs to know about the faulting instruction.
pub struct ExceptionContext {
    pub exception: Exception,
    pub epc: u32,
    pub in_delay_slot: bool,
    pub delay_slot_branch_taken: bool,
    pub delay_slot_branch_target: u32,
    pub bad_vaddr: Option<u32>,
    pub coprocessor: Option<u8>,
}

#[derive(Debug, Clone)]
pub struct Cop0 {
    pub regs: [u32; 16],
}

/// What MFC0 reads from register `index`: a reserved-instruction fault for
/// registers 0-2, 4 and 10, 0x20 for 16-31, else the register (0 past 31).
pub open spec fn cop0_read_spec(c: Cop0, index: int) -> Result<u32, Exception> {
    if index <= 2 || index == 4 || index == 10 {
        Err(Exception::ReservedInstruction)
    } else if 16 <= index <= 31 {
        Ok(0x20u32)
    } else {
        Ok(if index < 16 { c.regs[index] } else { 0u32 })
    }
}

/// The registers after MTC0 to register `index`: Cause takes only its
/// software-interrupt bits, BadVaddr, PRId and registers past 15 ignore
/// the write.
pub open spec fn cop0_write_spec(regs: Seq<u32>, index: int, value: u32) -> Seq<u32> {
    if index == 13 {
        regs.update(13, (regs[13] & !CAUSE_SOFTWARE_INTERRUPT_MASK) | (value & CAUSE_SOFTWARE_INTERRUPT_MASK))
    } else if index == 8 || index == 15 || index >= 16 {
        regs
    } else {
        regs.update(index, value)
    }
}

/// The Cause value after exception entry.
pub open spec fn exception_cause(old_cause: u32, c: ExceptionContext) -> u32 {
    let base = old_cause & !(CAUSE_EXCODE_MASK | CAUSE_CE_MASK | CAUSE_BT);
    let with_code = base | (exception_code_spec(c.exception) << 2u32);
    let with_ce = match c.coprocessor {
        Some(cop) => with_code | (((cop as u32) & 3u32) << 28u32),
        None => with_code,
    };
    if c.in_delay_slot {
        if c.delay_slot_branch_taken {
            (with_ce | CAUSE_BD) | CAUSE_BT
        } else {
            with_ce | CAUSE_BD
        }
    } else {
        with_ce & !CAUSE_BD
    }
}

/// The Status value after exception entry: the interrupt-enable/kernel-mode
/// stack in bits 0 to 5 is pushed by two.
pub open spec fn exception_status(sr: u32) -> u32 {
    (sr & !0x3fu32) | ((sr << 2u32) & 0x3fu32)
}

/// The Status value after RFE: the stack is popped by two.
pub open spec fn rfe_status(sr: u32) -> u32 {
    (sr & !0x0fu32) | ((sr >> 2u32) & 0x0fu32)
}

/// Taking an exception pushes the kernel-mode/interrupt-enable stack (the
/// new current pair is kernel mode with interrupts off), and RFE pops it:
/// RFE after an exception entry gives back the current and previous pairs
/// and leaves the bits above the stack as they were.
pub proof fn lemma_rfe_undoes_exception_entry(sr: u32)
    ensures
        exception_status(sr) & 0x3 == 0,
        rfe_status(exception_status(sr)) & 0x0f == sr & 0x0f,
        rfe_status(exception_status(sr)) & !0x3fu32 == sr & !0x3fu32,
{
    assert(((sr & !0x3fu32) | ((sr << 2u32) & 0x3fu32)) & 0x3 == 0 && ((((sr & !0x3fu32) | ((sr << 2u32) & 0x3fu32))
        & !0x0fu32) | ((((sr & !0x3fu32) | ((sr << 2u32) & 0x3fu32)) >> 2u32) & 0x0fu32)) & 0x0f == sr & 0x0f && ((((sr
        & !0x3fu32) | ((sr << 2u32) & 0x3fu32)) & !0x0fu32) | ((((sr & !0x3fu32) | ((sr << 2u32) & 0x3fu32)) >> 2u32)
        & 0x0fu32)) & !0x3fu32 == sr & !0x3fu32) by (bit_vector);
}

impl Cop0 {
    pub open spec fn spec_status(&self) -> u32 {
        self.regs[12]
    }

    pub open spec fn spec_cause(&self) -> u32 {
        self.regs[13]
    }

    /// Interrupts are taken when IEc is set and some pending line in Cause is
    /// unmasked in Status.
    pub open spec fn spec_interrupts_enabled(&self) -> bool {
        self.regs[12] & STATUS_IE != 0 && self.regs[12] & self.regs[13] & INTERRUPT_MASK != 0
    }

    pub open spec fn spec_cache_isolated(&self) -> bool {
        self.regs[12] & STATUS_ISC != 0
    }

    /// The reset register file: boot exception vectors selected, PRId = 2.
    pub open spec fn is_reset(&self) -> bool {
        forall|i: int| 0 <= i < 16 ==> #[trigger] self.regs[i] == if i == 12 {
            STATUS_BEV
        } else if i == 15 {
            2u32
        } else {
            0u32
        }
    }

    pub fn new() -> (r: Self)
        ensures
            r.is_reset(),
    {
        let mut regs = [0u32;16];
        regs[12] = 0x0040_0000;
        regs[15] = 2;
        Self { regs }
    }

    pub fn reset(&mut self)
        ensures
            final(self).is_reset(),
    {
        *self = Self::new();
    }

    /// Reads a register; indices past the register file read as zero.
    pub fn read(&self, index: usize) -> (r: u32)
        ensures
            r == if index < 16 { self.regs[index as int] } else { 0u32 },
    {
        if index < 16 {
            self.regs[index]
        } else {
            0
        }
    }

    /// `MFC0`: registers 0 to 2, 4 and 10 do not exist on this CPU and raise a
    /// reserved-instruction exception; 16 to 31 read a fixed garbage value.
    pub fn read_checked(&self, index: usize) -> (r: Result<u32, Exception>)
        ensures
            r == cop0_read_spec(*self, index as int),
            (index <= 2 || index == 4 || index == 10) ==> r == Err::<u32, Exception>(Exception::ReservedInstruction),
            (16 <= index <= 31) ==> r == Ok::<u32, Exception>(0x20u32),
            !(index <= 2 || index == 4 || index == 10 || (16 <= index <= 31)) ==> r == Ok::<u32, Exception>(
                if index < 16 { self.regs[index as int] } else { 0u32 },
            ),
    {
        if index <= 2 || index == 4 || index == 10 {
            Err(Exception::ReservedInstruction)
        } else if 16 <= index && index <= 31 {
            Ok(0x0000_0020)
        } else {
            Ok(self.read(index))
        }
    }

    /// `MTC0`: Cause keeps all but its two software-interrupt bits; BadVaddr
    /// and PRId are read-only; writes past the register file are dropped.
    pub fn write(&mut self, index: usize, value: u32)
        ensures
            final(self).regs@ == cop0_write_spec(old(self).regs@, index as int, value),
            index == 13 ==> final(self).regs@ == old(self).regs@.update(
                13,
                (old(self).regs[13] & !CAUSE_SOFTWARE_INTERRUPT_MASK) | (value & CAUSE_SOFTWARE_INTERRUPT_MASK),
            ),
            (index == 8 || index == 15 || index >= 16) ==> final(self).regs == old(self).regs,
            (index < 16 && index != 8 && index != 13 && index != 15) ==> final(self).regs@ == old(self).regs@.update(
                index as int,
                value,
            ),
    {
        if index == 13 {
            self.regs[13] = (self.regs[13] & !CAUSE_SOFTWARE_INTERRUPT_MASK) | (value & CAUSE_SOFTWARE_INTERRUPT_MASK);
        } else if index == 8 || index == 15 {
        } else if index < 16 {
            self.regs[index] = value;
        }
    }

    pub fn status(&self) -> (r: u32)
        ensures
            r == self.regs[12],
    {
        self.regs[12]
    }

    pub fn cause(&self) -> (r: u32)
        ensures
            r == self.regs[13],
    {
        self.regs[13]
    }

    pub fn epc(&self) -> (r: u32)
        ensures
            r == self.regs[14],
    {
        self.regs[14]
    }

    pub fn bad_vaddr(&self) -> (r: u32)
        ensures
            r == self.regs[8],
    {
        self.regs[8]
    }

    /// Mirrors the interrupt controller's output into Cause.IP2.
    pub fn set_interrupt_pending(&mut self, pending: bool)
        ensures
            final(self).regs@ == old(self).regs@.update(
                13,
                if pending { old(self).regs[13] | CAUSE_IP2 } else { old(self).regs[13] & !CAUSE_IP2 },
            ),
    {
        if pending {
            self.regs[13] = self.regs[13] | CAUSE_IP2;
        } else {
            self.regs[13] = self.regs[13] & !CAUSE_IP2;
        }
    }

    pub fn interrupts_enabled(&self) -> (r: bool)
        ensures
            r == self.spec_interrupts_enabled(),
    {
        (self.regs[12] & STATUS_IE) != 0 && (self.regs[12] & self.regs[13] & INTERRUPT_MASK) != 0
    }

    pub fn cache_isolated(&self) -> (r: bool)
        ensures
            r == self.spec_cache_isolated(),
    {
        (self.regs[12] & STATUS_ISC) != 0
    }

    /// Exception entry: records BadVaddr, EPC (the branch for a delay-slot
    /// fault), Cause and the pushed Status, and returns the handler address,
    /// which Status.BEV selects.
    pub fn enter_exception(&mut self, context: ExceptionContext) -> (r: u32)
        ensures
            final(self).regs[8] == match context.bad_vaddr {
                Some(a) => a,
                None => old(self).regs[8],
            },
            final(self).regs[14] == if context.in_delay_slot { context.epc.wrapping_sub(4) } else { context.epc },
            final(self).regs[13] == exception_cause(old(self).regs[13], context),
            final(self).regs[12] == exception_status(old(self).regs[12]),
            final(self).regs[6] == if context.in_delay_slot && context.delay_slot_branch_taken {
                context.delay_slot_branch_target
            } else {
                old(self).regs[6]
            },
            forall|i: int| 0 <= i < 16 && i != 6 && i != 8 && i != 12 && i != 13 && i != 14 ==> final(self).regs[i]
                == old(self).regs[i],
            r == if exception_status(old(self).regs[12]) & STATUS_BEV != 0 { 0xbfc0_0180u32 } else { 0x8000_0080u32 },
    {
        if let Some(addr) = context.bad_vaddr {
            self.regs[8] = addr;
        }
        self.regs[14] = if context.in_delay_slot {
            context.epc.wrapping_sub(4)
        } else {
            context.epc
        };
        let mut cause = self.regs[13] & !(CAUSE_EXCODE_MASK | CAUSE_CE_MASK | CAUSE_BT);
        cause = cause | (context.exception.code() << 2u32);
        if let Some(cop) = context.coprocessor {
            cause = cause | (((cop as u32) & 3) << 28u32);
        }
        if context.in_delay_slot {
            cause = cause | CAUSE_BD;
            if context.delay_slot_branch_taken {
                cause = cause | CAUSE_BT;
                self.regs[6] = context.delay_slot_branch_target;
            }
        } else {
            cause = cause & !CAUSE_BD;
        }
        self.regs[13] = cause;
        self.regs[12] = (self.regs[12] & !0x3fu32) | ((self.regs[12] << 2u32) & 0x3f);
        if (self.regs[12] & STATUS_BEV) != 0 {
            0xbfc0_0180
        } else {
            0x8000_0080
        }
    }

    /// Return from exception: pops the interrupt-enable/kernel-mode stack.
    pub fn rfe(&mut self)
        ensures
            final(self).regs@ == old(self).regs@.update(12, rfe_status(old(self).regs[12])),
    {
        self.regs[12] = (self.regs[12] & !0x0fu32) | ((self.regs[12] >> 2u32) & 0x0f);
    }
}

impl Default for Cop0 {
    fn default() -> (r: Self)
        ensures
            r.is_reset(),
    {
        Self::new()
    }
}

} // verus!
