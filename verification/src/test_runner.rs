//! Running a PS-X EXE as a test: stop conditions (PC, register, memory
//! word, exception), pass conditions checked when it stops, and the exit
//! code it reports, within a step budget.
use crate::cpu::cop0::{exception_code_spec, Exception};
use crate::{clock_room, exe_load_error, run_link, ExeLoadError, Ps1};
use vstd::prelude::*;

verus! {

pub const DEFAULT_MAX_STEPS: u64 = 1_000_000u64;
pub const EXCODE_MASK: u32 = 0x7cu32;

#[derive(Debug, Clone, Copy, PartialEq, Eq, Structural)]
pub enum PsxExeStopCondition {
    Pc(u32),
    RegisterEquals { reg: u8, value: u32 },
    Memory32Equals { addr: u32, value: u32 },
    Memory32NonZero { addr: u32 },
    Exception(Exception),
}

#[derive(Debug, Clone, Copy, PartialEq, Eq, Structural)]
pub enum PsxExePassCondition {
    RegisterEquals { reg: u8, value: u32 },
    Memory32Equals { addr: u32, value: u32 },
    Exception(Exception),
}

#[derive(Debug, Clone, Copy, PartialEq, Eq, Structural)]
pub enum PsxExeExitCodeSource {
    Register(u8),
    Memory32(u32),
}

#[derive(Debug, Clone, Copy, PartialEq, Eq, Structural)]
pub enum PsxExeRunStatus {
    Passed,
    Failed,
    Stopped,
    TimedOut,
}

#[derive(Debug, Clone, Copy, PartialEq, Eq, Structural)]
pub enum PsxExeStopReason {
    Pc(u32),
    RegisterEquals { reg: u8, value: u32 },
    Memory32Equals { addr: u32, value: u32 },
    Memory32NonZero { addr: u32, value: u32 },
    Exception(Exception),
}

#[derive(Debug, Clone, Copy, PartialEq, Eq, Structural)]
pub struct PsxExeRunReport {
    pub status: PsxExeRunStatus,
    pub steps: u64,
    pub cycles: u64,
    pub stop_reason: Option<PsxExeStopReason>,
    pub exit_code: Option<u32>,
    pub pc: u32,
    pub next_pc: u32,
}

#[derive(Debug, Clone)]
pub struct PsxExeTestConfig {
    pub max_steps: u64,
    pub stop_conditions: Vec<PsxExeStopCondition>,
    pub pass_conditions: Vec<PsxExePassCondition>,
    pub exit_code_source: Option<PsxExeExitCodeSource>,
}

impl PsxExeRunStatus {
    /// A run succeeded when it passed, or stopped with nothing to check.
    pub fn is_success(self) -> (r: bool)
        ensures
            r == (self == PsxExeRunStatus::Passed || self == PsxExeRunStatus::Stopped),
    {
        match self {
            PsxExeRunStatus::Passed => true,
            PsxExeRunStatus::Stopped => true,
            _ => false,
        }
    }
}

impl PsxExeTestConfig {
    pub fn new() -> (r: Self)
        ensures
            r.max_steps == DEFAULT_MAX_STEPS,
            r.stop_conditions@ == seq![PsxExeStopCondition::Exception(Exception::Break)],
            r.pass_conditions@.len() == 0,
            r.exit_code_source is None,
    {
        Self::default()
    }

    pub fn with_max_steps(self, max_steps: u64) -> (r: Self)
        ensures
            r.max_steps == max_steps,
            r.stop_conditions@ == self.stop_conditions@,
            r.pass_conditions@ == self.pass_conditions@,
            r.exit_code_source == self.exit_code_source,
    {
        let mut c = self;
        c.max_steps = max_steps;
        c
    }

    pub fn stop_when(self, condition: PsxExeStopCondition) -> (r: Self)
        ensures
            r.max_steps == self.max_steps,
            r.stop_conditions@ == self.stop_conditions@.push(condition),
            r.pass_conditions@ == self.pass_conditions@,
            r.exit_code_source == self.exit_code_source,
    {
        let mut c = self;
        c.stop_conditions.push(condition);
        c
    }

    pub fn pass_when(self, condition: PsxExePassCondition) -> (r: Self)
        ensures
            r.max_steps == self.max_steps,
            r.stop_conditions@ == self.stop_conditions@,
            r.pass_conditions@ == self.pass_conditions@.push(condition),
            r.exit_code_source == self.exit_code_source,
    {
        let mut c = self;
        c.pass_conditions.push(condition);
        c
    }

    pub fn exit_code_from(self, source: PsxExeExitCodeSource) -> (r: Self)
        ensures
            r.max_steps == self.max_steps,
            r.stop_conditions@ == self.stop_conditions@,
            r.pass_conditions@ == self.pass_conditions@,
            r.exit_code_source == Some(source),
    {
        let mut c = self;
        c.exit_code_source = Some(source);
        c
    }

    /// A mailbox word: stop once it is non-zero, pass if it holds
    /// `pass_value`, and report it as the exit code.
    pub fn with_mailbox32(self, addr: u32, pass_value: u32) -> (r: Self)
        ensures
            r.max_steps == self.max_steps,
            r.stop_conditions@ == self.stop_conditions@.push(PsxExeStopCondition::Memory32NonZero { addr }),
            r.pass_conditions@ == self.pass_conditions@.push(PsxExePassCondition::Memory32Equals { addr, value: pass_value }),
            r.exit_code_source == Some(PsxExeExitCodeSource::Memory32(addr)),
    {
        let mut c = self;
        c.stop_conditions.push(PsxExeStopCondition::Memory32NonZero { addr });
        c.pass_conditions.push(PsxExePassCondition::Memory32Equals { addr, value: pass_value });
        c.exit_code_source = Some(PsxExeExitCodeSource::Memory32(addr));
        c
    }
}

impl Default for PsxExeTestConfig {
    fn default() -> (r: Self)
        ensures
            r.max_steps == DEFAULT_MAX_STEPS,
            r.stop_conditions@ == seq![PsxExeStopCondition::Exception(Exception::Break)],
            r.pass_conditions@.len() == 0,
            r.exit_code_source is None,
    {
        let mut stop_conditions: Vec<PsxExeStopCondition> = Vec::new();
        stop_conditions.push(PsxExeStopCondition::Exception(Exception::Break));
        PsxExeTestConfig { max_steps: DEFAULT_MAX_STEPS, stop_conditions, pass_conditions: Vec::new(), exit_code_source: None }
    }
}

/// A CPU register by number; `None` past r31.
pub open spec fn read_reg_spec(ps1: Ps1, reg: u8) -> Option<u32> {
    if reg < 32 { Some(ps1.cpu.regs[reg as int]) } else { None }
}

/// The last exception taken (Cause.ExcCode) is `e`.
pub open spec fn exception_matches_spec(ps1: Ps1, e: Exception) -> bool {
    (ps1.cpu.cop0.regs[13] & EXCODE_MASK) >> 2u32 == exception_code_spec(e)
}

pub open spec fn stop_match(ps1: Ps1, c: PsxExeStopCondition) -> Option<PsxExeStopReason> {
    match c {
        PsxExeStopCondition::Pc(pc) => if ps1.cpu.pc == pc { Some(PsxExeStopReason::Pc(pc)) } else { None },
        PsxExeStopCondition::RegisterEquals { reg, value } => if read_reg_spec(ps1, reg) == Some(value) {
            Some(PsxExeStopReason::RegisterEquals { reg, value })
        } else {
            None
        },
        PsxExeStopCondition::Memory32Equals { addr, value } => if ps1.bus.peek_word(addr) == value {
            Some(PsxExeStopReason::Memory32Equals { addr, value })
        } else {
            None
        },
        PsxExeStopCondition::Memory32NonZero { addr } => if ps1.bus.peek_word(addr) != 0 {
            Some(PsxExeStopReason::Memory32NonZero { addr, value: ps1.bus.peek_word(addr) })
        } else {
            None
        },
        PsxExeStopCondition::Exception(e) => if exception_matches_spec(ps1, e) {
            Some(PsxExeStopReason::Exception(e))
        } else {
            None
        },
    }
}

/// The reason of the first stop condition (from index `i` on) that holds.
pub open spec fn first_stop(ps1: Ps1, conds: Seq<PsxExeStopCondition>, i: int) -> Option<PsxExeStopReason>
    decreases conds.len() - i,
{
    if i < 0 || i >= conds.len() {
        None
    } else {
        match stop_match(ps1, conds[i]) {
            Some(r) => Some(r),
            None => first_stop(ps1, conds, i + 1),
        }
    }
}

pub open spec fn pass_match(ps1: Ps1, c: PsxExePassCondition) -> bool {
    match c {
        PsxExePassCondition::RegisterEquals { reg, value } => read_reg_spec(ps1, reg) == Some(value),
        PsxExePassCondition::Memory32Equals { addr, value } => ps1.bus.peek_word(addr) == value,
        PsxExePassCondition::Exception(e) => exception_matches_spec(ps1, e),
    }
}

pub open spec fn exit_code_spec(ps1: Ps1, source: Option<PsxExeExitCodeSource>) -> Option<u32> {
    match source {
        None => None,
        Some(PsxExeExitCodeSource::Register(reg)) => read_reg_spec(ps1, reg),
        Some(PsxExeExitCodeSource::Memory32(addr)) => Some(ps1.bus.peek_word(addr)),
    }
}

/// The verdict when a run stops: stopped if there is nothing to check,
/// passed if every pass condition holds, failed otherwise.
pub open spec fn verdict(ps1: Ps1, passes: Seq<PsxExePassCondition>) -> PsxExeRunStatus {
    if passes.len() == 0 {
        PsxExeRunStatus::Stopped
    } else if forall|j: int| 0 <= j < passes.len() ==> #[trigger] pass_match(ps1, passes[j]) {
        PsxExeRunStatus::Passed
    } else {
        PsxExeRunStatus::Failed
    }
}

/// A mailbox run on the default stop conditions stops once the mailbox word
/// is non-zero (or a BREAK is taken), passes only when the word equals the
/// pass value and fails otherwise, and reports the word as its exit code.
pub proof fn lemma_mailbox_run(ps1: Ps1, addr: u32, pass_value: u32)
    ensures
        ({
            let stops = seq![
                PsxExeStopCondition::Exception(Exception::Break),
                PsxExeStopCondition::Memory32NonZero { addr },
            ];
            first_stop(ps1, stops, 0) is Some <==> (exception_matches_spec(ps1, Exception::Break)
                || ps1.bus.peek_word(addr) != 0)
        }),
        verdict(ps1, seq![PsxExePassCondition::Memory32Equals { addr, value: pass_value }]) == if ps1.bus.peek_word(
            addr,
        ) == pass_value {
            PsxExeRunStatus::Passed
        } else {
            PsxExeRunStatus::Failed
        },
        exit_code_spec(ps1, Some(PsxExeExitCodeSource::Memory32(addr))) == Some(ps1.bus.peek_word(addr)),
{
    let stops = seq![PsxExeStopCondition::Exception(Exception::Break), PsxExeStopCondition::Memory32NonZero { addr }];
    reveal_with_fuel(first_stop, 3);
    let passes = seq![PsxExePassCondition::Memory32Equals { addr, value: pass_value }];
    if ps1.bus.peek_word(addr) != pass_value {
        assert(!pass_match(ps1, passes[0]));
    }
}

pub fn read_reg(ps1: &Ps1, reg: u8) -> (r: Option<u32>)
    ensures
        r == read_reg_spec(*ps1, reg),
{
    if (reg as usize) < 32 {
        Some(ps1.cpu.regs[reg as usize])
    } else {
        None
    }
}

pub fn exception_matches(ps1: &Ps1, exception: Exception) -> (r: bool)
    ensures
        r == exception_matches_spec(*ps1, exception),
{
    ((ps1.cpu.cop0.cause() & EXCODE_MASK) >> 2u32) == exception.code()
}

pub fn stop_condition_matches(ps1: &Ps1, condition: PsxExeStopCondition) -> (r: Option<PsxExeStopReason>)
    requires
        ps1.wf(),
    ensures
        r == stop_match(*ps1, condition),
{
    match condition {
        PsxExeStopCondition::Pc(pc) => {
            if ps1.cpu.pc == pc {
                Some(PsxExeStopReason::Pc(pc))
            } else {
                None
            }
        },
        PsxExeStopCondition::RegisterEquals { reg, value } => {
            match read_reg(ps1, reg) {
                Some(actual) => if actual == value {
                    Some(PsxExeStopReason::RegisterEquals { reg, value })
                } else {
                    None
                },
                None => None,
            }
        },
        PsxExeStopCondition::Memory32Equals { addr, value } => {
            if ps1.bus.peek32(addr) == value {
                Some(PsxExeStopReason::Memory32Equals { addr, value })
            } else {
                None
            }
        },
        PsxExeStopCondition::Memory32NonZero { addr } => {
            let value = ps1.bus.peek32(addr);
            if value != 0 {
                Some(PsxExeStopReason::Memory32NonZero { addr, value })
            } else {
                None
            }
        },
        PsxExeStopCondition::Exception(exception) => {
            if exception_matches(ps1, exception) {
                Some(PsxExeStopReason::Exception(exception))
            } else {
                None
            }
        },
    }
}

pub fn pass_condition_matches(ps1: &Ps1, condition: PsxExePassCondition) -> (r: bool)
    requires
        ps1.wf(),
    ensures
        r == pass_match(*ps1, condition),
{
    match condition {
        PsxExePassCondition::RegisterEquals { reg, value } => {
            match read_reg(ps1, reg) {
                Some(actual) => actual == value,
                None => false,
            }
        },
        PsxExePassCondition::Memory32Equals { addr, value } => ps1.bus.peek32(addr) == value,
        PsxExePassCondition::Exception(exception) => exception_matches(ps1, exception),
    }
}

pub fn read_exit_code(ps1: &Ps1, source: Option<PsxExeExitCodeSource>) -> (r: Option<u32>)
    requires
        ps1.wf(),
    ensures
        r == exit_code_spec(*ps1, source),
{
    match source {
        None => None,
        Some(PsxExeExitCodeSource::Register(reg)) => read_reg(ps1, reg),
        Some(PsxExeExitCodeSource::Memory32(addr)) => Some(ps1.bus.peek32(addr)),
    }
}

/// The reason of the first stop condition that holds, in the order given.
pub fn find_stop_reason(ps1: &Ps1, config: &PsxExeTestConfig) -> (r: Option<PsxExeStopReason>)
    requires
        ps1.wf(),
    ensures
        r == first_stop(*ps1, config.stop_conditions@, 0),
{
    let mut i: usize = 0;
    while i < config.stop_conditions.len()
        invariant
            ps1.wf(),
            i <= config.stop_conditions@.len(),
            first_stop(*ps1, config.stop_conditions@, 0) == first_stop(*ps1, config.stop_conditions@, i as int),
        decreases config.stop_conditions@.len() - i,
    {
        let found = stop_condition_matches(ps1, config.stop_conditions[i]);
        if found.is_some() {
            return found;
        }
        i += 1;
    }
    None
}

/// The report of a run that stopped for `reason`.
pub fn finish_report(ps1: &Ps1, config: &PsxExeTestConfig, steps: u64, cycles: u64, reason: PsxExeStopReason) -> (r:
    PsxExeRunReport)
    requires
        ps1.wf(),
    ensures
        r == (PsxExeRunReport {
            status: verdict(*ps1, config.pass_conditions@),
            steps,
            cycles,
            stop_reason: Some(reason),
            exit_code: exit_code_spec(*ps1, config.exit_code_source),
            pc: ps1.cpu.pc,
            next_pc: ps1.cpu.next_pc,
        }),
{
    let status = if config.pass_conditions.len() == 0 {
        PsxExeRunStatus::Stopped
    } else {
        let mut all = true;
        let mut j: usize = 0;
        while j < config.pass_conditions.len()
            invariant
                ps1.wf(),
                j <= config.pass_conditions@.len(),
                all == forall|k: int| 0 <= k < j ==> #[trigger] pass_match(*ps1, config.pass_conditions@[k]),
            decreases config.pass_conditions@.len() - j,
        {
            let ok = pass_condition_matches(ps1, config.pass_conditions[j]);
            proof {
                if all && ok {
                    assert forall|k: int| 0 <= k < j + 1 implies #[trigger] pass_match(*ps1, config.pass_conditions@[k]) by {
                        if k < j {
                        }
                    }
                }
            }
            all = all && ok;
            j += 1;
        }
        if all {
            PsxExeRunStatus::Passed
        } else {
            PsxExeRunStatus::Failed
        }
    };
    PsxExeRunReport {
        status,
        steps,
        cycles,
        stop_reason: Some(reason),
        exit_code: read_exit_code(ps1, config.exit_code_source),
        pc: ps1.cpu.pc,
        next_pc: ps1.cpu.next_pc,
    }
}

/// Whether any option asks for a test run: test mode itself, a mailbox, a
/// stop address, a register pass condition or an exit-code register.
pub fn uses_test_runner(
    test_mode: bool,
    mailbox: Option<(u32, u32)>,
    stop_pc: Option<u32>,
    pass_reg: Option<(u8, u32)>,
    exit_reg: Option<u8>,
) -> (r: bool)
    ensures
        r == (test_mode || mailbox is Some || stop_pc is Some || pass_reg is Some || exit_reg is Some),
{
    test_mode || mailbox.is_some() || stop_pc.is_some() || pass_reg.is_some() || exit_reg.is_some()
}

/// The test configuration that the options ask for: the step budget, then
/// a mailbox word, a stop address, a register pass condition and the
/// register that holds the exit code, each where given.
pub fn build_test_config(
    steps: u64,
    mailbox: Option<(u32, u32)>,
    stop_pc: Option<u32>,
    pass_reg: Option<(u8, u32)>,
    exit_reg: Option<u8>,
) -> (r: PsxExeTestConfig)
    ensures
        r.max_steps == steps,
        r.stop_conditions@ == seq![PsxExeStopCondition::Exception(Exception::Break)] + (match mailbox {
            Some((addr, _)) => seq![PsxExeStopCondition::Memory32NonZero { addr }],
            None => Seq::empty(),
        }) + (match stop_pc {
            Some(pc) => seq![PsxExeStopCondition::Pc(pc)],
            None => Seq::empty(),
        }),
        r.pass_conditions@ == (match mailbox {
            Some((addr, value)) => seq![PsxExePassCondition::Memory32Equals { addr, value }],
            None => Seq::empty(),
        }) + (match pass_reg {
            Some((reg, value)) => seq![PsxExePassCondition::RegisterEquals { reg, value }],
            None => Seq::empty(),
        }),
        r.exit_code_source == match exit_reg {
            Some(reg) => Some(PsxExeExitCodeSource::Register(reg)),
            None => match mailbox {
                Some((addr, _)) => Some(PsxExeExitCodeSource::Memory32(addr)),
                None => None,
            },
        },
{
    let mut config = PsxExeTestConfig::new().with_max_steps(steps);
    if let Some((addr, pass_value)) = mailbox {
        config = config.with_mailbox32(addr, pass_value);
    }
    if let Some(pc) = stop_pc {
        config = config.stop_when(PsxExeStopCondition::Pc(pc));
    }
    if let Some((reg, value)) = pass_reg {
        config = config.pass_when(PsxExePassCondition::RegisterEquals { reg, value });
    }
    if let Some(reg) = exit_reg {
        config = config.exit_code_from(PsxExeExitCodeSource::Register(reg));
    }
    proof {
        assert(config.stop_conditions@ =~= seq![PsxExeStopCondition::Exception(Exception::Break)] + (match mailbox {
            Some((addr, _)) => seq![PsxExeStopCondition::Memory32NonZero { addr }],
            None => Seq::empty(),
        }) + (match stop_pc {
            Some(pc) => seq![PsxExeStopCondition::Pc(pc)],
            None => Seq::empty(),
        }));
        assert(config.pass_conditions@ =~= (match mailbox {
            Some((addr, value)) => seq![PsxExePassCondition::Memory32Equals { addr, value }],
            None => Seq::empty(),
        }) + (match pass_reg {
            Some((reg, value)) => seq![PsxExePassCondition::RegisterEquals { reg, value }],
            None => Seq::empty(),
        }));
    }
    config
}

/// No stop condition holds at state `i` of a run.
pub open spec fn not_stopped(states: Seq<Ps1>, stops: Seq<PsxExeStopCondition>, i: int) -> bool {
    first_stop(states[i], stops, 0) is None
}

/// A test run of `steps` console steps from `o` to `n`, each taken from a
/// state where no stop condition held.
pub open spec fn test_steps(o: Ps1, stops: Seq<PsxExeStopCondition>, steps: int, n: Ps1) -> bool {
    exists|states: Seq<Ps1>|
        {
            &&& states.len() == steps + 1
            &&& states[0] == o
            &&& states.last() == n
            &&& forall|i: int| 0 <= i < steps ==> #[trigger] run_link(states, i)
            &&& forall|i: int| 0 <= i < steps ==> #[trigger] not_stopped(states, stops, i)
        }
}

impl Ps1 {
    /// Runs until a stop condition holds (checked before the first step and
    /// after each one) or the step budget (at least one step) runs out.
    pub fn run_loaded_psx_exe_test(&mut self, config: &PsxExeTestConfig) -> (r: PsxExeRunReport)
        requires
            old(self).wf(),
            clock_room(old(self).scheduler.timestamp, 2 * (if config.max_steps < 1 { 1 } else { config.max_steps as int }) + 2),
        ensures
            final(self).wf(),
            r.cycles == 2 * r.steps,
            r.steps <= (if config.max_steps < 1 { 1 } else { config.max_steps }),
            r.exit_code == exit_code_spec(*final(self), config.exit_code_source),
            r.pc == final(self).cpu.pc && r.next_pc == final(self).cpu.next_pc,
            r.status == PsxExeRunStatus::TimedOut ==> r.stop_reason is None && r.steps == (if config.max_steps < 1 { 1 } else { config.max_steps })
                && first_stop(*final(self), config.stop_conditions@, 0) is None,
            r.status != PsxExeRunStatus::TimedOut ==> r.stop_reason == first_stop(*final(self), config.stop_conditions@, 0)
                && r.stop_reason is Some && r.status == verdict(*final(self), config.pass_conditions@),
            test_steps(*old(self), config.stop_conditions@, r.steps as int, *final(self)),
    {
        let max_steps = if config.max_steps < 1 { 1 } else { config.max_steps };
        let mut steps: u64 = 0;
        let mut cycles: u64 = 0;
        let ghost mut states: Seq<Ps1> = seq![*self];
        match find_stop_reason(self, config) {
            Some(reason) => {
                let r = finish_report(self, config, steps, cycles, reason);
                proof {
                    assert(states.last() == *self);
                }
                return r;
            },
            None => {},
        }
        while steps < max_steps
            invariant
                self.wf(),
                states.len() == steps + 1,
                states[0] == *old(self),
                states.last() == *self,
                forall|i: int| 0 <= i < steps ==> #[trigger] run_link(states, i),
                forall|i: int| 0 <= i < steps ==> #[trigger] not_stopped(states, config.stop_conditions@, i),
                max_steps == (if config.max_steps < 1 { 1 } else { config.max_steps }),
                steps <= max_steps,
                cycles == 2 * steps,
                self.scheduler.timestamp == old(self).scheduler.timestamp + 2 * steps,
                clock_room(old(self).scheduler.timestamp, 2 * max_steps + 2),
                first_stop(*self, config.stop_conditions@, 0) is None,
            decreases max_steps - steps,
        {
            let ghost prev = states;
            let ghost before = *self;
            proof {
                assert(not_stopped(prev, config.stop_conditions@, steps as int));
            }
            let c = self.step_one();
            proof {
                states = states.push(*self);
                assert forall|i: int| 0 <= i < steps + 1 implies #[trigger] run_link(states, i) by {
                    if i < steps {
                        assert(run_link(prev, i));
                    }
                    assert(states[i] == prev[i] || i == steps);
                    assert(i < steps ==> states[i + 1] == prev[i + 1]);
                    assert(i == steps ==> states[i] == before && states[i + 1] == *self);
                }
                assert forall|i: int| 0 <= i < steps + 1 implies #[trigger] not_stopped(
                    states,
                    config.stop_conditions@,
                    i,
                ) by {
                    assert(not_stopped(prev, config.stop_conditions@, i));
                    assert(states[i] == prev[i]);
                }
            }
            cycles = cycles + c as u64;
            steps += 1;
            match find_stop_reason(self, config) {
                Some(reason) => {
                    let r = finish_report(self, config, steps, cycles, reason);
                    proof {
                        assert(states.len() == steps + 1 && states[0] == *old(self) && states.last() == *self);
                        assert(forall|i: int| 0 <= i < steps ==> #[trigger] run_link(states, i));
                        assert(forall|i: int| 0 <= i < steps ==> #[trigger] not_stopped(states, config.stop_conditions@, i));
                    }
                    return r;
                },
                None => {},
            }
        }
        PsxExeRunReport {
            status: PsxExeRunStatus::TimedOut,
            steps,
            cycles,
            stop_reason: None,
            exit_code: read_exit_code(self, config.exit_code_source),
            pc: self.cpu.pc,
            next_pc: self.cpu.next_pc,
        }
    }
}

#[derive(Debug, Clone)]
pub struct PsxExeTestRunner {
    pub ps1: Ps1,
    pub config: PsxExeTestConfig,
}

impl PsxExeTestRunner {
    /// A console with the executable loaded, or the reason it could not be.
    pub fn new(bios: Option<Vec<u8>>, exe: &[u8], config: PsxExeTestConfig) -> (r: Result<Self, ExeLoadError>)
        ensures
            r is Ok <==> exe_load_error(exe@) is None,
            r matches Err(e) ==> exe_load_error(exe@) == Some(e),
            r matches Ok(runner) ==> runner.ps1.wf() && runner.ps1.scheduler.timestamp == 0 && runner.config.max_steps
                == config.max_steps,
    {
        let mut ps1 = Ps1::new(bios);
        match ps1.load_psx_exe(exe) {
            Ok(()) => Ok(PsxExeTestRunner { ps1, config }),
            Err(e) => Err(e),
        }
    }

    pub fn ps1(&self) -> (r: &Ps1)
        ensures
            *r == self.ps1,
    {
        &self.ps1
    }

    pub fn ps1_mut(&mut self) -> (r: &mut Ps1)
        ensures
            *r == old(self).ps1,
            final(self).ps1 == *final(r),
            final(self).config == old(self).config,
    {
        &mut self.ps1
    }

    pub fn run(&mut self) -> (r: PsxExeRunReport)
        requires
            old(self).ps1.wf(),
            clock_room(
                old(self).ps1.scheduler.timestamp,
                2 * (if old(self).config.max_steps < 1 { 1 } else { old(self).config.max_steps as int }) + 2,
            ),
        ensures
            final(self).ps1.wf(),
            r.steps <= (if old(self).config.max_steps < 1 { 1 } else { old(self).config.max_steps }),
            r.status != PsxExeRunStatus::TimedOut ==> r.stop_reason == first_stop(final(self).ps1, old(self).config.stop_conditions@, 0)
                && r.status == verdict(final(self).ps1, old(self).config.pass_conditions@),
            r.exit_code == exit_code_spec(final(self).ps1, old(self).config.exit_code_source),
    {
        self.ps1.run_loaded_psx_exe_test(&self.config)
    }
}

} // verus!
