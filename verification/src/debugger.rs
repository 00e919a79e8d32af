//! The debugger: breakpoints, single-stepping, tracing and live instruction
//! patches, wrapped around the same fetch-execute loop as a plain run.
//!
//! A patch fully replaces the instruction that would otherwise decode at its
//! address, but the program counter always advances by the size of the real
//! decoded instruction: patches change behaviour, never code layout.

use std::collections::{HashMap, HashSet};

use vstd::prelude::*;

use crate::errors::{DecodeError, VmError};
use crate::instructions::{
    decode_spec, parse, sink_effect, step_det, Instruction, StepOutcome,
};
use crate::machine::{VmModel, MEM_SIZE, VM};
use crate::operand::Operand;
use crate::side_effects::{SideEffects, SinkModel};
use crate::text::{parse_u16, parse_uint, parse_uint_spec, split_spaces, split_spaces_spec, str_eq, views_of};

verus! {

broadcast use vstd::std_specs::hash::group_hash_axioms;

/// The debugger state: breakpoint addresses, the single-step flag, the
/// one-shot break-on-input-exhaustion flag (initially armed), the trace
/// flag, and the address-to-instruction patch table.
pub struct Debugger {
    pub breakpoints: HashSet<u16>,
    pub single_step: bool,
    pub break_on_exhaust: bool,
    pub trace: bool,
    pub memory_patches: HashMap<u16, Instruction>,
}

/// The patches the debugger is born with: known fix-ups for specific
/// addresses of the shipped program image.
pub open spec fn initial_patches() -> Map<u16, Instruction> {
    map![
        5451u16 => Instruction::Noop,
        5483u16 => (Instruction::SetReg { a: Operand::Reg(0), b: Operand::Literal(6) }),
        5486u16 => (Instruction::SetReg { a: Operand::Reg(7), b: Operand::Literal(25734) }),
        5489u16 => Instruction::Noop,
    ]
}

/// What toggling one breakpoint address does to the breakpoint set:
/// inserting if absent, removing if already present.
pub open spec fn toggle_spec(s: Set<u16>, addr: u16) -> Set<u16> {
    if s.contains(addr) {
        s.remove(addr)
    } else {
        s.insert(addr)
    }
}

/// Toggling a breakpoint address twice leaves the breakpoint set as it
/// was; toggling it once on a set without it adds it.
pub proof fn lemma_toggle_involution(s: Set<u16>, addr: u16)
    ensures
        toggle_spec(toggle_spec(s, addr), addr) == s,
        !s.contains(addr) ==> toggle_spec(s, addr).contains(addr),
{
    assert(toggle_spec(toggle_spec(s, addr), addr) =~= s);
}

/// How a bounded run ended when no error occurred: the machine halted, or
/// the step budget ran out first.
#[derive(Debug, Clone, Copy, PartialEq, Eq, Structural)]
pub enum RunEnd {
    Halted,
    StepLimit,
}

/// Every adjacent pair of the trace is one machine step that went on.
pub open spec fn trace_ok(d: Debugger, tr: Seq<VmModel>) -> bool {
    forall|i: int|
        0 <= i < tr.len() - 1 ==> d.step_post(
            #[trigger] tr[i],
            tr[i + 1],
            Ok::<StepOutcome, VmError>(StepOutcome::Continue),
        )
}

/// `m1` is reachable from `m0` by exactly `n` continuing machine steps
/// under debugger `d`: a trace of `n + 1` states certifies them.
pub open spec fn reaches_n(d: Debugger, m0: VmModel, m1: VmModel, n: int) -> bool {
    exists|tr: Seq<VmModel>|
        tr.len() == n + 1 && tr.first() == m0 && tr.last() == m1 && #[trigger] trace_ok(d, tr)
}

/// `m1` is reachable from `m0` by zero or more continuing machine steps
/// under debugger `d`.
pub open spec fn reaches(d: Debugger, m0: VmModel, m1: VmModel) -> bool {
    exists|tr: Seq<VmModel>|
        tr.len() >= 1 && tr.first() == m0 && tr.last() == m1 && #[trigger] trace_ok(d, tr)
}

/// A counted trace is in particular a trace.
pub proof fn lemma_reaches_n_reaches(d: Debugger, m0: VmModel, m1: VmModel, n: int)
    requires
        n >= 0,
        reaches_n(d, m0, m1, n),
    ensures
        reaches(d, m0, m1),
{
    let tr = choose|tr: Seq<VmModel>|
        tr.len() == n + 1 && tr.first() == m0 && tr.last() == m1 && #[trigger] trace_ok(d, tr);
    assert(tr.len() >= 1 && tr.first() == m0 && tr.last() == m1 && trace_ok(d, tr));
}

/// Reachability is reflexive: the one-state trace certifies zero steps.
pub proof fn lemma_reaches_refl(d: Debugger, m: VmModel)
    ensures
        reaches_n(d, m, m, 0),
{
    let tr = seq![m];
    assert(trace_ok(d, tr));
}

/// Counted reachability extends by one continuing step.
pub proof fn lemma_reaches_extend(d: Debugger, a: VmModel, b: VmModel, c: VmModel, n: int)
    requires
        n >= 0,
        reaches_n(d, a, b, n),
        d.step_post(b, c, Ok::<StepOutcome, VmError>(StepOutcome::Continue)),
    ensures
        reaches_n(d, a, c, n + 1),
{
    let tr = choose|tr: Seq<VmModel>|
        tr.len() == n + 1 && tr.first() == a && tr.last() == b && #[trigger] trace_ok(d, tr);
    let tr2 = tr.push(c);
    assert(trace_ok(d, tr2)) by {
        assert forall|i: int| 0 <= i < tr2.len() - 1 implies d.step_post(
            #[trigger] tr2[i],
            tr2[i + 1],
            Ok::<StepOutcome, VmError>(StepOutcome::Continue),
        ) by {
            if i < tr.len() - 1 {
                assert(tr2[i] == tr[i]);
                assert(tr2[i + 1] == tr[i + 1]);
            } else {
                assert(tr2[i] == tr[tr.len() - 1]);
                assert(tr2[i + 1] == c);
            }
        }
    }
    assert(tr2.first() == a && tr2.last() == c);
}

/// The structured answer of one shell command, which an operator console
/// renders as text. `Stepping`, `Resuming` and `Tracing` leave the shell.
#[derive(Debug, PartialEq, Eq)]
pub enum ShellReply {
    /// `s`: execute one instruction, then return to the shell.
    Stepping,
    /// `g`: resume free-running execution.
    Resuming,
    /// `trace`: resume execution, printing every instruction.
    Tracing,
    /// `regs`: the program counter and all eight registers.
    Regs { pc: u16, registers: Vec<u16> },
    /// `bp` with no arguments: the breakpoints in ascending order (empty
    /// means none exist).
    Breakpoints(Vec<u16>),
    /// `bp` with addresses: every address was toggled.
    Toggled,
    /// `set`: the write was performed.
    SetDone,
    /// An argument that should have been an integer was not.
    BadInteger(String),
    /// The suffix after `reg` is not an integer.
    BadRegister(String),
    /// The register index is not in 0..=7.
    RegisterOutOfRange(u64),
    /// The memory address is beyond the address space.
    AddressOutOfBounds(u64),
    /// `set` needs exactly a target and a value.
    BadSetSyntax,
    /// The `set` target is neither `pc`, a register, nor an address.
    InvalidSetTarget,
    /// `help`: list the commands.
    Help,
    /// An empty line is ignored.
    Empty,
    /// Anything else is reported and ignored.
    Unknown,
}

/// What toggling a list of address tokens does: each token in turn is read
/// as an integer and toggled; the first unreadable token stops the walk.
/// Yields the resulting breakpoint set and the offending token, if any.
pub open spec fn bp_outcome(s: Set<u16>, ops: Seq<Seq<char>>) -> (Set<u16>, Option<Seq<char>>)
    decreases ops.len(),
{
    if ops.len() == 0 {
        (s, None)
    } else {
        match parse_uint_spec(ops[0], 65535) {
            None => (s, Some(ops[0])),
            Some(v) => bp_outcome(toggle_spec(s, v as u16), ops.drop_first()),
        }
    }
}

/// The debugger's flags and patches after a command, given the two flags
/// that may change.
pub open spec fn flags_to(d0: Debugger, d1: Debugger, single_step: bool, trace: bool) -> bool {
    &&& d1.single_step == single_step
    &&& d1.trace == trace
    &&& d1.break_on_exhaust == d0.break_on_exhaust
    &&& d1.breakpoints@ == d0.breakpoints@
    &&& d1.memory_patches == d0.memory_patches
}

/// Nothing of the debugger changed.
pub open spec fn debugger_unchanged(d0: Debugger, d1: Debugger) -> bool {
    flags_to(d0, d1, d0.single_step, d0.trace)
}

/// What the `bp` command does and answers.
pub open spec fn bp_spec(d0: Debugger, ops: Seq<Seq<char>>, d1: Debugger, r: ShellReply) -> bool {
    &&& d1.single_step == d0.single_step
    &&& d1.break_on_exhaust == d0.break_on_exhaust
    &&& d1.trace == d0.trace
    &&& d1.memory_patches == d0.memory_patches
    &&& if ops.len() == 0 {
        &&& d1.breakpoints@ == d0.breakpoints@
        &&& (r matches ShellReply::Breakpoints(v) && ({
            &&& forall|i: int, j: int| 0 <= i < j < v@.len() ==> v@[i] < v@[j]
            &&& forall|x: u16| v@.contains(x) <==> d0.breakpoints@.contains(x)
        }))
    } else {
        &&& d1.breakpoints@ == bp_outcome(d0.breakpoints@, ops).0
        &&& match bp_outcome(d0.breakpoints@, ops).1 {
            None => r == ShellReply::Toggled,
            Some(t) => r matches ShellReply::BadInteger(x) && x@ == t,
        }
    }
}

/// What the `set` command does and answers: the value is read first; the
/// target is `pc`, `reg<N>`, or a bare memory address; every error leaves
/// the machine untouched.
pub open spec fn set_spec(m0: VmModel, ops: Seq<Seq<char>>, m1: VmModel, r: ShellReply) -> bool {
    if ops.len() != 2 {
        m1 == m0 && r == ShellReply::BadSetSyntax
    } else {
        let target = ops[0];
        match parse_uint_spec(ops[1], 65535) {
            None => m1 == m0 && (r matches ShellReply::BadInteger(t) && t@ == ops[1]),
            Some(value) => if target == "pc"@ {
                m1 == m0.with_pc(value as u16) && r == ShellReply::SetDone
            } else if target.len() >= 3 && target.take(3) == "reg"@ {
                match parse_uint_spec(target.skip(3), usize::MAX as int) {
                    None => m1 == m0 && (r matches ShellReply::BadRegister(t) && t@ == target.skip(
                        3,
                    )),
                    Some(reg) => if reg >= 8 {
                        m1 == m0 && r == ShellReply::RegisterOutOfRange(reg as u64)
                    } else {
                        m1 == m0.with_reg(reg as int, value as u16) && r == ShellReply::SetDone
                    },
                }
            } else {
                match parse_uint_spec(target, usize::MAX as int) {
                    Some(addr) => if addr >= MEM_SIZE {
                        m1 == m0 && r == ShellReply::AddressOutOfBounds(addr as u64)
                    } else {
                        m1 == m0.with_mem(addr as int, value as u16) && r == ShellReply::SetDone
                    },
                    None => m1 == m0 && r == ShellReply::InvalidSetTarget,
                }
            },
        }
    }
}

/// The whole shell protocol: what one command line does to the debugger
/// and the machine, and what it answers.
pub open spec fn shell_spec(
    d0: Debugger,
    m0: VmModel,
    line: Seq<char>,
    d1: Debugger,
    m1: VmModel,
    r: ShellReply,
) -> bool {
    let toks = split_spaces_spec(line);
    let cmd = toks[0];
    if cmd == "s"@ {
        flags_to(d0, d1, true, d0.trace) && m1 == m0 && r == ShellReply::Stepping
    } else if cmd == "g"@ {
        flags_to(d0, d1, false, d0.trace) && m1 == m0 && r == ShellReply::Resuming
    } else if cmd == "trace"@ {
        flags_to(d0, d1, false, true) && m1 == m0 && r == ShellReply::Tracing
    } else if cmd == "regs"@ {
        debugger_unchanged(d0, d1) && m1 == m0 && (r matches ShellReply::Regs { pc, registers }
            && pc == m0.pc && registers@ == m0.registers)
    } else if cmd == "bp"@ {
        m1 == m0 && bp_spec(d0, toks.skip(1), d1, r)
    } else if cmd == "set"@ {
        debugger_unchanged(d0, d1) && set_spec(m0, toks.skip(1), m1, r)
    } else if cmd == "help"@ {
        debugger_unchanged(d0, d1) && m1 == m0 && r == ShellReply::Help
    } else if cmd == ""@ {
        debugger_unchanged(d0, d1) && m1 == m0 && r == ShellReply::Empty
    } else {
        debugger_unchanged(d0, d1) && m1 == m0 && r == ShellReply::Unknown
    }
}

/// Relies on `itertools::sorted`, which collects the iterator into a
/// vector and sorts it ascending with the standard stable sort; iterating
/// a hash set yields each element exactly once, so the result is strictly
/// increasing and holds exactly the set's elements.
#[verifier::external_body]
fn sorted_breakpoints(s: &HashSet<u16>) -> (r: Vec<u16>)
    ensures
        forall|i: int, j: int| 0 <= i < j < r@.len() ==> r@[i] < r@[j],
        forall|x: u16| r@.contains(x) <==> s@.contains(x),
{
    itertools::sorted(s.iter().copied()).collect()
}

impl Debugger {
    /// Every patched instruction is well formed.
    pub open spec fn wf(self) -> bool {
        forall|k: u16| #[trigger]
            self.memory_patches@.contains_key(k) ==> self.memory_patches@[k].wf()
    }

    /// A fresh debugger: no breakpoints, free-running, exhaustion break
    /// armed, trace off, and the pre-seeded patch table.
    pub fn new() -> (r: Debugger)
        ensures
            r.wf(),
            r.breakpoints@ == Set::<u16>::empty(),
            r.single_step == false,
            r.break_on_exhaust == true,
            r.trace == false,
            r.memory_patches@ == initial_patches(),
    {
        let mut memory_patches: HashMap<u16, Instruction> = HashMap::new();
        memory_patches.insert(5451, Instruction::Noop);
        memory_patches.insert(
            5483,
            Instruction::SetReg { a: Operand::Reg(0), b: Operand::Literal(6) },
        );
        memory_patches.insert(
            5486,
            Instruction::SetReg { a: Operand::Reg(7), b: Operand::Literal(25734) },
        );
        memory_patches.insert(5489, Instruction::Noop);
        proof {
            assert(memory_patches@ =~= initial_patches());
        }
        Debugger {
            breakpoints: HashSet::new(),
            single_step: false,
            break_on_exhaust: true,
            trace: false,
            memory_patches,
        }
    }

    /// What fetching at the current program counter yields: the really
    /// decoded instruction, with the patch for that address substituted if
    /// one exists — but always the real instruction's size.
    pub open spec fn fetch_spec(self, m: VmModel) -> Result<(Instruction, u16), DecodeError> {
        match decode_spec(m.memory, m.pc as int) {
            Err(e) => Err(e),
            Ok((i, size)) => Ok(
                (
                    if self.memory_patches@.contains_key(m.pc) {
                        self.memory_patches@[m.pc]
                    } else {
                        i
                    },
                    size,
                ),
            ),
        }
    }

    /// Decode the instruction at the program counter; if a patch exists for
    /// that address, substitute the patch's instruction but keep the real
    /// decoded size, so the program counter advances over the underlying
    /// code.
    pub fn instruction_at_pc(&self, vm: &VM) -> (r: Result<(Instruction, u16), DecodeError>)
        requires
            self.wf(),
        ensures
            r == self.fetch_spec(vm@),
            r matches Ok((i, size)) ==> i.wf() && 1 <= size <= 4 && vm.pc + size <= vm@.memory.len(),
    {
        match parse(vm.memory.as_slice(), vm.pc) {
            Err(e) => Err(e),
            Ok((instruction, size)) => {
                match self.memory_patches.get(&vm.pc) {
                    Some(patch) => Ok((*patch, size)),
                    None => Ok((instruction, size)),
                }
            },
        }
    }

    /// What one fetch-advance-execute step does: on a decode error nothing
    /// moves; otherwise the program counter first advances by the decoded
    /// size, and the (possibly patched) instruction then executes from that
    /// intermediate state.
    pub open spec fn step_post(
        self,
        m0: VmModel,
        m1: VmModel,
        r: Result<StepOutcome, VmError>,
    ) -> bool {
        match self.fetch_spec(m0) {
            Err(e) => r == Err::<StepOutcome, VmError>(VmError::Decode(e)) && m1 == m0,
            Ok((i, size)) => {
                let mid = m0.with_pc((m0.pc + size) as u16);
                if !(i matches Instruction::In { .. }) {
                    match step_det(i, mid) {
                        Ok((m2, oc)) => r == Ok::<StepOutcome, VmError>(oc) && m1 == m2,
                        Err(e) => r == Err::<StepOutcome, VmError>(VmError::Exec(e)) && m1 == mid,
                    }
                } else {
                    match r {
                        Ok(oc) => oc == StepOutcome::Continue && (match i {
                            Instruction::In { a } => (match a {
                                Operand::Reg(rg) => exists|v: u16|
                                    m1 == #[trigger] mid.with_reg(rg as int, v),
                                Operand::Literal(_) => false,
                            }),
                            _ => false,
                        }),
                        Err(e) => m1 == mid && (e == VmError::Exec(
                            crate::errors::ExecError::InputUnavailable,
                        ) || e == VmError::Exec(crate::errors::ExecError::InvalidWriteTarget)),
                    }
                }
            },
        }
    }

    /// How one step moves the side-effect sink: nothing on a decode error,
    /// and otherwise exactly the fetched instruction's own event, as
    /// `sink_effect` says from the advanced intermediate state.
    pub open spec fn step_sink_post(
        self,
        m0: VmModel,
        m1: VmModel,
        s0: SinkModel,
        s1: SinkModel,
        r: Result<StepOutcome, VmError>,
    ) -> bool {
        match self.fetch_spec(m0) {
            Err(_) => s1 == s0,
            Ok((i, size)) => {
                let mid = m0.with_pc((m0.pc + size) as u16);
                match r {
                    Ok(oc) => sink_effect(i, mid, m1, s0, s1, Ok(oc)),
                    Err(VmError::Exec(e)) => sink_effect(i, mid, m1, s0, s1, Err(e)),
                    Err(VmError::Decode(_)) => s1 == s0,
                }
            },
        }
    }

    /// One iteration of the fetch-execute loop: fetch (with patch
    /// substitution), advance the program counter by the decoded size,
    /// execute.
    pub fn step<S: SideEffects>(&self, vm: &mut VM, side_effects: &mut S) -> (r: Result<
        StepOutcome,
        VmError,
    >)
        requires
            self.wf(),
            old(vm).wf(),
        ensures
            final(vm).wf(),
            self.step_post(old(vm)@, final(vm)@, r),
            self.step_sink_post(
                old(vm)@,
                final(vm)@,
                old(side_effects).model(),
                final(side_effects).model(),
                r,
            ),
    {
        let (instruction, size) = match self.instruction_at_pc(vm) {
            Ok(fetched) => fetched,
            Err(e) => {
                return Err(VmError::Decode(e));
            },
        };
        vm.pc = vm.pc + size;
        match instruction.execute(vm, side_effects) {
            Ok(outcome) => Ok(outcome),
            Err(e) => Err(VmError::Exec(e)),
        }
    }

    /// Run the fetch-execute loop until the machine halts, a fatal error
    /// occurs, or `max_steps` instructions have executed. Every iteration
    /// re-decodes memory: the program may rewrite its own code, and a patch
    /// may intercept any address. The step budget makes the loop provably
    /// finite; a caller that wants an unbounded run passes `u64::MAX` and
    /// calls again on `StepLimit`. A `StepLimit` return certifies that
    /// exactly `max_steps` continuing machine steps were taken, so the loop
    /// can end early only on the sink's halt or a fatal error.
    pub fn run<S: SideEffects>(
        &self,
        vm: &mut VM,
        side_effects: &mut S,
        max_steps: u64,
    ) -> (r: Result<RunEnd, VmError>)
        requires
            self.wf(),
            old(vm).wf(),
        ensures
            final(vm).wf(),
            r matches Ok(RunEnd::StepLimit) ==> reaches_n(
                *self,
                old(vm)@,
                final(vm)@,
                max_steps as int,
            ),
            r matches Ok(RunEnd::Halted) ==> exists|m_pre: VmModel|
                #[trigger] self.step_post(m_pre, final(vm)@, Ok(StepOutcome::Halted)) && reaches(
                    *self,
                    old(vm)@,
                    m_pre,
                ),
            r matches Err(e) ==> exists|m_pre: VmModel|
                #[trigger] self.step_post(m_pre, final(vm)@, Err(e)) && reaches(
                    *self,
                    old(vm)@,
                    m_pre,
                ),
    {
        proof {
            lemma_reaches_refl(*self, vm@);
        }
        let mut steps_left = max_steps;
        loop
            invariant
                self.wf(),
                vm.wf(),
                steps_left <= max_steps,
                reaches_n(*self, old(vm)@, vm@, max_steps - steps_left),
            decreases steps_left,
        {
            if steps_left == 0 {
                return Ok(RunEnd::StepLimit);
            }
            let ghost taken = max_steps - steps_left;
            steps_left = steps_left - 1;
            let ghost m_pre = vm@;
            match self.step(vm, side_effects) {
                Ok(StepOutcome::Continue) => {
                    proof {
                        lemma_reaches_extend(*self, old(vm)@, m_pre, vm@, taken);
                    }
                },
                Ok(StepOutcome::Halted) => {
                    proof {
                        lemma_reaches_n_reaches(*self, old(vm)@, m_pre, taken);
                    }
                    return Ok(RunEnd::Halted);
                },
                Err(e) => {
                    proof {
                        lemma_reaches_n_reaches(*self, old(vm)@, m_pre, taken);
                    }
                    return Err(e);
                },
            }
        }
    }

    /// The bookkeeping a debug-loop iteration does before fetch and
    /// execute: disarm the one-shot exhaustion break and force single-step
    /// when the replay log has just run dry, force single-step on a
    /// breakpoint. Returns whether to print the instruction and whether to
    /// enter the interactive shell.
    pub fn debug_prelude(&mut self, pc: u16, exhausted: bool) -> (r: (bool, bool))
        requires
            old(self).wf(),
        ensures
            final(self).wf(),
            final(self).break_on_exhaust == (old(self).break_on_exhaust && !exhausted),
            final(self).single_step == (old(self).single_step || (old(self).break_on_exhaust
                && exhausted) || old(self).breakpoints@.contains(pc)),
            final(self).trace == old(self).trace,
            final(self).breakpoints == old(self).breakpoints,
            final(self).memory_patches == old(self).memory_patches,
            r.0 == (final(self).single_step || final(self).trace),
            r.1 == final(self).single_step,
    {
        if self.break_on_exhaust && exhausted {
            self.break_on_exhaust = false;
            self.single_step = true;
        }
        if self.breakpoints.contains(&pc) {
            self.single_step = true;
        }
        (self.single_step || self.trace, self.single_step)
    }

    /// Handle one line of the interactive shell: the first space-separated
    /// token names the command, the rest are its arguments. The reply is
    /// the structured answer an operator console renders; `Stepping`,
    /// `Resuming` and `Tracing` also tell the caller to leave the shell and
    /// resume execution.
    pub fn shell_line(&mut self, vm: &mut VM, line: &str) -> (r: ShellReply)
        requires
            old(self).wf(),
            old(vm).wf(),
        ensures
            final(self).wf(),
            final(vm).wf(),
            shell_spec(*old(self), old(vm)@, line@, *final(self), final(vm)@, r),
    {
        let tokens = split_spaces(line);
        let command = tokens[0];
        proof {
            assert(views_of(tokens@)[0] == command@);
        }
        if str_eq(command, "s") {
            self.single_step = true;
            ShellReply::Stepping
        } else if str_eq(command, "g") {
            self.single_step = false;
            ShellReply::Resuming
        } else if str_eq(command, "trace") {
            self.single_step = false;
            self.trace = true;
            ShellReply::Tracing
        } else if str_eq(command, "regs") {
            let n = vm.registers.len();
            let mut registers: Vec<u16> = Vec::new();
            let mut j: usize = 0;
            while j < n
                invariant
                    j <= n,
                    n == vm@.registers.len(),
                    registers@ =~= vm@.registers.subrange(0, j as int),
                decreases n - j,
            {
                registers.push(vm.registers[j]);
                j = j + 1;
            }
            proof {
                assert(registers@ =~= vm@.registers);
            }
            ShellReply::Regs { pc: vm.pc, registers }
        } else if str_eq(command, "bp") {
            self.bp_command(&tokens)
        } else if str_eq(command, "set") {
            self.set_command(vm, &tokens)
        } else if str_eq(command, "help") {
            ShellReply::Help
        } else if str_eq(command, "") {
            ShellReply::Empty
        } else {
            ShellReply::Unknown
        }
    }

    /// The `bp` command: with no arguments, list the breakpoints in
    /// ascending order; with arguments, toggle each address in turn,
    /// stopping at the first argument that is not an integer.
    fn bp_command(&mut self, tokens: &Vec<&str>) -> (r: ShellReply)
        requires
            old(self).wf(),
            tokens@.len() >= 1,
        ensures
            final(self).wf(),
            bp_spec(*old(self), views_of(tokens@).skip(1), *final(self), r),
    {
        let ghost ops = views_of(tokens@).skip(1);
        if tokens.len() == 1 {
            let list = sorted_breakpoints(&self.breakpoints);
            return ShellReply::Breakpoints(list);
        }
        let mut k: usize = 1;
        while k < tokens.len()
            invariant
                self.wf(),
                1 <= k <= tokens@.len(),
                tokens@.len() >= 2,
                ops == views_of(tokens@).skip(1),
                self.single_step == old(self).single_step,
                self.break_on_exhaust == old(self).break_on_exhaust,
                self.trace == old(self).trace,
                self.memory_patches == old(self).memory_patches,
                bp_outcome(old(self).breakpoints@, ops) == bp_outcome(
                    self.breakpoints@,
                    views_of(tokens@).skip(k as int),
                ),
            decreases tokens@.len() - k,
        {
            let token = tokens[k];
            let ghost rest = views_of(tokens@).skip(k as int);
            proof {
                assert(rest[0] == token@);
                assert(rest.drop_first() =~= views_of(tokens@).skip(k as int + 1));
            }
            match parse_u16(token) {
                Some(addr) => {
                    self.toggle_breakpoint(addr);
                    k = k + 1;
                },
                None => {
                    return ShellReply::BadInteger(token.to_owned());
                },
            }
        }
        proof {
            assert(views_of(tokens@).skip(tokens@.len() as int).len() == 0);
        }
        ShellReply::Toggled
    }

    /// The `set` command: `set <target> <value>` writes a 16-bit value to
    /// the program counter, a register `reg0`..`reg7`, or a bare memory
    /// address; every malformed or out-of-range argument is reported, and
    /// the machine is then left untouched.
    fn set_command(&self, vm: &mut VM, tokens: &Vec<&str>) -> (r: ShellReply)
        requires
            old(vm).wf(),
            tokens@.len() >= 1,
        ensures
            final(vm).wf(),
            set_spec(old(vm)@, views_of(tokens@).skip(1), final(vm)@, r),
    {
        let ghost ops = views_of(tokens@).skip(1);
        if tokens.len() != 3 {
            return ShellReply::BadSetSyntax;
        }
        let target = tokens[1];
        let vtok = tokens[2];
        proof {
            assert(ops[0] == target@);
            assert(ops[1] == vtok@);
        }
        let value = match parse_u16(vtok) {
            Some(v) => v,
            None => {
                return ShellReply::BadInteger(vtok.to_owned());
            },
        };
        if str_eq(target, "pc") {
            vm.pc = value;
            return ShellReply::SetDone;
        }
        let tlen = target.unicode_len();
        if tlen >= 3 && str_eq(target.substring_char(0, 3), "reg") {
            proof {
                assert(target@.subrange(0, 3) =~= target@.take(3));
            }
            let suffix = target.substring_char(3, tlen);
            proof {
                assert(suffix@ =~= target@.skip(3));
            }
            return match parse_uint(suffix, usize::MAX as u64) {
                None => ShellReply::BadRegister(suffix.to_owned()),
                Some(reg64) => {
                    if reg64 >= 8 {
                        ShellReply::RegisterOutOfRange(reg64)
                    } else {
                        let reg = reg64 as usize;
                        vm.registers.set(reg, value);
                        ShellReply::SetDone
                    }
                },
            };
        }
        proof {
            assert(!(target@.len() >= 3 && target@.take(3) == "reg"@));
        }
        match parse_uint(target, usize::MAX as u64) {
            Some(addr64) => {
                if addr64 >= MEM_SIZE as u64 {
                    ShellReply::AddressOutOfBounds(addr64)
                } else {
                    vm.memory.set(addr64 as usize, value);
                    ShellReply::SetDone
                }
            },
            None => ShellReply::InvalidSetTarget,
        }
    }

    /// Toggle one breakpoint address: insert it if absent, remove it if
    /// already present.
    pub fn toggle_breakpoint(&mut self, addr: u16)
        requires
            old(self).wf(),
        ensures
            final(self).wf(),
            final(self).breakpoints@ == toggle_spec(old(self).breakpoints@, addr),
            final(self).single_step == old(self).single_step,
            final(self).break_on_exhaust == old(self).break_on_exhaust,
            final(self).trace == old(self).trace,
            final(self).memory_patches == old(self).memory_patches,
    {
        if !self.breakpoints.insert(addr) {
            self.breakpoints.remove(&addr);
            proof {
                assert(self.breakpoints@ =~= toggle_spec(old(self).breakpoints@, addr));
            }
        } else {
            proof {
                assert(self.breakpoints@ =~= toggle_spec(old(self).breakpoints@, addr));
            }
        }
    }
}

} // verus!
