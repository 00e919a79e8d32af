//! The instruction set: a closed tagged-variant type with one variant per
//! opcode, a decoder from a memory window to an instruction plus its word
//! size, and a single exhaustive dispatch function giving each instruction
//! its effect on the machine state.

use vstd::prelude::*;

use crate::errors::{DecodeError, ExecError};
use crate::machine::{VmModel, VM, MEM_SIZE};
use crate::operand::Operand;
use crate::side_effects::{check_char_code, is_char_code, SideEffects, SinkModel};

verus! {

/// A decoded, self-contained instruction. Operands are already resolved to
/// literal-or-register form; the word size of an instruction is one plus its
/// arity.
#[derive(Debug, Clone, Copy, PartialEq, Eq, Structural)]
pub enum Instruction {
    Halt,
    SetReg { a: Operand, b: Operand },
    Push { a: Operand },
    Pop { a: Operand },
    Eq { a: Operand, b: Operand, c: Operand },
    Gt { a: Operand, b: Operand, c: Operand },
    Jmp { a: Operand },
    Jt { a: Operand, b: Operand },
    Jf { a: Operand, b: Operand },
    Add { a: Operand, b: Operand, c: Operand },
    Mult { a: Operand, b: Operand, c: Operand },
    Mod { a: Operand, b: Operand, c: Operand },
    And { a: Operand, b: Operand, c: Operand },
    Or { a: Operand, b: Operand, c: Operand },
    Not { a: Operand, b: Operand },
    Rmem { a: Operand, b: Operand },
    Wmem { a: Operand, b: Operand },
    Call { a: Operand },
    Ret,
    Out { a: Operand },
    In { a: Operand },
    Noop,
}

impl Instruction {
    /// Every operand of the instruction is well formed.
    pub open spec fn wf(self) -> bool {
        match self {
            Instruction::Halt => true,
            Instruction::SetReg { a, b } => a.wf() && b.wf(),
            Instruction::Push { a } => a.wf(),
            Instruction::Pop { a } => a.wf(),
            Instruction::Eq { a, b, c } => a.wf() && b.wf() && c.wf(),
            Instruction::Gt { a, b, c } => a.wf() && b.wf() && c.wf(),
            Instruction::Jmp { a } => a.wf(),
            Instruction::Jt { a, b } => a.wf() && b.wf(),
            Instruction::Jf { a, b } => a.wf() && b.wf(),
            Instruction::Add { a, b, c } => a.wf() && b.wf() && c.wf(),
            Instruction::Mult { a, b, c } => a.wf() && b.wf() && c.wf(),
            Instruction::Mod { a, b, c } => a.wf() && b.wf() && c.wf(),
            Instruction::And { a, b, c } => a.wf() && b.wf() && c.wf(),
            Instruction::Or { a, b, c } => a.wf() && b.wf() && c.wf(),
            Instruction::Not { a, b } => a.wf() && b.wf(),
            Instruction::Rmem { a, b } => a.wf() && b.wf(),
            Instruction::Wmem { a, b } => a.wf() && b.wf(),
            Instruction::Call { a } => a.wf(),
            Instruction::Ret => true,
            Instruction::Out { a } => a.wf(),
            Instruction::In { a } => a.wf(),
            Instruction::Noop => true,
        }
    }
}

/// The fixed number of operand words each opcode consumes, or `None` for an
/// unknown opcode.
pub open spec fn arity_spec(op: u16) -> Option<int> {
    if op == 0 || op == 18 || op == 21 {
        Some(0)
    } else if op == 2 || op == 3 || op == 6 || op == 17 || op == 19 || op == 20 {
        Some(1)
    } else if op == 1 || op == 7 || op == 8 || op == 14 || op == 15 || op == 16 {
        Some(2)
    } else if op == 4 || op == 5 || op == 9 || op == 10 || op == 11 || op == 12 || op == 13 {
        Some(3)
    } else {
        None
    }
}

/// The instruction an opcode and its already-decoded operands denote.
/// Meaningful when `ops` holds exactly the opcode's arity.
pub open spec fn build_spec(op: u16, ops: Seq<Operand>) -> Instruction {
    if op == 0 {
        Instruction::Halt
    } else if op == 1 {
        Instruction::SetReg { a: ops[0], b: ops[1] }
    } else if op == 2 {
        Instruction::Push { a: ops[0] }
    } else if op == 3 {
        Instruction::Pop { a: ops[0] }
    } else if op == 4 {
        Instruction::Eq { a: ops[0], b: ops[1], c: ops[2] }
    } else if op == 5 {
        Instruction::Gt { a: ops[0], b: ops[1], c: ops[2] }
    } else if op == 6 {
        Instruction::Jmp { a: ops[0] }
    } else if op == 7 {
        Instruction::Jt { a: ops[0], b: ops[1] }
    } else if op == 8 {
        Instruction::Jf { a: ops[0], b: ops[1] }
    } else if op == 9 {
        Instruction::Add { a: ops[0], b: ops[1], c: ops[2] }
    } else if op == 10 {
        Instruction::Mult { a: ops[0], b: ops[1], c: ops[2] }
    } else if op == 11 {
        Instruction::Mod { a: ops[0], b: ops[1], c: ops[2] }
    } else if op == 12 {
        Instruction::And { a: ops[0], b: ops[1], c: ops[2] }
    } else if op == 13 {
        Instruction::Or { a: ops[0], b: ops[1], c: ops[2] }
    } else if op == 14 {
        Instruction::Not { a: ops[0], b: ops[1] }
    } else if op == 15 {
        Instruction::Rmem { a: ops[0], b: ops[1] }
    } else if op == 16 {
        Instruction::Wmem { a: ops[0], b: ops[1] }
    } else if op == 17 {
        Instruction::Call { a: ops[0] }
    } else if op == 18 {
        Instruction::Ret
    } else if op == 19 {
        Instruction::Out { a: ops[0] }
    } else if op == 20 {
        Instruction::In { a: ops[0] }
    } else {
        Instruction::Noop
    }
}

/// The operands read from `n` words starting right after the opcode, or the
/// first invalid-operand error among them.
pub open spec fn operands_spec(mem: Seq<u16>, addr: int, n: int) -> Result<Seq<Operand>, DecodeError>
    decreases n,
{
    if n <= 0 {
        Ok(Seq::empty())
    } else {
        match operands_spec(mem, addr, n - 1) {
            Err(e) => Err(e),
            Ok(pre) => match Operand::from_spec(mem[addr + n]) {
                Err(e) => Err(e),
                Ok(op) => Ok(pre.push(op)),
            },
        }
    }
}

/// What decoding the memory window at `addr` yields: the instruction and its
/// word size, or the decode error the window forces.
pub open spec fn decode_spec(mem: Seq<u16>, addr: int) -> Result<(Instruction, u16), DecodeError> {
    if !(0 <= addr < mem.len()) {
        Err(DecodeError::InvalidAddress)
    } else {
        match arity_spec(mem[addr]) {
            None => Err(DecodeError::UnknownOpcode),
            Some(n) => if addr + 1 + n > mem.len() {
                Err(DecodeError::TruncatedOperands)
            } else {
                match operands_spec(mem, addr, n) {
                    Err(e) => Err(e),
                    Ok(ops) => Ok((build_spec(mem[addr], ops), (1 + n) as u16)),
                }
            },
        }
    }
}

/// A decoded instruction is well formed and its size is the opcode word plus
/// the arity, between 1 and 4; the whole window lies inside memory.
pub proof fn lemma_decode_ok(mem: Seq<u16>, addr: int)
    requires
        decode_spec(mem, addr) matches Ok(_),
    ensures
        ({
            let (i, size) = decode_spec(mem, addr)->Ok_0;
            &&& i.wf()
            &&& 1 <= size <= 4
            &&& 0 <= addr
            &&& addr + size <= mem.len()
        }),
{
    let n = arity_spec(mem[addr])->Some_0;
    lemma_operands_ok(mem, addr, n);
}

/// Every operand produced by `operands_spec` is well formed.
proof fn lemma_operands_ok(mem: Seq<u16>, addr: int, n: int)
    requires
        operands_spec(mem, addr, n) matches Ok(_),
    ensures
        ({
            let ops = operands_spec(mem, addr, n)->Ok_0;
            &&& ops.len() == if n >= 0 { n } else { 0 }
            &&& forall|i: int| 0 <= i < ops.len() ==> (#[trigger] ops[i]).wf()
        }),
    decreases n,
{
    if n > 0 {
        lemma_operands_ok(mem, addr, n - 1);
    }
}

/// A single invalid operand word makes the whole operand read fail with
/// `InvalidOperand`.
proof fn lemma_operands_err(mem: Seq<u16>, addr: int, k: int, n: int)
    requires
        0 <= k < n,
        operands_spec(mem, addr, k) matches Ok(_),
        Operand::from_spec(mem[addr + k + 1]) matches Err(_),
    ensures
        operands_spec(mem, addr, n) == Err::<Seq<Operand>, DecodeError>(DecodeError::InvalidOperand),
    decreases n,
{
    if n == k + 1 {
    } else {
        lemma_operands_err(mem, addr, k, n - 1);
    }
}

/// Decode the instruction at `address`: read the opcode word, then the
/// opcode's fixed number of operand words, and return the instruction
/// together with its word size.
pub fn parse(data: &[u16], address: u16) -> (r: Result<(Instruction, u16), DecodeError>)
    ensures
        r == decode_spec(data@, address as int),
        r matches Ok((i, size)) ==> i.wf() && 1 <= size <= 4 && address + size <= data@.len(),
{
    proof {
        if decode_spec(data@, address as int) matches Ok(_) {
            lemma_decode_ok(data@, address as int);
        }
    }
    let len = data.len();
    let addr = address as usize;
    if addr >= len {
        return Err(DecodeError::InvalidAddress);
    }
    let op = data[addr];
    let arity: usize = match op {
        0 | 18 | 21 => 0,
        2 | 3 | 6 | 17 | 19 | 20 => 1,
        1 | 7 | 8 | 14 | 15 | 16 => 2,
        4 | 5 | 9 | 10 | 11 | 12 | 13 => 3,
        _ => { return Err(DecodeError::UnknownOpcode); },
    };
    if len - addr - 1 < arity {
        return Err(DecodeError::TruncatedOperands);
    }
    let mut ops: [Operand; 3] = [Operand::Literal(0); 3];
    let mut k: usize = 0;
    while k < arity
        invariant
            arity <= 3,
            k <= arity,
            addr == address as usize,
            addr < len,
            addr + 1 + arity <= len,
            len == data@.len(),
            arity_spec(data@[addr as int]) == Some(arity as int),
            operands_spec(data@, addr as int, k as int) matches Ok(pre) && pre.len() == k
                && (forall|j: int| 0 <= j < k ==> pre[j] == ops@[j]),
        decreases arity - k,
    {
        let word = data[addr + 1 + k];
        match Operand::from(word) {
            Ok(operand) => {
                ops[k] = operand;
                k += 1;
            },
            Err(e) => {
                proof {
                    lemma_operands_err(data@, addr as int, k as int, arity as int);
                }
                return Err(e);
            },
        }
    }
    let ghost dops = operands_spec(data@, addr as int, arity as int)->Ok_0;
    let size: u16 = (1 + arity) as u16;
    let instr = match op {
        0 => Instruction::Halt,
        1 => Instruction::SetReg { a: ops[0], b: ops[1] },
        2 => Instruction::Push { a: ops[0] },
        3 => Instruction::Pop { a: ops[0] },
        4 => Instruction::Eq { a: ops[0], b: ops[1], c: ops[2] },
        5 => Instruction::Gt { a: ops[0], b: ops[1], c: ops[2] },
        6 => Instruction::Jmp { a: ops[0] },
        7 => Instruction::Jt { a: ops[0], b: ops[1] },
        8 => Instruction::Jf { a: ops[0], b: ops[1] },
        9 => Instruction::Add { a: ops[0], b: ops[1], c: ops[2] },
        10 => Instruction::Mult { a: ops[0], b: ops[1], c: ops[2] },
        11 => Instruction::Mod { a: ops[0], b: ops[1], c: ops[2] },
        12 => Instruction::And { a: ops[0], b: ops[1], c: ops[2] },
        13 => Instruction::Or { a: ops[0], b: ops[1], c: ops[2] },
        14 => Instruction::Not { a: ops[0], b: ops[1] },
        15 => Instruction::Rmem { a: ops[0], b: ops[1] },
        16 => Instruction::Wmem { a: ops[0], b: ops[1] },
        17 => Instruction::Call { a: ops[0] },
        18 => Instruction::Ret,
        19 => Instruction::Out { a: ops[0] },
        20 => Instruction::In { a: ops[0] },
        _ => Instruction::Noop,
    };
    proof {
        assert(instr == build_spec(data@[addr as int], dops));
    }
    Ok((instr, size))
}

/// The disassembly walk of a memory image from `pos` on: decode, record
/// the instruction and jump over it; where decoding fails, move one word
/// on and try again.
pub open spec fn scan_spec(mem: Seq<u16>, pos: int) -> Seq<(u16, Instruction)>
    decreases mem.len() - pos,
{
    if !(0 <= pos < mem.len()) {
        Seq::empty()
    } else {
        match decode_spec(mem, pos) {
            Ok((i, size)) => {
                let adv: int = if size >= 1 {
                    size as int
                } else {
                    1
                };
                seq![(pos as u16, i)] + scan_spec(mem, pos + adv)
            },
            Err(_) => scan_spec(mem, pos + 1),
        }
    }
}

/// Walk a whole memory image and collect every instruction that decodes,
/// with its address: the raw material of a disassembly listing.
pub fn scan(data: &[u16]) -> (r: Vec<(u16, Instruction)>)
    requires
        data@.len() <= 0x10000,
    ensures
        r@ == scan_spec(data@, 0),
{
    let mut out: Vec<(u16, Instruction)> = Vec::new();
    let mut pos: usize = 0;
    proof {
        assert(out@ + scan_spec(data@, 0) =~= scan_spec(data@, 0));
    }
    while pos < data.len()
        invariant
            data@.len() <= 0x10000,
            pos <= data@.len(),
            scan_spec(data@, 0) == out@ + scan_spec(data@, pos as int),
        decreases data@.len() - pos,
    {
        let ghost old_out = out@;
        let ghost old_pos = pos as int;
        match parse(data, pos as u16) {
            Ok((instruction, size)) => {
                out.push((pos as u16, instruction));
                pos = pos + size as usize;
                proof {
                    assert(out@ + scan_spec(data@, pos as int) =~= old_out + (seq![
                        ((old_pos as u16), instruction),
                    ] + scan_spec(data@, pos as int)));
                }
            },
            Err(_) => {
                pos = pos + 1;
            },
        }
    }
    proof {
        assert(scan_spec(data@, pos as int) =~= Seq::<(u16, Instruction)>::empty());
        assert(out@ + scan_spec(data@, pos as int) =~= out@);
    }
    out
}

/// How a run ends one step: it goes on, or the halt signal was observed.
#[derive(Debug, Clone, Copy, PartialEq, Eq, Structural)]
pub enum StepOutcome {
    Continue,
    Halted,
}

/// The value an `add` writes: the sum reduced modulo 32768.
pub open spec fn add_result(b: u16, c: u16) -> u16 {
    ((b + c) % 32768) as u16
}

/// The value a `mult` writes: the product reduced modulo 32768 (computed
/// with a widened accumulator, so no overflow precedes the reduction).
pub open spec fn mult_result(b: u16, c: u16) -> u16 {
    ((b * c) % 32768) as u16
}

/// The value a `mod` writes. The second reduction is a stated part of the
/// architecture even though `b % c` is already below `c`.
pub open spec fn mod_result(b: u16, c: u16) -> u16
    recommends
        c != 0,
{
    ((b % c) % 32768) as u16
}

/// The value a `not` writes: the complement restricted to 15 bits.
pub open spec fn not_result(b: u16) -> u16 {
    !b & 0x7fff
}

/// A register write through operand `a`, or the error a literal target
/// forces.
pub open spec fn write_step(m: VmModel, a: Operand, v: u16) -> Result<(VmModel, StepOutcome), ExecError> {
    match a {
        Operand::Reg(r) => Ok((m.with_reg(r as int, v), StepOutcome::Continue)),
        Operand::Literal(_) => Err(ExecError::InvalidWriteTarget),
    }
}

/// How one instruction maps a machine state to the next. The program
/// counter of `m` is already the address of the next instruction (the loop
/// advances it before executing), which is what `call` pushes and what a
/// relative continuation sees. `input` is the character code an `in`
/// instruction consumes; no other instruction reads it.
pub open spec fn step_spec(i: Instruction, m: VmModel, input: u16) -> Result<(VmModel, StepOutcome), ExecError> {
    match i {
        Instruction::Halt => Ok((m, StepOutcome::Halted)),
        Instruction::SetReg { a, b } => write_step(m, a, b.value_spec(m)),
        Instruction::Push { a } => Ok((m.with_push(a.value_spec(m)), StepOutcome::Continue)),
        Instruction::Pop { a } => if m.stack.len() == 0 {
            Err(ExecError::EmptyStack)
        } else {
            write_step(m.with_pop(), a, m.stack.last())
        },
        Instruction::Eq { a, b, c } => write_step(
            m,
            a,
            if b.value_spec(m) == c.value_spec(m) { 1u16 } else { 0u16 },
        ),
        Instruction::Gt { a, b, c } => write_step(
            m,
            a,
            if b.value_spec(m) > c.value_spec(m) { 1u16 } else { 0u16 },
        ),
        Instruction::Jmp { a } => Ok((m.with_pc(a.value_spec(m)), StepOutcome::Continue)),
        Instruction::Jt { a, b } => if a.value_spec(m) != 0 {
            Ok((m.with_pc(b.value_spec(m)), StepOutcome::Continue))
        } else {
            Ok((m, StepOutcome::Continue))
        },
        Instruction::Jf { a, b } => if a.value_spec(m) == 0 {
            Ok((m.with_pc(b.value_spec(m)), StepOutcome::Continue))
        } else {
            Ok((m, StepOutcome::Continue))
        },
        Instruction::Add { a, b, c } => write_step(m, a, add_result(b.value_spec(m), c.value_spec(m))),
        Instruction::Mult { a, b, c } => write_step(m, a, mult_result(b.value_spec(m), c.value_spec(m))),
        Instruction::Mod { a, b, c } => if c.value_spec(m) == 0 {
            Err(ExecError::DivisionByZero)
        } else {
            write_step(m, a, mod_result(b.value_spec(m), c.value_spec(m)))
        },
        Instruction::And { a, b, c } => write_step(m, a, b.value_spec(m) & c.value_spec(m)),
        Instruction::Or { a, b, c } => write_step(m, a, b.value_spec(m) | c.value_spec(m)),
        Instruction::Not { a, b } => write_step(m, a, not_result(b.value_spec(m))),
        Instruction::Rmem { a, b } => if b.value_spec(m) >= MEM_SIZE {
            Err(ExecError::AddressOutOfRange)
        } else {
            write_step(m, a, m.memory[b.value_spec(m) as int])
        },
        Instruction::Wmem { a, b } => if a.value_spec(m) >= MEM_SIZE {
            Err(ExecError::AddressOutOfRange)
        } else {
            Ok((m.with_mem(a.value_spec(m) as int, b.value_spec(m)), StepOutcome::Continue))
        },
        Instruction::Call { a } => Ok(
            (m.with_push(m.pc).with_pc(a.value_spec(m)), StepOutcome::Continue),
        ),
        Instruction::Ret => if m.stack.len() == 0 {
            Ok((m, StepOutcome::Halted))
        } else {
            Ok((m.with_pop().with_pc(m.stack.last()), StepOutcome::Continue))
        },
        Instruction::Out { a } => if !is_char_code(a.value_spec(m)) {
            Err(ExecError::NotACharacter)
        } else {
            Ok((m, StepOutcome::Continue))
        },
        Instruction::In { a } => write_step(m, a, input),
        Instruction::Noop => Ok((m, StepOutcome::Continue)),
    }
}

/// The step of any instruction other than `in`, which alone depends on the
/// consumed input character.
pub open spec fn step_det(i: Instruction, m: VmModel) -> Result<(VmModel, StepOutcome), ExecError> {
    step_spec(i, m, 0)
}

/// How one instruction moves the side-effect sink, and — for `in`, whose
/// outcome the sink decides — the machine state too. Only `halt`, `ret` on
/// an empty stack, a successful `out` and `in` touch the sink; every other
/// instruction, and every error before the sink is reached, leaves its
/// history exactly as it was. For `in`, the one value the sink handed out
/// is the value written to the target register.
pub open spec fn sink_effect(
    i: Instruction,
    m0: VmModel,
    m1: VmModel,
    s0: SinkModel,
    s1: SinkModel,
    r: Result<StepOutcome, ExecError>,
) -> bool {
    match i {
        Instruction::Halt => s1 == s0.with_halt(),
        Instruction::Ret => if m0.stack.len() == 0 {
            s1 == s0.with_halt()
        } else {
            s1 == s0
        },
        Instruction::Out { a } => (match r {
            Ok(_) => s1 == s0.with_print(a.value_spec(m0)),
            Err(_) => s1 == s0,
        }),
        Instruction::In { a } => (match r {
            Ok(oc) => oc == StepOutcome::Continue && (match a {
                Operand::Reg(rg) => exists|v: u16|
                    m1 == m0.with_reg(rg as int, v) && s1 == #[trigger] s0.with_read(v),
                Operand::Literal(_) => false,
            }),
            Err(e) => m1 == m0 && (if e == ExecError::InputUnavailable {
                s1 == s0
            } else {
                &&& e == ExecError::InvalidWriteTarget
                &&& a matches Operand::Literal(_)
                &&& exists|v: u16| s1 == #[trigger] s0.with_read(v)
            }),
        }),
        _ => s1 == s0,
    }
}

impl Instruction {
    /// Execute the instruction against the machine state and the
    /// side-effect sink. Every instruction except `in` maps the state
    /// exactly as `step_det` says; an `in` writes the one value the sink
    /// handed out. The sink's history moves exactly as `sink_effect` says:
    /// no instruction invokes the sink beyond its own event. On an error
    /// the machine state is left unchanged.
    pub fn execute<S: SideEffects>(&self, vm: &mut VM, side_effects: &mut S) -> (r: Result<
        StepOutcome,
        ExecError,
    >)
        requires
            self.wf(),
            old(vm).wf(),
        ensures
            final(vm).wf(),
            !(self matches Instruction::In { .. }) ==> (match step_det(*self, old(vm)@) {
                Ok((m2, oc)) => r == Ok::<StepOutcome, ExecError>(oc) && final(vm)@ == m2,
                Err(e) => r == Err::<StepOutcome, ExecError>(e) && final(vm)@ == old(vm)@,
            }),
            sink_effect(
                *self,
                old(vm)@,
                final(vm)@,
                old(side_effects).model(),
                final(side_effects).model(),
                r,
            ),
    {
        match *self {
            Instruction::Halt => {
                side_effects.halt();
                Ok(StepOutcome::Halted)
            },
            Instruction::SetReg { a, b } => {
                let v = b.value(vm);
                a.write(vm, v)?;
                Ok(StepOutcome::Continue)
            },
            Instruction::Push { a } => {
                let v = a.value(vm);
                vm.stack.push(v);
                Ok(StepOutcome::Continue)
            },
            Instruction::Pop { a } => {
                if vm.stack.len() == 0 {
                    return Err(ExecError::EmptyStack);
                }
                if let Operand::Literal(_) = a {
                    return Err(ExecError::InvalidWriteTarget);
                }
                let v = vm.stack.pop().unwrap();
                a.write(vm, v)?;
                Ok(StepOutcome::Continue)
            },
            Instruction::Eq { a, b, c } => {
                let v: u16 = if b.value(vm) == c.value(vm) {
                    1
                } else {
                    0
                };
                a.write(vm, v)?;
                Ok(StepOutcome::Continue)
            },
            Instruction::Gt { a, b, c } => {
                let v: u16 = if b.value(vm) > c.value(vm) {
                    1
                } else {
                    0
                };
                a.write(vm, v)?;
                Ok(StepOutcome::Continue)
            },
            Instruction::Jmp { a } => {
                let t = a.value(vm);
                vm.pc = t;
                Ok(StepOutcome::Continue)
            },
            Instruction::Jt { a, b } => {
                if a.value(vm) != 0 {
                    let t = b.value(vm);
                    vm.pc = t;
                }
                Ok(StepOutcome::Continue)
            },
            Instruction::Jf { a, b } => {
                if a.value(vm) == 0 {
                    let t = b.value(vm);
                    vm.pc = t;
                }
                Ok(StepOutcome::Continue)
            },
            Instruction::Add { a, b, c } => {
                let bv = b.value(vm) as u32;
                let cv = c.value(vm) as u32;
                let v = ((bv + cv) % 32768) as u16;
                a.write(vm, v)?;
                Ok(StepOutcome::Continue)
            },
            Instruction::Mult { a, b, c } => {
                let bv = b.value(vm) as u32;
                let cv = c.value(vm) as u32;
                proof {
                    assert(bv * cv <= 0xFFFFu32 * 0xFFFFu32) by (nonlinear_arith)
                        requires
                            bv <= 0xFFFF && cv <= 0xFFFF,
                    ;
                }
                let v = ((bv * cv) % 32768) as u16;
                a.write(vm, v)?;
                Ok(StepOutcome::Continue)
            },
            Instruction::Mod { a, b, c } => {
                let cv = c.value(vm);
                if cv == 0 {
                    return Err(ExecError::DivisionByZero);
                }
                let bv = b.value(vm);
                let v = (bv % cv) % 32768;
                a.write(vm, v)?;
                Ok(StepOutcome::Continue)
            },
            Instruction::And { a, b, c } => {
                let v = b.value(vm) & c.value(vm);
                a.write(vm, v)?;
                Ok(StepOutcome::Continue)
            },
            Instruction::Or { a, b, c } => {
                let v = b.value(vm) | c.value(vm);
                a.write(vm, v)?;
                Ok(StepOutcome::Continue)
            },
            Instruction::Not { a, b } => {
                let v = !b.value(vm) & 0x7fff;
                a.write(vm, v)?;
                Ok(StepOutcome::Continue)
            },
            Instruction::Rmem { a, b } => {
                let addr = b.value(vm);
                if addr as usize >= MEM_SIZE {
                    return Err(ExecError::AddressOutOfRange);
                }
                let v = vm.memory[addr as usize];
                a.write(vm, v)?;
                Ok(StepOutcome::Continue)
            },
            Instruction::Wmem { a, b } => {
                let addr = a.value(vm);
                if addr as usize >= MEM_SIZE {
                    return Err(ExecError::AddressOutOfRange);
                }
                let v = b.value(vm);
                vm.memory.set(addr as usize, v);
                Ok(StepOutcome::Continue)
            },
            Instruction::Call { a } => {
                let t = a.value(vm);
                let here = vm.pc;
                vm.stack.push(here);
                vm.pc = t;
                Ok(StepOutcome::Continue)
            },
            Instruction::Ret => {
                match vm.stack.pop() {
                    Some(t) => {
                        vm.pc = t;
                        Ok(StepOutcome::Continue)
                    },
                    None => {
                        side_effects.halt();
                        Ok(StepOutcome::Halted)
                    },
                }
            },
            Instruction::Out { a } => {
                let v = a.value(vm);
                if !check_char_code(v) {
                    return Err(ExecError::NotACharacter);
                }
                side_effects.print(v);
                Ok(StepOutcome::Continue)
            },
            Instruction::In { a } => {
                match side_effects.read() {
                    None => Err(ExecError::InputUnavailable),
                    Some(v) => {
                        a.write(vm, v)?;
                        Ok(StepOutcome::Continue)
                    },
                }
            },
            Instruction::Noop => Ok(StepOutcome::Continue),
        }
    }
}

/// The arithmetic instructions are closed under the 15-bit modulus: what
/// `add`, `mult` and `mod` write is always in 0..32768, whatever in-range
/// operand values they read.
pub proof fn lemma_arith_closure(b: u16, c: u16)
    ensures
        add_result(b, c) < 32768,
        mult_result(b, c) < 32768,
        c != 0 ==> mod_result(b, c) < 32768,
{
    assert(b * c >= 0) by (nonlinear_arith);
}

/// The 15-bit complement is an involution: `not` applied twice gives the
/// original value back, for every value in 0..32768.
pub proof fn lemma_not_involution(x: u16)
    requires
        x < 32768,
    ensures
        not_result(not_result(x)) == x,
{
    assert((!(!x & 0x7fff)) & 0x7fff == x) by (bit_vector)
        requires
            x < 32768,
    ;
}

/// A `call` followed immediately by a `ret` returns control to the
/// instruction after the call and leaves the whole machine state as it
/// was: the program counter of `m` is already the address following the
/// call, `call` pushes it, and `ret` pops it back.
pub proof fn lemma_call_ret_round_trip(m: VmModel, a: Operand)
    requires
        m.wf(),
        a.wf(),
    ensures
        step_det(Instruction::Call { a }, m) matches Ok(p1) && ({
            &&& p1.1 == StepOutcome::Continue
            &&& (step_det(Instruction::Ret, p1.0) matches Ok(p2) && ({
                &&& p2.1 == StepOutcome::Continue
                &&& p2.0 == m
            }))
        }),
{
    let m1 = step_det(Instruction::Call { a }, m)->Ok_0.0;
    assert(m1.stack.len() > 0);
    let m2 = step_det(Instruction::Ret, m1)->Ok_0.0;
    assert(m2.stack =~= m.stack);
    assert(m2 =~= m);
}

} // verus!
