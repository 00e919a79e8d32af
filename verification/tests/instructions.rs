use vm16::errors::{DecodeError, ExecError};
use vm16::instructions::{parse, scan, Instruction, StepOutcome};
use vm16::machine::VM;
use vm16::operand::Operand;
use vm16::side_effects::MockSideEffects;

#[test]
fn test_out() {
    let (instr, size) = parse(&[19, 65], 0).unwrap();
    assert_eq!(size, 2);
    assert_eq!(format!("{instr:?}"), "Out { a: Literal(65) }");

    let mut vm = VM::default();
    let mut side_effects = MockSideEffects::default();
    instr.execute(&mut vm, &mut side_effects).unwrap();
    assert_eq!(vm, VM::default()); // No effect on vm
    assert_eq!(side_effects.printed, vec!['A']);
}

#[test]
fn operand_from_literal_range() {
    assert_eq!(Operand::from(0), Ok(Operand::Literal(0)));
    assert_eq!(Operand::from(123), Ok(Operand::Literal(123)));
    assert_eq!(Operand::from(32767), Ok(Operand::Literal(32767)));
}

#[test]
fn operand_from_register_range() {
    assert_eq!(Operand::from(32768), Ok(Operand::Reg(0)));
    assert_eq!(Operand::from(32771), Ok(Operand::Reg(3)));
    assert_eq!(Operand::from(32775), Ok(Operand::Reg(7)));
}

#[test]
fn operand_from_invalid_range() {
    assert_eq!(Operand::from(32776), Err(DecodeError::InvalidOperand));
    assert_eq!(Operand::from(65535), Err(DecodeError::InvalidOperand));
}

#[test]
fn decode_errors() {
    assert_eq!(parse(&[], 0), Err(DecodeError::InvalidAddress));
    assert_eq!(parse(&[21], 5), Err(DecodeError::InvalidAddress));
    assert_eq!(parse(&[22], 0), Err(DecodeError::UnknownOpcode));
    assert_eq!(parse(&[9, 32768, 1], 0), Err(DecodeError::TruncatedOperands));
    assert_eq!(parse(&[19, 40000], 0), Err(DecodeError::InvalidOperand));
}

fn exec(instr: Instruction, vm: &mut VM) -> Result<StepOutcome, ExecError> {
    let mut side_effects = MockSideEffects::default();
    instr.execute(vm, &mut side_effects)
}

#[test]
fn add_wraps_modulo_32768() {
    let mut vm = VM::default();
    let instr = Instruction::Add {
        a: Operand::Reg(0),
        b: Operand::Literal(32767),
        c: Operand::Literal(32767),
    };
    exec(instr, &mut vm).unwrap();
    assert_eq!(vm.registers[0], 32766);
    assert!(vm.registers[0] < 32768);
}

#[test]
fn mult_wraps_modulo_32768() {
    let mut vm = VM::default();
    let instr = Instruction::Mult {
        a: Operand::Reg(1),
        b: Operand::Literal(1000),
        c: Operand::Literal(1000),
    };
    exec(instr, &mut vm).unwrap();
    assert_eq!(vm.registers[1] as u32, 1000000 % 32768);
    assert!(vm.registers[1] < 32768);
}

#[test]
fn mod_result_in_range() {
    let mut vm = VM::default();
    let instr = Instruction::Mod {
        a: Operand::Reg(2),
        b: Operand::Literal(17),
        c: Operand::Literal(5),
    };
    exec(instr, &mut vm).unwrap();
    assert_eq!(vm.registers[2], 2);
}

#[test]
fn mod_by_zero_is_an_error() {
    let mut vm = VM::default();
    let instr = Instruction::Mod {
        a: Operand::Reg(0),
        b: Operand::Literal(1),
        c: Operand::Literal(0),
    };
    assert_eq!(exec(instr, &mut vm), Err(ExecError::DivisionByZero));
}

#[test]
fn not_is_an_involution() {
    let mut vm = VM::default();
    let once = Instruction::Not { a: Operand::Reg(0), b: Operand::Literal(5) };
    exec(once, &mut vm).unwrap();
    assert_eq!(vm.registers[0], 0x7FFA);
    let twice = Instruction::Not { a: Operand::Reg(0), b: Operand::Reg(0) };
    exec(twice, &mut vm).unwrap();
    assert_eq!(vm.registers[0], 5);
}

#[test]
fn halt_touches_nothing_and_signals_the_sink() {
    let (instr, size) = parse(&[0], 0).unwrap();
    assert_eq!(size, 1);
    let mut vm = VM::default();
    let mut side_effects = MockSideEffects::default();
    let outcome = instr.execute(&mut vm, &mut side_effects).unwrap();
    assert_eq!(outcome, StepOutcome::Halted);
    assert_eq!(vm, VM::default());
    assert!(side_effects.halted);
    assert!(side_effects.printed.is_empty());
}

#[test]
fn pop_from_empty_stack_is_an_error() {
    let mut vm = VM::default();
    let instr = Instruction::Pop { a: Operand::Reg(0) };
    assert_eq!(exec(instr, &mut vm), Err(ExecError::EmptyStack));
}

#[test]
fn write_to_literal_is_an_error() {
    let mut vm = VM::default();
    let instr = Instruction::SetReg { a: Operand::Literal(3), b: Operand::Literal(4) };
    assert_eq!(exec(instr, &mut vm), Err(ExecError::InvalidWriteTarget));
}

#[test]
fn out_of_surrogate_code_is_an_error() {
    let mut vm = VM::default();
    let instr = Instruction::Out { a: Operand::Literal(0xD800) };
    assert_eq!(exec(instr, &mut vm), Err(ExecError::NotACharacter));
}

#[test]
fn memory_access_beyond_address_space_is_an_error() {
    let mut vm = VM::default();
    vm.registers[0] = 40000; // a register can hold an out-of-range address
    let read = Instruction::Rmem { a: Operand::Reg(1), b: Operand::Reg(0) };
    assert_eq!(exec(read, &mut vm), Err(ExecError::AddressOutOfRange));
    let write = Instruction::Wmem { a: Operand::Reg(0), b: Operand::Literal(1) };
    assert_eq!(exec(write, &mut vm), Err(ExecError::AddressOutOfRange));
}

#[test]
fn scan_walks_over_undecodable_words() {
    let listing = scan(&[19, 65, 21, 22]);
    assert_eq!(listing.len(), 2);
    assert_eq!(listing[0], (0, Instruction::Out { a: Operand::Literal(65) }));
    assert_eq!(listing[1], (2, Instruction::Noop));
}
