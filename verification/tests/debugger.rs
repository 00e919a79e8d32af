use vm16::debugger::{Debugger, RunEnd, ShellReply};
use vm16::errors::{DecodeError, VmError};
use vm16::instructions::Instruction;
use vm16::machine::VM;
use vm16::operand::Operand;
use vm16::side_effects::MockSideEffects;

#[test]
fn breakpoint_toggles_on_and_off() {
    let mut dbg = Debugger::new();
    let mut vm = VM::default();
    assert_eq!(dbg.shell_line(&mut vm, "bp"), ShellReply::Breakpoints(vec![]));
    assert_eq!(dbg.shell_line(&mut vm, "bp 100"), ShellReply::Toggled);
    assert_eq!(dbg.shell_line(&mut vm, "bp"), ShellReply::Breakpoints(vec![100]));
    assert_eq!(dbg.shell_line(&mut vm, "bp 100"), ShellReply::Toggled);
    assert_eq!(dbg.shell_line(&mut vm, "bp"), ShellReply::Breakpoints(vec![]));
}

#[test]
fn breakpoint_listing_is_sorted() {
    let mut dbg = Debugger::new();
    let mut vm = VM::default();
    dbg.shell_line(&mut vm, "bp 300 7 100");
    assert_eq!(dbg.shell_line(&mut vm, "bp"), ShellReply::Breakpoints(vec![7, 100, 300]));
}

#[test]
fn breakpoint_command_stops_at_first_bad_integer() {
    let mut dbg = Debugger::new();
    let mut vm = VM::default();
    assert_eq!(
        dbg.shell_line(&mut vm, "bp 5 x 9"),
        ShellReply::BadInteger(String::from("x"))
    );
    // the address before the bad token was still toggled
    assert_eq!(dbg.shell_line(&mut vm, "bp"), ShellReply::Breakpoints(vec![5]));
}

#[test]
fn patched_address_executes_patch_but_advances_by_real_size() {
    let mut dbg = Debugger::new();
    let mut vm = VM::default();
    // The real instruction at 5483 is a 4-word `add`; the debugger's
    // pre-seeded patch there is a 3-word `set`.
    vm.memory[5483] = 9;
    vm.memory[5484] = 32768;
    vm.memory[5485] = 1;
    vm.memory[5486] = 2;
    vm.pc = 5483;
    let (instr, size) = dbg.instruction_at_pc(&vm).unwrap();
    assert_eq!(
        instr,
        Instruction::SetReg { a: Operand::Reg(0), b: Operand::Literal(6) }
    );
    assert_eq!(size, 4);
    let mut side_effects = MockSideEffects::default();
    dbg.step(&mut vm, &mut side_effects).unwrap();
    assert_eq!(vm.pc, 5487); // advanced by the real add's size
    assert_eq!(vm.registers[0], 6); // but the patch's set executed
}

#[test]
fn unpatched_address_executes_decoded_instruction() {
    let dbg = Debugger::new();
    let mut vm = VM::default();
    vm.memory[0] = 1; // set reg1 = 7
    vm.memory[1] = 32769;
    vm.memory[2] = 7;
    let (instr, size) = dbg.instruction_at_pc(&vm).unwrap();
    assert_eq!(
        instr,
        Instruction::SetReg { a: Operand::Reg(1), b: Operand::Literal(7) }
    );
    assert_eq!(size, 3);
}

#[test]
fn call_then_ret_returns_past_the_call() {
    let dbg = Debugger::new();
    let mut vm = VM::default();
    // 0: call 4; 2: halt; 3: noop; 4: ret
    vm.memory[0] = 17;
    vm.memory[1] = 4;
    vm.memory[2] = 0;
    vm.memory[3] = 21;
    vm.memory[4] = 18;
    let mut side_effects = MockSideEffects::default();
    let end = dbg.run(&mut vm, &mut side_effects, 1000).unwrap();
    assert_eq!(end, RunEnd::Halted);
    assert!(side_effects.halted);
    // the ret popped the address after the call (2); halt sits there
    assert_eq!(vm.pc, 3);
    assert!(vm.stack.is_empty());
}

#[test]
fn run_spends_exactly_the_step_budget() {
    let dbg = Debugger::new();
    let mut vm = VM::default();
    vm.memory[0] = 21;
    vm.memory[1] = 21;
    vm.memory[2] = 21;
    vm.memory[3] = 21;
    let mut side_effects = MockSideEffects::default();
    let end = dbg.run(&mut vm, &mut side_effects, 3).unwrap();
    assert_eq!(end, RunEnd::StepLimit);
    assert_eq!(vm.pc, 3); // three one-word instructions were executed
    assert!(!side_effects.halted);
}

#[test]
fn ret_on_empty_stack_halts() {
    let dbg = Debugger::new();
    let mut vm = VM::default();
    vm.memory[0] = 18;
    let mut side_effects = MockSideEffects::default();
    let end = dbg.run(&mut vm, &mut side_effects, 10).unwrap();
    assert_eq!(end, RunEnd::Halted);
    assert!(side_effects.halted);
}

#[test]
fn truncated_instruction_at_end_of_memory_is_fatal() {
    let dbg = Debugger::new();
    let mut vm = VM::default();
    vm.memory[32767] = 9; // an add needs three operand words that are not there
    vm.pc = 32767;
    let mut side_effects = MockSideEffects::default();
    assert_eq!(
        dbg.run(&mut vm, &mut side_effects, 10),
        Err(VmError::Decode(DecodeError::TruncatedOperands))
    );
}

#[test]
fn set_command_writes_pc_register_and_memory() {
    let mut dbg = Debugger::new();
    let mut vm = VM::default();
    assert_eq!(dbg.shell_line(&mut vm, "set pc 123"), ShellReply::SetDone);
    assert_eq!(vm.pc, 123);
    assert_eq!(dbg.shell_line(&mut vm, "set reg3 55"), ShellReply::SetDone);
    assert_eq!(vm.registers[3], 55);
    assert_eq!(dbg.shell_line(&mut vm, "set 10 777"), ShellReply::SetDone);
    assert_eq!(vm.memory[10], 777);
}

#[test]
fn set_command_reports_operator_errors() {
    let mut dbg = Debugger::new();
    let mut vm = VM::default();
    assert_eq!(dbg.shell_line(&mut vm, "set 1"), ShellReply::BadSetSyntax);
    assert_eq!(
        dbg.shell_line(&mut vm, "set pc bob"),
        ShellReply::BadInteger(String::from("bob"))
    );
    assert_eq!(
        dbg.shell_line(&mut vm, "set regx 1"),
        ShellReply::BadRegister(String::from("x"))
    );
    assert_eq!(dbg.shell_line(&mut vm, "set reg9 1"), ShellReply::RegisterOutOfRange(9));
    assert_eq!(dbg.shell_line(&mut vm, "set 40000 1"), ShellReply::AddressOutOfBounds(40000));
    assert_eq!(dbg.shell_line(&mut vm, "set xyz 1"), ShellReply::InvalidSetTarget);
    assert_eq!(vm, VM::default()); // every error left the machine untouched
}

#[test]
fn shell_flow_commands_set_the_flags() {
    let mut dbg = Debugger::new();
    let mut vm = VM::default();
    assert_eq!(dbg.shell_line(&mut vm, "s"), ShellReply::Stepping);
    assert!(dbg.single_step);
    assert_eq!(dbg.shell_line(&mut vm, "g"), ShellReply::Resuming);
    assert!(!dbg.single_step);
    assert_eq!(dbg.shell_line(&mut vm, "trace"), ShellReply::Tracing);
    assert!(!dbg.single_step);
    assert!(dbg.trace);
    assert_eq!(dbg.shell_line(&mut vm, "help"), ShellReply::Help);
    assert_eq!(dbg.shell_line(&mut vm, ""), ShellReply::Empty);
    assert_eq!(dbg.shell_line(&mut vm, "frobnicate"), ShellReply::Unknown);
}

#[test]
fn regs_command_reports_pc_and_registers() {
    let mut dbg = Debugger::new();
    let mut vm = VM::default();
    vm.pc = 42;
    vm.registers[5] = 77;
    match dbg.shell_line(&mut vm, "regs") {
        ShellReply::Regs { pc, registers } => {
            assert_eq!(pc, 42);
            assert_eq!(registers, vm.registers);
        },
        other => panic!("unexpected reply: {other:?}"),
    }
}

#[test]
fn debug_prelude_arms_and_disarms() {
    let mut dbg = Debugger::new();
    assert!(dbg.break_on_exhaust);
    // replay still has input: nothing changes
    let (print, shell) = dbg.debug_prelude(0, false);
    assert!(!print && !shell);
    // the log runs dry exactly once: single-step is forced, the flag disarms
    let (print, shell) = dbg.debug_prelude(0, true);
    assert!(print && shell);
    assert!(!dbg.break_on_exhaust);
    assert!(dbg.single_step);
}

#[test]
fn debug_prelude_stops_on_breakpoint() {
    let mut dbg = Debugger::new();
    let mut vm = VM::default();
    dbg.shell_line(&mut vm, "g");
    dbg.shell_line(&mut vm, "bp 7");
    let (_, shell) = dbg.debug_prelude(6, false);
    assert!(!shell);
    let (print, shell) = dbg.debug_prelude(7, false);
    assert!(print && shell);
}
