use vm16::debugger::{Debugger, RunEnd};
use vm16::errors::{ExecError, VmError};
use vm16::instructions::{Instruction, StepOutcome};
use vm16::machine::VM;
use vm16::operand::Operand;
use vm16::side_effects::{FileBackedEffects, MockSideEffects, SideEffects};

#[test]
fn mock_read_pops_the_seeded_queue() {
    let mut vm = VM::default();
    let mut side_effects = MockSideEffects::default();
    side_effects.input = vec!['h', 'i'];
    let instr = Instruction::In { a: Operand::Reg(0) };
    let outcome = instr.execute(&mut vm, &mut side_effects).unwrap();
    assert_eq!(outcome, StepOutcome::Continue);
    assert_eq!(vm.registers[0], 'h' as u16);
    instr.execute(&mut vm, &mut side_effects).unwrap();
    assert_eq!(vm.registers[0], 'i' as u16);
    assert!(side_effects.input.is_empty());
}

#[test]
fn mock_read_fails_when_the_queue_is_empty() {
    let mut vm = VM::default();
    let mut side_effects = MockSideEffects::default();
    let instr = Instruction::In { a: Operand::Reg(0) };
    assert_eq!(
        instr.execute(&mut vm, &mut side_effects),
        Err(ExecError::InputUnavailable)
    );
    assert_eq!(vm, VM::default());
}

#[test]
fn mock_print_collects_characters() {
    let mut vm = VM::default();
    let mut side_effects = MockSideEffects::default();
    for code in [104u16, 105, 33] {
        let instr = Instruction::Out { a: Operand::Literal(code) };
        instr.execute(&mut vm, &mut side_effects).unwrap();
    }
    assert_eq!(side_effects.printed, vec!['h', 'i', '!']);
}

#[test]
fn replay_state_starts_at_the_log_head() {
    let fb = FileBackedEffects::new("replay.txt");
    assert_eq!(fb.file_path, "replay.txt");
    assert_eq!(fb.pos, 0);
    assert!(fb.exhausted_at(0));
    assert!(!fb.exhausted_at(1));
}

#[test]
fn replay_note_byte_advances_the_position() {
    let mut fb = FileBackedEffects::new("replay.txt");
    assert_eq!(fb.note_byte(65), 65);
    assert_eq!(fb.note_byte(66), 66);
    assert_eq!(fb.pos, 2);
}

/// An in-memory stand-in for the file-backed sink: the log and the live
/// source are byte vectors instead of a file and a console, but the replay
/// bookkeeping is the library's.
struct ReplayHarness {
    fb: FileBackedEffects,
    log: Vec<u8>,
    live: Vec<u8>,
    printed: Vec<char>,
    halted: bool,
}

impl ReplayHarness {
    fn new(log: &[u8], live: &[u8]) -> ReplayHarness {
        ReplayHarness {
            fb: FileBackedEffects::new("replay.txt"),
            log: log.to_vec(),
            live: live.to_vec(),
            printed: Vec::new(),
            halted: false,
        }
    }
}

impl SideEffects for ReplayHarness {
    fn print(&mut self, value: u16) {
        self.printed.push(char::from_u32(value as u32).unwrap());
    }

    fn read(&mut self) -> Option<u16> {
        let size = self.log.len() as u64;
        let byte = if !self.fb.exhausted_at(size) {
            self.log[self.fb.pos as usize]
        } else {
            if self.live.is_empty() {
                return None;
            }
            let fresh = self.live.remove(0);
            self.log.push(fresh); // newly read input is recorded for replay
            fresh
        };
        Some(self.fb.note_byte(byte))
    }

    fn halt(&mut self) {
        self.halted = true;
    }
}

#[test]
fn replay_round_trip_replays_then_records() {
    // in reg0; in reg1; in reg2; halt
    let mut vm = VM::default();
    vm.memory[0] = 20;
    vm.memory[1] = 32768;
    vm.memory[2] = 20;
    vm.memory[3] = 32769;
    vm.memory[4] = 20;
    vm.memory[5] = 32770;
    vm.memory[6] = 0;
    let mut sink = ReplayHarness::new(b"AB", b"C");
    let dbg = Debugger::new();
    let end = dbg.run(&mut vm, &mut sink, 1000).unwrap();
    assert_eq!(end, RunEnd::Halted);
    // the first two reads replayed the seeded log
    assert_eq!(vm.registers[0], 'A' as u16);
    assert_eq!(vm.registers[1], 'B' as u16);
    // the third fell through to the live source and was appended
    assert_eq!(vm.registers[2], 'C' as u16);
    assert_eq!(sink.log, b"ABC".to_vec());
    assert_eq!(sink.fb.pos, 3);
}

#[test]
fn replay_exhaustion_without_live_input_is_fatal() {
    let mut vm = VM::default();
    vm.memory[0] = 20;
    vm.memory[1] = 32768;
    let mut sink = ReplayHarness::new(b"", b"");
    let dbg = Debugger::new();
    assert_eq!(
        dbg.run(&mut vm, &mut sink, 1000),
        Err(VmError::Exec(ExecError::InputUnavailable))
    );
}
