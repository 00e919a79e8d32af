//! The machine state: program counter, eight registers, a stack, and a flat
//! memory of 32768 sixteen-bit words.
//!
//! `VmModel` is the mathematical view of a machine state; every contract in
//! the crate speaks of it. `VM` is the executable aggregate that the
//! interpreter loop owns and mutates.

use vstd::prelude::*;

verus! {

/// Number of words in the flat address space.
pub const MEM_SIZE: usize = 32768;

/// Number of general registers.
pub const NUM_REGS: usize = 8;

/// The mathematical view of a machine state.
#[verifier::ext_equal]
pub struct VmModel {
    pub pc: u16,
    pub registers: Seq<u16>,
    pub stack: Seq<u16>,
    pub memory: Seq<u16>,
}

impl VmModel {
    /// Structural well-formedness: the register file and the memory have
    /// their architectural sizes.
    pub open spec fn wf(self) -> bool {
        &&& self.registers.len() == NUM_REGS
        &&& self.memory.len() == MEM_SIZE
    }

    /// The initial state: everything zero, stack empty.
    pub open spec fn init() -> VmModel {
        VmModel {
            pc: 0,
            registers: Seq::new(NUM_REGS as nat, |i: int| 0u16),
            stack: Seq::empty(),
            memory: Seq::new(MEM_SIZE as nat, |i: int| 0u16),
        }
    }

    /// The same state with register `r` holding `v`.
    pub open spec fn with_reg(self, r: int, v: u16) -> VmModel {
        VmModel { registers: self.registers.update(r, v), ..self }
    }

    /// The same state with the program counter at `pc`.
    pub open spec fn with_pc(self, pc: u16) -> VmModel {
        VmModel { pc, ..self }
    }

    /// The same state with `v` pushed onto the stack.
    pub open spec fn with_push(self, v: u16) -> VmModel {
        VmModel { stack: self.stack.push(v), ..self }
    }

    /// The same state with the top of the stack removed.
    pub open spec fn with_pop(self) -> VmModel {
        VmModel { stack: self.stack.drop_last(), ..self }
    }

    /// The same state with memory word `addr` holding `v`.
    pub open spec fn with_mem(self, addr: int, v: u16) -> VmModel {
        VmModel { memory: self.memory.update(addr, v), ..self }
    }
}

/// The executable machine state.
#[derive(Debug, PartialEq, Eq)]
pub struct VM {
    pub pc: u16,
    pub registers: Vec<u16>,
    pub stack: Vec<u16>,
    pub memory: Vec<u16>,
}

impl View for VM {
    type V = VmModel;

    open spec fn view(&self) -> VmModel {
        VmModel {
            pc: self.pc,
            registers: self.registers@,
            stack: self.stack@,
            memory: self.memory@,
        }
    }
}

impl VM {
    pub open spec fn wf(&self) -> bool {
        self@.wf()
    }

    /// A machine loaded from a binary program image: the image's
    /// little-endian word pairs fill the low end of memory, the rest stays
    /// zero. A trailing odd byte of the image is ignored.
    pub fn from_image(image: &[u8]) -> (vm: VM)
        ensures
            vm.wf(),
            vm@.pc == 0,
            vm@.registers == VmModel::init().registers,
            vm@.stack == VmModel::init().stack,
            vm@.memory.len() == MEM_SIZE,
            forall|i: int|
                0 <= i < MEM_SIZE ==> vm@.memory[i] == (if 2 * i + 1 < image@.len() {
                    (image@[2 * i] + 256 * image@[2 * i + 1]) as u16
                } else {
                    0u16
                }),
    {
        let mut vm = VM::default();
        let mut i: usize = 0;
        while 2 * i + 1 < image.len() && i < MEM_SIZE
            invariant
                vm.wf(),
                vm@.pc == 0,
                vm@.registers == VmModel::init().registers,
                vm@.stack == VmModel::init().stack,
                i <= MEM_SIZE,
                forall|j: int|
                    0 <= j < MEM_SIZE ==> vm@.memory[j] == (if j < i && 2 * j + 1 < image@.len() {
                        (image@[2 * j] + 256 * image@[2 * j + 1]) as u16
                    } else {
                        0u16
                    }),
            decreases MEM_SIZE - i,
        {
            let lo = image[2 * i];
            let hi = image[2 * i + 1];
            let word: u16 = lo as u16 + 256 * (hi as u16);
            vm.memory.set(i, word);
            i += 1;
        }
        vm
    }
}

impl Default for VM {
    /// The all-zero machine.
    fn default() -> (vm: VM)
        ensures
            vm.wf(),
            vm@ == VmModel::init(),
    {
        let vm = VM {
            pc: 0,
            registers: vec![0u16; NUM_REGS],
            stack: Vec::new(),
            memory: vec![0u16; MEM_SIZE],
        };
        proof {
            assert(vm@.registers =~= VmModel::init().registers);
            assert(vm@.memory =~= VmModel::init().memory);
            assert(vm@.stack =~= VmModel::init().stack);
            assert(vm@ =~= VmModel::init());
        }
        vm
    }
}

} // verus!
