//! The executable machine: registers, status, the 64 KiB memory, the
//! addressing-mode resolver and the fetch-decode-execute loop, each method
//! proved against the semantics in [`crate::model`].

use vstd::pervasive::VecAdditionalExecFns;
use vstd::prelude::*;

use crate::halting::lemma_exhausted_budget_never_halts;
use crate::model::advance_spec;
use crate::model::effective_address;
use crate::model::flags_after;
use crate::model::lda_spec;
use crate::model::inx_spec;
use crate::model::tax_spec;
use crate::model::lemma_advance_extend;
use crate::model::lemma_run_from_advance;
use crate::model::loaded_mem;
use crate::model::reset_spec;
use crate::model::rom_mem;
use crate::model::run_post;
use crate::model::run_spec;
use crate::model::step_spec;
use crate::model::AddressingMode;
use crate::model::CpuError;
use crate::model::CpuView;
use crate::model::StepResult;
use crate::model::wrap_add16;
use crate::model::LOAD_BASE;
use crate::model::MEM_SIZE;
use crate::model::RESET_VECTOR;
use crate::model::STEP_BUDGET;

verus! {

/// The machine state: three 8-bit registers, the status byte, the owned
/// memory, the 16-bit program counter and the stack pointer.
pub struct CPU {
    pub register_a: u8,
    pub register_x: u8,
    pub register_y: u8,
    pub status: u8,
    pub memory: Vec<u8>,
    pub program_counter: u16,
    pub stack_pointer: u8,
}

impl View for CPU {
    type V = CpuView;

    open spec fn view(&self) -> CpuView {
        CpuView {
            register_a: self.register_a,
            register_x: self.register_x,
            register_y: self.register_y,
            status: self.status,
            program_counter: self.program_counter,
            stack_pointer: self.stack_pointer,
            mem: self.memory@,
        }
    }
}

impl CPU {
    /// A machine with all registers zero and a zeroed memory.
    pub fn new() -> (cpu: CPU)
        ensures
            cpu@ == CpuView::initial(),
            cpu@.wf(),
    {
        let memory: Vec<u8> = vec![0u8; MEM_SIZE];
        proof {
            assert(memory@ =~= CpuView::initial().mem);
        }
        CPU {
            register_a: 0,
            register_x: 0,
            register_y: 0,
            status: 0,
            memory,
            program_counter: 0,
            stack_pointer: 0,
        }
    }

    /// The byte stored at `addr`. Total: every address names valid storage.
    pub fn mem_read(&self, addr: u16) -> (value: u8)
        requires
            self@.wf(),
        ensures
            value == self@.mem_at(addr),
    {
        self.memory[addr as usize]
    }

    /// Stores `data` at `addr` unconditionally; nothing else changes.
    pub fn mem_write(&mut self, addr: u16, data: u8)
        requires
            old(self)@.wf(),
        ensures
            final(self)@ == (CpuView { mem: old(self)@.mem.update(addr as int, data), ..old(self)@ }),
            final(self)@.wf(),
    {
        self.memory.set(addr as usize, data);
    }

    /// The little-endian 16-bit value at `pos`: low byte at `pos`, high byte
    /// at the successor address, which wraps at the top of the space.
    pub fn mem_read_u16(&self, pos: u16) -> (value: u16)
        requires
            self@.wf(),
        ensures
            value == self@.mem16_at(pos),
    {
        let lo = self.mem_read(pos);
        let hi = self.mem_read(pos.wrapping_add(1));
        ((hi as u16) << 8) | (lo as u16)
    }

    /// Stores `data` at `pos` little-endian: low byte first, high byte at the
    /// successor address, which wraps at the top of the space.
    pub fn mem_write_u16(&mut self, pos: u16, data: u16)
        requires
            old(self)@.wf(),
        ensures
            final(self)@ == (CpuView {
                mem: old(self)@.mem
                    .update(pos as int, (data & 0xFF) as u8)
                    .update(wrap_add16(pos, 1) as int, (data >> 8) as u8),
                ..old(self)@
            }),
            final(self)@.wf(),
    {
        let hi = (data >> 8) as u8;
        let lo = (data & 0xFF) as u8;
        self.mem_write(pos, lo);
        self.mem_write(pos.wrapping_add(1), hi);
    }

    /// The flag unit: recomputes the Zero and Negative status bits from
    /// `register`, leaving the other six bits alone.
    pub fn check_register_z_and_n(&mut self, register: u8)
        ensures
            final(self)@ == (CpuView {
                status: flags_after(old(self)@.status, register),
                ..old(self)@
            }),
    {
        if register == 0 {
            self.status = self.status | 0b0000_0010;
        } else {
            self.status = self.status & 0b1111_1101;
        }
        if register & 0b1000_0000 != 0 {
            self.status = self.status | 0b1000_0000;
        } else {
            self.status = self.status & 0b0111_1111;
        }
    }

    /// Zeroes the accumulator, index X and the status byte, then takes the
    /// program counter from the reset vector. Index Y, the stack pointer and
    /// memory are deliberately untouched.
    pub fn reset(&mut self)
        requires
            old(self)@.wf(),
        ensures
            final(self)@ == reset_spec(old(self)@),
    {
        self.register_a = 0;
        self.register_x = 0;
        self.status = 0;
        self.program_counter = self.mem_read_u16(RESET_VECTOR);
    }

    /// Copies the program into memory at `LOAD_BASE` and points the reset
    /// vector there. A program longer than the space above the base is
    /// rejected whole.
    pub fn load(&mut self, program: Vec<u8>) -> (result: Result<(), CpuError>)
        requires
            old(self)@.wf(),
        ensures
            match result {
                Ok(_) => program@.len() <= MEM_SIZE - LOAD_BASE && final(self)@ == (CpuView {
                    mem: loaded_mem(old(self)@.mem, program@),
                    ..old(self)@
                }),
                Err(e) => e == CpuError::OutOfRangeLoad && program@.len() > MEM_SIZE - LOAD_BASE
                    && *final(self) == *old(self),
            },
            final(self)@.wf(),
    {
        if program.len() > MEM_SIZE - (LOAD_BASE as usize) {
            return Err(CpuError::OutOfRangeLoad);
        }
        let mut i: usize = 0;
        while i < program.len()
            invariant
                old(self)@.wf(),
                self@.wf(),
                i <= program@.len(),
                program@.len() <= MEM_SIZE - LOAD_BASE,
                self@ == (CpuView { mem: self@.mem, ..old(self)@ }),
                forall|j: int|
                    LOAD_BASE <= j < LOAD_BASE + i ==> self@.mem[j] == program@[j - LOAD_BASE],
                forall|j: int|
                    0 <= j < MEM_SIZE && !(LOAD_BASE <= j < LOAD_BASE + i) ==> self@.mem[j]
                        == old(self)@.mem[j],
            decreases program@.len() - i,
        {
            self.mem_write(LOAD_BASE + (i as u16), program[i]);
            i = i + 1;
        }
        self.mem_write_u16(RESET_VECTOR, LOAD_BASE);
        proof {
            assert(self@.mem =~= loaded_mem(old(self)@.mem, program@));
        }
        Ok(())
    }

    /// Loads the program, resets, and runs the dispatch loop.
    pub fn load_and_run(&mut self, program: Vec<u8>) -> (result: Result<StepResult, CpuError>)
        requires
            old(self)@.wf(),
        ensures
            match result {
                Ok(outcome) => program@.len() <= MEM_SIZE - LOAD_BASE && run_post(
                    reset_spec(
                        CpuView { mem: loaded_mem(old(self)@.mem, program@), ..old(self)@ },
                    ),
                    final(self)@,
                    outcome,
                ),
                Err(e) => e == CpuError::OutOfRangeLoad && program@.len() > MEM_SIZE - LOAD_BASE
                    && *final(self) == *old(self),
            },
            final(self)@.wf(),
    {
        match self.load(program) {
            Ok(_) => {
                self.reset();
                Ok(self.run())
            },
            Err(e) => Err(e),
        }
    }

    /// The dispatch loop: fetches, decodes and executes until a halt opcode
    /// yields `Halted`, an unknown opcode yields `Fault`, or the step bound
    /// is exhausted, which by the argument on [`STEP_BUDGET`] means the
    /// machine never halts; the loop then stops and reports `Continue`.
    #[verifier::loop_isolation(false)]
    pub fn run(&mut self) -> (outcome: StepResult)
        requires
            old(self)@.wf(),
        ensures
            run_post(old(self)@, final(self)@, outcome),
            final(self)@.wf(),
    {
        let mut steps: usize = 0;
        loop
            invariant
                self@.wf(),
                steps <= STEP_BUDGET,
                advance_spec(old(self)@, steps as nat) == Some(self@),
            decreases STEP_BUDGET - steps,
        {
            if steps == STEP_BUDGET {
                proof {
                    assert forall|n: nat| run_spec(old(self)@, n) is None by {
                        lemma_exhausted_budget_never_halts(old(self)@, n);
                    }
                }
                return StepResult::Continue;
            }
            let ghost before = self@;
            let opcode: u8 = self.mem_read(self.program_counter);
            self.program_counter = self.program_counter.wrapping_add(1);
            match opcode {
                0xAA => self.tax(),
                0xA9 => {
                    self.lda(&AddressingMode::Immediate);
                    self.program_counter = self.program_counter.wrapping_add(1);
                },
                0xA5 => {
                    self.lda(&AddressingMode::ZeroPage);
                    self.program_counter = self.program_counter.wrapping_add(1);
                },
                0xAD => {
                    self.lda(&AddressingMode::Absolute);
                    self.program_counter = self.program_counter.wrapping_add(2);
                },
                0xE8 => self.inx(),
                0x00 => {
                    proof {
                        lemma_run_from_advance(old(self)@, steps as nat, before);
                        assert(run_spec(old(self)@, (steps + 1) as nat) == Some(
                            (self@, StepResult::Halted),
                        ));
                    }
                    return StepResult::Halted;
                },
                _ => {
                    proof {
                        lemma_run_from_advance(old(self)@, steps as nat, before);
                        assert(run_spec(old(self)@, (steps + 1) as nat) == Some(
                            (self@, StepResult::Fault(opcode)),
                        ));
                    }
                    return StepResult::Fault(opcode);
                },
            }
            proof {
                assert(step_spec(before) == (StepResult::Continue, self@));
                lemma_advance_extend(old(self)@, steps as nat, before);
            }
            steps = steps + 1;
        }
    }

    /// Alternate entry point: the supplied byte sequence itself is the
    /// addressable program. It is placed at the base of the address space
    /// with every byte past its end reading as zero, execution starts at
    /// index 0, and the registers keep their current values. A sequence
    /// longer than the address space is rejected whole.
    pub fn interpret(&mut self, rom: Vec<u8>) -> (result: Result<StepResult, CpuError>)
        requires
            old(self)@.wf(),
        ensures
            match result {
                Ok(outcome) => rom@.len() <= MEM_SIZE && run_post(
                    (CpuView { program_counter: 0, mem: rom_mem(rom@), ..old(self)@ }),
                    final(self)@,
                    outcome,
                ),
                Err(e) => e == CpuError::OutOfRangeLoad && rom@.len() > MEM_SIZE && *final(self)
                    == *old(self),
            },
            final(self)@.wf(),
    {
        if rom.len() > MEM_SIZE {
            return Err(CpuError::OutOfRangeLoad);
        }
        let mut i: usize = 0;
        while i < MEM_SIZE
            invariant
                old(self)@.wf(),
                self@.wf(),
                i <= MEM_SIZE,
                rom@.len() <= MEM_SIZE,
                self@ == (CpuView { mem: self@.mem, ..old(self)@ }),
                forall|j: int| 0 <= j < i ==> self@.mem[j] == rom_mem(rom@)[j],
            decreases MEM_SIZE - i,
        {
            if i < rom.len() {
                self.mem_write(i as u16, rom[i]);
            } else {
                self.mem_write(i as u16, 0);
            }
            i = i + 1;
        }
        self.program_counter = 0;
        proof {
            assert(self@.mem =~= rom_mem(rom@));
        }
        Ok(self.run())
    }

    /// The addressing-mode resolver: the effective operand address for
    /// `mode`, with the program counter standing on the first operand byte.
    /// `NoneAddressing` resolves nothing and is refused by precondition.
    pub fn get_operand_address(&self, mode: &AddressingMode) -> (addr: u16)
        requires
            self@.wf(),
            !(mode is NoneAddressing),
        ensures
            addr == effective_address(self@, *mode),
    {
        match mode {
            AddressingMode::Immediate => self.program_counter,
            AddressingMode::ZeroPage => self.mem_read(self.program_counter) as u16,
            AddressingMode::Absolute => self.mem_read_u16(self.program_counter),
            AddressingMode::ZeroPage_X => {
                let pos = self.mem_read(self.program_counter);
                let addr = pos.wrapping_add(self.register_x) as u16;
                addr
            },
            AddressingMode::ZeroPage_Y => {
                let pos = self.mem_read(self.program_counter);
                let addr = pos.wrapping_add(self.register_y) as u16;
                addr
            },
            AddressingMode::Absolute_X => {
                let base = self.mem_read_u16(self.program_counter);
                let addr = base.wrapping_add(self.register_x as u16);
                addr
            },
            AddressingMode::Absolute_Y => {
                let base = self.mem_read_u16(self.program_counter);
                let addr = base.wrapping_add(self.register_y as u16);
                addr
            },
            AddressingMode::Indirect_X => {
                let base = self.mem_read(self.program_counter);
                let ptr: u8 = base.wrapping_add(self.register_x);
                let lo = self.mem_read(ptr as u16);
                let hi = self.mem_read(ptr.wrapping_add(1) as u16);
                ((hi as u16) << 8) | (lo as u16)
            },
            AddressingMode::Indirect_Y => {
                let base = self.mem_read(self.program_counter);
                let lo = self.mem_read(base as u16);
                let hi = self.mem_read(base.wrapping_add(1) as u16);
                let deref_base = ((hi as u16) << 8) | (lo as u16);
                let deref = deref_base.wrapping_add(self.register_y as u16);
                deref
            },
            AddressingMode::NoneAddressing => {
                assert(false);
                0
            },
        }
    }

    /// Load-accumulator: reads the byte the mode resolves to into the
    /// accumulator and updates the Zero and Negative flags from it.
    fn lda(&mut self, mode: &AddressingMode)
        requires
            old(self)@.wf(),
            !(mode is NoneAddressing),
        ensures
            final(self)@ == lda_spec(old(self)@, *mode),
    {
        let addr = self.get_operand_address(mode);
        let value = self.mem_read(addr);
        self.register_a = value;
        self.check_register_z_and_n(self.register_a);
    }

    /// Transfer-accumulator-to-index: copies the accumulator into index X and
    /// updates the flags from it.
    fn tax(&mut self)
        ensures
            final(self)@ == tax_spec(old(self)@),
    {
        self.register_x = self.register_a;
        self.check_register_z_and_n(self.register_x);
    }

    /// Increment-index: adds one to index X, wrapping modulo 0x100, and
    /// updates the flags from the result.
    fn inx(&mut self)
        ensures
            final(self)@ == inx_spec(old(self)@),
    {
        self.register_x = self.register_x.wrapping_add(1);
        self.check_register_z_and_n(self.register_x);
    }
}

} // verus!
