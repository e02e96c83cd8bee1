//! Mathematical model of the execution core: a ghost view of the machine
//! state, the flag calculus, the addressing-mode table, and a deterministic
//! small-step transition function from which the dispatch loop is specified.

use vstd::prelude::*;

verus! {

/// Size of the byte-addressable space: the whole 16-bit address range.
pub const MEM_SIZE: usize = 0x10000;

/// Address at which a loaded program is placed.
pub const LOAD_BASE: u16 = 0x8000;

/// Address of the little-endian reset vector.
pub const RESET_VECTOR: u16 = 0xFFFC;

/// Status bit 1: set exactly when the last flag-defining result was zero.
pub const FLAG_ZERO: u8 = 0b0000_0010;

/// Status bit 7: set exactly when the last flag-defining result had bit 7 set.
pub const FLAG_NEGATIVE: u8 = 0b1000_0000;

/// Dispatch-step bound used by the executable loop. A program counter has
/// only 0x10000 possible values, no implemented opcode writes memory or
/// jumps, and the next fetch address depends only on the current one and on
/// memory; so a run of 0x10001 steps has fetched some address twice and can
/// never leave that cycle. Stopping after this many steps therefore loses no
/// terminating execution — proved as
/// [`crate::halting::lemma_exhausted_budget_never_halts`].
pub const STEP_BUDGET: usize = 0x10001;

/// The ten ways an instruction can designate its operand.
#[derive(Debug, Clone, Copy, PartialEq, Eq, Structural)]
#[allow(non_camel_case_types)]
pub enum AddressingMode {
    Immediate,
    ZeroPage,
    ZeroPage_X,
    ZeroPage_Y,
    Absolute,
    Absolute_X,
    Absolute_Y,
    Indirect_X,
    Indirect_Y,
    NoneAddressing,
}

/// Outcome of one dispatch step, and of the dispatch loop as a whole.
/// `Continue` from the loop means the step bound was exhausted: the machine
/// is still running and, by the argument on [`STEP_BUDGET`], always will be.
#[derive(Debug, Clone, Copy, PartialEq, Eq, Structural)]
pub enum StepResult {
    Continue,
    Halted,
    Fault(u8),
}

/// Errors reported by the loading entry points.
#[derive(Debug, Clone, Copy, PartialEq, Eq, Structural)]
pub enum CpuError {
    /// The program does not fit between its base address and the top of memory.
    OutOfRangeLoad,
}

/// Ghost view of the machine: the registers as machine integers and the
/// memory as a sequence of bytes.
pub ghost struct CpuView {
    pub register_a: u8,
    pub register_x: u8,
    pub register_y: u8,
    pub status: u8,
    pub program_counter: u16,
    pub stack_pointer: u8,
    pub mem: Seq<u8>,
}

impl CpuView {
    /// Every machine has the full 16-bit address space as storage.
    pub open spec fn wf(self) -> bool {
        self.mem.len() == MEM_SIZE
    }

    /// The byte stored at `addr`.
    pub open spec fn mem_at(self, addr: u16) -> u8 {
        self.mem[addr as int]
    }

    /// The little-endian 16-bit value at `addr`: low byte at `addr`, high
    /// byte at the successor address, wrapping at the top of the space.
    pub open spec fn mem16_at(self, addr: u16) -> u16 {
        make_u16(self.mem_at(addr), self.mem_at(wrap_add16(addr, 1)))
    }

    /// The state of a freshly constructed machine: all registers zero and a
    /// zeroed memory.
    pub open spec fn initial() -> CpuView {
        CpuView {
            register_a: 0,
            register_x: 0,
            register_y: 0,
            status: 0,
            program_counter: 0,
            stack_pointer: 0,
            mem: Seq::new(MEM_SIZE as nat, |i: int| 0u8),
        }
    }
}

/// 16-bit addition that wraps modulo 0x10000.
pub open spec fn wrap_add16(a: u16, b: u16) -> u16 {
    if a + b > 0xFFFF {
        (a + b - 0x10000) as u16
    } else {
        (a + b) as u16
    }
}

/// 8-bit addition that wraps modulo 0x100.
pub open spec fn wrap_add8(a: u8, b: u8) -> u8 {
    if a + b > 0xFF {
        (a + b - 0x100) as u8
    } else {
        (a + b) as u8
    }
}

/// Little-endian composition of two bytes into a 16-bit value.
pub open spec fn make_u16(lo: u8, hi: u8) -> u16 {
    ((hi as u16) << 8) | (lo as u16)
}

/// The status byte after the flag unit has seen `value`: bit 1 is set exactly
/// when `value` is zero, bit 7 is set exactly when bit 7 of `value` is set,
/// and the other six bits keep their previous state.
pub open spec fn flags_after(status: u8, value: u8) -> u8 {
    let with_zero = if value == 0 {
        status | 0b0000_0010
    } else {
        status & 0b1111_1101
    };
    if value & 0b1000_0000 != 0 {
        with_zero | 0b1000_0000
    } else {
        with_zero & 0b0111_1111
    }
}

/// The effective operand address an addressing mode resolves to, with the
/// program counter standing on the first operand byte. `NoneAddressing`
/// resolves nothing; its value here is arbitrary and the resolver refuses it.
pub open spec fn effective_address(v: CpuView, mode: AddressingMode) -> u16
    recommends
        v.wf(),
        !(mode is NoneAddressing),
{
    match mode {
        AddressingMode::Immediate => v.program_counter,
        AddressingMode::ZeroPage => v.mem_at(v.program_counter) as u16,
        AddressingMode::ZeroPage_X => wrap_add8(v.mem_at(v.program_counter), v.register_x) as u16,
        AddressingMode::ZeroPage_Y => wrap_add8(v.mem_at(v.program_counter), v.register_y) as u16,
        AddressingMode::Absolute => v.mem16_at(v.program_counter),
        AddressingMode::Absolute_X => wrap_add16(v.mem16_at(v.program_counter), v.register_x as u16),
        AddressingMode::Absolute_Y => wrap_add16(v.mem16_at(v.program_counter), v.register_y as u16),
        AddressingMode::Indirect_X => {
            let ptr = wrap_add8(v.mem_at(v.program_counter), v.register_x);
            make_u16(v.mem_at(ptr as u16), v.mem_at(wrap_add8(ptr, 1) as u16))
        },
        AddressingMode::Indirect_Y => {
            let ptr = v.mem_at(v.program_counter);
            let base = make_u16(v.mem_at(ptr as u16), v.mem_at(wrap_add8(ptr, 1) as u16));
            wrap_add16(base, v.register_y as u16)
        },
        AddressingMode::NoneAddressing => 0,
    }
}

/// The state after the load-accumulator handler has run under `mode`.
pub open spec fn lda_spec(v: CpuView, mode: AddressingMode) -> CpuView
    recommends
        v.wf(),
        !(mode is NoneAddressing),
{
    let value = v.mem_at(effective_address(v, mode));
    CpuView { register_a: value, status: flags_after(v.status, value), ..v }
}

/// The state after the transfer-accumulator-to-index handler has run.
pub open spec fn tax_spec(v: CpuView) -> CpuView {
    CpuView { register_x: v.register_a, status: flags_after(v.status, v.register_a), ..v }
}

/// The state after the increment-index handler has run: the index register
/// wraps modulo 0x100.
pub open spec fn inx_spec(v: CpuView) -> CpuView {
    let x = wrap_add8(v.register_x, 1);
    CpuView { register_x: x, status: flags_after(v.status, x), ..v }
}

/// `v` with the program counter moved to `pc`.
pub open spec fn with_pc(v: CpuView, pc: u16) -> CpuView {
    CpuView { program_counter: pc, ..v }
}

/// `v` with the program counter advanced by `n` operand bytes, wrapping.
pub open spec fn skip_operands(v: CpuView, n: u16) -> CpuView {
    with_pc(v, wrap_add16(v.program_counter, n))
}

/// One dispatch step: fetch the opcode at the program counter, advance the
/// counter past it, then run the opcode's handler and skip its operand
/// bytes. Yields the step outcome together with the successor state.
pub open spec fn step_spec(v: CpuView) -> (StepResult, CpuView)
    recommends
        v.wf(),
{
    let opcode = v.mem_at(v.program_counter);
    let fetched = with_pc(v, wrap_add16(v.program_counter, 1));
    if opcode == 0xAA {
        (StepResult::Continue, tax_spec(fetched))
    } else if opcode == 0xA9 {
        (StepResult::Continue, skip_operands(lda_spec(fetched, AddressingMode::Immediate), 1))
    } else if opcode == 0xA5 {
        (StepResult::Continue, skip_operands(lda_spec(fetched, AddressingMode::ZeroPage), 1))
    } else if opcode == 0xAD {
        (StepResult::Continue, skip_operands(lda_spec(fetched, AddressingMode::Absolute), 2))
    } else if opcode == 0xE8 {
        (StepResult::Continue, inx_spec(fetched))
    } else if opcode == 0x00 {
        (StepResult::Halted, fetched)
    } else {
        (StepResult::Fault(opcode), fetched)
    }
}

/// The state after `k` dispatch steps, provided every one of them continued;
/// `None` if some step among the `k` halted or faulted first.
pub open spec fn advance_spec(v: CpuView, k: nat) -> Option<CpuView>
    decreases k,
{
    if k == 0 {
        Some(v)
    } else {
        let (outcome, next) = step_spec(v);
        if outcome is Continue {
            advance_spec(next, (k - 1) as nat)
        } else {
            None
        }
    }
}

/// The final state and outcome of the dispatch loop, if it terminates within
/// `n` steps: the first non-continuing step decides both.
pub open spec fn run_spec(v: CpuView, n: nat) -> Option<(CpuView, StepResult)>
    decreases n,
{
    if n == 0 {
        None
    } else {
        let (outcome, next) = step_spec(v);
        if outcome is Continue {
            run_spec(next, (n - 1) as nat)
        } else {
            Some((next, outcome))
        }
    }
}

/// Fuel does not matter once it suffices: a run that terminates within `n`
/// steps yields the same final state and outcome under any larger fuel. The
/// existential in [`run_post`] therefore names the one result the machine
/// has.
pub proof fn lemma_run_spec_fuel_monotonic(v: CpuView, n: nat, m: nat)
    requires
        run_spec(v, n) is Some,
        n <= m,
    ensures
        run_spec(v, m) == run_spec(v, n),
    decreases n,
{
    reveal_with_fuel(run_spec, 2);
    if n == 0 {
    } else {
        let (outcome, next) = step_spec(v);
        if outcome is Continue {
            lemma_run_spec_fuel_monotonic(next, (n - 1) as nat, (m - 1) as nat);
        }
    }
}

/// What the dispatch loop promises of a start state `v0`, a final state `v1`
/// and its outcome: a terminal outcome means some fuel makes `run_spec`
/// return exactly that final state and outcome; `Continue` means the whole
/// step bound was spent on continuing steps and — as
/// [`crate::halting::lemma_exhausted_budget_never_halts`] proves — the
/// machine never halts or faults, under any fuel at all.
pub open spec fn run_post(v0: CpuView, v1: CpuView, outcome: StepResult) -> bool {
    match outcome {
        StepResult::Continue => {
            &&& advance_spec(v0, STEP_BUDGET as nat) == Some(v1)
            &&& forall|n: nat| run_spec(v0, n) is None
        },
        _ => exists|n: nat| run_spec(v0, n) == Some((v1, outcome)),
    }
}

/// Memory after a program has been loaded: the program bytes sit at
/// `LOAD_BASE`, the reset vector holds `LOAD_BASE` little-endian, and every
/// other byte keeps its previous value. The vector is written after the
/// program, so it wins where the two overlap.
pub open spec fn loaded_mem(mem: Seq<u8>, program: Seq<u8>) -> Seq<u8>
    recommends
        mem.len() == MEM_SIZE,
        program.len() <= MEM_SIZE - LOAD_BASE,
{
    Seq::new(
        MEM_SIZE as nat,
        |i: int|
            if i == RESET_VECTOR {
                (LOAD_BASE & 0xFF) as u8
            } else if i == RESET_VECTOR + 1 {
                (LOAD_BASE >> 8) as u8
            } else if LOAD_BASE <= i < LOAD_BASE + program.len() {
                program[i - LOAD_BASE]
            } else {
                mem[i]
            },
    )
}

/// The state after a reset: accumulator, index X and status are zeroed, the
/// program counter is taken from the reset vector, and index Y, the stack
/// pointer and memory are deliberately untouched.
pub open spec fn reset_spec(v: CpuView) -> CpuView
    recommends
        v.wf(),
{
    CpuView {
        register_a: 0,
        register_x: 0,
        status: 0,
        program_counter: v.mem16_at(RESET_VECTOR),
        ..v
    }
}

/// Memory as the alternate entry point sees it: the supplied byte sequence
/// is the addressable program, placed at address zero, with every byte past
/// its end reading as zero.
pub open spec fn rom_mem(rom: Seq<u8>) -> Seq<u8>
    recommends
        rom.len() <= MEM_SIZE,
{
    Seq::new(MEM_SIZE as nat, |i: int| if i < rom.len() { rom[i] } else { 0u8 })
}

/// A state from which the loop steps on has taken one more continuing step.
pub(crate) proof fn lemma_advance_extend(v0: CpuView, k: nat, v: CpuView)
    requires
        advance_spec(v0, k) == Some(v),
        step_spec(v).0 is Continue,
    ensures
        advance_spec(v0, (k + 1) as nat) == Some(step_spec(v).1),
    decreases k,
{
    reveal_with_fuel(advance_spec, 2);
    if k == 0 {
    } else {
        let (outcome, next) = step_spec(v0);
        lemma_advance_extend(next, (k - 1) as nat, v);
    }
}

/// A state the loop has reached in `k` continuing steps and whose next step
/// terminates decides the whole run: `run_spec` with fuel `k + 1` returns
/// exactly that step's successor state and outcome.
pub(crate) proof fn lemma_run_from_advance(v0: CpuView, k: nat, v: CpuView)
    requires
        advance_spec(v0, k) == Some(v),
        !(step_spec(v).0 is Continue),
    ensures
        run_spec(v0, (k + 1) as nat) == Some((step_spec(v).1, step_spec(v).0)),
    decreases k,
{
    reveal_with_fuel(advance_spec, 2);
    reveal_with_fuel(run_spec, 2);
    if k == 0 {
    } else {
        let (outcome, next) = step_spec(v0);
        lemma_run_from_advance(next, (k - 1) as nat, v);
    }
}

} // verus!
