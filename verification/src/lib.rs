//! Verified execution core of an 8-bit microprocessor: registers, status
//! flags, a 64 KiB byte-addressable memory, an addressing-mode resolver and a
//! fetch-decode-execute loop for the implemented opcode subset.
//!
//! The module `model` gives the mathematical semantics (a ghost view of the
//! machine and a small-step transition function); `cpu` holds the executable
//! machine, each method proved against that semantics; `laws` states and
//! proves the general properties the semantics obeys; `halting` proves that
//! the dispatch loop's step bound loses no terminating execution.

mod cpu;
mod halting;
mod laws;
mod model;

pub use cpu::CPU;
pub use model::AddressingMode;
pub use model::CpuError;
pub use model::CpuView;
pub use model::StepResult;
pub use model::FLAG_NEGATIVE;
pub use model::FLAG_ZERO;
pub use model::LOAD_BASE;
pub use model::MEM_SIZE;
pub use model::RESET_VECTOR;
pub use model::STEP_BUDGET;
pub use model::effective_address;
pub use model::flags_after;
pub use model::advance_spec;
pub use model::run_spec;
pub use model::step_spec;
pub use model::lda_spec;
pub use model::tax_spec;
pub use model::inx_spec;
pub use model::loaded_mem;
pub use model::reset_spec;
pub use model::rom_mem;
pub use model::lemma_run_spec_fuel_monotonic;
pub use model::run_post;
pub use model::skip_operands;
pub use model::with_pc;
pub use model::make_u16;
pub use model::wrap_add16;
pub use model::wrap_add8;
pub use halting::ctrl_iter;
pub use halting::ctrl_step;
pub use halting::lemma_exhausted_budget_never_halts;
pub use laws::lemma_flags_after_zero_and_negative;
pub use laws::lemma_make_u16_splits;
pub use laws::lemma_lda_round_trip;
pub use laws::lemma_inx_wraps;
pub use laws::lemma_indirect_x_address;
pub use laws::lemma_indirect_y_address;
