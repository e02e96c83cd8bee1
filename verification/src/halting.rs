//! Termination analysis of the dispatch loop. Control flow depends only on
//! the fetch address and on memory: no implemented opcode writes memory or
//! jumps, so the fetch address walks a path determined by memory alone, and
//! since it has only 0x10000 possible values, a run of [`STEP_BUDGET`]
//! continuing steps has fetched some address twice and is caught in a cycle
//! it can never leave. The theorem [`lemma_exhausted_budget_never_halts`]
//! makes that argument formal.

use vstd::prelude::*;
use vstd::set_lib::lemma_int_range;
use vstd::set_lib::lemma_len_subset;
use vstd::set_lib::set_int_range;

use crate::model::advance_spec;
use crate::model::run_spec;
use crate::model::step_spec;
use crate::model::wrap_add16;
use crate::model::CpuView;
use crate::model::STEP_BUDGET;

verus! {

/// Where the next opcode fetch happens, given only memory and the current
/// fetch address; `None` when the opcode found there halts or faults.
pub open spec fn ctrl_step(mem: Seq<u8>, pc: u16) -> Option<u16> {
    let opcode = mem[pc as int];
    if opcode == 0xAA || opcode == 0xE8 {
        Some(wrap_add16(pc, 1))
    } else if opcode == 0xA9 || opcode == 0xA5 {
        Some(wrap_add16(wrap_add16(pc, 1), 1))
    } else if opcode == 0xAD {
        Some(wrap_add16(wrap_add16(pc, 1), 2))
    } else {
        None
    }
}

/// The fetch address after `k` continuing steps, or `None` if some step
/// among them halted or faulted first.
pub open spec fn ctrl_iter(mem: Seq<u8>, pc: u16, k: nat) -> Option<u16>
    decreases k,
{
    if k == 0 {
        Some(pc)
    } else {
        match ctrl_step(mem, pc) {
            Some(next) => ctrl_iter(mem, next, (k - 1) as nat),
            None => None,
        }
    }
}

/// A dispatch step never writes memory, continues exactly when the control
/// step does, and moves the fetch address exactly as the control step says.
proof fn lemma_step_control(v: CpuView)
    ensures
        step_spec(v).1.mem == v.mem,
        (step_spec(v).0 is Continue) <==> (ctrl_step(v.mem, v.program_counter) is Some),
        (step_spec(v).0 is Continue) ==> ctrl_step(v.mem, v.program_counter) == Some(
            step_spec(v).1.program_counter,
        ),
{
}

/// A machine that advances `k` steps keeps its memory and takes its fetch
/// address along the control path.
proof fn lemma_advance_control(v: CpuView, k: nat, w: CpuView)
    requires
        advance_spec(v, k) == Some(w),
    ensures
        w.mem == v.mem,
        ctrl_iter(v.mem, v.program_counter, k) == Some(w.program_counter),
    decreases k,
{
    reveal_with_fuel(advance_spec, 2);
    reveal_with_fuel(ctrl_iter, 2);
    if k == 0 {
    } else {
        lemma_step_control(v);
        let (outcome, next) = step_spec(v);
        lemma_advance_control(next, (k - 1) as nat, w);
    }
}

/// Iterating the control step splits at any point: `a + b` steps are `a`
/// steps and then `b` more from wherever they led.
proof fn lemma_ctrl_iter_split(mem: Seq<u8>, pc: u16, a: nat, b: nat)
    ensures
        ctrl_iter(mem, pc, a + b) == (match ctrl_iter(mem, pc, a) {
            Some(q) => ctrl_iter(mem, q, b),
            None => None,
        }),
    decreases a,
{
    reveal_with_fuel(ctrl_iter, 2);
    if a == 0 {
    } else {
        match ctrl_step(mem, pc) {
            Some(next) => {
                lemma_ctrl_iter_split(mem, next, (a - 1) as nat, b);
            },
            None => {},
        }
    }
}

/// A control path that revisits a fetch address is defined forever: from the
/// repeat onwards it cycles and never reaches a halting or faulting opcode.
proof fn lemma_cycle_always_defined(mem: Seq<u8>, pc: u16, i: nat, j: nat, k: nat)
    requires
        i < j,
        ctrl_iter(mem, pc, i) == ctrl_iter(mem, pc, j),
        ctrl_iter(mem, pc, j) is Some,
    ensures
        ctrl_iter(mem, pc, k) is Some,
    decreases k,
{
    if k <= j {
        lemma_ctrl_iter_split(mem, pc, k, (j - k) as nat);
    } else {
        lemma_cycle_always_defined(mem, pc, i, j, (k - (j - i)) as nat);
        let p = ctrl_iter(mem, pc, i)->Some_0;
        let d = (k - j) as nat;
        lemma_ctrl_iter_split(mem, pc, j, d);
        lemma_ctrl_iter_split(mem, pc, i, d);
    }
}

/// A machine whose control path is defined forever never halts or faults,
/// whatever fuel the dispatch loop is given.
proof fn lemma_perpetual_control_never_halts(v: CpuView, n: nat)
    requires
        forall|k: nat| ctrl_iter(v.mem, v.program_counter, k) is Some,
    ensures
        run_spec(v, n) is None,
    decreases n,
{
    reveal_with_fuel(ctrl_iter, 2);
    if n == 0 {
    } else {
        lemma_step_control(v);
        assert(ctrl_iter(v.mem, v.program_counter, 1) is Some);
        let (outcome, next) = step_spec(v);
        assert forall|k: nat| ctrl_iter(next.mem, next.program_counter, k) is Some by {
            assert(ctrl_iter(v.mem, v.program_counter, (k + 1) as nat) is Some);
        }
        lemma_perpetual_control_never_halts(next, (n - 1) as nat);
    }
}

/// Pigeonhole: a control path that survives [`STEP_BUDGET`] steps visits
/// 0x10001 fetch addresses, of which at most 0x10000 are distinct, so two
/// among the first 0x10001 coincide.
proof fn lemma_fetch_repeats(mem: Seq<u8>, pc: u16)
    requires
        ctrl_iter(mem, pc, STEP_BUDGET as nat) is Some,
    ensures
        exists|i: nat, j: nat|
            i < j <= 0x10000 && ctrl_iter(mem, pc, i) == ctrl_iter(mem, pc, j) && ctrl_iter(
                mem,
                pc,
                j,
            ) is Some,
{
    assert forall|k: nat| k <= STEP_BUDGET implies ctrl_iter(mem, pc, k) is Some by {
        lemma_ctrl_iter_split(mem, pc, k, (STEP_BUDGET - k) as nat);
    }
    let pcs = Seq::<int>::new(0x10001, |k: int| ctrl_iter(mem, pc, k as nat)->Some_0 as int);
    if pcs.no_duplicates() {
        pcs.unique_seq_to_set();
        assert(pcs.to_set().subset_of(set_int_range(0, 0x10000))) by {
            assert forall|x: int| pcs.to_set().contains(x) implies set_int_range(
                0,
                0x10000,
            ).contains(x) by {
                let idx = choose|idx: int| 0 <= idx < pcs.len() && pcs[idx] == x;
                assert(pcs[idx] == ctrl_iter(mem, pc, idx as nat)->Some_0 as int);
            }
        }
        lemma_int_range(0, 0x10000);
        lemma_len_subset(pcs.to_set(), set_int_range(0, 0x10000));
        assert(false);
    }
    let (a, b) = choose|a: int, b: int|
        0 <= a < pcs.len() && 0 <= b < pcs.len() && a != b && pcs[a] == pcs[b];
    let (i, j) = if a < b {
        (a, b)
    } else {
        (b, a)
    };
    assert(ctrl_iter(mem, pc, i as nat) is Some && ctrl_iter(mem, pc, j as nat) is Some);
    assert(ctrl_iter(mem, pc, i as nat)->Some_0 == ctrl_iter(mem, pc, j as nat)->Some_0);
    assert((i as nat) < (j as nat) <= 0x10000 && ctrl_iter(mem, pc, i as nat) == ctrl_iter(
        mem,
        pc,
        j as nat,
    ));
}

/// A machine that makes [`STEP_BUDGET`] dispatch steps without halting or
/// faulting never will: every fuel leaves the dispatch loop unfinished.
pub proof fn lemma_exhausted_budget_never_halts(v: CpuView, n: nat)
    requires
        advance_spec(v, STEP_BUDGET as nat) is Some,
    ensures
        run_spec(v, n) is None,
{
    let w = advance_spec(v, STEP_BUDGET as nat)->Some_0;
    lemma_advance_control(v, STEP_BUDGET as nat, w);
    lemma_fetch_repeats(v.mem, v.program_counter);
    let (i, j) = choose|i: nat, j: nat|
        i < j <= 0x10000 && ctrl_iter(v.mem, v.program_counter, i) == ctrl_iter(
            v.mem,
            v.program_counter,
            j,
        ) && ctrl_iter(v.mem, v.program_counter, j) is Some;
    assert forall|k: nat| ctrl_iter(v.mem, v.program_counter, k) is Some by {
        lemma_cycle_always_defined(v.mem, v.program_counter, i, j, k);
    }
    lemma_perpetual_control_never_halts(v, n);
}

} // verus!
