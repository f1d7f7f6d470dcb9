//! Laws of the machine: what stepping and undoing preserve, and that undo
//! inverts step.

use vstd::prelude::*;
use crate::engine::{EngineState, Outcome};
use crate::instruction::{Instruction, lemma_match_in_bounds, lemma_matching_jump_involution, match_of};

verus! {

/// The cell at `i`, reading past the end of the tape as zero.
pub open spec fn cell_or_zero(tape: Seq<u8>, i: int) -> u8 {
    if 0 <= i < tape.len() {
        tape[i]
    } else {
        0
    }
}

/// Two tapes hold the same cells, up to zero cells at the end.
pub open spec fn same_cells(a: Seq<u8>, b: Seq<u8>) -> bool {
    forall|i: int| #[trigger] cell_or_zero(a, i) == cell_or_zero(b, i)
}

/// Two machines that no observer can tell apart: equal in everything but
/// trailing zero cells of the tape.
pub open spec fn equivalent(a: EngineState, b: EngineState) -> bool {
    &&& same_cells(a.tape, b.tape)
    &&& a.tape_pointer == b.tape_pointer
    &&& a.instructions == b.instructions
    &&& a.instruction_pointer == b.instruction_pointer
    &&& a.history == b.history
    &&& a.output == b.output
    &&& a.input == b.input
    &&& a.input_cell_history == b.input_cell_history
}

/// A step from `s` runs an instruction and records it in the history.
pub open spec fn commits(s: EngineState) -> bool {
    &&& s.current() is Some
    &&& (s.stepped().1 == Outcome::Done || s.stepped().1 == Outcome::Halted)
}

/// The machine after `n` steps from `s`.
pub open spec fn steps(s: EngineState, n: nat) -> EngineState
    decreases n,
{
    if n == 0 {
        s
    } else {
        steps(s, (n - 1) as nat).stepped().0
    }
}

/// The machine after `n` undos from `s`.
pub open spec fn undos(s: EngineState, n: nat) -> EngineState
    decreases n,
{
    if n == 0 {
        s
    } else {
        undos(s.undone().0, (n - 1) as nat)
    }
}

proof fn lemma_executed_wf(s: EngineState, instruction: Instruction)
    requires
        s.wf(),
    ensures
        s.executed(instruction).0.wf(),
        s.executed(instruction).0.tape.len() >= s.tape.len(),
        s.executed(instruction).0.instructions == s.instructions,
        s.executed(instruction).0.history == s.history,
{
    if let crate::engine::InstructionPointer::Index(i) = s.instruction_pointer {
        lemma_match_in_bounds(s.instructions, i as int);
    }
}

proof fn lemma_unexecuted_wf(s: EngineState, instruction: Instruction)
    requires
        s.wf(),
    ensures
        s.unexecuted(instruction).0.wf(),
        s.unexecuted(instruction).0.tape.len() >= s.tape.len(),
        s.unexecuted(instruction).0.instructions == s.instructions,
        s.unexecuted(instruction).0.history == s.history,
{
    if let crate::engine::InstructionPointer::Index(i) = s.instruction_pointer {
        lemma_match_in_bounds(s.instructions, i as int);
    }
}

/// A step keeps the machine well formed, and the tape never shrinks.
pub proof fn lemma_step_keeps_tape(s: EngineState)
    requires
        s.wf(),
    ensures
        s.stepped().0.wf(),
        s.stepped().0.tape.len() >= s.tape.len(),
        s.stepped().0.instructions == s.instructions,
{
    if let Some(instruction) = s.current() {
        lemma_executed_wf(s, instruction);
    }
}

/// An undo keeps the machine well formed, and the tape never shrinks.
pub proof fn lemma_undo_keeps_tape(s: EngineState)
    requires
        s.wf(),
    ensures
        s.undone().0.wf(),
        s.undone().0.tape.len() >= s.tape.len(),
        s.undone().0.instructions == s.instructions,
{
    if s.history.len() > 0 {
        lemma_unexecuted_wf(
            EngineState { history: s.history.drop_last(), ..s },
            s.history.last(),
        );
    }
}

/// Undo inverts a step that ran an instruction: the machine comes back to
/// what it was, but for zero cells the step added to the tape, and the undo
/// reports what the step reported.
pub proof fn lemma_step_then_undo(s: EngineState)
    requires
        s.wf(),
        commits(s),
    ensures
        equivalent(s.stepped().0.undone().0, s),
        s.stepped().0.undone().1 == s.stepped().1,
{
    let i = s.instruction_pointer->Index_0;
    let instruction = s.instructions[i as int];
    let e = s.executed(instruction).0;
    let t = s.stepped().0;
    lemma_executed_wf(s, instruction);
    lemma_match_in_bounds(s.instructions, i as int);
    assert(t.history.drop_last() =~= s.history);
    let u = EngineState { history: t.history.drop_last(), ..t };
    assert(u == EngineState { history: s.history, ..e });
    let r = s.stepped().0.undone().0;
    assert(r == u.unexecuted(instruction).0);
    match instruction {
        Instruction::JumpForward => {
            lemma_matching_jump_involution(s.instructions, i as int);
        },
        Instruction::JumpBackward => {
            lemma_matching_jump_involution(s.instructions, i as int);
        },
        Instruction::Input => {
            assert(seq![e.cell()] + e.input =~= s.input);
            assert(e.input_cell_history.drop_last() =~= s.input_cell_history);
            assert(e.tape.update(s.tape_pointer, s.cell()) =~= s.tape);
        },
        Instruction::Output => {
            assert(e.output.drop_last() =~= s.output);
        },
        Instruction::Increment => {
            assert(e.tape.update(s.tape_pointer, s.cell()) =~= s.tape);
        },
        Instruction::Decrement => {
            assert(e.tape.update(s.tape_pointer, s.cell()) =~= s.tape);
        },
        _ => {},
    }
    assert forall|k: int| #[trigger] cell_or_zero(r.tape, k) == cell_or_zero(s.tape, k) by {
        if s.tape_pointer + 1 == s.tape.len() && instruction == Instruction::IncrementPointer {
            assert(r.tape == s.tape.push(0));
        }
    }
}

/// Undo treats machines that no observer can tell apart alike.
pub proof fn lemma_undo_equivalent(a: EngineState, b: EngineState)
    requires
        a.wf(),
        b.wf(),
        equivalent(a, b),
    ensures
        equivalent(a.undone().0, b.undone().0),
        a.undone().1 == b.undone().1,
{
    lemma_undo_keeps_tape(a);
    lemma_undo_keeps_tape(b);
    assert(cell_or_zero(a.tape, a.tape_pointer) == cell_or_zero(b.tape, b.tape_pointer));
    if a.history.len() > 0 {
        let x = EngineState { history: a.history.drop_last(), ..a };
        let y = EngineState { history: b.history.drop_last(), ..b };
        let ra = a.undone().0;
        let rb = b.undone().0;
        assert forall|k: int| #[trigger] cell_or_zero(ra.tape, k) == cell_or_zero(rb.tape, k) by {
            assert(cell_or_zero(a.tape, k) == cell_or_zero(b.tape, k));
            assert(cell_or_zero(a.tape, k + 1) == cell_or_zero(b.tape, k + 1));
        }
    }
}

proof fn lemma_undos_equivalent(a: EngineState, b: EngineState, n: nat)
    requires
        a.wf(),
        b.wf(),
        equivalent(a, b),
    ensures
        equivalent(undos(a, n), undos(b, n)),
        undos(a, n).wf(),
    decreases n,
{
    if n > 0 {
        lemma_undo_equivalent(a, b);
        lemma_undo_keeps_tape(a);
        lemma_undo_keeps_tape(b);
        lemma_undos_equivalent(a.undone().0, b.undone().0, (n - 1) as nat);
    }
}

proof fn lemma_steps_wf(s: EngineState, n: nat)
    requires
        s.wf(),
    ensures
        steps(s, n).wf(),
    decreases n,
{
    if n > 0 {
        lemma_steps_wf(s, (n - 1) as nat);
        lemma_step_keeps_tape(steps(s, (n - 1) as nat));
    }
}

/// One more undo after `n` undos.
pub proof fn lemma_undos_last(s: EngineState, n: nat)
    ensures
        undos(s, n + 1) == undos(s, n).undone().0,
    decreases n,
{
    if n > 0 {
        lemma_undos_last(s.undone().0, (n - 1) as nat);
        assert(undos(s, n) == undos(s.undone().0, (n - 1) as nat));
    } else {
        assert(undos(s.undone().0, 0) == s.undone().0);
    }
}

/// Inversion: `n` steps that each run an instruction, followed by `n`
/// undos, give back a machine that no observer can tell from the first.
pub proof fn lemma_steps_then_undos(s: EngineState, n: nat)
    requires
        s.wf(),
        forall|k: nat| k < n ==> #[trigger] commits(steps(s, k)),
    ensures
        equivalent(undos(steps(s, n), n), s),
    decreases n,
{
    if n > 0 {
        let m = (n - 1) as nat;
        let t = steps(s, m);
        assert(commits(steps(s, m)));
        lemma_steps_then_undos(s, m);
        lemma_steps_wf(s, m);
        lemma_step_then_undo(t);
        lemma_step_keeps_tape(t);
        lemma_undo_keeps_tape(t.stepped().0);
        lemma_undos_equivalent(t.stepped().0.undone().0, t, m);
    }
}

/// A breakpoint always enters the history, though the step reports it;
/// undoing it leaves the history as it was and reports it again.
pub proof fn lemma_breakpoint_commits(s: EngineState)
    requires
        s.wf(),
        s.current() == Some(Instruction::Breakpoint),
    ensures
        s.stepped().1 == Outcome::Halted,
        s.stepped().0.history == s.history.push(Instruction::Breakpoint),
        s.stepped().0.undone().1 == Outcome::Halted,
        s.stepped().0.undone().0.history == s.history,
{
    lemma_executed_wf(s, Instruction::Breakpoint);
    assert(s.stepped().0.history.drop_last() =~= s.history);
}

/// Undoing a breakpoint that ends the history always pops it and reports
/// the breakpoint.
pub proof fn lemma_breakpoint_undo(s: EngineState)
    requires
        s.wf(),
        s.history.len() > 0,
        s.history.last() == Instruction::Breakpoint,
    ensures
        s.undone().1 == Outcome::Halted,
        s.undone().0.history == s.history.drop_last(),
{
}

} // verus!
