//! A program: an engine kept in step with the source buffer it was read
//! from, and the routing of what a step or an undo reports.

use vstd::prelude::*;
use crate::editor::{Editor, Position, line_views};
use crate::engine::{Engine, EngineResult, EngineState, Exception, InstructionPointer, Outcome, fresh_state, outcome, pointer_fits};
use crate::instruction::{Instruction, instruction_of};
use crate::reversal::{undos, lemma_undos_last};

verus! {

/// How many messages the debug log keeps; older ones leave first.
pub const DEBUG_LOG_CAPACITY: usize = 100;

#[derive(Clone, Copy, Debug, PartialEq, Eq, Structural)]
pub enum Mode {
    Interactive,
    Editor,
    Input,
}

/// The instructions of one line, each with its place, in order.
pub open spec fn line_entries(row: usize, line: Seq<char>) -> Seq<(Instruction, Position)>
    decreases line.len(),
{
    if line.len() == 0 {
        seq![]
    } else {
        let rest = line_entries(row, line.drop_last());
        match instruction_of(line.last()) {
            Some(instruction) => rest.push((instruction, (row, (line.len() - 1) as usize))),
            None => rest,
        }
    }
}

/// The instructions of the source, each with its place, in reading order.
pub open spec fn source_entries(lines: Seq<Seq<char>>) -> Seq<(Instruction, Position)>
    decreases lines.len(),
{
    if lines.len() == 0 {
        seq![]
    } else {
        source_entries(lines.drop_last()) + line_entries(
            (lines.len() - 1) as usize,
            lines.last(),
        )
    }
}

/// `instructions` and `positions` list the entries, side by side.
pub open spec fn lists_entries(
    instructions: Seq<Instruction>,
    positions: Seq<Position>,
    entries: Seq<(Instruction, Position)>,
) -> bool {
    &&& instructions.len() == entries.len()
    &&& positions.len() == entries.len()
    &&& forall|k: int|
        0 <= k < entries.len() ==> #[trigger] instructions[k] == entries[k].0 && positions[k]
            == entries[k].1
}

/// The characters of each logged message.
pub open spec fn message_views(log: Seq<String>) -> Seq<Seq<char>> {
    log.map_values(|m: String| m@)
}

/// The log after a message: the oldest goes once the log is full.
pub open spec fn logged(log: Seq<Seq<char>>, message: Seq<char>) -> Seq<Seq<char>> {
    if log.len() >= DEBUG_LOG_CAPACITY {
        log.drop_first().push(message)
    } else {
        log.push(message)
    }
}

/// From `s`, `n` undos succeed and the next one, which leads to `t`, does
/// not.
pub open spec fn undo_run(s: EngineState, n: nat, t: EngineState) -> bool {
    &&& forall|k: nat| k < n ==> (#[trigger] undos(s, k)).undone().1 == Outcome::Done
    &&& undos(s, n).undone().1 != Outcome::Done
    &&& t == undos(s, n + 1)
}

/// Reindexing fits the pointer to the new list: it stays where it still
/// fits, moves to the last instruction when the list shrank below it, and
/// goes back to the start when the list is empty.
pub proof fn lemma_reindex_clamp(ip: InstructionPointer, n: int)
    requires
        0 <= n <= usize::MAX,
    ensures
        pointer_fits(clamped(ip, n), n),
        ip matches InstructionPointer::Index(i) && i < n ==> clamped(ip, n) == ip,
        ip matches InstructionPointer::Index(i) && i >= n > 0 ==> clamped(ip, n)
            == InstructionPointer::Index((n - 1) as usize),
        n == 0 ==> clamped(ip, n) == InstructionPointer::Start,
{
}

/// The instruction pointer after the list became `n` long: back to the
/// start when the list is empty, and clamped to the last instruction when
/// the list shrank below it.
pub open spec fn clamped(ip: InstructionPointer, n: int) -> InstructionPointer {
    if n == 0 {
        InstructionPointer::Start
    } else {
        match ip {
            InstructionPointer::Index(i) => if i < n {
                ip
            } else {
                InstructionPointer::Index((n - 1) as usize)
            },
            _ => ip,
        }
    }
}

pub struct Program {
    pub engine: Engine,
    pub editor: Editor,
    /// For each instruction, the place in the source it was read from.
    pub instruction_positions: Vec<Position>,
    pub mode: Mode,
    /// Input being typed while the program waits for it.
    pub input_buffer: Vec<u8>,
    /// The whole input that was supplied at start, if any.
    pub stdin: Option<Vec<u8>>,
    pub debug_messages: Vec<String>,
}

impl Program {
    /// Engine and editor well formed, one position per instruction.
    pub open spec fn wf(&self) -> bool {
        &&& self.engine@.wf()
        &&& self.editor.wf()
        &&& self.instruction_positions@.len() == self.engine.instructions@.len()
    }

    /// What a reported outcome does to the log and the mode: an error's
    /// message is logged; a request for input opens input mode on the
    /// remaining input; anything else leaves both as they were.
    pub open spec fn routed(&self, old: &Program, o: Outcome) -> bool {
        &&& o matches Outcome::Failed(m) ==> message_views(self.debug_messages@) == logged(
            message_views(old.debug_messages@),
            m,
        )
        &&& !(o is Failed) ==> self.debug_messages@ == old.debug_messages@
        &&& o == Outcome::NeedsInput ==> self.mode == Mode::Input && self.input_buffer@
            == self.engine.input@
        &&& o != Outcome::NeedsInput ==> self.mode == old.mode && self.input_buffer@
            == old.input_buffer@
    }

    /// The machine a reset starts from, before priming: fresh, with the
    /// instructions kept and the input supplied at start queued.
    pub open spec fn restarted(&self) -> EngineState {
        EngineState {
            input: match self.stdin {
                Some(s) => s@,
                None => seq![],
            },
            ..fresh_state(self.engine@.instructions)
        }
    }

    pub fn new() -> (r: Program)
        ensures
            r.wf(),
            r.engine@ == fresh_state(seq![]),
            r.editor.lines@.len() == 1,
            r.editor.lines@[0]@.len() == 0,
            r.editor.cursor == (0usize, 0usize),
            r.editor.selection is None,
            r.editor.clipboard is None,
            r.editor.filepath is None,
            !r.editor.dirty,
            r.instruction_positions@.len() == 0,
            r.mode == Mode::Interactive,
            r.input_buffer@.len() == 0,
            r.stdin is None,
            r.debug_messages@.len() == 0,
    {
        Program {
            engine: Engine::new(vec![]),
            editor: Editor::new(),
            instruction_positions: vec![],
            mode: Mode::Interactive,
            input_buffer: vec![],
            stdin: None,
            debug_messages: vec![],
        }
    }

    /// An empty program, primed; with nothing to run, the priming step
    /// logs that there are no instructions.
    pub fn blank() -> (r: Program)
        ensures
            r.wf(),
            r.engine@ == fresh_state(seq![]),
            r.editor.lines@.len() == 1,
            r.editor.lines@[0]@.len() == 0,
            r.editor.cursor == (0usize, 0usize),
            r.editor.selection is None,
            r.editor.clipboard is None,
            r.editor.filepath is None,
            !r.editor.dirty,
            r.instruction_positions@.len() == 0,
            r.mode == Mode::Interactive,
            r.input_buffer@.len() == 0,
            r.stdin is None,
            message_views(r.debug_messages@) == seq!["no instructions"@],
    {
        let mut program = Program::new();
        let _ = program.step();
        program
    }

    /// Puts `lines` in the buffer (one empty line for none) and reindexes.
    pub fn load_lines(&mut self, lines: Vec<String>)
        requires
            old(self).wf(),
        ensures
            final(self).wf(),
            lines@.len() > 0 ==> final(self).editor.lines@ == lines@,
            lines@.len() == 0 ==> final(self).editor.lines@.len() == 1
                && final(self).editor.lines@[0]@.len() == 0,
            lists_entries(
                final(self).engine.instructions@,
                final(self).instruction_positions@,
                source_entries(line_views(final(self).editor.lines@)),
            ),
            final(self).engine.instruction_pointer == clamped(
                old(self).engine.instruction_pointer,
                final(self).engine.instructions@.len() as int,
            ),
            final(self).engine@ == (EngineState {
                instructions: final(self).engine@.instructions,
                instruction_pointer: final(self).engine@.instruction_pointer,
                ..old(self).engine@
            }),
    {
        self.editor.lines = if lines.len() == 0 {
            vec![String::new()]
        } else {
            lines
        };
        self.editor.cursor = (0, 0);
        self.editor.selection = None;
        self.index_instructions();
    }

    /// Rebuilds the instruction list and the position table from the
    /// source, then fits the instruction pointer to the new list.
    pub fn index_instructions(&mut self)
        requires
            old(self).engine@.wf(),
        ensures
            lists_entries(
                final(self).engine.instructions@,
                final(self).instruction_positions@,
                source_entries(line_views(old(self).editor.lines@)),
            ),
            final(self).engine.instruction_pointer == clamped(
                old(self).engine.instruction_pointer,
                final(self).engine.instructions@.len() as int,
            ),
            final(self).engine@ == (EngineState {
                instructions: final(self).engine@.instructions,
                instruction_pointer: final(self).engine@.instruction_pointer,
                ..old(self).engine@
            }),
            final(self).engine@.wf(),
            final(self).editor == old(self).editor,
            final(self).mode == old(self).mode,
            final(self).input_buffer == old(self).input_buffer,
            final(self).stdin == old(self).stdin,
            final(self).debug_messages == old(self).debug_messages,
    {
        let ghost src = line_views(self.editor.lines@);
        let mut instructions: Vec<Instruction> = Vec::new();
        let mut positions: Vec<Position> = Vec::new();
        let n = self.editor.lines.len();
        let mut row: usize = 0;
        while row < n
            invariant
                n == self.editor.lines@.len(),
                src == line_views(self.editor.lines@),
                row <= n,
                lists_entries(instructions@, positions@, source_entries(src.take(row as int))),
            decreases n - row,
        {
            let line = self.editor.lines[row].as_str();
            let len = line.unicode_len();
            let ghost done = source_entries(src.take(row as int));
            assert(src[row as int] == line@);
            let mut col: usize = 0;
            while col < len
                invariant
                    src[row as int] == line@,
                    len == line@.len(),
                    col <= len,
                    row < n,
                    n == self.editor.lines@.len(),
                    done == source_entries(src.take(row as int)),
                    lists_entries(
                        instructions@,
                        positions@,
                        done + line_entries(row, line@.take(col as int)),
                    ),
                decreases len - col,
            {
                let c = line.get_char(col);
                proof {
                    assert(line@.take(col + 1).drop_last() =~= line@.take(col as int));
                }
                let ghost before = line_entries(row, line@.take(col as int));
                if let Some(instruction) = Instruction::read(c) {
                    instructions.push(instruction);
                    positions.push((row, col));
                    assert(done + before.push((instruction, (row, col))) =~= (done + before).push(
                        (instruction, (row, col)),
                    ));
                }
                col += 1;
            }
            proof {
                assert(line@.take(len as int) =~= line@);
                assert(src.take(row + 1).drop_last() =~= src.take(row as int));
            }
            row += 1;
        }
        proof {
            assert(src.take(n as int) =~= src);
        }
        let count = instructions.len();
        self.engine.instructions = instructions;
        self.instruction_positions = positions;
        if count == 0 {
            self.engine.instruction_pointer = InstructionPointer::Start;
        } else if let InstructionPointer::Index(i) = self.engine.instruction_pointer {
            if i >= count {
                self.engine.instruction_pointer = InstructionPointer::Index(count - 1);
            }
        }
    }

    /// Adds a message to the debug log.
    fn log(&mut self, message: String)
        ensures
            message_views(final(self).debug_messages@) == logged(
                message_views(old(self).debug_messages@),
                message@,
            ),
            final(self).engine == old(self).engine,
            final(self).editor == old(self).editor,
            final(self).instruction_positions == old(self).instruction_positions,
            final(self).mode == old(self).mode,
            final(self).input_buffer == old(self).input_buffer,
            final(self).stdin == old(self).stdin,
    {
        let ghost before = message_views(old(self).debug_messages@);
        if self.debug_messages.len() >= DEBUG_LOG_CAPACITY {
            self.debug_messages.remove(0);
            assert(message_views(self.debug_messages@) =~= before.drop_first());
        }
        let ghost kept = message_views(self.debug_messages@);
        self.debug_messages.push(message);
        assert(message_views(self.debug_messages@) =~= kept.push(message@));
    }

    /// One engine step: an error goes to the debug log; a request for
    /// input switches to input mode; a breakpoint is only passed on.
    pub fn step(&mut self) -> (r: EngineResult)
        requires
            old(self).wf(),
        ensures
            final(self).wf(),
            (final(self).engine@, outcome(r)) == old(self).engine@.stepped(),
            final(self).routed(old(self), outcome(r)),
            final(self).editor == old(self).editor,
            final(self).instruction_positions == old(self).instruction_positions,
            final(self).stdin == old(self).stdin,
    {
        let r = self.engine.step();
        match &r {
            Err(Exception::Error(message)) => self.log(message.clone()),
            Err(Exception::RequestingInput) => self.enter_input_mode(),
            _ => {},
        }
        r
    }

    /// One engine undo; an error goes to the debug log.
    pub fn undo(&mut self) -> (r: EngineResult)
        requires
            old(self).wf(),
        ensures
            final(self).wf(),
            (final(self).engine@, outcome(r)) == old(self).engine@.undone(),
            outcome(r) != Outcome::NeedsInput,
            final(self).routed(old(self), outcome(r)),
            final(self).editor == old(self).editor,
            final(self).instruction_positions == old(self).instruction_positions,
            final(self).stdin == old(self).stdin,
    {
        let r = self.engine.undo();
        proof {
            assert(outcome(r) != Outcome::NeedsInput);
        }
        if let Err(Exception::Error(message)) = &r {
            self.log(message.clone());
        }
        r
    }

    /// Undoes until an undo reports anything but success: the machine is
    /// then `n + 1` undos back, where the first `n` succeeded.
    pub fn undo_until_exception(&mut self)
        requires
            old(self).wf(),
        ensures
            final(self).wf(),
            exists|n: nat|
                #[trigger] undo_run(old(self).engine@, n, final(self).engine@)
                    && final(self).routed(old(self), undos(old(self).engine@, n).undone().1),
            final(self).mode == old(self).mode,
            final(self).editor == old(self).editor,
            final(self).instruction_positions == old(self).instruction_positions,
    {
        let ghost start = self.engine@;
        let ghost mut n: nat = 0;
        loop
            invariant
                self.wf(),
                self.engine@ == undos(start, n),
                start == old(self).engine@,
                forall|k: nat| k < n ==> (#[trigger] undos(start, k)).undone().1 == Outcome::Done,
                self.mode == old(self).mode,
                self.input_buffer@ == old(self).input_buffer@,
                self.debug_messages@ == old(self).debug_messages@,
                self.editor == old(self).editor,
                self.instruction_positions == old(self).instruction_positions,
                self.stdin == old(self).stdin,
            decreases self.engine.history@.len(),
        {
            let r = self.undo();
            proof {
                lemma_undos_last(start, n);
            }
            if r.is_err() {
                assert(undos(start, n).undone().1 != Outcome::Done);
                assert(self.engine@ == undos(start, n + 1));
                assert(undo_run(start, n, self.engine@));
                assert(start == old(self).engine@);
                return ;
            }
            proof {
                n = n + 1;
            }
        }
    }

    /// Starts over: a fresh machine with the instructions kept and the
    /// input supplied at start restored, primed by one step.
    pub fn reset(&mut self)
        requires
            old(self).wf(),
        ensures
            final(self).wf(),
            final(self).engine@ == old(self).restarted().stepped().0,
            final(self).routed(old(self), old(self).restarted().stepped().1),
            old(self).engine.instructions@.len() == 0 ==> message_views(final(self).debug_messages@)
                == logged(message_views(old(self).debug_messages@), "no instructions"@),
            old(self).engine.instructions@.len() > 0 ==> final(self).debug_messages@
                == old(self).debug_messages@,
            final(self).mode == old(self).mode,
            final(self).editor == old(self).editor,
            final(self).instruction_positions == old(self).instruction_positions,
            final(self).stdin == old(self).stdin,
    {
        self.engine.reset();
        if let Some(stdin) = &self.stdin {
            self.engine.input = stdin.clone();
        }
        assert(self.engine.input@ == match old(self).stdin {
            Some(s) => s@,
            None => Seq::<u8>::empty(),
        });
        let _ = self.step();
    }

    pub fn is_interactive_mode(&self) -> (r: bool)
        ensures
            r == (self.mode == Mode::Interactive),
    {
        self.mode == Mode::Interactive
    }

    pub fn is_editor_mode(&self) -> (r: bool)
        ensures
            r == (self.mode == Mode::Editor),
    {
        self.mode == Mode::Editor
    }

    pub fn is_input_mode(&self) -> (r: bool)
        ensures
            r == (self.mode == Mode::Input),
    {
        self.mode == Mode::Input
    }

    /// Records the input supplied at start, if any, and queues it for the
    /// machine.
    pub fn supply_stdin(&mut self, stdin: Option<Vec<u8>>)
        ensures
            final(self).stdin == stdin,
            stdin matches Some(s) ==> final(self).engine@ == (EngineState {
                input: s@,
                ..old(self).engine@
            }),
            stdin is None ==> final(self).engine == old(self).engine,
            final(self).editor == old(self).editor,
            final(self).instruction_positions == old(self).instruction_positions,
            final(self).mode == old(self).mode,
    {
        if let Some(s) = &stdin {
            self.engine.input = s.clone();
        }
        self.stdin = stdin;
    }

    /// Input mode: the remaining input becomes editable.
    pub fn enter_input_mode(&mut self)
        ensures
            final(self).mode == Mode::Input,
            final(self).input_buffer@ == old(self).engine.input@,
            final(self).engine == old(self).engine,
            final(self).editor == old(self).editor,
            final(self).instruction_positions == old(self).instruction_positions,
            final(self).stdin == old(self).stdin,
            final(self).debug_messages == old(self).debug_messages,
    {
        self.mode = Mode::Input;
        self.input_buffer = self.engine.input.clone();
    }

    /// Leaves input mode; with `commit` the edited input replaces the
    /// machine's input queue, without it the machine is untouched.
    pub fn exit_input_mode(&mut self, commit: bool)
        ensures
            final(self).mode == Mode::Interactive,
            final(self).input_buffer@.len() == 0,
            commit ==> final(self).engine@ == (EngineState {
                input: old(self).input_buffer@,
                ..old(self).engine@
            }),
            !commit ==> final(self).engine == old(self).engine,
            final(self).editor == old(self).editor,
            final(self).instruction_positions == old(self).instruction_positions,
            final(self).stdin == old(self).stdin,
            final(self).debug_messages == old(self).debug_messages,
    {
        self.mode = Mode::Interactive;
        if commit {
            self.engine.input = self.input_buffer.clone();
        }
        self.input_buffer = vec![];
    }

    /// Types a character into the input being edited; only ASCII is kept.
    pub fn add_input(&mut self, c: char)
        ensures
            (c as u32) < 128 ==> final(self).input_buffer@ == old(self).input_buffer@.push(
                c as u8,
            ),
            (c as u32) >= 128 ==> final(self).input_buffer == old(self).input_buffer,
            final(self).engine == old(self).engine,
            final(self).mode == old(self).mode,
    {
        if (c as u32) < 128 {
            self.input_buffer.push(c as u8);
        }
    }

    /// Where in the source the current instruction was read; `None` at a
    /// sentinel.
    pub fn cursor(&self) -> (r: Option<Position>)
        requires
            self.wf(),
        ensures
            self.engine.instruction_pointer matches InstructionPointer::Index(i) ==> r == Some(
                self.instruction_positions@[i as int],
            ),
            !(self.engine.instruction_pointer is Index) ==> r is None,
    {
        match self.engine.instruction_pointer {
            InstructionPointer::Index(i) => Some(self.instruction_positions[i]),
            _ => None,
        }
    }
}

} // verus!
