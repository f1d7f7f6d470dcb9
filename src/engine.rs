//! The reversible tape machine: every executed instruction can be undone.

use vstd::prelude::*;
use crate::instruction::{Instruction, match_of};

verus! {

/// Why a step or an undo did not simply succeed.
#[derive(Debug, PartialEq, Eq)]
pub enum Exception {
    /// A recoverable failure, with a description.
    Error(String),
    /// The machine needs more input bytes before it can go on.
    RequestingInput,
    /// A breakpoint was passed; the instruction still counts as executed.
    Breakpoint,
}

pub type EngineResult = Result<(), Exception>;

/// A result as a mathematical value: an error carries the characters of
/// its message.
pub enum Outcome {
    Done,
    Failed(Seq<char>),
    NeedsInput,
    Halted,
}

pub open spec fn outcome(r: EngineResult) -> Outcome {
    match r {
        Ok(_) => Outcome::Done,
        Err(Exception::Error(m)) => Outcome::Failed(m@),
        Err(Exception::RequestingInput) => Outcome::NeedsInput,
        Err(Exception::Breakpoint) => Outcome::Halted,
    }
}

impl Exception {
    pub fn error(message: &str) -> (r: Exception)
        ensures
            r matches Exception::Error(m) && m@ == message@,
    {
        Exception::Error(String::from_str(message))
    }

    pub fn result<T>(self) -> (r: Result<T, Exception>)
        ensures
            r == Err::<T, Exception>(self),
    {
        Err(self)
    }
}

/// Where execution stands: before the first instruction, after the last,
/// or at an instruction.
#[derive(Clone, Copy, Debug, PartialEq, Eq, Structural)]
pub enum InstructionPointer {
    Start,
    End,
    Index(usize),
}

/// The pointer makes sense for a list of `n` instructions.
pub open spec fn pointer_fits(ip: InstructionPointer, n: int) -> bool {
    match ip {
        InstructionPointer::Start => true,
        InstructionPointer::End => n > 0,
        InstructionPointer::Index(i) => i < n,
    }
}

/// The pointer one instruction further on, in a list of `n`; `None` past
/// the end, or into an empty list.
pub open spec fn advanced(ip: InstructionPointer, n: int) -> Option<InstructionPointer> {
    match ip {
        InstructionPointer::End => None,
        InstructionPointer::Start => if n == 0 {
            None
        } else {
            Some(InstructionPointer::Index(0))
        },
        InstructionPointer::Index(i) => if i + 1 == n {
            Some(InstructionPointer::End)
        } else {
            Some(InstructionPointer::Index((i + 1) as usize))
        },
    }
}

/// The pointer one instruction back, in a list of `n`; `None` before the
/// start.
pub open spec fn retreated(ip: InstructionPointer, n: int) -> Option<InstructionPointer> {
    match ip {
        InstructionPointer::Start => None,
        InstructionPointer::End => Some(InstructionPointer::Index((n - 1) as usize)),
        InstructionPointer::Index(i) => if i == 0 {
            Some(InstructionPointer::Start)
        } else {
            Some(InstructionPointer::Index((i - 1) as usize))
        },
    }
}

/// The error for a move left of the first cell.
pub open spec fn first_cell_message() -> Seq<char> {
    "can't move the tape pointer: already at the first cell"@
}

/// The machine as a mathematical value.
pub struct EngineState {
    pub tape: Seq<u8>,
    pub tape_pointer: int,
    pub instructions: Seq<Instruction>,
    pub instruction_pointer: InstructionPointer,
    pub history: Seq<Instruction>,
    pub output: Seq<u8>,
    pub input: Seq<u8>,
    pub input_cell_history: Seq<u8>,
}

/// A machine with one zero cell, positioned before `instructions`.
pub open spec fn fresh_state(instructions: Seq<Instruction>) -> EngineState {
    EngineState {
        tape: seq![0u8],
        tape_pointer: 0,
        instructions,
        instruction_pointer: InstructionPointer::Start,
        history: seq![],
        output: seq![],
        input: seq![],
        input_cell_history: seq![],
    }
}

impl EngineState {
    /// The tape pointer addresses a cell and the instruction pointer fits
    /// the instruction list.
    pub open spec fn wf(self) -> bool {
        &&& 0 <= self.tape_pointer < self.tape.len()
        &&& self.instructions.len() <= usize::MAX
        &&& pointer_fits(self.instruction_pointer, self.instructions.len() as int)
    }

    pub open spec fn cell(self) -> u8 {
        self.tape[self.tape_pointer]
    }

    pub open spec fn current(self) -> Option<Instruction> {
        match self.instruction_pointer {
            InstructionPointer::Index(i) => Some(self.instructions[i as int]),
            _ => None,
        }
    }

    pub open spec fn with_cell(self, v: u8) -> EngineState {
        EngineState { tape: self.tape.update(self.tape_pointer, v), ..self }
    }

    pub open spec fn with_pointer(self, ip: InstructionPointer) -> EngineState {
        EngineState { instruction_pointer: ip, ..self }
    }

    /// One cell to the right; the tape grows by a zero cell when that cell
    /// is new.
    pub open spec fn moved_right(self) -> EngineState {
        EngineState {
            tape_pointer: self.tape_pointer + 1,
            tape: if self.tape_pointer + 1 == self.tape.len() {
                self.tape.push(0)
            } else {
                self.tape
            },
            ..self
        }
    }

    pub open spec fn moved_left(self) -> EngineState {
        EngineState { tape_pointer: self.tape_pointer - 1, ..self }
    }

    /// One instruction further on; past the end, or into an empty list, an
    /// error that says so.
    pub open spec fn go_next(self) -> (EngineState, Outcome) {
        match advanced(self.instruction_pointer, self.instructions.len() as int) {
            Some(ip) => (self.with_pointer(ip), Outcome::Done),
            None => if self.instruction_pointer == InstructionPointer::End {
                (self, Outcome::Failed("already at the end of the instruction list"@))
            } else {
                (self, Outcome::Failed("no instructions"@))
            },
        }
    }

    /// One instruction back; before the start, an error that says so.
    pub open spec fn go_prev(self) -> (EngineState, Outcome) {
        match retreated(self.instruction_pointer, self.instructions.len() as int) {
            Some(ip) => (self.with_pointer(ip), Outcome::Done),
            None => (self, Outcome::Failed("already at the start of the instruction list"@)),
        }
    }

    /// A jump from the bracket under the pointer to its match.
    pub open spec fn go_matching(self) -> (EngineState, Outcome) {
        match self.instruction_pointer {
            InstructionPointer::Index(i) => match match_of(self.instructions, i as int) {
                Some(k) => (self.with_pointer(InstructionPointer::Index(k as usize)), Outcome::Done),
                None => (self, Outcome::Failed("no matching jump"@)),
            },
            _ => (self, Outcome::Failed("no matching jump"@)),
        }
    }

    /// The forward behaviour of an instruction.
    pub open spec fn executed(self, instruction: Instruction) -> (EngineState, Outcome) {
        match instruction {
            Instruction::IncrementPointer => self.moved_right().go_next(),
            Instruction::DecrementPointer => if self.tape_pointer == 0 {
                (self, Outcome::Failed(first_cell_message()))
            } else {
                self.moved_left().go_next()
            },
            Instruction::Increment => self.with_cell(self.cell().wrapping_add(1)).go_next(),
            Instruction::Decrement => self.with_cell(self.cell().wrapping_sub(1)).go_next(),
            Instruction::Output => EngineState {
                output: self.output.push(self.cell()),
                ..self
            }.go_next(),
            Instruction::Input => if self.input.len() == 0 {
                (self, Outcome::NeedsInput)
            } else {
                EngineState {
                    input: self.input.drop_first(),
                    input_cell_history: self.input_cell_history.push(self.cell()),
                    ..self.with_cell(self.input[0])
                }.go_next()
            },
            Instruction::JumpForward => if self.cell() == 0 {
                self.go_matching()
            } else {
                self.go_next()
            },
            Instruction::JumpBackward => if self.cell() == 0 {
                self.go_next()
            } else {
                self.go_matching()
            },
            Instruction::Breakpoint => (self.go_next().0, Outcome::Halted),
        }
    }

    /// The inverse behaviour of an instruction.
    pub open spec fn unexecuted(self, instruction: Instruction) -> (EngineState, Outcome) {
        match instruction {
            Instruction::IncrementPointer => if self.tape_pointer == 0 {
                (self, Outcome::Failed(first_cell_message()))
            } else {
                self.moved_left().go_prev()
            },
            Instruction::DecrementPointer => self.moved_right().go_prev(),
            Instruction::Increment => self.with_cell(self.cell().wrapping_sub(1)).go_prev(),
            Instruction::Decrement => self.with_cell(self.cell().wrapping_add(1)).go_prev(),
            Instruction::Output => EngineState {
                output: if self.output.len() == 0 {
                    self.output
                } else {
                    self.output.drop_last()
                },
                ..self
            }.go_prev(),
            Instruction::Input => if self.input_cell_history.len() == 0 {
                (self, Outcome::Failed("no input to undo"@))
            } else {
                EngineState {
                    input: seq![self.cell()] + self.input,
                    input_cell_history: self.input_cell_history.drop_last(),
                    ..self.with_cell(self.input_cell_history.last())
                }.go_prev()
            },
            Instruction::JumpForward => if self.cell() == 0 {
                self.go_matching()
            } else {
                self.go_prev()
            },
            Instruction::JumpBackward => if self.cell() == 0 {
                self.go_prev()
            } else {
                self.go_matching()
            },
            Instruction::Breakpoint => (self.go_prev().0, Outcome::Halted),
        }
    }

    /// One step: the current instruction runs, and enters the history when
    /// it succeeds or hits a breakpoint; at a sentinel the pointer only
    /// advances.
    pub open spec fn stepped(self) -> (EngineState, Outcome) {
        match self.current() {
            Some(instruction) => {
                let (t, o) = self.executed(instruction);
                if o == Outcome::Done || o == Outcome::Halted {
                    (EngineState { history: t.history.push(instruction), ..t }, o)
                } else {
                    (t, o)
                }
            },
            None => self.go_next(),
        }
    }

    /// One undo: the last instruction of the history leaves it and its
    /// inverse runs.
    pub open spec fn undone(self) -> (EngineState, Outcome) {
        if self.history.len() == 0 {
            (self, Outcome::Failed("no previous instruction to undo"@))
        } else {
            EngineState { history: self.history.drop_last(), ..self }.unexecuted(
                self.history.last(),
            )
        }
    }
}

/// The reversible machine.
#[derive(Debug, PartialEq, Eq)]
pub struct Engine {
    pub tape: Vec<u8>,
    pub tape_pointer: usize,
    pub instructions: Vec<Instruction>,
    pub instruction_pointer: InstructionPointer,
    pub history: Vec<Instruction>,
    pub output: Vec<u8>,
    pub input: Vec<u8>,
    pub input_cell_history: Vec<u8>,
}

impl View for Engine {
    type V = EngineState;

    open spec fn view(&self) -> EngineState {
        EngineState {
            tape: self.tape@,
            tape_pointer: self.tape_pointer as int,
            instructions: self.instructions@,
            instruction_pointer: self.instruction_pointer,
            history: self.history@,
            output: self.output@,
            input: self.input@,
            input_cell_history: self.input_cell_history@,
        }
    }
}

impl Engine {
    pub fn new(instructions: Vec<Instruction>) -> (r: Engine)
        ensures
            r@ == fresh_state(instructions@),
            r@.wf(),
    {
        let r = Engine {
            tape: vec![0],
            tape_pointer: 0,
            instructions,
            instruction_pointer: InstructionPointer::Start,
            history: vec![],
            output: vec![],
            input: vec![],
            input_cell_history: vec![],
        };
        assert(r@.tape =~= seq![0u8]);
        assert(r.instructions@.len() == r.instructions.len());
        r
    }

    pub fn load_instructions(&mut self, instructions: Vec<Instruction>)
        requires
            pointer_fits(old(self).instruction_pointer, instructions@.len() as int),
        ensures
            final(self)@ == (EngineState { instructions: instructions@, ..old(self)@ }),
    {
        self.instructions = instructions;
    }

    pub fn execute(&mut self, instruction: Instruction) -> (r: EngineResult)
        requires
            old(self)@.wf(),
        ensures
            (final(self)@, outcome(r)) == old(self)@.executed(instruction),
            final(self)@.wf(),
    {
        match instruction {
            Instruction::IncrementPointer => {
                self.next_cell();
                self.next_instruction()
            },
            Instruction::DecrementPointer => {
                if self.tape_pointer == 0 {
                    return self.prev_cell();
                }
                self.prev_cell();
                self.next_instruction()
            },
            Instruction::Increment => {
                self.map_cell(|cell: u8| -> (r: u8) ensures r == cell.wrapping_add(1) { cell.wrapping_add(1) });
                self.next_instruction()
            },
            Instruction::Decrement => {
                self.map_cell(|cell: u8| -> (r: u8) ensures r == cell.wrapping_sub(1) { cell.wrapping_sub(1) });
                self.next_instruction()
            },
            Instruction::Output => {
                let cell = self.cell();
                self.output.push(cell);
                self.next_instruction()
            },
            Instruction::Input => match self.pop_input() {
                None => Exception::RequestingInput.result(),
                Some(input) => {
                    let cell = self.cell();
                    self.set_cell(input);
                    self.input_cell_history.push(cell);
                    self.next_instruction()
                },
            },
            Instruction::JumpForward => if self.cell() == 0 {
                self.goto_matching_jump()
            } else {
                self.next_instruction()
            },
            Instruction::JumpBackward => if self.cell() == 0 {
                self.next_instruction()
            } else {
                self.goto_matching_jump()
            },
            Instruction::Breakpoint => {
                let _ = self.next_instruction();
                Exception::Breakpoint.result()
            },
        }
    }

    pub fn unexecute(&mut self, instruction: Instruction) -> (r: EngineResult)
        requires
            old(self)@.wf(),
        ensures
            (final(self)@, outcome(r)) == old(self)@.unexecuted(instruction),
            final(self)@.wf(),
    {
        match instruction {
            Instruction::IncrementPointer => {
                if self.tape_pointer == 0 {
                    return self.prev_cell();
                }
                self.prev_cell();
                self.prev_instruction()
            },
            Instruction::DecrementPointer => {
                self.next_cell();
                self.prev_instruction()
            },
            Instruction::Increment => {
                self.map_cell(|cell: u8| -> (r: u8) ensures r == cell.wrapping_sub(1) { cell.wrapping_sub(1) });
                self.prev_instruction()
            },
            Instruction::Decrement => {
                self.map_cell(|cell: u8| -> (r: u8) ensures r == cell.wrapping_add(1) { cell.wrapping_add(1) });
                self.prev_instruction()
            },
            Instruction::Output => {
                self.output.pop();
                self.prev_instruction()
            },
            Instruction::Input => match self.input_cell_history.pop() {
                None => Exception::error("no input to undo").result(),
                Some(cell) => {
                    let input = self.cell();
                    self.set_cell(cell);
                    self.push_input(input);
                    self.prev_instruction()
                },
            },
            Instruction::JumpForward => if self.cell() == 0 {
                self.goto_matching_jump()
            } else {
                self.prev_instruction()
            },
            Instruction::JumpBackward => if self.cell() == 0 {
                self.prev_instruction()
            } else {
                self.goto_matching_jump()
            },
            Instruction::Breakpoint => {
                let _ = self.prev_instruction();
                Exception::Breakpoint.result()
            },
        }
    }

    /// Runs the current instruction and records it in the history when it
    /// succeeds or stops at a breakpoint. At a sentinel the pointer only
    /// advances, which is how a freshly loaded program is primed.
    pub fn step(&mut self) -> (r: EngineResult)
        requires
            old(self)@.wf(),
        ensures
            (final(self)@, outcome(r)) == old(self)@.stepped(),
            final(self)@.wf(),
    {
        match self.current_instruction() {
            Some(instruction) => {
                let r = self.execute(instruction);
                match &r {
                    Ok(()) => self.history.push(instruction),
                    Err(Exception::Breakpoint) => self.history.push(instruction),
                    _ => {},
                }
                r
            },
            None => self.next_instruction(),
        }
    }

    /// Takes the last instruction off the history and runs its inverse.
    pub fn undo(&mut self) -> (r: EngineResult)
        requires
            old(self)@.wf(),
        ensures
            (final(self)@, outcome(r)) == old(self)@.undone(),
            final(self)@.wf(),
    {
        match self.history.pop() {
            None => Exception::error("no previous instruction to undo").result(),
            Some(instruction) => self.unexecute(instruction),
        }
    }

    pub fn goto(&mut self, instruction_index: usize) -> (r: EngineResult)
        ensures
            instruction_index < old(self).instructions.len() ==> r is Ok && final(self)@
                == old(self)@.with_pointer(InstructionPointer::Index(instruction_index)),
            instruction_index >= old(self).instructions.len() ==> outcome(r) == Outcome::Failed(
                "no instruction at that position"@,
            ) && final(self)@ == old(self)@,
    {
        if instruction_index < self.instructions.len() {
            self.instruction_pointer = InstructionPointer::Index(instruction_index);
            Ok(())
        } else {
            Exception::error("no instruction at that position").result()
        }
    }

    /// Back to one zero cell, before the first instruction, with empty
    /// history and buffers; the instructions stay.
    pub fn reset(&mut self)
        ensures
            final(self)@ == fresh_state(old(self)@.instructions),
    {
        self.tape = vec![0];
        self.tape_pointer = 0;
        self.instruction_pointer = InstructionPointer::Start;
        self.history = vec![];
        self.output = vec![];
        self.input = vec![];
        self.input_cell_history = vec![];
        assert(self@.tape =~= seq![0u8]);
        assert(self@ =~= fresh_state(old(self)@.instructions));
    }

    pub fn current_instruction(&self) -> (r: Option<Instruction>)
        requires
            self@.wf(),
        ensures
            r == self@.current(),
    {
        match self.instruction_pointer {
            InstructionPointer::Start => None,
            InstructionPointer::End => None,
            InstructionPointer::Index(i) => Some(self.instructions[i]),
        }
    }

    pub fn next_instruction(&mut self) -> (r: EngineResult)
        requires
            old(self)@.wf(),
        ensures
            (final(self)@, outcome(r)) == old(self)@.go_next(),
            final(self)@.wf(),
    {
        match self.instruction_pointer {
            InstructionPointer::End => {
                Exception::error("already at the end of the instruction list").result()
            },
            InstructionPointer::Start => {
                if self.instructions.len() == 0 {
                    Exception::error("no instructions").result()
                } else {
                    self.instruction_pointer = InstructionPointer::Index(0);
                    Ok(())
                }
            },
            InstructionPointer::Index(i) => {
                if i + 1 == self.instructions.len() {
                    self.instruction_pointer = InstructionPointer::End;
                } else {
                    self.instruction_pointer = InstructionPointer::Index(i + 1);
                }
                Ok(())
            },
        }
    }

    pub fn prev_instruction(&mut self) -> (r: EngineResult)
        requires
            old(self)@.wf(),
        ensures
            (final(self)@, outcome(r)) == old(self)@.go_prev(),
            final(self)@.wf(),
    {
        match self.instruction_pointer {
            InstructionPointer::Start => {
                Exception::error("already at the start of the instruction list").result()
            },
            InstructionPointer::End => {
                self.instruction_pointer = InstructionPointer::Index(self.instructions.len() - 1);
                Ok(())
            },
            InstructionPointer::Index(i) => {
                if i == 0 {
                    self.instruction_pointer = InstructionPointer::Start;
                } else {
                    self.instruction_pointer = InstructionPointer::Index(i - 1);
                }
                Ok(())
            },
        }
    }

    /// Moves from the bracket under the pointer to its match.
    pub fn goto_matching_jump(&mut self) -> (r: EngineResult)
        requires
            old(self)@.wf(),
        ensures
            (final(self)@, outcome(r)) == old(self)@.go_matching(),
            final(self)@.wf(),
    {
        let start = match self.instruction_pointer {
            InstructionPointer::Index(i) => i,
            _ => return Exception::error("no matching jump").result(),
        };
        match Instruction::matching_jump(start, self.instructions.as_slice()) {
            Some(k) => {
                proof {
                    crate::instruction::lemma_match_in_bounds(self.instructions@, start as int);
                }
                self.goto(k)
            },
            None => Exception::error("no matching jump").result(),
        }
    }

    pub fn next_cell(&mut self) -> (r: EngineResult)
        requires
            old(self)@.wf(),
        ensures
            final(self)@ == old(self)@.moved_right(),
            r is Ok,
            final(self)@.wf(),
    {
        let len = self.tape.len();
        self.tape_pointer += 1;
        if self.tape_pointer == len {
            self.tape.push(0);
        }
        Ok(())
    }

    pub fn prev_cell(&mut self) -> (r: EngineResult)
        requires
            old(self)@.wf(),
        ensures
            old(self).tape_pointer == 0 ==> final(self)@ == old(self)@ && outcome(r)
                == Outcome::Failed(first_cell_message()),
            old(self).tape_pointer != 0 ==> final(self)@ == old(self)@.moved_left() && r is Ok,
            final(self)@.wf(),
    {
        if self.tape_pointer != 0 {
            self.tape_pointer -= 1;
            Ok(())
        } else {
            Exception::error("can't move the tape pointer: already at the first cell").result()
        }
    }

    pub fn cell(&self) -> (r: u8)
        requires
            self@.wf(),
        ensures
            r == self@.cell(),
    {
        self.tape[self.tape_pointer]
    }

    pub fn set_cell(&mut self, value: u8)
        requires
            old(self)@.wf(),
        ensures
            final(self)@ == old(self)@.with_cell(value),
    {
        self.tape.set(self.tape_pointer, value);
    }

    /// Replaces the current cell by `f` of it.
    pub fn map_cell<F: Fn(u8) -> u8>(&mut self, f: F)
        requires
            old(self)@.wf(),
            f.requires((old(self)@.cell(),)),
        ensures
            f.ensures((old(self)@.cell(),), final(self)@.cell()),
            final(self)@ == old(self)@.with_cell(final(self)@.cell()),
    {
        let value = self.cell();
        let mapped = f(value);
        self.set_cell(mapped);
    }

    /// Takes the front byte off the input queue.
    pub fn pop_input(&mut self) -> (r: Option<u8>)
        ensures
            old(self).input@.len() == 0 ==> r is None && final(self)@ == old(self)@,
            old(self).input@.len() > 0 ==> r == Some(old(self).input@[0]) && final(self)@ == (
            EngineState { input: old(self).input@.drop_first(), ..old(self)@ }),
    {
        if self.input.len() == 0 {
            None
        } else {
            Some(self.input.remove(0))
        }
    }

    /// Puts a byte back at the front of the input queue.
    pub fn push_input(&mut self, head: u8)
        ensures
            final(self)@ == (EngineState { input: seq![head] + old(self).input@, ..old(self)@ }),
    {
        self.input.insert(0, head);
        assert(self.input@ =~= seq![head] + old(self).input@);
    }

    /// Puts the bytes of `buffered` in front of the input queue and empties
    /// `buffered`.
    pub fn input(&mut self, buffered: &mut Vec<u8>)
        ensures
            final(self)@ == (EngineState { input: old(buffered)@ + old(self).input@, ..old(self)@ }),
            final(buffered)@.len() == 0,
    {
        let mut input: Vec<u8> = Vec::new();
        input.append(buffered);
        input.append(&mut self.input);
        self.input = input;
    }
}

} // verus!
