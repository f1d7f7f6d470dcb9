use tapedeck::engine::{Exception, InstructionPointer};
use tapedeck::instruction::Instruction::{Increment, JumpBackward, JumpForward};
use tapedeck::program::{Mode, Program, DEBUG_LOG_CAPACITY};

fn loaded(lines: &[&str]) -> Program {
    let mut program = Program::new();
    program.load_lines(lines.iter().map(|l| l.to_string()).collect());
    let _ = program.step();
    program
}

#[test]
fn reindexing_records_positions() {
    let program = loaded(&["a+b", "", " [x]"]);
    assert_eq!(program.engine.instructions, vec![Increment, JumpForward, JumpBackward]);
    assert_eq!(program.instruction_positions, vec![(0, 1), (2, 1), (2, 3)]);
    assert_eq!(program.cursor(), Some((0, 1)));
}

#[test]
fn cursor_is_none_at_sentinels() {
    let mut program = loaded(&["+"]);
    assert_eq!(program.step(), Ok(()));
    assert_eq!(program.engine.instruction_pointer, InstructionPointer::End);
    assert_eq!(program.cursor(), None);
}

#[test]
fn reindex_clamps_the_pointer() {
    let mut program = loaded(&["+++++"]);
    for _ in 0..4 {
        assert_eq!(program.step(), Ok(()));
    }
    assert_eq!(program.engine.instruction_pointer, InstructionPointer::Index(4));
    program.load_lines(vec!["+x+".to_string()]);
    assert_eq!(program.engine.instruction_pointer, InstructionPointer::Index(1));
    assert_eq!(program.cursor(), Some((0, 2)));
    assert_eq!(program.engine.tape, vec![4]);
    program.load_lines(vec!["no code".to_string()]);
    assert_eq!(program.engine.instruction_pointer, InstructionPointer::Start);
    assert_eq!(program.cursor(), None);
}

#[test]
fn reindex_keeps_a_pointer_that_still_fits() {
    let mut program = loaded(&["+++"]);
    assert_eq!(program.step(), Ok(()));
    program.editor.lines = vec!["++++++".to_string()];
    program.index_instructions();
    assert_eq!(program.engine.instruction_pointer, InstructionPointer::Index(1));
    assert_eq!(program.instruction_positions.len(), 6);
}

#[test]
fn zero_cell_skips_the_loop_body() {
    let mut program = loaded(&["[+.]"]);
    assert_eq!(program.engine.instruction_pointer, InstructionPointer::Index(0));
    for _ in 0..5 {
        let _ = program.step();
    }
    assert!(program.engine.output.is_empty());
    assert_eq!(program.engine.instruction_pointer, InstructionPointer::End);
    assert_eq!(program.engine.history, vec![JumpForward, JumpBackward]);
}

#[test]
fn empty_input_requests_more() {
    let mut program = loaded(&[","]);
    program.engine.tape[0] = 42;
    assert_eq!(program.step(), Err(Exception::RequestingInput));
    assert_eq!(program.engine.tape[0], 42);
    assert!(program.is_input_mode());
    assert!(program.input_buffer.is_empty());
    assert!(program.debug_messages.is_empty());
}

#[test]
fn input_mode_commit_and_discard() {
    let mut program = loaded(&[",,"]);
    assert_eq!(program.step(), Err(Exception::RequestingInput));
    program.add_input('h');
    program.add_input('é');
    program.add_input('i');
    assert_eq!(program.input_buffer, vec![b'h', b'i']);
    program.exit_input_mode(true);
    assert!(program.is_interactive_mode());
    assert_eq!(program.engine.input, vec![b'h', b'i']);
    assert!(program.input_buffer.is_empty());

    program.enter_input_mode();
    assert_eq!(program.input_buffer, vec![b'h', b'i']);
    program.add_input('!');
    program.exit_input_mode(false);
    assert_eq!(program.engine.input, vec![b'h', b'i']);

    assert_eq!(program.step(), Ok(()));
    assert_eq!(program.step(), Ok(()));
    assert_eq!(program.engine.tape, vec![b'i']);
}

#[test]
fn errors_go_to_the_debug_log() {
    let mut program = loaded(&["<"]);
    assert!(matches!(program.step(), Err(Exception::Error(_))));
    assert_eq!(program.debug_messages.len(), 1);
    assert!(matches!(program.undo(), Err(Exception::Error(_))));
    assert_eq!(program.debug_messages.len(), 2);
    assert!(program.is_interactive_mode());
}

#[test]
fn debug_log_is_bounded() {
    let mut program = loaded(&["<"]);
    for _ in 0..DEBUG_LOG_CAPACITY + 5 {
        let _ = program.step();
    }
    assert_eq!(program.debug_messages.len(), DEBUG_LOG_CAPACITY);
}

#[test]
fn blank_program_logs_the_empty_list() {
    let program = Program::blank();
    assert_eq!(program.debug_messages.len(), 1);
    assert_eq!(program.engine.instruction_pointer, InstructionPointer::Start);
    assert!(program.is_interactive_mode());
    assert!(!program.is_editor_mode());
}

#[test]
fn breakpoint_passes_without_mode_change() {
    let mut program = loaded(&["$+"]);
    assert_eq!(program.step(), Err(Exception::Breakpoint));
    assert!(program.is_interactive_mode());
    assert!(program.debug_messages.is_empty());
    assert_eq!(program.undo(), Err(Exception::Breakpoint));
    assert!(program.engine.history.is_empty());
    assert!(program.debug_messages.is_empty());
}

#[test]
fn undo_until_exception_stops_at_breakpoint_or_start() {
    let mut program = loaded(&["+$++"]);
    for _ in 0..4 {
        let _ = program.step();
    }
    assert_eq!(program.engine.tape, vec![3]);
    program.undo_until_exception();
    assert_eq!(program.engine.tape, vec![1]);
    assert_eq!(program.engine.instruction_pointer, InstructionPointer::Index(1));
    program.undo_until_exception();
    assert_eq!(program.engine.tape, vec![0]);
    assert!(program.engine.history.is_empty());
    assert_eq!(program.debug_messages.len(), 1);
}

#[test]
fn reset_restores_supplied_input() {
    let mut program = loaded(&[",."]);
    program.supply_stdin(Some(vec![5, 6]));
    assert_eq!(program.engine.input, vec![5, 6]);
    assert_eq!(program.step(), Ok(()));
    assert_eq!(program.step(), Ok(()));
    assert_eq!(program.engine.output, vec![5]);
    program.reset();
    assert_eq!(program.engine.input, vec![5, 6]);
    assert!(program.engine.output.is_empty());
    assert_eq!(program.engine.tape, vec![0]);
    assert_eq!(program.engine.instruction_pointer, InstructionPointer::Index(0));
}

#[test]
fn reset_without_supplied_input_empties_the_queue() {
    let mut program = loaded(&[","]);
    program.supply_stdin(None);
    program.engine.input = vec![1];
    program.reset();
    assert!(program.engine.input.is_empty());
    assert_eq!(program.mode, Mode::Interactive);
}

#[test]
fn empty_source_keeps_one_line() {
    let mut program = Program::new();
    program.load_lines(vec![]);
    assert_eq!(program.editor.lines, vec![String::new()]);
    assert!(program.engine.instructions.is_empty());
}

#[test]
fn logged_messages_are_the_errors() {
    let mut program = Program::blank();
    assert_eq!(program.debug_messages, vec!["no instructions".to_string()]);
    program.reset();
    assert_eq!(program.debug_messages.len(), 2);
    assert_eq!(program.debug_messages[1], "no instructions");

    let mut program = loaded(&["+"]);
    assert_eq!(program.step(), Ok(()));
    program.undo_until_exception();
    assert_eq!(program.debug_messages, vec!["no previous instruction to undo".to_string()]);
    program.reset();
    assert_eq!(program.debug_messages.len(), 1);
}
