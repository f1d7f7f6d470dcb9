//! A reversible interpreter for a small tape language with a breakpoint
//! operator: every step can be undone exactly.

pub mod instruction;
pub mod editor;
pub mod engine;
pub mod reversal;
pub mod program;
pub mod tape_view;
