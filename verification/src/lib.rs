//! Embedded terminal emulation and shell-execution core.
//!
//! Raw bytes (from a transport or an in-process command evaluator) run through
//! an escape-sequence interpreter that mutates a terminal grid; keyboard input
//! is accumulated in a line buffer and handed to an evaluator by a
//! coordinator state machine.  Small service helpers (proof-of-work checks,
//! daemon path selection) round out the crate.

pub mod color;
pub mod coordinator;
pub mod grid;
pub mod line_buffer;
pub mod mining;
pub mod parser;
pub mod services;
pub mod style;
pub mod term;
