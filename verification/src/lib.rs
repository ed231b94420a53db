//! Evaluation of batches of small arithmetic statements given as text.
//!
//! A batch is a comma-separated list of statements, each of the form
//! `<operand> <operator> <operand>`, such as `3 + 4, 10 / 2`. Every
//! statement is evaluated on its own: a malformed one yields diagnostics
//! and fields that are marked as missing, never a failure of the whole
//! batch.
//!
//! Whole numbers are computed here, in signed 64-bit arithmetic. A
//! statement with a fractional operand is judged here too, but its
//! arithmetic is floating-point and left to the caller: its result is
//! `Pending`, `pending_operation` says what is to be computed, and
//! `resolve` takes the text of the value. Until then the result has no
//! text: what shows it gives `None`.

pub mod arithmetic;
pub mod errs;
pub mod laws;
pub mod number;
pub mod operators;
pub mod parser;
pub mod pconsts;
pub mod render;
pub mod statement;
pub mod text;
