//! The fixed tables and markers of the evaluator.

use crate::errs::Errors;
use crate::operators::Operators;
use vstd::prelude::*;

verus! {

/// Stands for an operand or a result that is no number.
pub const NAN: &'static str = "_NaN";

/// Stands for an operator that is not known.
pub const UNKNOWN: &'static str = "_Unknown";

/// Separates the statements of a batch.
pub const COMMA: char = ',';

/// Separates the tokens of a statement.
pub const SPACE: char = ' ';

/// The decimal point.
pub const DOT: char = '.';

/// The version of the evaluator.
pub const VERSION: &'static str = "1.1";

/// The codes of the four kinds of diagnostic.
pub open spec fn standard_errors() -> Errors {
    Errors { not_a_number: 0x8, invalid_operator: 0x16, invalid_body: 0x32, cant_count: 0x64 }
}

/// The symbols of the four operators.
pub open spec fn standard_operators() -> Operators {
    Operators { plus: "+", minus: "-", multiply: "*", divide: "/" }
}

/// The codes of the four kinds of diagnostic.
pub fn parser_errors() -> (r: Errors)
    ensures
        r == standard_errors(),
{
    Errors { not_a_number: 0x8, invalid_operator: 0x16, invalid_body: 0x32, cant_count: 0x64 }
}

/// The symbols of the four operators.
pub fn parser_operators() -> (r: Operators)
    ensures
        r == standard_operators(),
{
    Operators { plus: "+", minus: "-", multiply: "*", divide: "/" }
}

} // verus!
