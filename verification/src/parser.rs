//! The parser of a batch: it splits the text into statements and evaluates
//! each of them.

use crate::arithmetic::solved;
use crate::errs::ErrorKind;
use crate::number::{
    classify,
    integer_value,
    is_float_str,
    is_float_text,
    is_integer_str,
    is_integer_text,
    is_zero_divisor_str,
    lemma_whole_is_not_fractional,
    parse_integer,
    NumericKind,
};
use crate::operators::{operator_of, Operator};
use crate::pconsts::{COMMA, SPACE, VERSION};
use crate::render::{format_integer, integer_text};
use crate::statement::{
    entity_text,
    evaluate,
    lemma_lines_end_at_pending,
    lines_text,
    statement_views,
    text_of,
    OperatorField,
    Outcome,
    ParsedStatement,
    StatementView,
};
use crate::text::{split_on, split_str, trim, trim_str, views};
use vstd::prelude::*;

verus! {

/// A batch of statements, as text.
#[derive(Clone, Copy, Debug, PartialEq, Eq)]
pub struct Parser {
    /// The statements, with commas between them.
    pub string: &'static str,
}

/// Each text of `pieces`, trimmed.
pub open spec fn trimmed(pieces: Seq<Seq<char>>) -> Seq<Seq<char>> {
    Seq::new(pieces.len(), |i: int| trim(pieces[i]))
}

/// The statements of a batch: the pieces between the commas, trimmed.
pub open spec fn problems_of(batch: Seq<char>) -> Seq<Seq<char>> {
    trimmed(split_on(batch, COMMA))
}

/// What a batch evaluates to: one result for each piece between the
/// commas, in the order of the pieces.
pub open spec fn evaluate_batch(batch: Seq<char>) -> Seq<StatementView> {
    Seq::new(problems_of(batch).len(), |i: int| evaluate(problems_of(batch)[i]))
}

impl Parser {
    /// The text of the batch.
    pub fn get_str(&self) -> (r: &str)
        ensures
            r@ == self.string@,
    {
        self.string
    }

    /// Replaces the text of the batch.
    pub fn upd_str(&mut self, new_str: &'static str)
        ensures
            final(self).string@ == new_str@,
    {
        self.string = new_str;
    }

    /// The pieces of the batch between its commas, as they stand.
    pub fn get_problems(&self) -> (r: Vec<&str>)
        ensures
            views(r@) == split_on(self.string@, COMMA),
    {
        split_str(self.string, COMMA)
    }

    /// Trims each of `problems`.
    pub fn trim_problems<'a>(&self, problems: Vec<&'a str>) -> (r: Vec<&'a str>)
        ensures
            views(r@) == trimmed(views(problems@)),
    {
        let mut out: Vec<&'a str> = Vec::new();
        let n = problems.len();
        let mut i: usize = 0;
        while i < n
            invariant
                i <= n,
                n == problems.len(),
                out.len() == i,
                forall|k: int| 0 <= k < i ==> (#[trigger] out@[k])@ == trim(problems@[k]@),
            decreases n - i,
        {
            out.push(trim_str(problems[i]));
            i += 1;
        }
        out
    }

    /// The statements of the batch: its pieces, trimmed.
    pub fn get_trimmed_problems(&self) -> (r: Vec<&str>)
        ensures
            views(r@) == problems_of(self.string@),
    {
        self.trim_problems(self.get_problems())
    }

    /// Applies the operation written `operation` to `x` and `y` in signed
    /// 64-bit arithmetic: `+`, `-`, `*`, or `/` with the quotient rounded
    /// toward zero. A result that does not fit wraps around. For every
    /// other `operation` nothing is computed and the result is 0.
    pub fn solve_problem(&self, x: i64, y: i64, operation: &str) -> (r: i64)
        requires
            operator_of(operation@) == Some(Operator::Divide) ==> y != 0,
        ensures
            r == solved(x as int, y as int, operation@),
    {
        match Operator::from_symbol(operation) {
            Some(Operator::Plus) => x.wrapping_add(y),
            Some(Operator::Minus) => x.wrapping_sub(y),
            Some(Operator::Multiply) => x.wrapping_mul(y),
            Some(Operator::Divide) => match x.checked_div(y) {
                Some(quotient) => quotient,
                None => i64::MIN,
            },
            None => 0,
        }
    }

    /// The value of a whole-number operand.
    pub fn as_integer(&self, entity: &str) -> (r: i64)
        requires
            is_integer_text(entity@),
        ensures
            r == integer_value(entity@),
    {
        match parse_integer(entity) {
            Some(value) => value,
            None => 0,
        }
    }

    /// The decimal text of an integer.
    pub fn as_string(&self, entity: i64) -> (r: String)
        ensures
            r@ == integer_text(entity as int),
    {
        format_integer(entity)
    }

    /// Whether `entity` is a whole-number operand.
    pub fn is_integer(&self, entity: &str) -> (r: bool)
        ensures
            r == is_integer_text(entity@),
    {
        is_integer_str(entity)
    }

    /// Whether `entity` is a fractional operand.
    pub fn is_float(&self, entity: &str) -> (r: bool)
        ensures
            r == is_float_text(entity@),
    {
        is_float_str(entity)
    }

    /// Evaluates one statement. Every text has a result: what is wrong
    /// with it is said in the fields and the diagnostics of the result.
    pub fn parse_entities(&self, string: &str) -> (r: ParsedStatement)
        ensures
            r@ == evaluate(string@),
    {
        let tokens = split_str(string, SPACE);
        if tokens.len() != 3 {
            return ParsedStatement::invalid();
        }
        let first: &str = tokens[0];
        let operator: &str = tokens[1];
        let second: &str = tokens[2];
        let first_kind = classify(first);
        let second_kind = classify(second);
        let known = Operator::from_symbol(operator);
        let first_valid = !matches!(first_kind, NumericKind::Invalid);
        let second_valid = !matches!(second_kind, NumericKind::Invalid);
        let mut diagnostics: Vec<ErrorKind> = Vec::new();
        if !first_valid {
            diagnostics.push(ErrorKind::NotANumber);
        }
        if !second_valid {
            diagnostics.push(ErrorKind::NotANumber);
        }
        if known.is_none() {
            diagnostics.push(ErrorKind::InvalidOperator);
        }
        let result = if first_valid && second_valid && known.is_some() {
            if matches!(known, Some(Operator::Divide)) && is_zero_divisor_str(second) {
                diagnostics.push(ErrorKind::CantCount);
                Outcome::NotANumber
            } else if matches!(first_kind, NumericKind::Float) || matches!(
                second_kind,
                NumericKind::Float,
            ) {
                proof {
                    if is_integer_text(first@) {
                        lemma_whole_is_not_fractional(first@);
                    }
                    if is_integer_text(second@) {
                        lemma_whole_is_not_fractional(second@);
                    }
                }
                Outcome::Pending
            } else {
                Outcome::Whole(
                    self.solve_problem(self.as_integer(first), self.as_integer(second), operator),
                )
            }
        } else {
            Outcome::NotANumber
        };
        let r = ParsedStatement {
            first: if first_valid {
                Some(String::from_str(first))
            } else {
                None
            },
            second: if second_valid {
                Some(String::from_str(second))
            } else {
                None
            },
            operator: match known {
                Some(operator_known) => OperatorField::Known(operator_known),
                None => OperatorField::Unknown(String::from_str(operator)),
            },
            result,
            diagnostics,
        };
        assert(r@.diagnostics =~= evaluate(string@).diagnostics);
        r
    }

    /// Evaluates the statements of the batch, in their order.
    pub fn parse_all(&self) -> (r: Vec<ParsedStatement>)
        ensures
            statement_views(r@) == evaluate_batch(self.string@),
    {
        let problems = self.get_trimmed_problems();
        let mut parsed: Vec<ParsedStatement> = Vec::new();
        let n = problems.len();
        let mut i: usize = 0;
        while i < n
            invariant
                i <= n,
                n == problems.len(),
                parsed.len() == i,
                views(problems@) == problems_of(self.string@),
                forall|k: int| 0 <= k < i ==> (#[trigger] parsed@[k])@ == evaluate(problems@[k]@),
            decreases n - i,
        {
            parsed.push(self.parse_entities(problems[i]));
            i += 1;
        }
        assert(statement_views(parsed@) =~= evaluate_batch(self.string@)) by {
            assert forall|k: int| 0 <= k < n implies problems_of(self.string@)[k]
                == problems@[k]@ by {
                assert(views(problems@)[k] == problems@[k]@);
            }
        }
        parsed
    }

    /// Evaluates `string` and gives the text of the field that `entity`
    /// names: `first`, `second`, `operator` or `result`. There is none for
    /// the result of a statement with a fractional operand, which is
    /// pending.
    pub fn get_entity(&self, string: &str, entity: &str) -> (r: Option<String>)
        ensures
            text_of(r) == entity_text(evaluate(string@), entity@),
    {
        self.parse_entities(string).entity(entity)
    }

    /// The lines that show `res`, one for each statement, in order; or
    /// `None` where a statement of `res` has a result that is pending.
    pub fn format_res(&self, res: Vec<ParsedStatement>) -> (r: Option<String>)
        ensures
            text_of(r) == lines_text(statement_views(res@)),
    {
        let mut formatted = String::new();
        let n = res.len();
        let mut i: usize = 0;
        while i < n
            invariant
                i <= n,
                n == res.len(),
                lines_text(statement_views(res@).take(i as int)) == Some(formatted@),
            decreases n - i,
        {
            let ghost shown = statement_views(res@).take(i + 1);
            assert(shown.drop_last() =~= statement_views(res@).take(i as int));
            match res[i].line() {
                Some(line) => {
                    formatted.append(line.as_str());
                },
                None => {
                    proof {
                        lemma_lines_end_at_pending(statement_views(res@), i as int);
                    }
                    return None;
                },
            }
            i += 1;
        }
        assert(statement_views(res@).take(n as int) =~= statement_views(res@));
        Some(formatted)
    }

    /// The version of the evaluator, as text.
    pub fn get_version(&self) -> (r: &'static str)
        ensures
            r@ == VERSION@,
    {
        VERSION
    }
}

} // verus!
