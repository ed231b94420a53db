//! What holds of every statement and of every batch.

use crate::arithmetic::{exact_result, lemma_wrapped_in_range, wrapped};
use crate::errs::ErrorKind;
use crate::number::{
    integer_value,
    is_float_text,
    is_integer_text,
    is_number_char,
    is_number_text,
    is_zero_divisor,
    lemma_number_chars,
    lemma_whole_is_not_fractional,
    lemma_zero_divisor_of_whole,
};
use crate::operators::{lemma_symbol_of_operator, operator_of, Operator};
use crate::parser::evaluate_batch;
use crate::pconsts::{COMMA, NAN, SPACE};
use crate::render::{integer_text, lemma_integer_round_trip, lemma_integer_text_begins};
use crate::statement::{
    evaluate,
    evaluate_tokens,
    invalid_body,
    operand_diagnostics,
    operand_field,
    outcome_text,
    OperatorView,
    OutcomeView,
    ParsedStatement,
    StatementView,
};
use crate::text::{
    free_of,
    lemma_split_count,
    lemma_split_of_three,
    occurrences,
    split_on,
    trim,
};
use vstd::prelude::*;

verus! {

/// The text of a statement: two operands and an operator between them,
/// one space on either side of the operator.
pub open spec fn statement_text(first: Seq<char>, op: Seq<char>, second: Seq<char>) -> Seq<char> {
    first + seq![SPACE] + op + seq![SPACE] + second
}

/// The symbol of an operator is a token: it holds no space.
pub proof fn lemma_operator_is_a_token(operator: Operator)
    ensures
        free_of(operator.symbol(), SPACE),
{
    lemma_symbol_of_operator(operator);
}

/// A number is a token: it holds no space.
pub proof fn lemma_number_is_a_token(s: Seq<char>)
    requires
        is_number_text(s),
    ensures
        free_of(s, SPACE),
{
    lemma_number_chars(s);
    assert forall|i: int| 0 <= i < s.len() implies #[trigger] s[i] != SPACE by {
        assert(is_number_char(s[i]));
    }
}

/// Three tokens with single spaces between them are evaluated as those
/// three tokens.
pub proof fn lemma_statement_of_tokens(first: Seq<char>, op: Seq<char>, second: Seq<char>)
    requires
        free_of(first, SPACE),
        free_of(op, SPACE),
        free_of(second, SPACE),
    ensures
        split_on(statement_text(first, op, second), SPACE) == seq![first, op, second],
        evaluate(statement_text(first, op, second)) == evaluate_tokens(first, op, second),
{
    lemma_split_of_three(first, op, second, SPACE);
}

/// A statement of two whole numbers with an operator between them, which
/// does not divide by zero, has for its result what signed 64-bit
/// arithmetic makes of the two numbers. Both operands and the operator are
/// kept and nothing is reported.
pub proof fn lemma_whole_statement_is_wrapped(
    first: Seq<char>,
    operator: Operator,
    second: Seq<char>,
)
    requires
        is_integer_text(first),
        is_integer_text(second),
        operator == Operator::Divide ==> integer_value(second) != 0,
    ensures
        evaluate(statement_text(first, operator.symbol(), second)) == (StatementView {
            first: Some(first),
            second: Some(second),
            operator: OperatorView::Known(operator),
            result: OutcomeView::Whole(
                wrapped(exact_result(integer_value(first), integer_value(second), operator)),
            ),
            diagnostics: Seq::empty(),
        }),
{
    let op = operator.symbol();
    lemma_number_is_a_token(first);
    lemma_number_is_a_token(second);
    lemma_operator_is_a_token(operator);
    lemma_symbol_of_operator(operator);
    lemma_statement_of_tokens(first, op, second);
    lemma_whole_is_not_fractional(first);
    lemma_whole_is_not_fractional(second);
    lemma_zero_divisor_of_whole(second);
    let got = evaluate_tokens(first, op, second);
    assert(got.diagnostics =~= Seq::<ErrorKind>::empty());
}

/// A statement of two whole numbers with an operator between them, which
/// does not divide by zero, has for its result what the operation makes of
/// the two numbers, with the quotient of a division rounded toward zero.
///
/// This holds of the statements whose exact result fits in 64 bits; a
/// result that does not fit wraps around.
pub proof fn lemma_whole_statement_is_computed(
    first: Seq<char>,
    operator: Operator,
    second: Seq<char>,
)
    requires
        is_integer_text(first),
        is_integer_text(second),
        operator == Operator::Divide ==> integer_value(second) != 0,
        i64::MIN <= exact_result(integer_value(first), integer_value(second), operator)
            <= i64::MAX,
    ensures
        evaluate(statement_text(first, operator.symbol(), second)) == (StatementView {
            first: Some(first),
            second: Some(second),
            operator: OperatorView::Known(operator),
            result: OutcomeView::Whole(
                exact_result(integer_value(first), integer_value(second), operator),
            ),
            diagnostics: Seq::empty(),
        }),
{
    lemma_whole_statement_is_wrapped(first, operator, second);
    lemma_wrapped_in_range(exact_result(integer_value(first), integer_value(second), operator));
}

/// The statement that is written out from two signed 64-bit integers and
/// an operator, which does not divide by zero, keeps the texts of the two
/// integers and the operator, reports nothing, and has for its result
/// what the operation makes of the two integers, with the quotient of a
/// division rounded toward zero; the text of the result is the decimal
/// text of that number.
///
/// This holds of the statements whose exact result fits in 64 bits; a
/// result that does not fit wraps around.
pub proof fn lemma_whole_numbers_are_computed(first: int, operator: Operator, second: int)
    requires
        i64::MIN <= first <= i64::MAX,
        i64::MIN <= second <= i64::MAX,
        operator == Operator::Divide ==> second != 0,
        i64::MIN <= exact_result(first, second, operator) <= i64::MAX,
    ensures
        evaluate(statement_text(integer_text(first), operator.symbol(), integer_text(second)))
            == (StatementView {
            first: Some(integer_text(first)),
            second: Some(integer_text(second)),
            operator: OperatorView::Known(operator),
            result: OutcomeView::Whole(exact_result(first, second, operator)),
            diagnostics: Seq::empty(),
        }),
        outcome_text(
            evaluate(
                statement_text(integer_text(first), operator.symbol(), integer_text(second)),
            ).result,
        ) == Some(integer_text(exact_result(first, second, operator))),
{
    lemma_integer_round_trip(first);
    lemma_integer_round_trip(second);
    lemma_whole_statement_is_computed(integer_text(first), operator, integer_text(second));
}

/// A statement of two numbers of which one at least is fractional, with
/// an operator between them, which does not divide by zero, waits for its
/// floating-point value: both operands and the operator are
/// kept, nothing is reported, and the result is the text that the caller
/// then hands in.
pub proof fn lemma_fractional_statement_is_pending(
    first: Seq<char>,
    operator: Operator,
    second: Seq<char>,
    value: Seq<char>,
)
    requires
        is_number_text(first),
        is_number_text(second),
        is_float_text(first) || is_float_text(second),
        !(operator == Operator::Divide && is_zero_divisor(second)),
    ensures
        evaluate(statement_text(first, operator.symbol(), second)) == (StatementView {
            first: Some(first),
            second: Some(second),
            operator: OperatorView::Known(operator),
            result: OutcomeView::Pending,
            diagnostics: Seq::empty(),
        }),
        evaluate(statement_text(first, operator.symbol(), second)).resolve(value)
            == (StatementView {
            first: Some(first),
            second: Some(second),
            operator: OperatorView::Known(operator),
            result: OutcomeView::Fractional(value),
            diagnostics: Seq::empty(),
        }),
{
    let op = operator.symbol();
    lemma_number_is_a_token(first);
    lemma_number_is_a_token(second);
    lemma_operator_is_a_token(operator);
    lemma_symbol_of_operator(operator);
    lemma_statement_of_tokens(first, op, second);
    let got = evaluate_tokens(first, op, second);
    assert(got.diagnostics =~= Seq::<ErrorKind>::empty());
}

/// A division by a number that is zero as written, such as `0`, `0.0` or
/// `00.00`, or by a whole number of the value 0, such as `-0`, has no
/// result and reports that it cannot count, whether the dividend is whole
/// or fractional. Both operands and the operator are kept.
pub proof fn lemma_division_by_zero_cannot_count(first: Seq<char>, second: Seq<char>)
    requires
        is_number_text(first),
        is_number_text(second),
        is_zero_divisor(second),
    ensures
        evaluate(statement_text(first, Operator::Divide.symbol(), second)) == (StatementView {
            first: Some(first),
            second: Some(second),
            operator: OperatorView::Known(Operator::Divide),
            result: OutcomeView::NotANumber,
            diagnostics: seq![ErrorKind::CantCount],
        }),
{
    lemma_number_is_a_token(first);
    lemma_number_is_a_token(second);
    let op = Operator::Divide.symbol();
    lemma_operator_is_a_token(Operator::Divide);
    lemma_symbol_of_operator(Operator::Divide);
    lemma_statement_of_tokens(first, op, second);
    let got = evaluate_tokens(first, op, second);
    assert(got.diagnostics =~= seq![ErrorKind::CantCount]);
}

/// A text with fewer or more than three tokens, that is with another
/// number of spaces than two, is an invalid body: every field is missing
/// and that alone is reported.
pub proof fn lemma_wrong_token_count_is_invalid_body(statement: Seq<char>)
    requires
        split_on(statement, SPACE).len() != 3,
    ensures
        occurrences(statement, SPACE) != 2,
        evaluate(statement) == invalid_body(),
        evaluate(statement).first is None,
        evaluate(statement).second is None,
        evaluate(statement).operator is Missing,
        evaluate(statement).result is NotANumber,
        evaluate(statement).diagnostics == seq![ErrorKind::InvalidBody],
{
    lemma_split_count(statement, SPACE);
}

/// A statement whose middle token is none of the four operators reports an
/// invalid operator and has no result. Its operator field holds the token
/// as an unknown one. Both operands are still judged, each on its own.
pub proof fn lemma_unknown_operator_is_reported(first: Seq<char>, op: Seq<char>, second: Seq<char>)
    requires
        free_of(first, SPACE),
        free_of(op, SPACE),
        free_of(second, SPACE),
        operator_of(op) is None,
    ensures
        evaluate(statement_text(first, op, second)) == (StatementView {
            first: operand_field(first),
            second: operand_field(second),
            operator: OperatorView::Unknown(op),
            result: OutcomeView::NotANumber,
            diagnostics: operand_diagnostics(first) + operand_diagnostics(second)
                + seq![ErrorKind::InvalidOperator],
        }),
{
    lemma_statement_of_tokens(first, op, second);
    let got = evaluate_tokens(first, op, second);
    assert(got.diagnostics =~= operand_diagnostics(first) + operand_diagnostics(second)
        + seq![ErrorKind::InvalidOperator]);
}

/// Evaluating one text twice gives the same statement and the same
/// diagnostics twice: nothing but the text goes into the result.
pub proof fn lemma_evaluation_repeats(once: ParsedStatement, again: ParsedStatement, text: Seq<char>)
    requires
        once@ == evaluate(text),
        again@ == evaluate(text),
    ensures
        once@ == again@,
        once@.diagnostics == again@.diagnostics,
{
}

/// The result of a statement is missing exactly where an operand or the
/// operator is not valid or the statement divides by zero; and it stays
/// so when a pending result is handed in. A statement whose result is
/// pending has its two operands and its operator. The text of the result
/// is the marker of no number exactly where the result is missing.
pub proof fn lemma_result_is_consistent(text: Seq<char>, value: Seq<char>)
    ensures
        evaluate(text).consistent(),
        evaluate(text).resolve(value).consistent(),
        evaluate(text).result is Pending <==> evaluate(text).pending_operation() is Some,
        outcome_text(evaluate(text).result) == Some(NAN@) <==> evaluate(text).result
            is NotANumber,
{
    if let OutcomeView::Whole(value) = evaluate(text).result {
        lemma_integer_text_begins(value);
        reveal_strlit("_NaN");
    }
    let tokens = split_on(text, SPACE);
    if tokens.len() == 3 {
        let got = evaluate_tokens(tokens[0], tokens[1], tokens[2]);
        if got.diagnostics.contains(ErrorKind::CantCount) {
            let i = choose|i: int| 0 <= i < got.diagnostics.len() && got.diagnostics[i]
                == ErrorKind::CantCount;
        } else if got.result is NotANumber {
            if got.first is Some && got.second is Some && got.operator is Known {
                assert(got.diagnostics[0] == ErrorKind::CantCount);
            }
        }
    }
}

/// A batch has one result for each of its pieces, that is one more than
/// it has commas, and the result at each place is that of the piece at
/// that place, trimmed.
pub proof fn lemma_batch_keeps_order(batch: Seq<char>)
    ensures
        evaluate_batch(batch).len() == occurrences(batch, COMMA) + 1,
        forall|i: int|
            0 <= i < evaluate_batch(batch).len() ==> #[trigger] evaluate_batch(batch)[i]
                == evaluate(trim(split_on(batch, COMMA)[i])),
{
    lemma_split_count(batch, COMMA);
}

} // verus!
