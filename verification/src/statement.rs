//! The result of evaluating one statement, and the rules that lead to it.
//!
//! A statement is three tokens with single spaces between them: an operand,
//! an operator, an operand. `evaluate` says what becomes of every text.

use crate::arithmetic::{exact_result, wrapped};
use crate::errs::ErrorKind;
use crate::number::{integer_value, is_float_text, is_number_text, is_zero_divisor};
use crate::operators::{operator_of, Operator};
use crate::pconsts::{NAN, SPACE, UNKNOWN};
use crate::render::{format_integer, integer_text};
use crate::text::{split_on, str_eq};
use vstd::prelude::*;

verus! {

/// The operator of a statement.
#[derive(Clone, Debug, PartialEq, Eq)]
pub enum OperatorField {
    /// One of the four operators.
    Known(Operator),
    /// A token that is no operator.
    Unknown(String),
    /// No token at all: the statement is not made of three tokens.
    Missing,
}

/// The result of a statement.
#[derive(Clone, Debug, PartialEq, Eq)]
pub enum Outcome {
    /// Both operands are whole numbers: the value of the 64-bit arithmetic.
    Whole(i64),
    /// An operand is fractional. The arithmetic is floating-point and is
    /// the caller's to do; no value has been reported yet.
    Pending,
    /// The text of the floating-point value that the caller reported.
    Fractional(String),
    /// No result: an operand or the operator is not valid, or the
    /// statement divides by zero.
    NotANumber,
}

/// One evaluated statement.
#[derive(Clone, Debug, PartialEq, Eq)]
pub struct ParsedStatement {
    /// The first operand, or `None` where the token is no number.
    pub first: Option<String>,
    /// The second operand, or `None` where the token is no number.
    pub second: Option<String>,
    /// The operator.
    pub operator: OperatorField,
    /// The result.
    pub result: Outcome,
    /// What was found wrong, in the order in which it was found: the first
    /// operand, the second operand, the operator, the division by zero.
    pub diagnostics: Vec<ErrorKind>,
}

/// The mathematical value of an `OperatorField`.
pub enum OperatorView {
    /// One of the four operators.
    Known(Operator),
    /// A token that is no operator.
    Unknown(Seq<char>),
    /// No token at all.
    Missing,
}

/// The mathematical value of an `Outcome`.
pub enum OutcomeView {
    /// The value of the 64-bit arithmetic.
    Whole(int),
    /// A floating-point value that has not been reported yet.
    Pending,
    /// The text of the floating-point value that was reported.
    Fractional(Seq<char>),
    /// No result.
    NotANumber,
}

/// The mathematical value of a `ParsedStatement`.
pub struct StatementView {
    /// The first operand, where it is a number.
    pub first: Option<Seq<char>>,
    /// The second operand, where it is a number.
    pub second: Option<Seq<char>>,
    /// The operator.
    pub operator: OperatorView,
    /// The result.
    pub result: OutcomeView,
    /// What was found wrong, in the order in which it was found.
    pub diagnostics: Seq<ErrorKind>,
}

/// The characters of an optional string.
pub open spec fn text_of(field: Option<String>) -> Option<Seq<char>> {
    match field {
        Some(text) => Some(text@),
        None => None,
    }
}

impl View for OperatorField {
    type V = OperatorView;

    open spec fn view(&self) -> OperatorView {
        match self {
            OperatorField::Known(operator) => OperatorView::Known(*operator),
            OperatorField::Unknown(token) => OperatorView::Unknown(token@),
            OperatorField::Missing => OperatorView::Missing,
        }
    }
}

impl View for Outcome {
    type V = OutcomeView;

    open spec fn view(&self) -> OutcomeView {
        match self {
            Outcome::Whole(value) => OutcomeView::Whole(*value as int),
            Outcome::Pending => OutcomeView::Pending,
            Outcome::Fractional(text) => OutcomeView::Fractional(text@),
            Outcome::NotANumber => OutcomeView::NotANumber,
        }
    }
}

impl View for ParsedStatement {
    type V = StatementView;

    open spec fn view(&self) -> StatementView {
        StatementView {
            first: text_of(self.first),
            second: text_of(self.second),
            operator: self.operator@,
            result: self.result@,
            diagnostics: self.diagnostics@,
        }
    }
}

/// The values of a list of statements, in order.
pub open spec fn statement_views(all: Seq<ParsedStatement>) -> Seq<StatementView> {
    Seq::new(all.len(), |i: int| all[i]@)
}

/// The operand field of a token: the token itself where it is a number.
pub open spec fn operand_field(token: Seq<char>) -> Option<Seq<char>> {
    if is_number_text(token) {
        Some(token)
    } else {
        None
    }
}

/// The operator field of a token.
pub open spec fn operator_field(token: Seq<char>) -> OperatorView {
    match operator_of(token) {
        Some(operator) => OperatorView::Known(operator),
        None => OperatorView::Unknown(token),
    }
}

/// The three tokens are two numbers with an operator between them.
pub open spec fn tokens_valid(first: Seq<char>, op: Seq<char>, second: Seq<char>) -> bool {
    is_number_text(first) && is_number_text(second) && operator_of(op) is Some
}

/// The statement divides by zero: by a number that is zero as written, or
/// by a whole number of the value 0.
pub open spec fn divides_by_zero(op: Seq<char>, second: Seq<char>) -> bool {
    operator_of(op) == Some(Operator::Divide) && is_zero_divisor(second)
}

/// The result of a statement of three tokens.
pub open spec fn outcome_of(first: Seq<char>, op: Seq<char>, second: Seq<char>) -> OutcomeView {
    if !tokens_valid(first, op, second) || divides_by_zero(op, second) {
        OutcomeView::NotANumber
    } else if is_float_text(first) || is_float_text(second) {
        OutcomeView::Pending
    } else {
        OutcomeView::Whole(
            wrapped(
                exact_result(integer_value(first), integer_value(second), operator_of(op).unwrap()),
            ),
        )
    }
}

/// The diagnostic of an operand token, if it earns one.
pub open spec fn operand_diagnostics(token: Seq<char>) -> Seq<ErrorKind> {
    if is_number_text(token) {
        Seq::empty()
    } else {
        seq![ErrorKind::NotANumber]
    }
}

/// The diagnostic of an operator token, if it earns one.
pub open spec fn operator_diagnostics(token: Seq<char>) -> Seq<ErrorKind> {
    if operator_of(token) is Some {
        Seq::empty()
    } else {
        seq![ErrorKind::InvalidOperator]
    }
}

/// The diagnostic of the division, if it earns one: only a statement whose
/// three tokens are valid is looked at.
pub open spec fn division_diagnostics(
    first: Seq<char>,
    op: Seq<char>,
    second: Seq<char>,
) -> Seq<ErrorKind> {
    if tokens_valid(first, op, second) && divides_by_zero(op, second) {
        seq![ErrorKind::CantCount]
    } else {
        Seq::empty()
    }
}

/// What a statement of three tokens evaluates to. Each token is judged on
/// its own: a bad operand does not keep the other operand or the operator
/// from being looked at.
pub open spec fn evaluate_tokens(first: Seq<char>, op: Seq<char>, second: Seq<char>) -> StatementView {
    StatementView {
        first: operand_field(first),
        second: operand_field(second),
        operator: operator_field(op),
        result: outcome_of(first, op, second),
        diagnostics: operand_diagnostics(first) + operand_diagnostics(second)
            + operator_diagnostics(op) + division_diagnostics(first, op, second),
    }
}

/// What a text that is not made of three tokens evaluates to.
pub open spec fn invalid_body() -> StatementView {
    StatementView {
        first: None,
        second: None,
        operator: OperatorView::Missing,
        result: OutcomeView::NotANumber,
        diagnostics: seq![ErrorKind::InvalidBody],
    }
}

/// What a statement evaluates to.
pub open spec fn evaluate(statement: Seq<char>) -> StatementView {
    let tokens = split_on(statement, SPACE);
    if tokens.len() == 3 {
        evaluate_tokens(tokens[0], tokens[1], tokens[2])
    } else {
        invalid_body()
    }
}

/// The text of an operand field.
pub open spec fn operand_text(field: Option<Seq<char>>) -> Seq<char> {
    match field {
        Some(token) => token,
        None => NAN@,
    }
}

/// The text of an operator field: the display name and, in brackets, the
/// token.
pub open spec fn operator_text(field: OperatorView) -> Seq<char> {
    match field {
        OperatorView::Known(operator) => operator.name() + " ("@ + operator.symbol() + ")"@,
        OperatorView::Unknown(token) => UNKNOWN@ + " ("@ + token + ")"@,
        OperatorView::Missing => UNKNOWN@,
    }
}

/// The text of a result. A result that is pending has none yet: its value
/// is not known here.
pub open spec fn outcome_text(result: OutcomeView) -> Option<Seq<char>> {
    match result {
        OutcomeView::Whole(value) => Some(integer_text(value)),
        OutcomeView::Fractional(text) => Some(text),
        OutcomeView::Pending => None,
        OutcomeView::NotANumber => Some(NAN@),
    }
}

/// The line that shows one statement, given the text of its result.
pub open spec fn line_with(statement: StatementView, result: Seq<char>) -> Seq<char> {
    "First: "@ + operand_text(statement.first) + ", Second: "@ + operand_text(statement.second)
        + ", Operator: "@ + operator_text(statement.operator) + ", Result: "@ + result + ".\n"@
}

/// The line that shows one statement. A statement whose result is pending
/// has none yet.
pub open spec fn line_text(statement: StatementView) -> Option<Seq<char>> {
    match outcome_text(statement.result) {
        Some(result) => Some(line_with(statement, result)),
        None => None,
    }
}

/// The lines that show a list of statements, in order. A list that holds
/// a statement whose result is pending has none yet.
pub open spec fn lines_text(all: Seq<StatementView>) -> Option<Seq<char>>
    decreases all.len(),
{
    if all.len() == 0 {
        Some(Seq::empty())
    } else {
        match (lines_text(all.drop_last()), line_text(all.last())) {
            (Some(before), Some(line)) => Some(before + line),
            _ => None,
        }
    }
}

/// The text of the field of a statement that `entity` names: `first`,
/// `second`, `operator` or `result`. Any other name gives the marker of
/// the unknown. A result that is pending has no text yet.
pub open spec fn entity_text(statement: StatementView, entity: Seq<char>) -> Option<Seq<char>> {
    if entity == "first"@ {
        Some(operand_text(statement.first))
    } else if entity == "second"@ {
        Some(operand_text(statement.second))
    } else if entity == "operator"@ {
        Some(operator_text(statement.operator))
    } else if entity == "result"@ {
        outcome_text(statement.result)
    } else {
        Some(UNKNOWN@)
    }
}

impl StatementView {
    /// The statement with `text` for its result, where the result was
    /// pending; the statement as it is, where not.
    pub open spec fn resolve(self, text: Seq<char>) -> StatementView {
        if self.result is Pending {
            StatementView { result: OutcomeView::Fractional(text), ..self }
        } else {
            self
        }
    }

    /// The operands and the operator of a statement whose result is
    /// pending.
    pub open spec fn pending_operation(self) -> Option<(Seq<char>, Operator, Seq<char>)> {
        match (self.result, self.first, self.operator, self.second) {
            (OutcomeView::Pending, Some(first), OperatorView::Known(operator), Some(second)) => Some(
                (first, operator, second),
            ),
            _ => None,
        }
    }

    /// The result is missing exactly where an operand or the operator is
    /// not valid or the statement divides by zero.
    pub open spec fn consistent(self) -> bool {
        self.result is NotANumber <==> (self.first is None || self.second is None
            || !(self.operator is Known) || self.diagnostics.contains(ErrorKind::CantCount))
    }
}

impl ParsedStatement {
    /// The statement that a text without three tokens evaluates to.
    pub fn invalid() -> (r: ParsedStatement)
        ensures
            r@ == invalid_body(),
    {
        let mut diagnostics: Vec<ErrorKind> = Vec::new();
        diagnostics.push(ErrorKind::InvalidBody);
        ParsedStatement {
            first: None,
            second: None,
            operator: OperatorField::Missing,
            result: Outcome::NotANumber,
            diagnostics,
        }
    }

    /// Whether the result waits for its floating-point value.
    pub fn is_pending(&self) -> (r: bool)
        ensures
            r == (self@.result is Pending),
    {
        match self.result {
            Outcome::Pending => true,
            _ => false,
        }
    }

    /// What is left to compute: the two operands and the operator of a
    /// statement whose result is pending, and `None` for every other
    /// statement.
    pub fn pending_operation(&self) -> (r: Option<(&str, Operator, &str)>)
        ensures
            r is Some <==> self@.pending_operation() is Some,
            r matches Some((first, operator, second)) ==> self@.pending_operation() == Some(
                (first@, operator, second@),
            ),
    {
        match (&self.result, &self.first, &self.operator, &self.second) {
            (Outcome::Pending, Some(first), OperatorField::Known(operator), Some(second)) => Some(
                (first.as_str(), *operator, second.as_str()),
            ),
            _ => None,
        }
    }

    /// Records `text` as the result of a statement whose result is
    /// pending. Any other statement is handed back unchanged.
    pub fn resolve(self, text: String) -> (r: ParsedStatement)
        ensures
            r@ == self@.resolve(text@),
    {
        match self.result {
            Outcome::Pending => ParsedStatement {
                first: self.first,
                second: self.second,
                operator: self.operator,
                result: Outcome::Fractional(text),
                diagnostics: self.diagnostics,
            },
            _ => self,
        }
    }

    /// The text of the first operand.
    pub fn first_text(&self) -> (r: String)
        ensures
            r@ == operand_text(self@.first),
    {
        match &self.first {
            Some(token) => token.clone(),
            None => String::from_str(NAN),
        }
    }

    /// The text of the second operand.
    pub fn second_text(&self) -> (r: String)
        ensures
            r@ == operand_text(self@.second),
    {
        match &self.second {
            Some(token) => token.clone(),
            None => String::from_str(NAN),
        }
    }

    /// The text of the operator: its display name and, in brackets, the
    /// token.
    pub fn operator_text(&self) -> (r: String)
        ensures
            r@ == operator_text(self@.operator),
    {
        match &self.operator {
            OperatorField::Known(operator) => {
                let mut out = String::from_str(operator.display_name());
                out.append(" (");
                out.append(operator.as_symbol());
                out.append(")");
                out
            },
            OperatorField::Unknown(token) => {
                let mut out = String::from_str(UNKNOWN);
                out.append(" (");
                out.append(token.as_str());
                out.append(")");
                out
            },
            OperatorField::Missing => String::from_str(UNKNOWN),
        }
    }

    /// The text of the result, or `None` for a result that is pending.
    pub fn result_text(&self) -> (r: Option<String>)
        ensures
            text_of(r) == outcome_text(self@.result),
    {
        match &self.result {
            Outcome::Whole(value) => Some(format_integer(*value)),
            Outcome::Fractional(text) => Some(text.clone()),
            Outcome::Pending => None,
            Outcome::NotANumber => Some(String::from_str(NAN)),
        }
    }

    /// The line that shows the statement, or `None` for a statement whose
    /// result is pending.
    pub fn line(&self) -> (r: Option<String>)
        ensures
            text_of(r) == line_text(self@),
    {
        match self.result_text() {
            None => None,
            Some(result) => {
                let mut out = String::from_str("First: ");
                out.append(self.first_text().as_str());
                out.append(", Second: ");
                out.append(self.second_text().as_str());
                out.append(", Operator: ");
                out.append(self.operator_text().as_str());
                out.append(", Result: ");
                out.append(result.as_str());
                out.append(".\n");
                Some(out)
            },
        }
    }

    /// The text of the field that `entity` names, or `None` where it names
    /// a result that is pending.
    pub fn entity(&self, entity: &str) -> (r: Option<String>)
        ensures
            text_of(r) == entity_text(self@, entity@),
    {
        if str_eq(entity, "first") {
            Some(self.first_text())
        } else if str_eq(entity, "second") {
            Some(self.second_text())
        } else if str_eq(entity, "operator") {
            Some(self.operator_text())
        } else if str_eq(entity, "result") {
            self.result_text()
        } else {
            Some(String::from_str(UNKNOWN))
        }
    }
}

/// A list has its lines exactly where none of its statements has a result
/// that is pending.
pub proof fn lemma_lines_need_no_pending(all: Seq<StatementView>)
    ensures
        lines_text(all) is Some <==> forall|i: int|
            0 <= i < all.len() ==> !((#[trigger] all[i]).result is Pending),
    decreases all.len(),
{
    if all.len() > 0 {
        let before = all.drop_last();
        lemma_lines_need_no_pending(before);
        if lines_text(all) is Some {
            assert forall|i: int| 0 <= i < all.len() implies !((#[trigger] all[i]).result
                is Pending) by {
                if i < all.len() - 1 {
                    assert(all[i] == before[i]);
                }
            }
        } else if lines_text(before) is None {
            let i = choose|i: int| 0 <= i < before.len() && (#[trigger] before[i]).result is Pending;
            assert(all[i] == before[i]);
        }
    }
}

/// A list with a statement whose result is pending has no lines.
pub proof fn lemma_lines_end_at_pending(all: Seq<StatementView>, i: int)
    requires
        0 <= i < all.len(),
        all[i].result is Pending,
    ensures
        lines_text(all) is None,
{
    lemma_lines_need_no_pending(all);
}

} // verus!
