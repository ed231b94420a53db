//! The operators of a statement, their symbols and their display names.

use crate::pconsts::{parser_operators, standard_operators, UNKNOWN};
use crate::text::str_eq;
use vstd::prelude::*;

verus! {

/// One of the four operations.
#[derive(Clone, Copy, Debug, PartialEq, Eq, Structural)]
pub enum Operator {
    /// The addition, written `+`.
    Plus,
    /// The subtraction, written `-`.
    Minus,
    /// The multiplication, written `*`.
    Multiply,
    /// The division, written `/`.
    Divide,
}

/// The symbol that each of the four operations is written with.
#[derive(Clone, Copy, Debug, PartialEq, Eq)]
pub struct Operators {
    /// The symbol of the addition.
    pub plus: &'static str,
    /// The symbol of the subtraction.
    pub minus: &'static str,
    /// The symbol of the multiplication.
    pub multiply: &'static str,
    /// The symbol of the division.
    pub divide: &'static str,
}

/// The operation that a token stands for: `+`, `-`, `*` and `/`, each
/// matched character for character, stand for one; every other text
/// stands for none.
pub open spec fn operator_of(token: Seq<char>) -> Option<Operator> {
    if token == "+"@ {
        Some(Operator::Plus)
    } else if token == "-"@ {
        Some(Operator::Minus)
    } else if token == "*"@ {
        Some(Operator::Multiply)
    } else if token == "/"@ {
        Some(Operator::Divide)
    } else {
        None
    }
}

/// The display name that belongs to a token: that of the operation it
/// stands for, or the marker of an unknown operator.
pub open spec fn canonical_name(token: Seq<char>) -> Seq<char> {
    match operator_of(token) {
        Some(operator) => operator.name(),
        None => UNKNOWN@,
    }
}

impl Operator {
    /// The symbol of the operation.
    pub open spec fn symbol(self) -> Seq<char> {
        match self {
            Operator::Plus => "+"@,
            Operator::Minus => "-"@,
            Operator::Multiply => "*"@,
            Operator::Divide => "/"@,
        }
    }

    /// The display name of the operation.
    pub open spec fn name(self) -> Seq<char> {
        match self {
            Operator::Plus => "Plus"@,
            Operator::Minus => "Minus"@,
            Operator::Multiply => "Multiply"@,
            Operator::Divide => "Divide"@,
        }
    }

    /// The symbol of the operation.
    pub fn as_symbol(self) -> (r: &'static str)
        ensures
            r@ == self.symbol(),
    {
        match self {
            Operator::Plus => "+",
            Operator::Minus => "-",
            Operator::Multiply => "*",
            Operator::Divide => "/",
        }
    }

    /// The display name of the operation.
    pub fn display_name(self) -> (r: &'static str)
        ensures
            r@ == self.name(),
    {
        match self {
            Operator::Plus => "Plus",
            Operator::Minus => "Minus",
            Operator::Multiply => "Multiply",
            Operator::Divide => "Divide",
        }
    }

    /// The operation that `token` stands for, if it stands for one. The
    /// token is looked up in the table of the four symbols.
    pub fn from_symbol(token: &str) -> (r: Option<Operator>)
        ensures
            r == operator_of(token@),
    {
        let table = parser_operators();
        if !table.valid_op(token) {
            None
        } else if str_eq(token, table.plus) {
            Some(Operator::Plus)
        } else if str_eq(token, table.minus) {
            Some(Operator::Minus)
        } else if str_eq(token, table.multiply) {
            Some(Operator::Multiply)
        } else {
            Some(Operator::Divide)
        }
    }
}

impl Operators {
    /// `op` is, character for character, one of the four symbols of the
    /// table.
    pub open spec fn holds(self, op: Seq<char>) -> bool {
        op == self.plus@ || op == self.minus@ || op == self.multiply@ || op == self.divide@
    }

    /// The display name of a token: the name that belongs to it where the
    /// table holds it, the marker of an unknown operator where not.
    pub open spec fn display_name(self, op: Seq<char>) -> Seq<char> {
        if self.holds(op) {
            canonical_name(op)
        } else {
            UNKNOWN@
        }
    }

    /// Whether `op` is one of the four symbols: an exact match, with no
    /// folding of case and no tolerance for white space.
    pub fn valid_op(&self, op: &str) -> (r: bool)
        ensures
            r == self.holds(op@),
    {
        str_eq(op, self.plus) || str_eq(op, self.minus) || str_eq(op, self.multiply) || str_eq(
            op,
            self.divide,
        )
    }

    /// The display name of `op`.
    pub fn repr(&self, op: &str) -> (r: &'static str)
        ensures
            r@ == self.display_name(op@),
    {
        if !self.valid_op(op) {
            UNKNOWN
        } else if str_eq(op, "+") {
            Operator::Plus.display_name()
        } else if str_eq(op, "-") {
            Operator::Minus.display_name()
        } else if str_eq(op, "*") {
            Operator::Multiply.display_name()
        } else if str_eq(op, "/") {
            Operator::Divide.display_name()
        } else {
            UNKNOWN
        }
    }
}

/// In the table of the four symbols, the tokens that it holds are those
/// that stand for an operation, and each has that operation's name.
pub proof fn lemma_standard_table(token: Seq<char>)
    ensures
        standard_operators().holds(token) <==> operator_of(token) is Some,
        standard_operators().display_name(token) == canonical_name(token),
        operator_of(token) matches Some(operator) ==> operator.symbol() == token,
{
}

/// The symbol of an operation stands for that operation, and is the
/// single character `+`, `-`, `*` or `/`.
pub proof fn lemma_symbol_of_operator(operator: Operator)
    ensures
        operator_of(operator.symbol()) == Some(operator),
        operator.symbol().len() == 1,
        operator.symbol() == seq![
            match operator {
                Operator::Plus => '+',
                Operator::Minus => '-',
                Operator::Multiply => '*',
                Operator::Divide => '/',
            },
        ],
{
    reveal_strlit("+");
    reveal_strlit("-");
    reveal_strlit("*");
    reveal_strlit("/");
    assert("+"@[0] == '+' && "-"@[0] == '-' && "*"@[0] == '*' && "/"@[0] == '/');
    assert(operator.symbol() =~= seq![
        match operator {
            Operator::Plus => '+',
            Operator::Minus => '-',
            Operator::Multiply => '*',
            Operator::Divide => '/',
        },
    ]);
}

} // verus!
