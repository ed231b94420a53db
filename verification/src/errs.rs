//! The diagnostics of the evaluator: their kinds, numeric codes and
//! symbolic names, and the line of text that reports one.

use crate::pconsts::standard_errors;
use crate::render::{bits_of, format_integer, hex_text, integer_text, push_hex, twos_complement};
use vstd::prelude::*;

verus! {

/// What can be wrong with a statement.
#[derive(Clone, Copy, Debug, PartialEq, Eq, Structural)]
pub enum ErrorKind {
    /// An operand is neither a whole number nor a fractional one.
    NotANumber,
    /// The middle token is none of the known operators.
    InvalidOperator,
    /// The statement is not made of exactly three tokens.
    InvalidBody,
    /// A division by zero.
    CantCount,
}

/// The numeric code of each kind of diagnostic.
#[derive(Clone, Copy, Debug, PartialEq, Eq)]
pub struct Errors {
    /// The code of `ErrorKind::NotANumber`.
    pub not_a_number: i64,
    /// The code of `ErrorKind::InvalidOperator`.
    pub invalid_operator: i64,
    /// The code of `ErrorKind::InvalidBody`.
    pub invalid_body: i64,
    /// The code of `ErrorKind::CantCount`.
    pub cant_count: i64,
}

/// The text of a code in the form `0x..`, in lower-case hexadecimal; a
/// negative code is written by its 64 bits in two's complement.
pub open spec fn code_text(code: int) -> Seq<char> {
    "0x"@ + hex_text(twos_complement(code))
}

/// The line that reports a diagnostic with the given code and name.
pub open spec fn message_text(code: int, name: Seq<char>) -> Seq<char> {
    "error: "@ + code_text(code) + " ["@ + integer_text(code) + "] ("@ + name + ");"@
}

impl ErrorKind {
    /// The symbolic name of the kind.
    pub open spec fn name(self) -> Seq<char> {
        match self {
            ErrorKind::NotANumber => "not_a_number"@,
            ErrorKind::InvalidOperator => "invalid_operator"@,
            ErrorKind::InvalidBody => "invalid_body"@,
            ErrorKind::CantCount => "cant_count"@,
        }
    }

    /// The symbolic name of the kind.
    pub fn symbolic_name(self) -> (r: &'static str)
        ensures
            r@ == self.name(),
    {
        match self {
            ErrorKind::NotANumber => "not_a_number",
            ErrorKind::InvalidOperator => "invalid_operator",
            ErrorKind::InvalidBody => "invalid_body",
            ErrorKind::CantCount => "cant_count",
        }
    }
}

impl Errors {
    /// The code of a kind.
    pub open spec fn code(self, kind: ErrorKind) -> i64 {
        match kind {
            ErrorKind::NotANumber => self.not_a_number,
            ErrorKind::InvalidOperator => self.invalid_operator,
            ErrorKind::InvalidBody => self.invalid_body,
            ErrorKind::CantCount => self.cant_count,
        }
    }

    /// The kind that a code is registered for, if any. Where several kinds
    /// share a code, the one registered last holds it: the order of
    /// registration is `NotANumber`, `InvalidOperator`, `InvalidBody`,
    /// `CantCount`.
    pub open spec fn kind(self, code: i64) -> Option<ErrorKind> {
        if code == self.cant_count {
            Some(ErrorKind::CantCount)
        } else if code == self.invalid_body {
            Some(ErrorKind::InvalidBody)
        } else if code == self.invalid_operator {
            Some(ErrorKind::InvalidOperator)
        } else if code == self.not_a_number {
            Some(ErrorKind::NotANumber)
        } else {
            None
        }
    }

    /// The code of a kind.
    pub fn code_of(&self, kind: ErrorKind) -> (r: i64)
        ensures
            r == self.code(kind),
    {
        match kind {
            ErrorKind::NotANumber => self.not_a_number,
            ErrorKind::InvalidOperator => self.invalid_operator,
            ErrorKind::InvalidBody => self.invalid_body,
            ErrorKind::CantCount => self.cant_count,
        }
    }

    /// The kind that a code is registered for, or `None` for a code that
    /// no kind holds.
    pub fn kind_of(&self, code: i64) -> (r: Option<ErrorKind>)
        ensures
            r == self.kind(code),
    {
        if code == self.cant_count {
            Some(ErrorKind::CantCount)
        } else if code == self.invalid_body {
            Some(ErrorKind::InvalidBody)
        } else if code == self.invalid_operator {
            Some(ErrorKind::InvalidOperator)
        } else if code == self.not_a_number {
            Some(ErrorKind::NotANumber)
        } else {
            None
        }
    }

    /// Writes a code as `0x` and its lower-case hexadecimal digits.
    pub fn repr_code(&self, code: i64) -> (r: String)
        ensures
            r@ == code_text(code as int),
    {
        let mut out = String::from_str("0x");
        push_hex(&mut out, bits_of(code));
        out
    }

    /// The symbolic name that a code is registered under, or `None` for a
    /// code that no kind holds.
    pub fn by_code(&self, code: i64) -> (r: Option<&'static str>)
        ensures
            r is Some <==> self.kind(code) is Some,
            r matches Some(name) ==> name@ == self.kind(code).unwrap().name(),
    {
        match self.kind_of(code) {
            Some(kind) => Some(kind.symbolic_name()),
            None => None,
        }
    }

    /// The line that reports a diagnostic of the given kind. There is one
    /// for every kind.
    pub fn report(&self, kind: ErrorKind) -> (r: String)
        ensures
            self.kind(self.code(kind)) is Some,
            r@ == message_text(
                self.code(kind) as int,
                self.kind(self.code(kind)).unwrap().name(),
            ),
    {
        match self.message(self.code_of(kind)) {
            Some(line) => line,
            None => String::new(),
        }
    }

    /// The line that reports the diagnostic with the given code, or `None`
    /// for a code that no kind holds.
    pub fn message(&self, code: i64) -> (r: Option<String>)
        ensures
            r is Some <==> self.kind(code) is Some,
            r matches Some(line) ==> line@ == message_text(
                code as int,
                self.kind(code).unwrap().name(),
            ),
    {
        match self.by_code(code) {
            None => None,
            Some(name) => {
                let mut out = String::from_str("error: ");
                let shown = self.repr_code(code);
                out.append(shown.as_str());
                out.append(" [");
                let decimal = format_integer(code);
                out.append(decimal.as_str());
                out.append("] (");
                out.append(name);
                out.append(");");
                Some(out)
            },
        }
    }
}

/// In the catalog of the four codes no two kinds share a code: the kind of
/// the code of a kind is that kind, and a code that has a kind is the code
/// of that kind.
pub proof fn lemma_catalog_is_one_to_one(kind: ErrorKind, code: i64)
    ensures
        standard_errors().kind(standard_errors().code(kind)) == Some(kind),
        standard_errors().kind(code) == Some(kind) <==> code == standard_errors().code(kind),
{
}

} // verus!
