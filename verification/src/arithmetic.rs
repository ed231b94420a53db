//! Signed 64-bit arithmetic on the operands of a statement.
//!
//! The four operations are stated over the mathematical integers. A result
//! that does not fit in 64 bits wraps around, as two's complement
//! arithmetic does.

use crate::operators::{operator_of, Operator};
use vstd::prelude::*;

verus! {

/// The quotient of `x` by `y`, rounded toward zero; `y` is not zero.
pub open spec fn truncated_quotient(x: int, y: int) -> int {
    if x >= 0 && y > 0 {
        x / y
    } else if x >= 0 {
        -(x / (-y))
    } else if y > 0 {
        -((-x) / y)
    } else {
        (-x) / (-y)
    }
}

/// What an operation makes of `x` and `y`, as a mathematical integer: the
/// sum, the difference, the product, or the quotient rounded toward zero.
pub open spec fn exact_result(x: int, y: int, operator: Operator) -> int {
    match operator {
        Operator::Plus => x + y,
        Operator::Minus => x - y,
        Operator::Multiply => x * y,
        Operator::Divide => truncated_quotient(x, y),
    }
}

/// The signed 64-bit integer that is congruent to `v` modulo 2^64.
pub open spec fn wrapped(v: int) -> int {
    let low = v % 0x1_0000_0000_0000_0000;
    if low >= 0x8000_0000_0000_0000 {
        low - 0x1_0000_0000_0000_0000
    } else {
        low
    }
}

/// What signed 64-bit arithmetic makes of `x` and `y` under the operation
/// that `operation` stands for; 0 where it stands for none, as nothing is
/// computed then.
pub open spec fn solved(x: int, y: int, operation: Seq<char>) -> int {
    match operator_of(operation) {
        Some(operator) => wrapped(exact_result(x, y, operator)),
        None => 0,
    }
}

/// A value that fits in 64 bits is left as it is.
pub proof fn lemma_wrapped_in_range(v: int)
    requires
        i64::MIN <= v <= i64::MAX,
    ensures
        wrapped(v) == v,
{
}

/// A wrapped value fits in 64 bits and differs from the exact one by a
/// multiple of 2^64.
pub proof fn lemma_wrapped_is_congruent(v: int)
    ensures
        i64::MIN <= wrapped(v) <= i64::MAX,
        (v - wrapped(v)) % 0x1_0000_0000_0000_0000 == 0,
{
}

/// The quotient rounded toward zero is the one whose remainder has the
/// sign of the dividend and is smaller than the divisor.
pub proof fn lemma_truncated_quotient(x: int, y: int)
    requires
        y != 0,
    ensures
        ({
            let q = truncated_quotient(x, y);
            let r = x - q * y;
            &&& x >= 0 ==> 0 <= r
            &&& x <= 0 ==> r <= 0
            &&& y > 0 ==> -y < r < y
            &&& y < 0 ==> y < r < -y
        }),
{
    let q = truncated_quotient(x, y);
    if x >= 0 && y > 0 {
        lemma_floor_division(x, y);
    } else if x >= 0 {
        lemma_floor_division(x, -y);
        assert(q * y == (x / (-y)) * (-y)) by (nonlinear_arith)
            requires
                q == -(x / (-y)),
        ;
    } else if y > 0 {
        lemma_floor_division(-x, y);
        assert(q * y == -(((-x) / y) * y)) by (nonlinear_arith)
            requires
                q == -((-x) / y),
        ;
    } else {
        lemma_floor_division(-x, -y);
        assert(q * y == -(((-x) / (-y)) * (-y))) by (nonlinear_arith)
            requires
                q == (-x) / (-y),
        ;
    }
}

/// Of a dividend that is not negative and a positive divisor, the quotient
/// leaves a remainder that is not negative and is smaller than the
/// divisor.
pub proof fn lemma_floor_division(x: int, y: int)
    requires
        x >= 0,
        y > 0,
    ensures
        0 <= x - (x / y) * y < y,
{
    vstd::arithmetic::div_mod::lemma_fundamental_div_mod(x, y);
    vstd::arithmetic::div_mod::lemma_mod_bound(x, y);
    assert((x / y) * y == y * (x / y)) by (nonlinear_arith);
}

} // verus!
