use math_parser::errs::ErrorKind;
use math_parser::operators::Operator;
use math_parser::parser::Parser;
use math_parser::statement::{OperatorField, Outcome, ParsedStatement};

fn parser() -> Parser {
    Parser { string: "" }
}

fn whole(first: &str, op: &str, second: &str, value: i64) -> ParsedStatement {
    ParsedStatement {
        first: Some(first.to_string()),
        second: Some(second.to_string()),
        operator: OperatorField::Known(Operator::from_symbol(op).unwrap()),
        result: Outcome::Whole(value),
        diagnostics: vec![],
    }
}

fn invalid_body() -> ParsedStatement {
    ParsedStatement {
        first: None,
        second: None,
        operator: OperatorField::Missing,
        result: Outcome::NotANumber,
        diagnostics: vec![ErrorKind::InvalidBody],
    }
}

#[test]
fn solve_problem_adds_subtracts_multiplies_divides() {
    let p = parser();
    assert_eq!(p.solve_problem(3, 4, "+"), 7);
    assert_eq!(p.solve_problem(3, 4, "-"), -1);
    assert_eq!(p.solve_problem(3, 4, "*"), 12);
    assert_eq!(p.solve_problem(12, 4, "/"), 3);
    assert_eq!(p.solve_problem(-3, -4, "*"), 12);
    assert_eq!(p.solve_problem(0, 5, "/"), 0);
}

#[test]
fn solve_problem_rounds_a_quotient_toward_zero() {
    let p = parser();
    assert_eq!(p.solve_problem(7, 2, "/"), 3);
    assert_eq!(p.solve_problem(-7, 2, "/"), -3);
    assert_eq!(p.solve_problem(7, -2, "/"), -3);
    assert_eq!(p.solve_problem(-7, -2, "/"), 3);
    assert_eq!(p.solve_problem(1, 2, "/"), 0);
    assert_eq!(p.solve_problem(-1, 2, "/"), 0);
    assert_eq!(p.solve_problem(i64::MIN, 2, "/"), i64::MIN / 2);
    assert_eq!(p.solve_problem(i64::MAX, -1, "/"), -i64::MAX);
}

#[test]
fn solve_problem_wraps_what_does_not_fit() {
    let p = parser();
    assert_eq!(p.solve_problem(i64::MAX, 1, "+"), i64::MIN);
    assert_eq!(p.solve_problem(i64::MIN, 1, "-"), i64::MAX);
    assert_eq!(p.solve_problem(i64::MIN, -1, "+"), i64::MAX);
    assert_eq!(p.solve_problem(i64::MAX, 2, "*"), -2);
    assert_eq!(p.solve_problem(i64::MIN, -1, "*"), i64::MIN);
    assert_eq!(p.solve_problem(i64::MIN, -1, "/"), i64::MIN);
    assert_eq!(p.solve_problem(4294967296, 4294967296, "*"), 0);
}

#[test]
fn solve_problem_agrees_with_wrapping_arithmetic() {
    let p = parser();
    let mut x: i64 = 12345;
    let mut y: i64 = -987;
    for _ in 0..300 {
        x = x.wrapping_mul(6364136223846793005).wrapping_add(1442695040888963407);
        y = y.wrapping_mul(3935559000370003845).wrapping_add(2691343689449507681);
        for shift in [0, 20, 40, 60] {
            let (a, b) = (x >> shift, y >> shift);
            assert_eq!(p.solve_problem(a, b, "+"), a.wrapping_add(b));
            assert_eq!(p.solve_problem(a, b, "-"), a.wrapping_sub(b));
            assert_eq!(p.solve_problem(a, b, "*"), a.wrapping_mul(b));
            if b != 0 {
                assert_eq!(p.solve_problem(a, b, "/"), a.wrapping_div(b));
            }
        }
    }
}

#[test]
fn solve_problem_computes_nothing_for_another_operation() {
    let p = parser();
    assert_eq!(p.solve_problem(3, 4, "%"), 0);
    assert_eq!(p.solve_problem(3, 4, ""), 0);
    assert_eq!(p.solve_problem(3, 0, "^"), 0);
    assert_eq!(p.solve_problem(3, 4, "+ "), 0);
    assert_eq!(p.solve_problem(3, 4, "Plus"), 0);
}

#[test]
fn as_integer_reads_signed_text() {
    let p = parser();
    assert_eq!(p.as_integer("42"), 42);
    assert_eq!(p.as_integer("-42"), -42);
    assert_eq!(p.as_integer("+42"), 42);
    assert_eq!(p.as_integer("007"), 7);
    assert_eq!(p.as_integer("-9223372036854775808"), i64::MIN);
}

#[test]
fn as_string_writes_decimal() {
    let p = parser();
    assert_eq!(p.as_string(0), "0");
    assert_eq!(p.as_string(-17), "-17");
    assert_eq!(p.as_string(i64::MAX), "9223372036854775807");
}

#[test]
fn whole_statements_are_computed() {
    let p = parser();
    assert_eq!(p.parse_entities("1 + 2"), whole("1", "+", "2", 3));
    assert_eq!(p.parse_entities("3 + 4"), whole("3", "+", "4", 7));
    assert_eq!(p.parse_entities("10 / 2"), whole("10", "/", "2", 5));
    assert_eq!(p.parse_entities("3 - 5"), whole("3", "-", "5", -2));
    assert_eq!(p.parse_entities("6 * 7"), whole("6", "*", "7", 42));
    assert_eq!(p.parse_entities("7 / 2"), whole("7", "/", "2", 3));
    assert_eq!(p.parse_entities("0 / 5"), whole("0", "/", "5", 0));
    assert_eq!(p.parse_entities("007 + 010"), whole("007", "+", "010", 17));
    assert_eq!(p.parse_entities("0 * 0"), whole("0", "*", "0", 0));
    assert_eq!(p.parse_entities("5 - 0"), whole("5", "-", "0", 5));
}

#[test]
fn whole_statements_agree_with_integer_arithmetic() {
    let p = parser();
    for a in [0i64, 1, 2, 7, 10, 99, 1000, 123456789, 3037000499] {
        for b in [0i64, 1, 3, 8, 12, 100, 65536, 3037000499] {
            for (op, expected) in [
                ("+", Some(a + b)),
                ("-", Some(a - b)),
                ("*", Some(a * b)),
                ("/", if b == 0 { None } else { Some(a / b) }),
            ] {
                let statement = format!("{} {} {}", a, op, b);
                let got = p.parse_entities(&statement);
                match expected {
                    Some(value) => {
                        assert_eq!(got, whole(&a.to_string(), op, &b.to_string(), value));
                        assert_eq!(got.result_text(), Some(value.to_string()));
                    }
                    None => {
                        assert_eq!(got.result, Outcome::NotANumber);
                        assert_eq!(got.diagnostics, vec![ErrorKind::CantCount]);
                    }
                }
            }
        }
    }
}

#[test]
fn a_whole_result_that_does_not_fit_wraps_around() {
    let p = parser();
    assert_eq!(
        p.parse_entities("9223372036854775807 + 1").result,
        Outcome::Whole(i64::MIN)
    );
    assert_eq!(
        p.parse_entities("9223372036854775807 * 2").result,
        Outcome::Whole(-2)
    );
    assert_eq!(
        p.parse_entities("9223372036854775807 + 9223372036854775807").result_text().as_deref(),
        Some("-2")
    );
}

#[test]
fn a_text_without_three_tokens_is_an_invalid_body() {
    let p = parser();
    for text in [
        "",
        " ",
        "1",
        "1 +",
        "+ 1",
        "1+2",
        "1 + 2 ",
        " 1 + 2",
        "1  + 2",
        "1 +  2",
        "1 + 2 + 3",
        "1 + 2 3",
        "a b c d",
        "   ",
    ] {
        assert_eq!(p.parse_entities(text), invalid_body(), "{:?}", text);
    }
}

#[test]
fn an_invalid_body_shows_markers_only() {
    let got = parser().parse_entities("1 +");
    assert_eq!(got.first_text(), "_NaN");
    assert_eq!(got.second_text(), "_NaN");
    assert_eq!(got.operator_text(), "_Unknown");
    assert_eq!(got.result_text().as_deref(), Some("_NaN"));
    assert_eq!(got.line().as_deref(), Some("First: _NaN, Second: _NaN, Operator: _Unknown, Result: _NaN.\n"));
}

#[test]
fn two_spaces_are_not_an_invalid_body() {
    let got = parser().parse_entities("  ");
    assert_eq!(got.first, None);
    assert_eq!(got.second, None);
    assert_eq!(got.operator, OperatorField::Unknown(String::new()));
    assert_eq!(got.result, Outcome::NotANumber);
    assert_eq!(
        got.diagnostics,
        vec![ErrorKind::NotANumber, ErrorKind::NotANumber, ErrorKind::InvalidOperator]
    );
}

#[test]
fn an_invalid_operand_is_reported_and_the_rest_still_judged() {
    let p = parser();
    let got = p.parse_entities("abc * 2");
    assert_eq!(got.first, None);
    assert_eq!(got.second, Some("2".to_string()));
    assert_eq!(got.operator, OperatorField::Known(Operator::Multiply));
    assert_eq!(got.result, Outcome::NotANumber);
    assert_eq!(got.diagnostics, vec![ErrorKind::NotANumber]);

    let got = p.parse_entities("2 * abc");
    assert_eq!(got.first, Some("2".to_string()));
    assert_eq!(got.second, None);
    assert_eq!(got.result, Outcome::NotANumber);
    assert_eq!(got.diagnostics, vec![ErrorKind::NotANumber]);

    let got = p.parse_entities("x + y");
    assert_eq!(got.first, None);
    assert_eq!(got.second, None);
    assert_eq!(got.operator, OperatorField::Known(Operator::Plus));
    assert_eq!(got.diagnostics, vec![ErrorKind::NotANumber, ErrorKind::NotANumber]);
}

#[test]
fn a_signed_whole_token_is_an_operand() {
    let p = parser();
    assert_eq!(p.parse_entities("-7 + 2"), whole("-7", "+", "2", -5));
    assert_eq!(p.parse_entities("-5 + 3"), whole("-5", "+", "3", -2));
    assert_eq!(p.parse_entities("5 + +3"), whole("5", "+", "+3", 8));
    assert_eq!(p.parse_entities("5 - -3"), whole("5", "-", "-3", 8));
    assert_eq!(p.parse_entities("-4 * -6"), whole("-4", "*", "-6", 24));
    assert_eq!(p.parse_entities("-0 + 0"), whole("-0", "+", "0", 0));
    assert_eq!(p.parse_entities("-7 + 2").result_text().as_deref(), Some("-5"));
    assert_eq!(
        p.parse_entities("-7 + 2").line().as_deref(),
        Some("First: -7, Second: 2, Operator: Plus (+), Result: -5.\n")
    );
    assert_eq!(
        p.parse_entities("-9223372036854775808 + 0"),
        whole("-9223372036854775808", "+", "0", i64::MIN)
    );
}

#[test]
fn a_quotient_of_signed_operands_is_rounded_toward_zero() {
    let p = parser();
    assert_eq!(p.parse_entities("-7 / 2"), whole("-7", "/", "2", -3));
    assert_eq!(p.parse_entities("7 / -2"), whole("7", "/", "-2", -3));
    assert_eq!(p.parse_entities("-7 / -2"), whole("-7", "/", "-2", 3));
    assert_eq!(p.parse_entities("-1 / 2"), whole("-1", "/", "2", 0));
}

#[test]
fn signed_whole_statements_agree_with_integer_arithmetic() {
    let p = parser();
    for a in [-3037000499i64, -1000, -7, -1, 0, 1, 5, 4096, 3037000499] {
        for b in [-3037000499i64, -65536, -3, -1, 0, 2, 9, 3037000499] {
            for (op, expected) in [
                ("+", Some(a + b)),
                ("-", Some(a - b)),
                ("*", Some(a * b)),
                ("/", if b == 0 { None } else { Some(a / b) }),
            ] {
                let got = p.parse_entities(&format!("{} {} {}", a, op, b));
                match expected {
                    Some(value) => {
                        assert_eq!(got, whole(&a.to_string(), op, &b.to_string(), value));
                        assert_eq!(got.result_text(), Some(value.to_string()));
                    }
                    None => {
                        assert_eq!(got.first, Some(a.to_string()));
                        assert_eq!(got.second, Some(b.to_string()));
                        assert_eq!(got.result, Outcome::NotANumber);
                        assert_eq!(got.diagnostics, vec![ErrorKind::CantCount]);
                    }
                }
            }
        }
    }
}

#[test]
fn a_division_by_a_whole_zero_with_a_sign_cannot_count() {
    let p = parser();
    for text in ["5 / -0", "5 / +0", "-5 / -000", "0 / -0"] {
        let got = p.parse_entities(text);
        assert!(got.first.is_some() && got.second.is_some(), "{:?}", text);
        assert_eq!(got.operator, OperatorField::Known(Operator::Divide));
        assert_eq!(got.result, Outcome::NotANumber);
        assert_eq!(got.diagnostics, vec![ErrorKind::CantCount]);
    }
    assert_eq!(p.parse_entities("5 * -0").result, Outcome::Whole(0));
    assert_eq!(p.parse_entities("5 - -0").result, Outcome::Whole(5));
}

#[test]
fn the_smallest_integer_divided_by_minus_one_wraps_around() {
    let got = parser().parse_entities("-9223372036854775808 / -1");
    assert_eq!(got.result, Outcome::Whole(i64::MIN));
    assert!(got.diagnostics.is_empty());
}

#[test]
fn a_sign_alone_is_no_operand() {
    let p = parser();
    for text in ["- + 3", "+ + 3", "3 + -", "-- + 3", "3 + +-3", "1- + 3"] {
        let got = p.parse_entities(text);
        assert_eq!(got.result, Outcome::NotANumber, "{:?}", text);
        assert_eq!(got.diagnostics, vec![ErrorKind::NotANumber], "{:?}", text);
    }
}

#[test]
fn a_number_out_of_range_is_no_operand() {
    let got = parser().parse_entities("9223372036854775808 + 1");
    assert_eq!(got.first, None);
    assert_eq!(got.diagnostics, vec![ErrorKind::NotANumber]);
}

#[test]
fn an_unknown_operator_is_reported_with_its_token() {
    let p = parser();
    let got = p.parse_entities("1 % 2");
    assert_eq!(got.first, Some("1".to_string()));
    assert_eq!(got.second, Some("2".to_string()));
    assert_eq!(got.operator, OperatorField::Unknown("%".to_string()));
    assert_eq!(got.operator_text(), "_Unknown (%)");
    assert_eq!(got.result, Outcome::NotANumber);
    assert_eq!(got.diagnostics, vec![ErrorKind::InvalidOperator]);

    let got = p.parse_entities("1 plus 2");
    assert_eq!(got.operator, OperatorField::Unknown("plus".to_string()));
    assert_eq!(got.operator_text(), "_Unknown (plus)");

    let got = p.parse_entities("1 ++ 2");
    assert_eq!(got.operator, OperatorField::Unknown("++".to_string()));
}

#[test]
fn diagnostics_come_in_the_order_first_second_operator() {
    let p = parser();
    let got = p.parse_entities("a ? b");
    assert_eq!(got.first, None);
    assert_eq!(got.second, None);
    assert_eq!(got.operator, OperatorField::Unknown("?".to_string()));
    assert_eq!(
        got.diagnostics,
        vec![ErrorKind::NotANumber, ErrorKind::NotANumber, ErrorKind::InvalidOperator]
    );
    let got = p.parse_entities("1 ? b");
    assert_eq!(got.diagnostics, vec![ErrorKind::NotANumber, ErrorKind::InvalidOperator]);
    let got = p.parse_entities("a ? 0");
    assert_eq!(got.diagnostics, vec![ErrorKind::NotANumber, ErrorKind::InvalidOperator]);
}

#[test]
fn division_by_a_textual_zero_cannot_count() {
    let p = parser();
    for dividend in ["3", "0", "-5", "+5", "12.5", "-1.5", ".5", "0.0"] {
        for divisor in ["0", "00", "0.0", "0.00", "00.00", ".0", "0."] {
            let got = p.parse_entities(&format!("{} / {}", dividend, divisor));
            assert_eq!(got.first, Some(dividend.to_string()));
            assert_eq!(got.second, Some(divisor.to_string()));
            assert_eq!(got.operator, OperatorField::Known(Operator::Divide));
            assert_eq!(got.result, Outcome::NotANumber);
            assert_eq!(got.result_text().as_deref(), Some("_NaN"));
            assert_eq!(got.diagnostics, vec![ErrorKind::CantCount]);
        }
    }
}

#[test]
fn a_zero_is_no_trouble_but_for_a_division() {
    let p = parser();
    assert_eq!(p.parse_entities("3 + 0").result, Outcome::Whole(3));
    assert_eq!(p.parse_entities("3 - 0").result, Outcome::Whole(3));
    assert_eq!(p.parse_entities("3 * 0").result, Outcome::Whole(0));
    assert_eq!(p.parse_entities("0 / 3").result, Outcome::Whole(0));
    assert_eq!(p.parse_entities("3 * 0.0").result, Outcome::Pending);
}

#[test]
fn an_invalid_dividend_keeps_the_division_from_being_looked_at() {
    let got = parser().parse_entities("abc / 0");
    assert_eq!(got.result, Outcome::NotANumber);
    assert_eq!(got.diagnostics, vec![ErrorKind::NotANumber]);
}

#[test]
fn the_result_is_missing_exactly_where_something_failed() {
    let p = parser();
    for text in [
        "1 + 2", "1 / 0", "a + 2", "1 + b", "1 ? 2", "a ? b", "", "1 +", "1.5 + 2", "1.5 / 0.0",
        "1 / 0.5", "  ", "9 * 9",
    ] {
        let got = p.parse_entities(text);
        let failed = got.first.is_none()
            || got.second.is_none()
            || !matches!(got.operator, OperatorField::Known(_))
            || got.diagnostics.contains(&ErrorKind::CantCount);
        assert_eq!(got.result == Outcome::NotANumber, failed, "{:?}", text);
        let resolved = got.resolve("7.5".to_string());
        assert_eq!(resolved.result == Outcome::NotANumber, failed, "{:?}", text);
    }
}

#[test]
fn evaluating_twice_gives_the_same_twice() {
    let p = parser();
    for text in ["1 + 2", "3 / 0", "abc * 2", "1.5 + 2", "", "1 ? 2", "a b c d"] {
        let once = p.parse_entities(text);
        let again = p.parse_entities(text);
        assert_eq!(once, again);
        assert_eq!(once.diagnostics, again.diagnostics);
        assert_eq!(once.line(), again.line());
    }
}

#[test]
fn get_entity_names_the_four_fields() {
    let p = parser();
    assert_eq!(p.get_entity("1 + 2", "first").as_deref(), Some("1"));
    assert_eq!(p.get_entity("1 + 2", "second").as_deref(), Some("2"));
    assert_eq!(p.get_entity("1 + 2", "operator").as_deref(), Some("Plus (+)"));
    assert_eq!(p.get_entity("1 + 2", "result").as_deref(), Some("3"));
    assert_eq!(p.get_entity("abc / 2", "first").as_deref(), Some("_NaN"));
    assert_eq!(p.get_entity("abc / 2", "operator").as_deref(), Some("Divide (/)"));
    assert_eq!(p.get_entity("abc / 2", "result").as_deref(), Some("_NaN"));
    assert_eq!(p.get_entity("1 ^ 2", "operator").as_deref(), Some("_Unknown (^)"));
    assert_eq!(p.get_entity("1", "operator").as_deref(), Some("_Unknown"));
}

#[test]
fn get_entity_of_another_name_is_unknown() {
    let p = parser();
    assert_eq!(p.get_entity("1 + 2", "third").as_deref(), Some("_Unknown"));
    assert_eq!(p.get_entity("1 + 2", "").as_deref(), Some("_Unknown"));
    assert_eq!(p.get_entity("1 + 2", "First").as_deref(), Some("_Unknown"));
    assert_eq!(p.get_entity("1 + 2", "result ").as_deref(), Some("_Unknown"));
}

#[test]
fn a_line_shows_the_four_fields() {
    let p = parser();
    assert_eq!(
        p.parse_entities("1 + 2").line().as_deref(),
        Some("First: 1, Second: 2, Operator: Plus (+), Result: 3.\n")
    );
    assert_eq!(
        p.parse_entities("3 / 0").line().as_deref(),
        Some("First: 3, Second: 0, Operator: Divide (/), Result: _NaN.\n")
    );
    assert_eq!(
        p.parse_entities("abc * 2").line().as_deref(),
        Some("First: _NaN, Second: 2, Operator: Multiply (*), Result: _NaN.\n")
    );
    assert_eq!(
        p.parse_entities("8 - 10").line().as_deref(),
        Some("First: 8, Second: 10, Operator: Minus (-), Result: -2.\n")
    );
    assert_eq!(
        p.parse_entities("1 mod 2").line().as_deref(),
        Some("First: 1, Second: 2, Operator: _Unknown (mod), Result: _NaN.\n")
    );
}
