use math_parser::operators::{Operator, Operators};
use math_parser::pconsts::{parser_operators, COMMA, DOT, NAN, SPACE, UNKNOWN, VERSION};

#[test]
fn the_table_holds_the_four_symbols() {
    let table = parser_operators();
    assert_eq!(table.plus, "+");
    assert_eq!(table.minus, "-");
    assert_eq!(table.multiply, "*");
    assert_eq!(table.divide, "/");
}

#[test]
fn markers_and_separators() {
    assert_eq!(NAN, "_NaN");
    assert_eq!(UNKNOWN, "_Unknown");
    assert_eq!(COMMA, ',');
    assert_eq!(SPACE, ' ');
    assert_eq!(DOT, '.');
    assert_eq!(VERSION, "1.1");
}

#[test]
fn valid_op_is_an_exact_match() {
    let table = parser_operators();
    assert!(table.valid_op("+"));
    assert!(table.valid_op("-"));
    assert!(table.valid_op("*"));
    assert!(table.valid_op("/"));
    assert!(!table.valid_op(""));
    assert!(!table.valid_op("%"));
    assert!(!table.valid_op("^"));
    assert!(!table.valid_op("x"));
    assert!(!table.valid_op("+ "));
    assert!(!table.valid_op(" +"));
    assert!(!table.valid_op("++"));
    assert!(!table.valid_op("+-"));
    assert!(!table.valid_op("Plus"));
    assert!(!table.valid_op("plus"));
    assert!(!table.valid_op("÷"));
}

#[test]
fn repr_gives_the_display_name() {
    let table = parser_operators();
    assert_eq!(table.repr("+"), "Plus");
    assert_eq!(table.repr("-"), "Minus");
    assert_eq!(table.repr("*"), "Multiply");
    assert_eq!(table.repr("/"), "Divide");
}

#[test]
fn repr_of_another_token_is_unknown() {
    let table = parser_operators();
    assert_eq!(table.repr("%"), "_Unknown");
    assert_eq!(table.repr(""), "_Unknown");
    assert_eq!(table.repr("+ "), "_Unknown");
    assert_eq!(table.repr("Plus"), "_Unknown");
    assert_eq!(table.repr("**"), "_Unknown");
}

#[test]
fn a_table_of_its_own_names_only_what_it_holds() {
    let table = Operators { plus: "+", minus: "minus", multiply: "x", divide: "/" };
    assert!(table.valid_op("minus"));
    assert!(!table.valid_op("-"));
    assert!(!table.valid_op("*"));
    assert_eq!(table.repr("+"), "Plus");
    assert_eq!(table.repr("/"), "Divide");
    assert_eq!(table.repr("-"), "_Unknown");
    assert_eq!(table.repr("*"), "_Unknown");
    assert_eq!(table.repr("minus"), "_Unknown");
    assert_eq!(table.repr("x"), "_Unknown");
}

#[test]
fn each_operator_has_its_symbol_and_name() {
    assert_eq!(Operator::Plus.as_symbol(), "+");
    assert_eq!(Operator::Minus.as_symbol(), "-");
    assert_eq!(Operator::Multiply.as_symbol(), "*");
    assert_eq!(Operator::Divide.as_symbol(), "/");
    assert_eq!(Operator::Plus.display_name(), "Plus");
    assert_eq!(Operator::Minus.display_name(), "Minus");
    assert_eq!(Operator::Multiply.display_name(), "Multiply");
    assert_eq!(Operator::Divide.display_name(), "Divide");
}

#[test]
fn a_symbol_stands_for_its_operator() {
    assert_eq!(Operator::from_symbol("+"), Some(Operator::Plus));
    assert_eq!(Operator::from_symbol("-"), Some(Operator::Minus));
    assert_eq!(Operator::from_symbol("*"), Some(Operator::Multiply));
    assert_eq!(Operator::from_symbol("/"), Some(Operator::Divide));
    for operator in [Operator::Plus, Operator::Minus, Operator::Multiply, Operator::Divide] {
        assert_eq!(Operator::from_symbol(operator.as_symbol()), Some(operator));
        assert_eq!(parser_operators().repr(operator.as_symbol()), operator.display_name());
    }
}

#[test]
fn another_token_stands_for_no_operator() {
    for token in ["", " ", "%", "+ ", " +", "++", "x", "Plus", "÷", "\u{2212}"] {
        assert_eq!(Operator::from_symbol(token), None, "{:?}", token);
    }
}
