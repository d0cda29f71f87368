use cosmetics::edit::is_control;
use cosmetics::expr::{is_numeral, is_space, parse_expr_chars, starts_number, Expr, Parser};

fn chars(s: &str) -> Vec<char> {
    s.chars().collect()
}

fn eval(e: &Expr) -> Option<f64> {
    match e {
        Expr::Number(d) => d.iter().collect::<String>().parse::<f64>().ok(),
        Expr::Add(a, b) => Some(eval(a)? + eval(b)?),
        Expr::Sub(a, b) => Some(eval(a)? - eval(b)?),
        Expr::Mul(a, b) => Some(eval(a)? * eval(b)?),
        Expr::Div(a, b) => Some(eval(a)? / eval(b)?),
        Expr::Neg(a) => Some(-eval(a)?),
    }
}

fn value(s: &str) -> Option<f64> {
    let e = parse_expr_chars(&chars(s))?;
    let v = eval(&e)?;
    if v.is_finite() {
        Some(v)
    } else {
        None
    }
}

fn tree(s: &str) -> String {
    format!("{:?}", parse_expr_chars(&chars(s)))
}

#[test]
fn division_example_evaluates() {
    assert_eq!(value("100/2"), Some(50.0));
}

#[test]
fn precedence_example_evaluates() {
    assert_eq!(value("10+2*3"), Some(16.0));
    assert_eq!(
        tree("10+2*3"),
        "Some(Add(Number(['1', '0']), Mul(Number(['2']), Number(['3']))))"
    );
}

#[test]
fn subtraction_is_left_associative() {
    assert_eq!(value("10-2-3"), Some(5.0));
    assert_eq!(value("8/4/2"), Some(1.0));
}

#[test]
fn parentheses_and_unary_signs() {
    assert_eq!(value("(1+2)*3"), Some(9.0));
    assert_eq!(value("-(2+3)"), Some(-5.0));
    assert_eq!(value("+4"), Some(4.0));
    assert_eq!(value("--4"), Some(4.0));
    assert_eq!(value("2*-3"), Some(-6.0));
}

#[test]
fn white_space_is_skipped() {
    assert_eq!(value("  1 +\t2  "), Some(3.0));
    assert_eq!(value(" ( 4 ) "), Some(4.0));
}

#[test]
fn decimals_are_read() {
    assert_eq!(value("1.5*2"), Some(3.0));
    assert_eq!(value(".5"), Some(0.5));
    assert_eq!(value("2."), Some(2.0));
}

#[test]
fn rejected_inputs() {
    assert_eq!(tree(""), "None");
    assert_eq!(tree("   "), "None");
    assert_eq!(tree("1+"), "None");
    assert_eq!(tree("(1"), "None");
    assert_eq!(tree("1)"), "None");
    assert_eq!(tree("1 2"), "None");
    assert_eq!(tree("abc"), "None");
    assert_eq!(tree("*2"), "None");
}

#[test]
fn malformed_literal_parses_but_does_not_evaluate() {
    assert_eq!(tree("1.2.3"), "Some(Number(['1', '.', '2', '.', '3']))");
    assert_eq!(value("1.2.3"), None);
    assert_eq!(value("."), None);
}

#[test]
fn division_by_zero_is_not_a_value() {
    assert!(parse_expr_chars(&chars("1/0")).is_some());
    assert_eq!(value("1/0"), None);
}

#[test]
fn digits_only_is_one_literal() {
    assert_eq!(tree("0042"), "Some(Number(['0', '0', '4', '2']))");
}

#[test]
fn parser_peek_and_skip() {
    let mut p = Parser::new(chars("  7"));
    assert_eq!(p.peek(), Some(' '));
    p.skip_ws();
    assert_eq!(p.peek(), Some('7'));
    let mut q = Parser::new(chars(""));
    assert_eq!(q.peek(), None);
    q.skip_ws();
    assert_eq!(q.peek(), None);
}

#[test]
fn parser_number_reads_run() {
    let mut p = Parser::new(chars(" 12.5x"));
    let n = p.number();
    assert_eq!(format!("{:?}", n), "Some(Number(['1', '2', '.', '5']))");
    assert_eq!(p.peek(), Some('x'));
    let mut q = Parser::new(chars("x"));
    assert!(q.number().is_none());
}

#[test]
fn parser_factor_term_expr_stop_at_unknown() {
    let mut p = Parser::new(chars("2*3+4)"));
    let e = p.expr().unwrap();
    assert_eq!(eval(&e), Some(10.0));
    assert_eq!(p.peek(), Some(')'));
    let mut t = Parser::new(chars("2*3+4"));
    let e = t.term().unwrap();
    assert_eq!(eval(&e), Some(6.0));
    assert_eq!(t.peek(), Some('+'));
    let mut f = Parser::new(chars("-(1)*2"));
    let e = f.factor().unwrap();
    assert_eq!(eval(&e), Some(-1.0));
    assert_eq!(f.peek(), Some('*'));
}

#[test]
fn starts_number_set() {
    for c in ['0', '5', '9', '-', '+', '.', '('] {
        assert!(starts_number(c));
    }
    for c in ['a', ' ', ')', '*', '/', 'e'] {
        assert!(!starts_number(c));
    }
}

#[test]
fn space_set_matches_std() {
    for u in 0u32..=0x10FFFF {
        if let Some(c) = char::from_u32(u) {
            assert_eq!(is_space(c), c.is_whitespace(), "{:x}", u);
            assert_eq!(is_control(c), c.is_control(), "{:x}", u);
            assert_eq!(is_numeral(c), c.is_ascii_digit() || c == '.', "{:x}", u);
        }
    }
}
