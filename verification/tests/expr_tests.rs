use mathgen::math::{eval_expr, expr_has_mul_or_div, validate_expr, Expr, Op, Validator};
use mathgen::paint::{Configuration, ValidatorForMySon};

fn leaf(v: i32) -> Box<Expr> {
    Box::new(Expr::Single(v))
}

#[test]
fn renders_flat_left_chain_of_mul_and_div() {
    let e = Expr::Compound(
        Op::Div,
        Box::new(Expr::Compound(Op::Mul, leaf(4), leaf(5))),
        leaf(2),
    );
    assert_eq!(e.render(), "4x5÷2");
    assert_eq!(e.checked_eval(), Some(10));
    assert_eq!(eval_expr(&e), 10);
}

#[test]
fn renders_parenthesized_sum_under_minus() {
    let e = Expr::Compound(
        Op::Minus,
        leaf(10),
        Box::new(Expr::Compound(Op::Add, leaf(3), leaf(2))),
    );
    assert_eq!(e.render(), "10-(3+2)");
    assert_eq!(e.checked_eval(), Some(5));
}

#[test]
fn renders_parenthesized_sum_under_mul_on_the_left() {
    let e = Expr::Compound(
        Op::Mul,
        Box::new(Expr::Compound(Op::Add, leaf(1), leaf(2))),
        leaf(3),
    );
    assert_eq!(e.render(), "(1+2)x3");
    assert_eq!(e.checked_eval(), Some(9));
}

#[test]
fn renders_parenthesized_division_on_the_right_of_division() {
    let e = Expr::Compound(
        Op::Div,
        leaf(100),
        Box::new(Expr::Compound(Op::Div, leaf(10), leaf(2))),
    );
    assert_eq!(e.render(), "100÷(10÷2)");
    assert_eq!(e.checked_eval(), Some(20));
}

#[test]
fn renders_numbers_and_primitives() {
    assert_eq!(Expr::Single(0).render(), "0");
    assert_eq!(Expr::Single(7).render(), "7");
    assert_eq!(Expr::Single(-5).render(), "-5");
    assert_eq!(Expr::Single(12345).render(), "12345");
    assert_eq!(Expr::Primitive(Op::Add, 1, 2).render(), "1+2");
    assert_eq!(Expr::Primitive(Op::Minus, 31, 7).render(), "31-7");
    assert_eq!(Expr::Primitive(Op::Mul, 6, 9).render(), "6x9");
    assert_eq!(Expr::Primitive(Op::Div, 56, 8).render(), "56÷8");
}

#[test]
fn operator_symbols() {
    assert_eq!(Op::Add.symbol(), "+");
    assert_eq!(Op::Minus.symbol(), "-");
    assert_eq!(Op::Mul.symbol(), "x");
    assert_eq!(Op::Div.symbol(), "÷");
}

#[test]
fn primitive_evaluates_like_two_leaf_compound() {
    let cases = [
        (Op::Add, 13, 29),
        (Op::Minus, 50, 18),
        (Op::Mul, 12, 11),
        (Op::Div, 91, 7),
        (Op::Minus, 3, 44),
        (Op::Div, -20, 6),
    ];
    for (op, a, b) in cases {
        let p = Expr::Primitive(op, a, b);
        let c = Expr::Compound(op, leaf(a), leaf(b));
        assert_eq!(p.checked_eval(), c.checked_eval());
    }
}

#[test]
fn evaluator_rejects_division_by_zero() {
    assert_eq!(Expr::Primitive(Op::Div, 10, 0).checked_eval(), None);
    let e = Expr::Compound(
        Op::Div,
        leaf(10),
        Box::new(Expr::Compound(Op::Minus, leaf(5), leaf(5))),
    );
    assert_eq!(e.checked_eval(), None);
}

#[test]
fn evaluator_rejects_overflow() {
    assert_eq!(Expr::Primitive(Op::Add, i32::MAX, 1).checked_eval(), None);
    assert_eq!(Expr::Primitive(Op::Mul, 100_000, 100_000).checked_eval(), None);
    assert_eq!(Expr::Primitive(Op::Minus, i32::MIN, 1).checked_eval(), None);
    assert_eq!(Expr::Primitive(Op::Div, i32::MIN, -1).checked_eval(), None);
    assert_eq!(Expr::Primitive(Op::Div, i32::MIN, 2).checked_eval(), Some(i32::MIN / 2));
}

#[test]
fn truncating_division_matches_the_machine() {
    let cases = [(7, 2), (-7, 2), (100, 9), (-100, 9), (0, 5)];
    for (a, b) in cases {
        assert_eq!(Expr::Primitive(Op::Div, a, b).checked_eval(), Some(a / b));
    }
}

#[test]
fn default_policy_accepts_a_conforming_tree() {
    let cfg = Configuration::basic();
    let e = Expr::Compound(
        Op::Add,
        Box::new(Expr::Primitive(Op::Mul, 6, 7)),
        leaf(30),
    );
    let mut v = ValidatorForMySon {
        cfg: &cfg,
        has_mul_or_div: false,
    };
    v.init();
    assert!(e.validate(&mut v));
    assert!(v.pass());
    assert!(expr_has_mul_or_div(&e));
}

#[test]
fn default_policy_rejects_inexact_division() {
    let cfg = Configuration::basic();
    let mut v = ValidatorForMySon {
        cfg: &cfg,
        has_mul_or_div: false,
    };
    v.init();
    assert!(!validate_expr(&Expr::Primitive(Op::Div, 10, 3), &mut v));
    // the walk reached the division, so the side fact was still recorded
    assert!(v.pass());
    v.init();
    assert!(!validate_expr(&Expr::Primitive(Op::Div, 10, 1), &mut v));
    v.init();
    assert!(!validate_expr(&Expr::Primitive(Op::Div, 90, 9), &mut v));
}

#[test]
fn default_policy_rejects_out_of_window_operands() {
    let cfg = Configuration::basic();
    let mut v = ValidatorForMySon {
        cfg: &cfg,
        has_mul_or_div: false,
    };
    // multiplication operands must lie in the configured window
    v.init();
    assert!(!validate_expr(&Expr::Primitive(Op::Mul, 3, 7), &mut v));
    // subtraction must take the smaller from the larger
    v.init();
    assert!(!validate_expr(&Expr::Primitive(Op::Minus, 20, 30), &mut v));
    // a leaf outside the single-value window
    v.init();
    assert!(!validate_expr(&Expr::Single(150), &mut v));
}

#[test]
fn whole_attempt_pass_needs_a_mul_or_div() {
    let cfg = Configuration::basic();
    let e = Expr::Primitive(Op::Add, 20, 30);
    let mut v = ValidatorForMySon {
        cfg: &cfg,
        has_mul_or_div: false,
    };
    v.init();
    assert!(e.validate(&mut v));
    assert!(!v.pass());
    assert!(!expr_has_mul_or_div(&e));
}

#[test]
fn revalidation_after_init_is_deterministic() {
    let cfg = Configuration::basic();
    let trees = [
        Expr::Compound(Op::Add, Box::new(Expr::Primitive(Op::Mul, 6, 7)), leaf(30)),
        Expr::Primitive(Op::Div, 10, 3),
        Expr::Primitive(Op::Minus, 77, 33),
        Expr::Single(42),
    ];
    let mut v = ValidatorForMySon {
        cfg: &cfg,
        has_mul_or_div: false,
    };
    for e in &trees {
        v.init();
        let first = e.validate(&mut v);
        let first_pass = v.pass();
        v.init();
        let second = e.validate(&mut v);
        let second_pass = v.pass();
        assert_eq!(first, second);
        assert_eq!(first_pass, second_pass);
    }
}
