use mathgen::generate::{GenerativeMathGen, MathGenerator, PrimitiveMathGen};
use mathgen::math::{Expr, Op};
use mathgen::paint::Configuration;
use mathgen::rng::rng_from_seed;

/// A plain precedence parser over the printed form: `x` and `÷` bind
/// tighter than `+` and `-`, same-precedence operators associate to the
/// left, and parentheses group. Evaluates as it parses, in a wider integer
/// width so re-association cannot overflow.
struct Parser {
    cs: Vec<char>,
    pos: usize,
}

impl Parser {
    fn peek(&self) -> Option<char> {
        self.cs.get(self.pos).copied()
    }

    fn bump(&mut self) -> Option<char> {
        let c = self.peek();
        if c.is_some() {
            self.pos += 1;
        }
        c
    }

    fn parse_expr(&mut self) -> Option<i64> {
        let mut acc = self.parse_term()?;
        while let Some(c) = self.peek() {
            match c {
                '+' => {
                    self.bump();
                    acc += self.parse_term()?;
                }
                '-' => {
                    self.bump();
                    acc -= self.parse_term()?;
                }
                _ => break,
            }
        }
        Some(acc)
    }

    fn parse_term(&mut self) -> Option<i64> {
        let mut acc = self.parse_factor()?;
        while let Some(c) = self.peek() {
            match c {
                'x' => {
                    self.bump();
                    acc *= self.parse_factor()?;
                }
                '÷' => {
                    self.bump();
                    let d = self.parse_factor()?;
                    if d == 0 {
                        return None;
                    }
                    acc /= d;
                }
                _ => break,
            }
        }
        Some(acc)
    }

    fn parse_factor(&mut self) -> Option<i64> {
        match self.peek()? {
            '(' => {
                self.bump();
                let v = self.parse_expr()?;
                if self.bump()? != ')' {
                    return None;
                }
                Some(v)
            }
            '-' => {
                self.bump();
                Some(-self.parse_number()?)
            }
            _ => self.parse_number(),
        }
    }

    fn parse_number(&mut self) -> Option<i64> {
        let mut v: i64 = 0;
        let mut any = false;
        while let Some(c) = self.peek() {
            if let Some(d) = c.to_digit(10) {
                v = v * 10 + d as i64;
                any = true;
                self.pos += 1;
            } else {
                break;
            }
        }
        if any {
            Some(v)
        } else {
            None
        }
    }
}

fn parse_eval(s: &str) -> Option<i64> {
    let mut p = Parser {
        cs: s.chars().collect(),
        pos: 0,
    };
    let v = p.parse_expr()?;
    if p.pos == p.cs.len() {
        Some(v)
    } else {
        None
    }
}

fn assert_round_trip(e: &Expr) {
    let printed = e.render();
    let direct = e.checked_eval().expect("corpus trees must evaluate") as i64;
    let reparsed = parse_eval(&printed);
    assert_eq!(
        reparsed,
        Some(direct),
        "round trip failed for {printed}: tree value {direct}, reparsed {reparsed:?}"
    );
}

fn leaf(v: i32) -> Box<Expr> {
    Box::new(Expr::Single(v))
}

#[test]
fn parser_handles_precedence_and_grouping() {
    assert_eq!(parse_eval("2+3x4"), Some(14));
    assert_eq!(parse_eval("(2+3)x4"), Some(20));
    assert_eq!(parse_eval("50-20-(9-4)"), Some(25));
    assert_eq!(parse_eval("36÷6x(2+3)"), Some(30));
    assert_eq!(parse_eval("10+-3"), Some(7));
    assert_eq!(parse_eval("7÷2"), Some(3));
    assert_eq!(parse_eval("1÷0"), None);
    assert_eq!(parse_eval("1+"), None);
}

#[test]
fn round_trip_on_handpicked_trees() {
    let corpus = vec![
        Expr::Compound(
            Op::Div,
            Box::new(Expr::Compound(Op::Mul, leaf(4), leaf(5))),
            leaf(2),
        ),
        Expr::Compound(
            Op::Minus,
            leaf(10),
            Box::new(Expr::Compound(Op::Add, leaf(3), leaf(2))),
        ),
        Expr::Compound(
            Op::Minus,
            Box::new(Expr::Compound(Op::Minus, leaf(50), leaf(20))),
            Box::new(Expr::Compound(Op::Minus, leaf(9), leaf(4))),
        ),
        Expr::Compound(
            Op::Mul,
            Box::new(Expr::Compound(Op::Div, leaf(36), leaf(6))),
            Box::new(Expr::Compound(Op::Add, leaf(2), leaf(3))),
        ),
        Expr::Compound(
            Op::Add,
            Box::new(Expr::Compound(Op::Mul, leaf(3), leaf(4))),
            Box::new(Expr::Compound(Op::Mul, leaf(5), leaf(6))),
        ),
        Expr::Compound(
            Op::Div,
            Box::new(Expr::Compound(Op::Mul, leaf(8), leaf(9))),
            Box::new(Expr::Compound(Op::Add, leaf(4), leaf(5))),
        ),
        // an exact division on the right of a multiplication reads flat
        Expr::Compound(
            Op::Mul,
            leaf(7),
            Box::new(Expr::Compound(Op::Div, leaf(10), leaf(2))),
        ),
        Expr::Compound(
            Op::Div,
            leaf(100),
            Box::new(Expr::Compound(Op::Div, leaf(10), leaf(2))),
        ),
        Expr::Compound(Op::Add, leaf(10), leaf(-3)),
        Expr::Compound(
            Op::Minus,
            Box::new(Expr::Compound(Op::Add, leaf(1), leaf(2))),
            Box::new(Expr::Compound(Op::Mul, leaf(1), leaf(2))),
        ),
        Expr::Primitive(Op::Div, 81, 9),
        Expr::Single(-17),
    ];
    for e in &corpus {
        assert_round_trip(e);
    }
}

#[test]
fn round_trip_on_propagated_trees() {
    let mut g = GenerativeMathGen::from_seed(21);
    for n in 2..6 {
        for _ in 0..60 {
            if let Some(e) = g.gen(n, n - 1, 50) {
                assert_round_trip(&e);
            }
        }
    }
}

#[test]
fn round_trip_on_generate_and_test_trees() {
    let mut g = PrimitiveMathGen::from_seed(22);
    for level in 1..4 {
        g.level = level;
        for _ in 0..30 {
            if let Some(e) = g.generate_rand_math(200) {
                assert_round_trip(&e);
            }
        }
    }
}

#[test]
fn round_trip_on_policy_checked_trees() {
    let cfg = Configuration::basic();
    let mut rng = rng_from_seed(23);
    for _ in 0..40 {
        if let Some(e) = cfg.generate_rand_math(&mut rng, 500) {
            assert_round_trip(&e);
        }
    }
}
