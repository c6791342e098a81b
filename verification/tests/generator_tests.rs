use mathgen::generate::{GenerativeMathGen, MathGenerator, PrimitiveMathGen};
use mathgen::interval::Interval;
use mathgen::math::{expr_has_mul_or_div, gen_expr, generate, Expr, Op, Validator};
use mathgen::paint::{Configuration, ValidatorForMySon};
use mathgen::rng::rng_from_seed;

fn count_leaves(e: &Expr) -> i32 {
    match e {
        Expr::Single(_) => 1,
        Expr::Primitive(_, _, _) => 2,
        Expr::Compound(_, l, r) => count_leaves(l) + count_leaves(r),
    }
}

fn count_internal(e: &Expr) -> i32 {
    match e {
        Expr::Single(_) => 0,
        Expr::Primitive(_, _, _) => 1,
        Expr::Compound(_, l, r) => 1 + count_internal(l) + count_internal(r),
    }
}

fn leaves_within(e: &Expr, lo: i32, hi: i32) -> bool {
    match e {
        Expr::Single(v) => lo <= *v && *v < hi,
        Expr::Primitive(_, a, b) => lo <= *a && *a < hi && lo <= *b && *b < hi,
        Expr::Compound(_, l, r) => leaves_within(l, lo, hi) && leaves_within(r, lo, hi),
    }
}

/// Every division node divides exactly by a non-zero divisor and every
/// subtraction node takes the smaller value from the larger one, judged on
/// the evaluated operand values.
fn div_minus_nodes_sound(e: &Expr) -> bool {
    match e {
        Expr::Single(_) => true,
        Expr::Primitive(op, a, b) => match op {
            Op::Div => *b != 0 && a % b == 0,
            Op::Minus => a > b,
            _ => true,
        },
        Expr::Compound(op, l, r) => {
            let a = l.checked_eval().unwrap();
            let b = r.checked_eval().unwrap();
            let here = match op {
                Op::Div => b != 0 && a % b == 0,
                Op::Minus => a > b,
                _ => true,
            };
            here && div_minus_nodes_sound(l) && div_minus_nodes_sound(r)
        }
    }
}

#[test]
fn propagating_generator_meets_a_concrete_request() {
    let mut g = GenerativeMathGen::from_seed(11);
    g.level = 2;
    g.result_range = Interval::new(10, 400);
    g.single_range = Interval::new(10, 150);
    let mut found = None;
    let mut attempts = 0;
    while attempts < 50 {
        attempts += 1;
        if let Some(e) = g.gen(3, 2, 1) {
            if expr_has_mul_or_div(&e) && leaves_within(&e, 10, 150) {
                found = Some(e);
                break;
            }
        }
    }
    let e = found.expect("no acceptable expression within 50 attempts");
    let v = e.checked_eval().unwrap();
    assert!((10..400).contains(&v));
    assert_eq!(count_leaves(&e), 3);
    assert_eq!(count_internal(&e), 2);
}

#[test]
fn generated_trees_are_full_binary_trees() {
    let mut g = GenerativeMathGen::from_seed(3);
    for n in 2..6 {
        for _ in 0..20 {
            if let Some(e) = g.gen(n, n - 1, 50) {
                assert_eq!(count_leaves(&e), n);
                assert_eq!(count_internal(&e), n - 1);
            }
        }
    }
    let mut rng = rng_from_seed(4);
    for n in 1..8 {
        let e = gen_expr(&mut rng, n, n - 1);
        assert_eq!(count_leaves(&e), n);
        assert_eq!(count_internal(&e), n - 1);
    }
}

#[test]
fn propagating_generator_hits_the_target_range() {
    let mut g = GenerativeMathGen::from_seed(5);
    for _ in 0..100 {
        if let Some(e) = g.gen(3, 2, 50) {
            let v = e.checked_eval().expect("generated tree must evaluate");
            assert!(1 <= v && v < 400);
            assert!(div_minus_nodes_sound(&e));
        }
    }
}

#[test]
fn generate_and_test_generator_obeys_its_rules() {
    let mut g = PrimitiveMathGen::from_seed(6);
    g.level = 2;
    let mut produced = 0;
    for _ in 0..50 {
        if let Some(e) = g.generate_rand_math(200) {
            produced += 1;
            let v = e.checked_eval().expect("generated tree must evaluate");
            assert!(10 <= v && v < 400);
            assert!(expr_has_mul_or_div(&e));
            assert!(div_minus_nodes_sound(&e));
            assert_eq!(count_leaves(&e), 3);
        }
    }
    assert!(produced > 0, "the generator produced nothing in 50 requests");
}

#[test]
fn configuration_generator_obeys_the_default_policy() {
    let cfg = Configuration::basic();
    let mut rng = rng_from_seed(8);
    let mut produced = 0;
    for _ in 0..50 {
        if let Some(e) = cfg.generate_rand_math(&mut rng, 500) {
            produced += 1;
            let v = e.checked_eval().expect("generated tree must evaluate");
            assert!(0 <= v && v < 300);
            assert!(expr_has_mul_or_div(&e));
            assert!(div_minus_nodes_sound(&e));
            assert_eq!(count_leaves(&e), 3);
        }
    }
    assert!(produced > 0, "the generator produced nothing in 50 requests");
}

#[test]
fn one_leaf_request_is_decided_not_drawn() {
    // the leaf window meets the result range: one attempt must succeed
    let mut g = GenerativeMathGen::from_seed(14);
    let e = g.gen(1, 0, 1).expect("a one-leaf request with overlapping windows must succeed");
    let v = e.checked_eval().unwrap();
    assert!((10..150).contains(&v));
    assert_eq!(count_leaves(&e), 1);
    // disjoint windows: the same request must report failure
    let mut h = GenerativeMathGen::from_seed(15);
    h.result_range = Interval::new(200_000, 200_001);
    assert!(h.gen(1, 0, 5).is_none());

    let mut p = PrimitiveMathGen::from_seed(16);
    assert!(p.gen(1, 0, 1).is_some());
}

#[test]
fn init_resets_the_pass_state() {
    let cfg = Configuration::basic();
    let mut v = ValidatorForMySon {
        cfg: &cfg,
        has_mul_or_div: true,
    };
    v.init();
    assert!(!v.pass());
    assert!(!v.has_mul_or_div);
}

#[test]
fn a_failed_division_judgment_still_records_the_attempt() {
    let cfg = Configuration::basic();
    let mut v = ValidatorForMySon {
        cfg: &cfg,
        has_mul_or_div: false,
    };
    v.init();
    // inexact division: the judgment fails, the side fact is still recorded
    assert!(!v.on_primitive(Op::Div, 10, 3));
    assert!(v.pass());
    v.init();
    assert!(!v.on_primitive(Op::Mul, 1, 1));
    assert!(v.pass());
    v.init();
    assert!(v.on_primitive(Op::Minus, 50, 20));
    assert!(!v.pass());
}

#[test]
fn unsatisfiable_target_reports_failure() {
    let mut g = GenerativeMathGen::from_seed(9);
    g.result_range = Interval::new(500_000, 500_001);
    assert!(g.gen(3, 2, 25).is_none());
    assert!(g.generate_rand_math(25).is_none());
}

#[test]
fn sampling_stays_inside_the_asked_interval() {
    let mut g = GenerativeMathGen::from_seed(10);
    // a one-value interval forces the sample
    assert_eq!(g.rand(Interval::new(5, 6)), 5);
    for _ in 0..100 {
        let v = g.rand(Interval::new(3, 7));
        assert!(3 <= v && v < 7);
    }
    let mut p = PrimitiveMathGen::from_seed(12);
    assert_eq!(p.rand(Interval::new(-4, -3)), -4);
}

#[test]
fn injectable_policy_generation_is_policy_checked() {
    let cfg = Configuration::basic();
    let mut policy = ValidatorForMySon {
        cfg: &cfg,
        has_mul_or_div: false,
    };
    let mut rng = rng_from_seed(31);
    let target = Interval::new(0, 300);
    let mut produced = 0;
    for _ in 0..30 {
        if let Some(e) = generate(&mut rng, 3, target, &mut policy, 500) {
            produced += 1;
            assert_eq!(count_leaves(&e), 3);
            let v = e.checked_eval().expect("accepted tree must evaluate");
            assert!(target.contains(v));
            // a fresh walk of the same policy accepts the tree again
            policy.init();
            assert!(e.validate(&mut policy));
            assert!(policy.pass());
        }
    }
    assert!(produced > 0, "no policy-checked tree in 30 requests");
}

#[test]
fn worksheet_line_ends_with_the_equals_sign() {
    let cfg = Configuration::basic();
    let mut rng = rng_from_seed(13);
    let mut produced = 0;
    for _ in 0..20 {
        if let Some(line) = cfg.generate_math(&mut rng, 500) {
            produced += 1;
            assert!(line.ends_with('='));
            assert!(line.len() > 1);
        }
    }
    assert!(produced > 0, "no worksheet line in 20 requests");
}
