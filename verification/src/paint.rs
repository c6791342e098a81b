use super::interval::Interval;
use super::math::{
    div_check, div_divisors_one_digit, div_nodes_exact, div_trunc, eval_val, evaluable, gen_expr,
    has_mul_or_div, leaf_count, lemma_validation_deterministic, minus_nodes_decreasing, valid_spec,
    walk_gain, Expr, Op, Validator,
};
use super::render::render_spec;
use vstd::prelude::*;
use vstd::string::StringExecFns;

verus! {

/// Grade-level configuration for the generate-and-test generator: a page
/// title, the number of operator applications (`level`; a tree gets
/// `level + 1` leaves), and the numeric windows the default policy enforces.
pub struct Configuration {
    pub title: String,
    pub level: i32,
    pub result_range: Interval,
    pub single_range: Interval,
    pub addition_range: Interval,
    pub multiplication_range: Interval,
}

/// The default teaching policy's judgment of one leaf value: it must lie in
/// the configured single-value window.
pub open spec fn my_son_single_ok(cfg: Configuration, v: i32) -> bool {
    cfg.single_range.contains_spec(v as int)
}

/// The default teaching policy's judgment of one operator application:
/// a division takes a one-digit divisor greater than one and yields a
/// one-digit exact quotient; multiplication operands lie in the configured
/// multiplication window; addition and subtraction operands lie in the
/// configured addition window, a subtraction's left operand above its right.
pub open spec fn my_son_primitive_ok(cfg: Configuration, op: Op, a: i32, b: i32) -> bool {
    match op {
        Op::Div => 2 <= b < 10 && div_trunc(a as int, b as int) < 10 && div_trunc(
            a as int,
            b as int,
        ) * b == a,
        Op::Mul => cfg.multiplication_range.contains_spec(a as int)
            && cfg.multiplication_range.contains_spec(b as int),
        Op::Minus => cfg.addition_range.contains_spec(a as int)
            && cfg.addition_range.contains_spec(b as int) && a > b,
        Op::Add => cfg.addition_range.contains_spec(a as int) && cfg.addition_range.contains_spec(
            b as int,
        ),
    }
}

/// The default policy's acceptance of a whole tree, as a predicate of the
/// configuration alone: every leaf in the single-value window, every
/// operator application accepted on the evaluated values of its operands.
pub open spec fn my_son_valid(cfg: Configuration, e: Expr) -> bool
    decreases e,
{
    match e {
        Expr::Single(x) => my_son_single_ok(cfg, x),
        Expr::Primitive(op, a, b) => my_son_single_ok(cfg, a) && my_son_single_ok(cfg, b)
            && my_son_primitive_ok(cfg, op, a, b),
        Expr::Compound(op, l, r) => my_son_valid(cfg, *l) && my_son_valid(cfg, *r) && evaluable(*l)
            && evaluable(*r) && my_son_single_ok(cfg, eval_val(*l)) && my_son_single_ok(
            cfg,
            eval_val(*r),
        ) && my_son_primitive_ok(cfg, op, eval_val(*l), eval_val(*r)),
    }
}

/// The default teaching policy over a borrowed configuration. Its one piece
/// of per-attempt state records whether a multiplication or a division was
/// seen, for the whole-attempt `pass` judgment.
pub struct ValidatorForMySon<'a> {
    pub cfg: &'a Configuration,
    pub has_mul_or_div: bool,
}

impl<'a> Validator for ValidatorForMySon<'a> {
    open spec fn single_ok(&self, v: i32) -> bool {
        my_son_single_ok(*self.cfg, v)
    }

    open spec fn primitive_ok(&self, op: Op, v1: i32, v2: i32) -> bool {
        my_son_primitive_ok(*self.cfg, op, v1, v2)
    }

    open spec fn passes(&self) -> bool {
        self.has_mul_or_div
    }

    open spec fn passes_gain(&self, op: Op, v1: i32, v2: i32) -> bool {
        op is Mul || op is Div
    }

    open spec fn passes_reset(&self) -> bool {
        false
    }

    fn on_single(&mut self, v: i32) -> (r: bool)
        ensures
            final(self).has_mul_or_div == old(self).has_mul_or_div,
            final(self).cfg == old(self).cfg,
    {
        self.cfg.single_range.contains(v)
    }

    fn on_primitive(&mut self, op: Op, v1: i32, v2: i32) -> (r: bool)
        ensures
            final(self).has_mul_or_div == (old(self).has_mul_or_div || op is Mul || op is Div),
            final(self).cfg == old(self).cfg,
    {
        match op {
            Op::Div => {
                self.has_mul_or_div = true;
                div_check(v1, v2)
            },
            Op::Mul => {
                self.has_mul_or_div = true;
                self.cfg.multiplication_range.contains(v1) && self.cfg.multiplication_range.contains(
                    v2,
                )
            },
            Op::Minus => {
                self.cfg.addition_range.contains(v1) && self.cfg.addition_range.contains(v2) && v1
                    > v2
            },
            Op::Add => {
                self.cfg.addition_range.contains(v1) && self.cfg.addition_range.contains(v2)
            },
        }
    }

    fn pass(&self) -> (r: bool) {
        self.has_mul_or_div
    }

    fn init(&mut self)
        ensures
            final(self).has_mul_or_div == false,
            final(self).cfg == old(self).cfg,
    {
        self.has_mul_or_div = false;
    }
}

/// The generic validation walk under the default policy decides exactly
/// `my_son_valid` of the borrowed configuration.
pub proof fn lemma_my_son_valid<'a>(v: ValidatorForMySon<'a>, e: Expr)
    ensures
        valid_spec(e, v) == my_son_valid(*v.cfg, e),
    decreases e,
{
    match e {
        Expr::Single(_) => {},
        Expr::Primitive(_, _, _) => {},
        Expr::Compound(_, l, r) => {
            lemma_my_son_valid(v, *l);
            lemma_my_son_valid(v, *r);
        },
    }
}

/// Under the default policy every division node of an accepted tree divides
/// exactly by a non-zero one-digit divisor greater than one, and every
/// subtraction node takes the smaller value from the larger one.
pub proof fn lemma_my_son_div_minus(cfg: Configuration, e: Expr)
    requires
        my_son_valid(cfg, e),
    ensures
        div_nodes_exact(e),
        div_divisors_one_digit(e),
        minus_nodes_decreasing(e),
    decreases e,
{
    match e {
        Expr::Single(_) => {},
        Expr::Primitive(_, _, _) => {},
        Expr::Compound(_, l, r) => {
            lemma_my_son_div_minus(cfg, *l);
            lemma_my_son_div_minus(cfg, *r);
        },
    }
}

/// A walk of a tree the default policy accepts turns the whole-attempt
/// state on exactly when the tree holds a multiplication or a division: so
/// after a fresh `init`, `validate` of an accepted tree with such a node
/// leaves `pass()` true, and it does so again on every re-run.
pub proof fn lemma_my_son_walk_gain<'a>(v: ValidatorForMySon<'a>, e: Expr)
    requires
        my_son_valid(*v.cfg, e),
    ensures
        walk_gain(e, v) == has_mul_or_div(e),
    decreases e,
{
    lemma_my_son_valid(v, e);
    match e {
        Expr::Single(_) => {},
        Expr::Primitive(_, _, _) => {},
        Expr::Compound(_, l, r) => {
            lemma_my_son_valid(v, *l);
            lemma_my_son_valid(v, *r);
            lemma_my_son_walk_gain(v, *l);
            lemma_my_son_walk_gain(v, *r);
        },
    }
}

impl Configuration {
    /// The stock grade-level configuration.
    pub fn basic() -> (r: Configuration)
        ensures
            r.title@ == "四则混合练习题"@,
            r.level == 2,
            r.single_range == (Interval { start: 0, end: 100 }),
            r.result_range == (Interval { start: 0, end: 300 }),
            r.addition_range == (Interval { start: 10, end: 100 }),
            r.multiplication_range == (Interval { start: 5, end: 21 }),
    {
        Configuration {
            title: String::from_str("四则混合练习题"),
            level: 2,
            single_range: Interval { start: 0, end: 100 },
            result_range: Interval { start: 0, end: 300 },
            addition_range: Interval { start: 10, end: 100 },
            multiplication_range: Interval { start: 5, end: 21 },
        }
    }

    /// Generate-and-test: build random trees until one passes the default
    /// policy, shows at least one multiplication or division, and evaluates
    /// into the configured result range; `None` once the attempt budget is
    /// spent without an acceptable tree.
    pub fn generate_rand_math(&self, rng: &mut rand::rngs::StdRng, max_attempts: u32) -> (r: Option<
        Expr,
    >)
        requires
            0 <= self.level < i32::MAX,
        ensures
            r matches Some(e) ==> {
                &&& leaf_count(e) == self.level + 1
                &&& my_son_valid(*self, e)
                &&& evaluable(e)
                &&& self.result_range.contains_spec(eval_val(e) as int)
                &&& has_mul_or_div(e)
            },
    {
        let noprand = self.level + 1;
        let nop = self.level;
        let mut attempt: u32 = 0;
        while attempt < max_attempts
            invariant
                noprand == self.level + 1,
                nop == noprand - 1,
                1 <= noprand,
                attempt <= max_attempts,
            decreases max_attempts - attempt,
        {
            let e = gen_expr(rng, noprand, nop);
            let mut validator = ValidatorForMySon { cfg: self, has_mul_or_div: false };
            let ghost v0 = validator;
            validator.init();
            let ghost v1 = validator;
            let ok = e.validate(&mut validator);
            proof {
                lemma_validation_deterministic(e, v1, v0);
                lemma_my_son_valid(v0, e);
                if valid_spec(e, v0) {
                    lemma_my_son_walk_gain(v0, e);
                }
            }
            if ok && validator.pass() {
                match e.checked_eval() {
                    Some(val) => if self.result_range.contains(val) {
                        return Some(e);
                    },
                    None => {},
                }
            }
            attempt = attempt + 1;
        }
        None
    }

    /// The worksheet text for one generated exercise: the rendered
    /// expression followed by the equals sign the pupil completes.
    pub fn generate_math(&self, rng: &mut rand::rngs::StdRng, max_attempts: u32) -> (r: Option<
        String,
    >)
        requires
            0 <= self.level < i32::MAX,
        ensures
            r matches Some(s) ==> exists|e: Expr|
                {
                    &&& #[trigger] my_son_valid(*self, e)
                    &&& leaf_count(e) == self.level + 1
                    &&& evaluable(e)
                    &&& self.result_range.contains_spec(eval_val(e) as int)
                    &&& has_mul_or_div(e)
                    &&& s@ == render_spec(e) + seq!['=']
                },
    {
        match self.generate_rand_math(rng, max_attempts) {
            Some(e) => {
                let mut s = e.render();
                s.append("=");
                proof {
                    reveal_strlit("=");
                    assert(s@ =~= render_spec(e) + seq!['=']);
                }
                Some(s)
            },
            None => None,
        }
    }
}

} // verus!
