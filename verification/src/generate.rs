use super::interval::{intersect_spec, Interval};
use super::math::{
    div_check, div_divisors_one_digit, div_i32, div_nodes_exact, div_trunc, eval_step, eval_val,
    evaluable, expr_has_mul_or_div, has_mul_or_div, leaf_count, lemma_mul_div_cancel,
    minus_nodes_decreasing, Expr, Op,
};
use vstd::arithmetic::div_mod::lemma_div_is_ordered;
use vstd::prelude::*;

verus! {

/// A source of random exercises. The spec functions name the configured
/// tree size (`operand_count`), the configured result range (`target`), the
/// configuration's well-formedness (`wf`), what the implementation
/// additionally guarantees of every tree it hands out (`gen_post`,
/// `rand_math_post`), and on which inputs one attempt is decided rather
/// than drawn, so success is owed (`gen_sure`, `rand_math_sure`).
pub trait MathGenerator: Sized {
    /// Well-formedness of the generator's configuration.
    spec fn wf(&self) -> bool;

    /// The number of leaves a full generation request asks for.
    spec fn operand_count(&self) -> int;

    /// The result range a full generation request aims at.
    spec fn target(&self) -> Interval;

    /// What holds of every tree `gen` hands out.
    spec fn gen_post(&self, e: Expr) -> bool;

    /// What holds of every tree `generate_rand_math` hands out.
    spec fn rand_math_post(&self, e: Expr) -> bool;

    /// The tree sizes for which one `gen` attempt is certain to succeed,
    /// whatever the random draws.
    spec fn gen_sure(&self, noprand: int) -> bool;

    /// Whether one `generate_rand_math` attempt is certain to succeed,
    /// whatever the random draws.
    spec fn rand_math_sure(&self) -> bool;

    /// One full generation request: a tree of the configured size whose
    /// value lies in the configured result range, or `None` once the
    /// attempt budget is spent without an acceptable tree.
    fn generate_rand_math(&mut self, max_attempts: u32) -> (r: Option<Expr>)
        requires
            old(self).wf(),
        ensures
            final(self).wf(),
            final(self).operand_count() == old(self).operand_count(),
            final(self).target() == old(self).target(),
            old(self).rand_math_sure() && max_attempts >= 1 ==> r is Some,
            r matches Some(e) ==> {
                &&& leaf_count(e) == old(self).operand_count()
                &&& evaluable(e)
                &&& old(self).target().contains_spec(eval_val(e) as int)
                &&& old(self).rand_math_post(e)
            },
    ;

    /// Build one tree with `noprand` leaves and `nop` operator
    /// applications, or `None` once the attempt budget is spent.
    fn gen(&mut self, noprand: i32, nop: i32, max_attempts: u32) -> (r: Option<Expr>)
        requires
            old(self).wf(),
            1 <= noprand,
            nop == noprand - 1,
        ensures
            final(self).wf(),
            final(self).operand_count() == old(self).operand_count(),
            final(self).target() == old(self).target(),
            old(self).gen_sure(noprand as int) && max_attempts >= 1 ==> r is Some,
            r matches Some(e) ==> {
                &&& leaf_count(e) == noprand as nat
                &&& evaluable(e)
                &&& old(self).gen_post(e)
            },
    ;
}

/// The built-in per-node acceptance of the generate-and-test generator: a
/// division must be exact with a one-digit divisor greater than one and a
/// one-digit quotient; multiplication operands must lie in `mul_window`;
/// subtraction operands must lie in `add_window` with the left one larger;
/// addition is always accepted.
pub open spec fn prim_ok(add_window: Interval, mul_window: Interval, op: Op, a: int, b: int) -> bool {
    match op {
        Op::Div => 2 <= b < 10 && div_trunc(a, b) < 10 && div_trunc(a, b) * b == a,
        Op::Mul => mul_window.contains_spec(a) && mul_window.contains_spec(b),
        Op::Minus => add_window.contains_spec(a) && add_window.contains_spec(b) && a > b,
        Op::Add => true,
    }
}

/// Acceptance of a whole tree under the built-in rules: every leaf lies in
/// the single-value window and every operator application is accepted on
/// the evaluated values of its operands, which therefore evaluate within
/// the bounded width.
pub open spec fn tree_ok(
    single: Interval,
    add_window: Interval,
    mul_window: Interval,
    e: Expr,
) -> bool
    decreases e,
{
    match e {
        Expr::Single(v) => single.contains_spec(v as int),
        Expr::Primitive(op, a, b) => single.contains_spec(a as int) && single.contains_spec(
            b as int,
        ) && prim_ok(add_window, mul_window, op, a as int, b as int),
        Expr::Compound(op, l, r) => tree_ok(single, add_window, mul_window, *l) && tree_ok(
            single,
            add_window,
            mul_window,
            *r,
        ) && evaluable(*l) && evaluable(*r) && prim_ok(
            add_window,
            mul_window,
            op,
            eval_val(*l) as int,
            eval_val(*r) as int,
        ),
    }
}

/// Under the built-in rules every division node of an accepted tree divides
/// exactly by a non-zero one-digit divisor greater than one, and every
/// subtraction node takes the smaller value from the larger one.
pub proof fn lemma_tree_ok_div_minus(
    single: Interval,
    add_window: Interval,
    mul_window: Interval,
    e: Expr,
)
    requires
        tree_ok(single, add_window, mul_window, e),
    ensures
        div_nodes_exact(e),
        div_divisors_one_digit(e),
        minus_nodes_decreasing(e),
    decreases e,
{
    match e {
        Expr::Single(_) => {},
        Expr::Primitive(_, _, _) => {},
        Expr::Compound(_, l, r) => {
            lemma_tree_ok_div_minus(single, add_window, mul_window, *l);
            lemma_tree_ok_div_minus(single, add_window, mul_window, *r);
        },
    }
}

/// The generate-and-test generator: build a random full binary tree, judge
/// each node locally against the built-in rules as the tree grows, and
/// accept a full tree only when its value lands in the result range and it
/// shows at least one multiplication or division.
pub struct PrimitiveMathGen {
    pub level: i32,
    pub result_range: Interval,
    pub single_range: Interval,
    pub addition_range: Interval,
    pub multiplication_range: Interval,
    pub rng: rand::rngs::StdRng,
}

impl PrimitiveMathGen {
    /// Everything but the random source.
    pub open spec fn config_eq(self, other: PrimitiveMathGen) -> bool {
        &&& self.level == other.level
        &&& self.result_range == other.result_range
        &&& self.single_range == other.single_range
        &&& self.addition_range == other.addition_range
        &&& self.multiplication_range == other.multiplication_range
    }

    /// A usable configuration: a tree size whose leaf count fits the
    /// bounded width, and a non-empty leaf-value window to sample from.
    pub open spec fn wf_spec(self) -> bool {
        &&& 0 <= self.level < 0x7fff_ffff
        &&& self.single_range.start < self.single_range.end
    }

    fn with_rng(rng: rand::rngs::StdRng) -> (g: PrimitiveMathGen)
        ensures
            g.wf_spec(),
            g.level == 3,
            g.single_range == (Interval { start: 10, end: 150 }),
            g.result_range == (Interval { start: 10, end: 400 }),
            g.addition_range == (Interval { start: 20, end: 100 }),
            g.multiplication_range == (Interval { start: 5, end: 21 }),
    {
        PrimitiveMathGen {
            level: 3,
            single_range: Interval { start: 10, end: 150 },
            result_range: Interval { start: 10, end: 400 },
            addition_range: Interval { start: 20, end: 100 },
            multiplication_range: Interval { start: 5, end: 21 },
            rng,
        }
    }

    /// The stock configuration, randomly seeded.
    pub fn new() -> (g: PrimitiveMathGen)
        ensures
            g.wf_spec(),
            g.level == 3,
            g.single_range == (Interval { start: 10, end: 150 }),
            g.result_range == (Interval { start: 10, end: 400 }),
            g.addition_range == (Interval { start: 20, end: 100 }),
            g.multiplication_range == (Interval { start: 5, end: 21 }),
    {
        Self::with_rng(crate::rng::rng_from_entropy())
    }

    /// The stock configuration with its randomness reproducible from a
    /// fixed seed.
    pub fn from_seed(seed: u64) -> (g: PrimitiveMathGen)
        ensures
            g.wf_spec(),
            g.level == 3,
            g.single_range == (Interval { start: 10, end: 150 }),
            g.result_range == (Interval { start: 10, end: 400 }),
            g.addition_range == (Interval { start: 20, end: 100 }),
            g.multiplication_range == (Interval { start: 5, end: 21 }),
    {
        Self::with_rng(crate::rng::rng_from_seed(seed))
    }

    /// Sample uniformly from a non-empty interval.
    pub fn rand(&mut self, r: Interval) -> (v: i32)
        requires
            r.start < r.end,
        ensures
            r.start <= v < r.end,
            final(self).config_eq(*old(self)),
    {
        crate::rng::rand_range(&mut self.rng, r.start, r.end)
    }

    /// Pick one of the four operators uniformly at random.
    pub fn rand_op(&mut self) -> (op: Op)
        ensures
            final(self).config_eq(*old(self)),
    {
        let k = crate::rng::rand_range(&mut self.rng, 0, 4);
        if k == 3 {
            Op::Add
        } else if k == 1 {
            Op::Minus
        } else if k == 2 {
            Op::Mul
        } else {
            Op::Div
        }
    }

    fn node_ok(&self, op: Op, a: i32, b: i32) -> (r: bool)
        ensures
            r == prim_ok(self.addition_range, self.multiplication_range, op, a as int, b as int),
    {
        match op {
            Op::Div => div_check(a, b),
            Op::Mul => self.multiplication_range.contains(a) && self.multiplication_range.contains(
                b,
            ),
            Op::Minus => self.addition_range.contains(a) && self.addition_range.contains(b) && a
                > b,
            Op::Add => true,
        }
    }

    /// Build one subtree with `noprand` leaves: leaves sample the
    /// single-value window; at each internal node the operator and operand
    /// choice is retried a bounded number of times against the built-in
    /// rules, and exhaustion propagates as failure.
    fn gen_subtree(&mut self, noprand: i32, attempts: u32) -> (r: Option<Expr>)
        requires
            old(self).wf_spec(),
            1 <= noprand,
        ensures
            final(self).config_eq(*old(self)),
            noprand == 1 ==> r is Some,
            r matches Some(e) ==> {
                &&& leaf_count(e) == noprand as nat
                &&& evaluable(e)
                &&& tree_ok(
                    old(self).single_range,
                    old(self).addition_range,
                    old(self).multiplication_range,
                    e,
                )
            },
        decreases noprand,
    {
        if noprand == 1 {
            let v = self.rand(self.single_range);
            Some(Expr::Single(v))
        } else if noprand == 2 {
            let mut k: u32 = 0;
            while k < attempts
                invariant
                    self.config_eq(*old(self)),
                    old(self).wf_spec(),
                    k <= attempts,
                    noprand == 2,
                decreases attempts - k,
            {
                let op = self.rand_op();
                let a = self.rand(self.single_range);
                let b = self.rand(self.single_range);
                if self.node_ok(op, a, b) && eval_step(op, a, b).is_some() {
                    return Some(Expr::Primitive(op, a, b));
                }
                k = k + 1;
            }
            None
        } else {
            let lnoprand = self.rand(Interval { start: 1, end: noprand });
            let rnoprand = noprand - lnoprand;
            let mut k: u32 = 0;
            while k < attempts
                invariant
                    self.config_eq(*old(self)),
                    old(self).wf_spec(),
                    k <= attempts,
                    3 <= noprand,
                    1 <= lnoprand < noprand,
                    rnoprand == noprand - lnoprand,
                decreases attempts - k,
            {
                let lhs = match self.gen_subtree(lnoprand, attempts) {
                    Some(x) => x,
                    None => {
                        return None;
                    },
                };
                let rhs = match self.gen_subtree(rnoprand, attempts) {
                    Some(x) => x,
                    None => {
                        return None;
                    },
                };
                let op = self.rand_op();
                let a = lhs.eval();
                let b = rhs.eval();
                if self.node_ok(op, a, b) && eval_step(op, a, b).is_some() {
                    return Some(Expr::Compound(op, Box::new(lhs), Box::new(rhs)));
                }
                k = k + 1;
            }
            None
        }
    }
}

impl MathGenerator for PrimitiveMathGen {
    open spec fn wf(&self) -> bool {
        self.wf_spec()
    }

    open spec fn operand_count(&self) -> int {
        self.level + 1
    }

    open spec fn target(&self) -> Interval {
        self.result_range
    }

    open spec fn gen_post(&self, e: Expr) -> bool {
        tree_ok(self.single_range, self.addition_range, self.multiplication_range, e)
    }

    open spec fn rand_math_post(&self, e: Expr) -> bool {
        self.gen_post(e) && has_mul_or_div(e)
    }

    open spec fn gen_sure(&self, noprand: int) -> bool {
        noprand == 1
    }

    /// A full request must show a multiplication or division, which a lone
    /// leaf cannot, and every larger tree depends on the draws: no input
    /// makes one attempt certain.
    open spec fn rand_math_sure(&self) -> bool {
        false
    }

    fn generate_rand_math(&mut self, max_attempts: u32) -> (r: Option<Expr>) {
        let noprand = self.level + 1;
        let mut attempt: u32 = 0;
        while attempt < max_attempts
            invariant
                self.config_eq(*old(self)),
                old(self).wf_spec(),
                noprand == old(self).level + 1,
                attempt <= max_attempts,
            decreases max_attempts - attempt,
        {
            match self.gen_subtree(noprand, 10) {
                Some(e) => {
                    let val = e.eval();
                    if self.result_range.contains(val) && expr_has_mul_or_div(&e) {
                        return Some(e);
                    }
                },
                None => {},
            }
            attempt = attempt + 1;
        }
        None
    }

    fn gen(&mut self, noprand: i32, nop: i32, max_attempts: u32) -> (r: Option<Expr>) {
        self.gen_subtree(noprand, max_attempts)
    }
}

/// A configured range lying in the window that keeps the propagation
/// arithmetic of the constraint-propagating generator inside the bounded
/// integer width.
pub open spec fn window_wf(r: Interval) -> bool {
    0 <= r.start <= r.end <= 1_000_000
}

/// The constraint-propagating generator: instead of only checking a full
/// tree after the fact, it carries the target interval down the recursion,
/// narrowing the interval demanded of each child from the operator's
/// inverse relation before sampling, with small bounded local retries where
/// a sampled pair can still miss the narrowed range.
pub struct GenerativeMathGen {
    pub level: i32,
    pub result_range: Interval,
    pub single_range: Interval,
    pub add_range: Interval,
    pub mul_range: Interval,
    pub minus_range: Interval,
    pub div_range: Interval,
    pub rng: rand::rngs::StdRng,
}

impl GenerativeMathGen {
    /// Everything but the random source.
    pub open spec fn config_eq(self, other: GenerativeMathGen) -> bool {
        &&& self.level == other.level
        &&& self.result_range == other.result_range
        &&& self.single_range == other.single_range
        &&& self.add_range == other.add_range
        &&& self.mul_range == other.mul_range
        &&& self.minus_range == other.minus_range
        &&& self.div_range == other.div_range
    }

    /// A usable configuration: a tree size whose leaf count fits the
    /// bounded width, and per-operator windows inside the range that keeps
    /// the propagation arithmetic within bounds.
    pub open spec fn wf_spec(self) -> bool {
        &&& 0 <= self.level <= 1_000_000
        &&& window_wf(self.single_range)
        &&& window_wf(self.add_range)
        &&& window_wf(self.mul_range)
        &&& window_wf(self.minus_range)
        &&& window_wf(self.div_range)
    }

    fn with_rng(rng: rand::rngs::StdRng) -> (g: GenerativeMathGen)
        ensures
            g.wf_spec(),
            g.level == 3,
            g.single_range == (Interval { start: 10, end: 150 }),
            g.result_range == (Interval { start: 1, end: 400 }),
            g.add_range == (Interval { start: 20, end: 400 }),
            g.minus_range == (Interval { start: 20, end: 100 }),
            g.mul_range == (Interval { start: 11, end: 200 }),
            g.div_range == (Interval { start: 5, end: 11 }),
    {
        GenerativeMathGen {
            level: 3,
            single_range: Interval { start: 10, end: 150 },
            result_range: Interval { start: 1, end: 400 },
            add_range: Interval { start: 20, end: 400 },
            minus_range: Interval { start: 20, end: 100 },
            mul_range: Interval { start: 11, end: 200 },
            div_range: Interval { start: 5, end: 11 },
            rng,
        }
    }

    /// The stock configuration, randomly seeded.
    pub fn new() -> (g: GenerativeMathGen)
        ensures
            g.wf_spec(),
            g.level == 3,
            g.single_range == (Interval { start: 10, end: 150 }),
            g.result_range == (Interval { start: 1, end: 400 }),
            g.add_range == (Interval { start: 20, end: 400 }),
            g.minus_range == (Interval { start: 20, end: 100 }),
            g.mul_range == (Interval { start: 11, end: 200 }),
            g.div_range == (Interval { start: 5, end: 11 }),
    {
        Self::with_rng(crate::rng::rng_from_entropy())
    }

    /// The stock configuration with its randomness reproducible from a
    /// fixed seed.
    pub fn from_seed(seed: u64) -> (g: GenerativeMathGen)
        ensures
            g.wf_spec(),
            g.level == 3,
            g.single_range == (Interval { start: 10, end: 150 }),
            g.result_range == (Interval { start: 1, end: 400 }),
            g.add_range == (Interval { start: 20, end: 400 }),
            g.minus_range == (Interval { start: 20, end: 100 }),
            g.mul_range == (Interval { start: 11, end: 200 }),
            g.div_range == (Interval { start: 5, end: 11 }),
    {
        Self::with_rng(crate::rng::rng_from_seed(seed))
    }

    /// Sample uniformly from a non-empty interval.
    pub fn rand(&mut self, r: Interval) -> (v: i32)
        requires
            r.start < r.end,
        ensures
            r.start <= v < r.end,
            final(self).config_eq(*old(self)),
    {
        crate::rng::rand_range(&mut self.rng, r.start, r.end)
    }

    /// Pick one of the four operators uniformly at random.
    pub fn rand_op(&mut self) -> (op: Op)
        ensures
            final(self).config_eq(*old(self)),
    {
        let k = crate::rng::rand_range(&mut self.rng, 0, 4);
        if k == 3 {
            Op::Add
        } else if k == 1 {
            Op::Minus
        } else if k == 2 {
            Op::Mul
        } else {
            Op::Div
        }
    }

    /// Build one subtree with `noprand` leaves whose value lands in
    /// `bound`, or `None` when a narrowed interval comes back empty or the
    /// local retries are spent; the caller treats that as failure of the
    /// whole attempt.
    pub fn gen_iter(&mut self, noprand: i32, nop: i32, bound: Interval) -> (r: Option<Expr>)
        requires
            old(self).wf_spec(),
            1 <= noprand,
            nop == noprand - 1,
        ensures
            final(self).config_eq(*old(self)),
            noprand == 1 ==> (r is Some <==> intersect_spec(old(self).single_range, bound)
                is Some),
            noprand == 1 ==> (r matches Some(e) ==> (e matches Expr::Single(v) && intersect_spec(
                old(self).single_range,
                bound,
            ) matches Some(c) && c.contains_spec(v as int))),
            r matches Some(e) ==> {
                &&& leaf_count(e) == noprand as nat
                &&& evaluable(e)
                &&& bound.contains_spec(eval_val(e) as int)
                &&& div_nodes_exact(e)
                &&& div_divisors_one_digit(e)
                &&& old(self).minus_range.start >= 1 ==> minus_nodes_decreasing(e)
            },
        decreases noprand, 1int,
    {
        if noprand == 1 {
            match self.single_range.intersect(bound) {
                Some(c) => {
                    let v = self.rand(c);
                    Some(Expr::Single(v))
                },
                None => None,
            }
        } else if noprand == 2 {
            self.gen_primitive(bound)
        } else {
            self.gen_compound(noprand, bound)
        }
    }

    /// One flattened two-leaf application aimed at `bound`.
    fn gen_primitive(&mut self, bound: Interval) -> (r: Option<Expr>)
        requires
            old(self).wf_spec(),
        ensures
            final(self).config_eq(*old(self)),
            r matches Some(e) ==> {
                &&& leaf_count(e) == 2
                &&& evaluable(e)
                &&& bound.contains_spec(eval_val(e) as int)
                &&& div_nodes_exact(e)
                &&& div_divisors_one_digit(e)
                &&& old(self).minus_range.start >= 1 ==> minus_nodes_decreasing(e)
            },
    {
        let op = self.rand_op();
        match op {
            Op::Div => {
                // quotient from the narrowed target, divisor one-digit, and
                // the dividend reconstructed as their exact product
                let d = match bound.intersect(self.div_range) {
                    Some(d) => d,
                    None => {
                        return None;
                    },
                };
                let b = self.rand(Interval { start: 2, end: 10 });
                let q = self.rand(d);
                proof {
                    assert(0 <= (b as int) * (q as int) <= 9_000_000) by (nonlinear_arith)
                        requires
                            2 <= b <= 9 && 0 <= q <= 1_000_000,
                    ;
                    lemma_mul_div_cancel(q as int, b as int);
                    assert((q as int) * (b as int) == (b as int) * (q as int)) by (nonlinear_arith);
                }
                let a = b * q;
                Some(Expr::Primitive(Op::Div, a, b))
            },
            Op::Mul => {
                let d = match bound.intersect(self.mul_range) {
                    Some(d) => d,
                    None => {
                        return None;
                    },
                };
                let mut k: u32 = 0;
                while k < 10
                    invariant
                        self.config_eq(*old(self)),
                        old(self).wf_spec(),
                        k <= 10,
                        intersect_spec(bound, old(self).mul_range) == Some(d),
                    decreases 10 - k,
                {
                    let b = self.rand(Interval { start: 5, end: 20 });
                    let lo = div_i32(d.start, b);
                    let hi = div_i32(d.end - 1, b) + 2;
                    proof {
                        lemma_div_is_ordered(d.start as int, (d.end - 1) as int, b as int);
                    }
                    let a = self.rand(Interval { start: lo, end: hi });
                    // the sampled factor can still undershoot or overshoot:
                    // re-check the product and retry
                    match a.checked_mul(b) {
                        Some(p) => if d.contains(p) {
                            return Some(Expr::Primitive(Op::Mul, a, b));
                        },
                        None => {},
                    }
                    k = k + 1;
                }
                None
            },
            Op::Minus => {
                let s = match bound.intersect(self.single_range) {
                    Some(s) => s,
                    None => {
                        return None;
                    },
                };
                let b = self.rand(s);
                let d = match bound.intersect(self.minus_range) {
                    Some(d) => d,
                    None => {
                        return None;
                    },
                };
                // the left operand is the narrowed target shifted up by the
                // right one
                let a = self.rand(Interval { start: d.start + b, end: d.end + b });
                Some(Expr::Primitive(Op::Minus, a, b))
            },
            Op::Add => {
                let s = match bound.intersect(self.single_range) {
                    Some(s) => s,
                    None => {
                        return None;
                    },
                };
                let a = self.rand(s);
                let d = match bound.intersect(self.add_range) {
                    Some(d) => d,
                    None => {
                        return None;
                    },
                };
                let b = self.rand(Interval { start: d.start - a, end: d.end - a });
                Some(Expr::Primitive(Op::Add, a, b))
            },
        }
    }

    /// One internal node aimed at `bound`: a random leaf split, a random
    /// operator, and each child generated against the interval the
    /// operator's inverse relation demands of it.
    fn gen_compound(&mut self, noprand: i32, bound: Interval) -> (r: Option<Expr>)
        requires
            old(self).wf_spec(),
            3 <= noprand,
        ensures
            final(self).config_eq(*old(self)),
            r matches Some(e) ==> {
                &&& leaf_count(e) == noprand as nat
                &&& evaluable(e)
                &&& bound.contains_spec(eval_val(e) as int)
                &&& div_nodes_exact(e)
                &&& div_divisors_one_digit(e)
                &&& old(self).minus_range.start >= 1 ==> minus_nodes_decreasing(e)
            },
        decreases noprand, 0int,
    {
        let lnoprand = self.rand(Interval { start: 1, end: noprand });
        let rnoprand = noprand - lnoprand;
        let op = self.rand_op();
        match op {
            Op::Div => {
                let d = match bound.intersect(self.div_range) {
                    Some(d) => d,
                    None => {
                        return None;
                    },
                };
                let mut k: u32 = 0;
                while k < 10
                    invariant
                        self.config_eq(*old(self)),
                        old(self).wf_spec(),
                        k <= 10,
                        3 <= noprand,
                        1 <= lnoprand < noprand,
                        rnoprand == noprand - lnoprand,
                        intersect_spec(bound, old(self).div_range) == Some(d),
                    decreases 10 - k,
                {
                    let rhs = match self.gen_iter(rnoprand, rnoprand - 1, Interval { start: 2, end: 10 }) {
                        Some(x) => x,
                        None => {
                            return None;
                        },
                    };
                    let b = rhs.eval();
                    proof {
                        assert(0 <= (d.start as int) * (b as int) && (d.end as int) * (b as int)
                            <= 9_000_000 && (d.start as int) * (b as int) <= (d.end as int) * (
                        b as int)) by (nonlinear_arith)
                            requires
                                0 <= d.start <= d.end <= 1_000_000 && 2 <= b <= 9,
                        ;
                    }
                    let lhs = match self.gen_iter(lnoprand, lnoprand - 1, Interval { start: d.start * b, end: d.end * b }) {
                        Some(x) => x,
                        None => {
                            return None;
                        },
                    };
                    let a = lhs.eval();
                    let q = div_i32(a, b);
                    // the dividend subtree need not hit an exact multiple:
                    // re-check and retry
                    let exact = match q.checked_mul(b) {
                        Some(p) => p == a,
                        None => false,
                    };
                    if exact && d.contains(q) {
                        return Some(Expr::Compound(Op::Div, Box::new(lhs), Box::new(rhs)));
                    }
                    k = k + 1;
                }
                None
            },
            Op::Mul => {
                let d = match bound.intersect(self.mul_range) {
                    Some(d) => d,
                    None => {
                        return None;
                    },
                };
                let mut k: u32 = 0;
                while k < 10
                    invariant
                        self.config_eq(*old(self)),
                        old(self).wf_spec(),
                        k <= 10,
                        3 <= noprand,
                        1 <= lnoprand < noprand,
                        rnoprand == noprand - lnoprand,
                        intersect_spec(bound, old(self).mul_range) == Some(d),
                    decreases 10 - k,
                {
                    let lhs = match self.gen_iter(lnoprand, lnoprand - 1, Interval { start: 5, end: 20 }) {
                        Some(x) => x,
                        None => {
                            return None;
                        },
                    };
                    let a = lhs.eval();
                    let lo = div_i32(d.start, a);
                    let hi = div_i32(d.end - 1, a) + 2;
                    proof {
                        lemma_div_is_ordered(d.start as int, (d.end - 1) as int, a as int);
                    }
                    let rhs = match self.gen_iter(rnoprand, rnoprand - 1, Interval { start: lo, end: hi }) {
                        Some(x) => x,
                        None => {
                            return None;
                        },
                    };
                    let b = rhs.eval();
                    // the narrowed factor range rounds, so the product can
                    // still miss: re-check and retry
                    match a.checked_mul(b) {
                        Some(p) => if d.contains(p) {
                            return Some(Expr::Compound(Op::Mul, Box::new(lhs), Box::new(rhs)));
                        },
                        None => {},
                    }
                    k = k + 1;
                }
                None
            },
            Op::Minus => {
                let s = match bound.intersect(self.single_range) {
                    Some(s) => s,
                    None => {
                        return None;
                    },
                };
                let rhs = match self.gen_iter(rnoprand, rnoprand - 1, s) {
                    Some(x) => x,
                    None => {
                        return None;
                    },
                };
                let b = rhs.eval();
                let d = match bound.intersect(self.minus_range) {
                    Some(d) => d,
                    None => {
                        return None;
                    },
                };
                let lhs = match self.gen_iter(lnoprand, lnoprand - 1, Interval { start: d.start + b, end: d.end + b }) {
                    Some(x) => x,
                    None => {
                        return None;
                    },
                };
                Some(Expr::Compound(Op::Minus, Box::new(lhs), Box::new(rhs)))
            },
            Op::Add => {
                let s = match bound.intersect(self.single_range) {
                    Some(s) => s,
                    None => {
                        return None;
                    },
                };
                let lhs = match self.gen_iter(lnoprand, lnoprand - 1, s) {
                    Some(x) => x,
                    None => {
                        return None;
                    },
                };
                let a = lhs.eval();
                let d = match bound.intersect(self.add_range) {
                    Some(d) => d,
                    None => {
                        return None;
                    },
                };
                let rhs = match self.gen_iter(rnoprand, rnoprand - 1, Interval { start: d.start - a, end: d.end - a }) {
                    Some(x) => x,
                    None => {
                        return None;
                    },
                };
                Some(Expr::Compound(Op::Add, Box::new(lhs), Box::new(rhs)))
            },
        }
    }
}

impl MathGenerator for GenerativeMathGen {
    open spec fn wf(&self) -> bool {
        self.wf_spec()
    }

    open spec fn operand_count(&self) -> int {
        self.level + 1
    }

    open spec fn target(&self) -> Interval {
        self.result_range
    }

    open spec fn gen_post(&self, e: Expr) -> bool {
        &&& self.result_range.contains_spec(eval_val(e) as int)
        &&& div_nodes_exact(e)
        &&& div_divisors_one_digit(e)
        &&& self.minus_range.start >= 1 ==> minus_nodes_decreasing(e)
    }

    open spec fn rand_math_post(&self, e: Expr) -> bool {
        self.gen_post(e)
    }

    /// A one-leaf request is decided, not drawn: it succeeds exactly when
    /// the leaf window meets the result range.
    open spec fn gen_sure(&self, noprand: int) -> bool {
        noprand == 1 && intersect_spec(self.single_range, self.result_range) is Some
    }

    open spec fn rand_math_sure(&self) -> bool {
        self.level == 0 && intersect_spec(self.single_range, self.result_range) is Some
    }

    fn generate_rand_math(&mut self, max_attempts: u32) -> (r: Option<Expr>) {
        let noprand = self.level + 1;
        let nop = self.level;
        self.gen(noprand, nop, max_attempts)
    }

    fn gen(&mut self, noprand: i32, nop: i32, max_attempts: u32) -> (r: Option<Expr>) {
        let mut attempt: u32 = 0;
        while attempt < max_attempts
            invariant
                self.config_eq(*old(self)),
                old(self).wf_spec(),
                1 <= noprand,
                nop == noprand - 1,
                attempt <= max_attempts,
                attempt >= 1 ==> !old(self).gen_sure(noprand as int),
            decreases max_attempts - attempt,
        {
            let target = self.result_range;
            match self.gen_iter(noprand, nop, target) {
                Some(e) => {
                    return Some(e);
                },
                None => {},
            }
            attempt = attempt + 1;
        }
        None
    }
}

} // verus!
