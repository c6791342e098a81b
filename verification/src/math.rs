use super::interval::Interval;
use vstd::arithmetic::div_mod::{
    lemma_div_is_ordered, lemma_div_is_ordered_by_denominator, lemma_fundamental_div_mod,
};
use vstd::math::abs;
use vstd::pervasive::unreached;
use vstd::prelude::*;

verus! {

/// The four operators an expression node may apply.
#[derive(Clone, Copy, Debug, PartialEq, Eq, Structural)]
pub enum Op {
    Add,
    Minus,
    Mul,
    Div,
}

/// An arithmetic expression tree. `Single` is a leaf holding one bounded
/// integer; `Primitive` is a flattened two-leaf application, semantically
/// identical to a `Compound` over two leaves; `Compound` applies an operator
/// to two exclusively owned subtrees.
#[derive(Debug)]
pub enum Expr {
    Single(i32),
    Primitive(Op, i32, i32),
    Compound(Op, Box<Expr>, Box<Expr>),
}

/// Truncating integer division, the semantics of `/` on the machine's signed
/// integers: the quotient of the absolute values, negated when the signs of
/// the operands differ.
pub open spec fn div_trunc(a: int, b: int) -> int
    recommends
        b != 0,
{
    if (a < 0) == (b < 0) {
        (abs(a) as int) / (abs(b) as int)
    } else {
        -((abs(a) as int) / (abs(b) as int))
    }
}

pub open spec fn fits_i32(x: int) -> bool {
    i32::MIN <= x <= i32::MAX
}

/// One operator application with exact integer semantics: `None` on division
/// by zero and on any result outside the bounded integer width.
pub open spec fn apply_op(op: Op, a: int, b: int) -> Option<i32> {
    match op {
        Op::Add => if fits_i32(a + b) {
            Some((a + b) as i32)
        } else {
            None
        },
        Op::Minus => if fits_i32(a - b) {
            Some((a - b) as i32)
        } else {
            None
        },
        Op::Mul => if fits_i32(a * b) {
            Some((a * b) as i32)
        } else {
            None
        },
        Op::Div => if b != 0 && fits_i32(div_trunc(a, b)) {
            Some(div_trunc(a, b) as i32)
        } else {
            None
        },
    }
}

/// Bottom-up evaluation of a tree; `None` as soon as any node divides by
/// zero or leaves the bounded integer width.
pub open spec fn eval_opt(e: Expr) -> Option<i32>
    decreases e,
{
    match e {
        Expr::Single(v) => Some(v),
        Expr::Primitive(op, a, b) => apply_op(op, a as int, b as int),
        Expr::Compound(op, l, r) => match (eval_opt(*l), eval_opt(*r)) {
            (Some(a), Some(b)) => apply_op(op, a as int, b as int),
            _ => None,
        },
    }
}

pub open spec fn evaluable(e: Expr) -> bool {
    eval_opt(e) is Some
}

pub open spec fn eval_val(e: Expr) -> i32
    recommends
        evaluable(e),
{
    eval_opt(e)->0
}

/// Number of leaves of a tree; a `Primitive` stands for two leaves.
pub open spec fn leaf_count(e: Expr) -> nat
    decreases e,
{
    match e {
        Expr::Single(_) => 1,
        Expr::Primitive(_, _, _) => 2,
        Expr::Compound(_, l, r) => leaf_count(*l) + leaf_count(*r),
    }
}

/// Number of internal operator applications of a tree.
pub open spec fn node_count(e: Expr) -> nat
    decreases e,
{
    match e {
        Expr::Single(_) => 0,
        Expr::Primitive(_, _, _) => 1,
        Expr::Compound(_, l, r) => 1 + node_count(*l) + node_count(*r),
    }
}

/// Every tree of this shape is a full binary tree: it has exactly one more
/// leaf than it has operator applications, so a tree with N leaves holds
/// N - 1 internal nodes.
pub proof fn lemma_full_binary_tree(e: Expr)
    ensures
        node_count(e) + 1 == leaf_count(e),
    decreases e,
{
    match e {
        Expr::Single(_) => {},
        Expr::Primitive(_, _, _) => {},
        Expr::Compound(_, l, r) => {
            lemma_full_binary_tree(*l);
            lemma_full_binary_tree(*r);
        },
    }
}

/// A flattened `Primitive` evaluates exactly as the structurally equivalent
/// `Compound` over two leaves.
pub proof fn lemma_primitive_flattens_compound(op: Op, a: i32, b: i32, c: Expr)
    requires
        c matches Expr::Compound(cop, l, r) && cop == op && *l == Expr::Single(a) && *r
            == Expr::Single(b),
    ensures
        eval_opt(c) == eval_opt(Expr::Primitive(op, a, b)),
{
    if let Expr::Compound(cop, l, r) = c {
        assert(eval_opt(*l) == Some(a));
        assert(eval_opt(*r) == Some(b));
    }
}

/// Whether some node of the tree applies the given operator.
pub open spec fn has_op(e: Expr, target: Op) -> bool
    decreases e,
{
    match e {
        Expr::Single(_) => false,
        Expr::Primitive(op, _, _) => op == target,
        Expr::Compound(op, l, r) => op == target || has_op(*l, target) || has_op(*r, target),
    }
}

pub open spec fn has_mul_or_div(e: Expr) -> bool {
    has_op(e, Op::Mul) || has_op(e, Op::Div)
}

/// At a division node the right operand is non-zero and divides the left one
/// exactly; other operators are unconstrained.
pub open spec fn div_ok_at(op: Op, a: int, b: int) -> bool {
    op is Div ==> b != 0 && div_trunc(a, b) * b == a
}

/// At a subtraction node the left operand exceeds the right one; other
/// operators are unconstrained.
pub open spec fn minus_ok_at(op: Op, a: int, b: int) -> bool {
    op is Minus ==> a > b
}

/// Every division node of the tree, applied to the evaluated values of its
/// operands, divides exactly by a non-zero divisor.
pub open spec fn div_nodes_exact(e: Expr) -> bool
    decreases e,
{
    match e {
        Expr::Single(_) => true,
        Expr::Primitive(op, a, b) => div_ok_at(op, a as int, b as int),
        Expr::Compound(op, l, r) => div_nodes_exact(*l) && div_nodes_exact(*r) && (op is Div
            ==> evaluable(*l) && evaluable(*r) && div_ok_at(
            op,
            eval_val(*l) as int,
            eval_val(*r) as int,
        )),
    }
}

/// Every subtraction node of the tree, applied to the evaluated values of
/// its operands, subtracts the smaller value from the larger one.
pub open spec fn minus_nodes_decreasing(e: Expr) -> bool
    decreases e,
{
    match e {
        Expr::Single(_) => true,
        Expr::Primitive(op, a, b) => minus_ok_at(op, a as int, b as int),
        Expr::Compound(op, l, r) => minus_nodes_decreasing(*l) && minus_nodes_decreasing(*r) && (op
            is Minus ==> evaluable(*l) && evaluable(*r) && minus_ok_at(
            op,
            eval_val(*l) as int,
            eval_val(*r) as int,
        )),
    }
}

/// Every division node of the tree takes a one-digit divisor greater than
/// one, judged on the evaluated value of its right operand.
pub open spec fn div_divisors_one_digit(e: Expr) -> bool
    decreases e,
{
    match e {
        Expr::Single(_) => true,
        Expr::Primitive(op, _, b) => op is Div ==> 2 <= b < 10,
        Expr::Compound(op, l, r) => div_divisors_one_digit(*l) && div_divisors_one_digit(*r) && (op
            is Div ==> evaluable(*r) && 2 <= eval_val(*r) < 10),
    }
}

/// One operator application on two already evaluated operands.
pub(crate) fn eval_step(op: Op, a: i32, b: i32) -> (r: Option<i32>)
    ensures
        r == apply_op(op, a as int, b as int),
{
    match op {
        Op::Add => a.checked_add(b),
        Op::Minus => a.checked_sub(b),
        Op::Mul => a.checked_mul(b),
        Op::Div => a.checked_div(b),
    }
}

impl Clone for Expr {
    /// A deep copy, equal as a value to the original.
    fn clone(&self) -> (r: Expr)
        ensures
            r == *self,
        decreases *self,
    {
        match self {
            Expr::Single(v) => Expr::Single(*v),
            Expr::Primitive(op, a, b) => Expr::Primitive(*op, *a, *b),
            Expr::Compound(op, l, r) => Expr::Compound(
                *op,
                Box::new((**l).clone()),
                Box::new((**r).clone()),
            ),
        }
    }
}

impl Expr {
    /// Defensive evaluation: reduces the tree bottom-up and reports `None`
    /// instead of dividing by zero or overflowing the bounded width.
    pub fn checked_eval(&self) -> (r: Option<i32>)
        ensures
            r == eval_opt(*self),
        decreases *self,
    {
        match self {
            Expr::Single(v) => Some(*v),
            Expr::Primitive(op, a, b) => eval_step(*op, *a, *b),
            Expr::Compound(op, l, r) => match (l.checked_eval(), r.checked_eval()) {
                (Some(a), Some(b)) => eval_step(*op, a, b),
                _ => None,
            },
        }
    }

    /// Exact evaluation of a tree known to stay inside the bounded width
    /// and never divide by zero.
    pub fn eval(&self) -> (r: i32)
        requires
            evaluable(*self),
        ensures
            r == eval_val(*self),
    {
        match self.checked_eval() {
            Some(v) => v,
            None => unreached(),
        }
    }
}

/// Free-function form of the evaluator over a borrowed tree.
pub fn eval_expr(e: &Expr) -> (r: i32)
    requires
        evaluable(*e),
    ensures
        r == eval_val(*e),
{
    e.eval()
}

/// Whether some node of the tree applies a multiplication or a division.
pub fn expr_has_mul_or_div(e: &Expr) -> (r: bool)
    ensures
        r == has_mul_or_div(*e),
    decreases *e,
{
    match e {
        Expr::Single(_) => false,
        Expr::Primitive(op, _, _) => matches!(op, Op::Mul | Op::Div),
        Expr::Compound(op, l, r) => matches!(op, Op::Mul | Op::Div) || expr_has_mul_or_div(l)
            || expr_has_mul_or_div(r),
    }
}

/// A pluggable rule set judging leaf values, operator applications and a
/// whole generation attempt. The spec functions fix the policy's judgments
/// and how its whole-attempt state accumulates; the methods may record
/// per-attempt facts (consulted by `pass`, reset by `init`) but never
/// change the judgments themselves, so one walk of a tree decides like any
/// other.
pub trait Validator: Sized {
    /// The policy's judgment of a single leaf value.
    spec fn single_ok(&self, v: i32) -> bool;

    /// The policy's judgment of one operator application on two already
    /// evaluated operand values.
    spec fn primitive_ok(&self, op: Op, v1: i32, v2: i32) -> bool;

    /// The whole-attempt acceptance state accumulated so far.
    spec fn passes(&self) -> bool;

    /// Whether judging this one operator application turns the
    /// whole-attempt acceptance state on.
    spec fn passes_gain(&self, op: Op, v1: i32, v2: i32) -> bool;

    /// The whole-attempt acceptance state of a freshly reset attempt.
    spec fn passes_reset(&self) -> bool;

    /// Judge one leaf value in isolation; the whole-attempt state is not
    /// touched.
    fn on_single(&mut self, v: i32) -> (r: bool)
        ensures
            r == old(self).single_ok(v),
            final(self).passes() == old(self).passes(),
            final(self).passes_reset() == old(self).passes_reset(),
            forall|w: i32| #[trigger] final(self).single_ok(w) == old(self).single_ok(w),
            forall|op2: Op, w1: i32, w2: i32| #[trigger] final(self).primitive_ok(op2, w1, w2)
                == old(self).primitive_ok(op2, w1, w2),
            forall|op2: Op, w1: i32, w2: i32| #[trigger] final(self).passes_gain(op2, w1, w2)
                == old(self).passes_gain(op2, w1, w2),
    ;

    /// Judge one operator application on two already evaluated operands;
    /// side facts for the final `pass` judgment accumulate as
    /// `passes_gain` says, whatever the judgment itself returns.
    fn on_primitive(&mut self, op: Op, v1: i32, v2: i32) -> (r: bool)
        ensures
            r == old(self).primitive_ok(op, v1, v2),
            final(self).passes() == (old(self).passes() || old(self).passes_gain(op, v1, v2)),
            final(self).passes_reset() == old(self).passes_reset(),
            forall|w: i32| #[trigger] final(self).single_ok(w) == old(self).single_ok(w),
            forall|op2: Op, w1: i32, w2: i32| #[trigger] final(self).primitive_ok(op2, w1, w2)
                == old(self).primitive_ok(op2, w1, w2),
            forall|op2: Op, w1: i32, w2: i32| #[trigger] final(self).passes_gain(op2, w1, w2)
                == old(self).passes_gain(op2, w1, w2),
    ;

    /// Final whole-attempt judgment, consulted after a structural walk
    /// succeeds.
    fn pass(&self) -> (r: bool)
        ensures
            r == self.passes(),
    ;

    /// Reset the per-attempt accumulated state before a fresh attempt.
    fn init(&mut self)
        ensures
            final(self).passes() == old(self).passes_reset(),
            final(self).passes_reset() == old(self).passes_reset(),
            forall|w: i32| #[trigger] final(self).single_ok(w) == old(self).single_ok(w),
            forall|op2: Op, w1: i32, w2: i32| #[trigger] final(self).primitive_ok(op2, w1, w2)
                == old(self).primitive_ok(op2, w1, w2),
            forall|op2: Op, w1: i32, w2: i32| #[trigger] final(self).passes_gain(op2, w1, w2)
                == old(self).passes_gain(op2, w1, w2),
    ;
}

/// Two policy states that judge every leaf value and every operator
/// application alike, accumulate their whole-attempt state alike, and
/// reset it alike.
pub open spec fn same_judgments<V: Validator>(a: V, b: V) -> bool {
    &&& forall|v: i32| #[trigger] a.single_ok(v) == b.single_ok(v)
    &&& forall|op: Op, v1: i32, v2: i32| #[trigger] a.primitive_ok(op, v1, v2) == b.primitive_ok(
        op,
        v1,
        v2,
    )
    &&& forall|op: Op, v1: i32, v2: i32| #[trigger] a.passes_gain(op, v1, v2) == b.passes_gain(
        op,
        v1,
        v2,
    )
    &&& a.passes_reset() == b.passes_reset()
}

/// The recursive acceptance predicate of a policy over a tree: every leaf
/// passes the single-value judgment, and every operator application passes
/// the application judgment on the evaluated values of its operands (the
/// operands of a `Compound` must therefore evaluate within bounds).
pub open spec fn valid_spec<V: Validator>(e: Expr, v: V) -> bool
    decreases e,
{
    match e {
        Expr::Single(x) => v.single_ok(x),
        Expr::Primitive(op, a, b) => v.single_ok(a) && v.single_ok(b) && v.primitive_ok(op, a, b),
        Expr::Compound(op, l, r) => valid_spec(*l, v) && valid_spec(*r, v) && evaluable(*l)
            && evaluable(*r) && v.single_ok(eval_val(*l)) && v.single_ok(eval_val(*r))
            && v.primitive_ok(op, eval_val(*l), eval_val(*r)),
    }
}

/// Whether one walk of the tree turns the policy's whole-attempt state on:
/// the disjunction of `passes_gain` over exactly the operator applications
/// the walk judges before it first rejects (the walk short-circuits, so a
/// node after a rejected sibling is never judged).
pub open spec fn walk_gain<V: Validator>(e: Expr, v: V) -> bool
    decreases e,
{
    match e {
        Expr::Single(_) => false,
        Expr::Primitive(op, a, b) => v.single_ok(a) && v.single_ok(b) && v.passes_gain(op, a, b),
        Expr::Compound(op, l, r) => walk_gain(*l, v) || (valid_spec(*l, v) && (walk_gain(*r, v) || (
        valid_spec(*r, v) && evaluable(*l) && evaluable(*r) && v.single_ok(eval_val(*l))
            && v.single_ok(eval_val(*r)) && v.passes_gain(op, eval_val(*l), eval_val(*r))))),
    }
}

/// Validation is deterministic: the recursive walk decides from the
/// policy's judgments alone, so two policy states with the same judgments
/// (for instance before and after a walk, or after a fresh `init`) accept
/// exactly the same trees and pick up the whole-attempt state alike.
pub proof fn lemma_validation_deterministic<V: Validator>(e: Expr, v1: V, v2: V)
    requires
        same_judgments(v1, v2),
    ensures
        valid_spec(e, v1) == valid_spec(e, v2),
        walk_gain(e, v1) == walk_gain(e, v2),
    decreases e,
{
    match e {
        Expr::Single(_) => {},
        Expr::Primitive(_, _, _) => {},
        Expr::Compound(_, l, r) => {
            lemma_validation_deterministic(*l, v1, v2);
            lemma_validation_deterministic(*r, v1, v2);
        },
    }
}

impl Expr {
    /// Walk the tree under a policy: every leaf through `on_single`, every
    /// operator application through `on_primitive` on the evaluated values
    /// of its operands. A subtree whose evaluation leaves the bounded
    /// integer width is rejected rather than evaluated wrongly. The
    /// policy's whole-attempt state accumulates over exactly the judged
    /// applications, as `walk_gain` says.
    pub fn validate<V: Validator>(&self, validator: &mut V) -> (r: bool)
        ensures
            r == valid_spec(*self, *old(validator)),
            same_judgments(*old(validator), *final(validator)),
            final(validator).passes() == (old(validator).passes() || walk_gain(
                *self,
                *old(validator),
            )),
        decreases *self,
    {
        match self {
            Expr::Single(v) => validator.on_single(*v),
            Expr::Primitive(op, v1, v2) => {
                let s1 = validator.on_single(*v1);
                if !s1 {
                    false
                } else {
                    let s2 = validator.on_single(*v2);
                    if !s2 {
                        false
                    } else {
                        validator.on_primitive(*op, *v1, *v2)
                    }
                }
            },
            Expr::Compound(op, l, r) => {
                let okl = l.validate(validator);
                if !okl {
                    false
                } else {
                    let ghost mid = *validator;
                    let okr = r.validate(validator);
                    proof {
                        lemma_validation_deterministic(**r, *old(validator), mid);
                    }
                    if !okr {
                        false
                    } else {
                        match (l.checked_eval(), r.checked_eval()) {
                            (Some(a), Some(b)) => {
                                let s1 = validator.on_single(a);
                                if !s1 {
                                    false
                                } else {
                                    let s2 = validator.on_single(b);
                                    if !s2 {
                                        false
                                    } else {
                                        validator.on_primitive(*op, a, b)
                                    }
                                }
                            },
                            _ => false,
                        }
                    }
                }
            },
        }
    }
}

/// Truncating division by a divisor of at least two; such a quotient always
/// fits the bounded width.
pub fn div_i32(a: i32, b: i32) -> (q: i32)
    requires
        2 <= b,
    ensures
        q as int == div_trunc(a as int, b as int),
{
    match a.checked_div(b) {
        Some(q) => q,
        None => {
            proof {
                lemma_div_is_ordered_by_denominator(abs(a as int) as int, 2, b as int);
                lemma_div_is_ordered(abs(a as int) as int, 0x8000_0000, 2);
                assert(fits_i32(div_trunc(a as int, b as int)));
                assert(false);
            }
            unreached()
        },
    }
}

/// Whether `b` is a one-digit divisor greater than one that divides `a`
/// exactly to a one-digit quotient: the acceptance test every division node
/// must meet under the default teaching rules.
pub fn div_check(a: i32, b: i32) -> (r: bool)
    ensures
        r == (2 <= b < 10 && div_trunc(a as int, b as int) < 10 && div_trunc(a as int, b as int) * (
        b as int) == a as int),
{
    if !(2 <= b && b < 10) {
        return false;
    }
    let q = div_i32(a, b);
    let exact = match q.checked_mul(b) {
        Some(p) => p == a,
        None => false,
    };
    q < 10 && exact
}

/// Pick one of the four operators uniformly at random.
fn rand_op(rng: &mut rand::rngs::StdRng) -> Op {
    let k = crate::rng::rand_range(rng, 0, 4);
    if k == 0 {
        Op::Add
    } else if k == 1 {
        Op::Minus
    } else if k == 2 {
        Op::Mul
    } else {
        Op::Div
    }
}

/// The sampling windows of the blind tree builder: a lone leaf draws its
/// value from `[1, 100)` and a flattened two-leaf application draws both
/// operands from `[1, 200)`.
pub open spec fn gen_expr_sampled(e: Expr) -> bool
    decreases e,
{
    match e {
        Expr::Single(v) => 1 <= v < 100,
        Expr::Primitive(_, a, b) => 1 <= a < 200 && 1 <= b < 200,
        Expr::Compound(_, l, r) => gen_expr_sampled(*l) && gen_expr_sampled(*r),
    }
}

/// Build one random full binary tree with `noprand` leaves: a random split
/// of the leaves at each internal node, a random operator there, and leaf
/// values sampled uniformly from the windows `gen_expr_sampled` names. The
/// tree is judged only afterwards, by a `Validator` walk.
pub fn gen_expr(rng: &mut rand::rngs::StdRng, noprand: i32, nop: i32) -> (e: Expr)
    requires
        1 <= noprand,
        nop == noprand - 1,
    ensures
        leaf_count(e) == noprand as nat,
        gen_expr_sampled(e),
    decreases noprand,
{
    if noprand == 1 {
        Expr::Single(crate::rng::rand_range(rng, 1, 100))
    } else if noprand == 2 {
        let op = rand_op(rng);
        let a = crate::rng::rand_range(rng, 1, 200);
        let b = crate::rng::rand_range(rng, 1, 200);
        Expr::Primitive(op, a, b)
    } else {
        let lnoprand = crate::rng::rand_range(rng, 1, noprand);
        let rnoprand = noprand - lnoprand;
        let lhs = gen_expr(rng, lnoprand, lnoprand - 1);
        let rhs = gen_expr(rng, rnoprand, rnoprand - 1);
        Expr::Compound(rand_op(rng), Box::new(lhs), Box::new(rhs))
    }
}

proof fn lemma_same_judgments_trans<V: Validator>(a: V, b: V, c: V)
    requires
        same_judgments(a, b),
        same_judgments(b, c),
    ensures
        same_judgments(a, c),
{
}

/// One full generation request with an injectable policy: build random
/// trees until one passes the policy's recursive walk and its whole-attempt
/// judgment and evaluates into the target interval; `None` once the attempt
/// budget is spent without an acceptable tree.
pub fn generate<V: Validator>(
    rng: &mut rand::rngs::StdRng,
    operand_count: i32,
    target_result: Interval,
    policy: &mut V,
    max_attempts: u32,
) -> (r: Option<Expr>)
    requires
        1 <= operand_count,
    ensures
        same_judgments(*old(policy), *final(policy)),
        r matches Some(e) ==> {
            &&& leaf_count(e) == operand_count as nat
            &&& valid_spec(e, *old(policy))
            &&& final(policy).passes()
            &&& evaluable(e)
            &&& target_result.contains_spec(eval_val(e) as int)
        },
{
    let mut attempt: u32 = 0;
    while attempt < max_attempts
        invariant
            1 <= operand_count,
            attempt <= max_attempts,
            same_judgments(*old(policy), *policy),
        decreases max_attempts - attempt,
    {
        let e = gen_expr(rng, operand_count, operand_count - 1);
        let ghost at_entry = *policy;
        policy.init();
        let ghost before = *policy;
        let ok = e.validate(policy);
        proof {
            lemma_same_judgments_trans(*old(policy), at_entry, before);
            lemma_same_judgments_trans(*old(policy), before, *policy);
            lemma_validation_deterministic(e, before, *old(policy));
        }
        if ok && policy.pass() {
            match e.checked_eval() {
                Some(val) => if target_result.contains(val) {
                    return Some(e);
                },
                None => {},
            }
        }
        attempt = attempt + 1;
    }
    None
}

/// Free-function form of the recursive validation walk.
pub fn validate_expr<V: Validator>(e: &Expr, validator: &mut V) -> (r: bool)
    ensures
        r == valid_spec(*e, *old(validator)),
        same_judgments(*old(validator), *final(validator)),
        final(validator).passes() == (old(validator).passes() || walk_gain(*e, *old(validator))),
{
    e.validate(validator)
}

/// For non-negative operands an exact multiple divides back to its factor.
pub proof fn lemma_mul_div_cancel(q: int, b: int)
    requires
        0 <= q,
        0 < b,
    ensures
        div_trunc(q * b, b) == q,
{
    assert(abs(q * b) == q * b) by (nonlinear_arith)
        requires
            0 <= q && 0 < b,
    ;
    assert(abs(b) == b);
    assert((q * b) / b == q) by {
        lemma_fundamental_div_mod(q * b, b);
        assert((q * b) % b == 0) by (nonlinear_arith)
            requires
                0 < b,
        ;
        assert(q * b == b * ((q * b) / b) + 0);
        assert(b * ((q * b) / b) == b * q ==> (q * b) / b == q) by (nonlinear_arith)
            requires
                0 < b,
        ;
        assert(q * b == b * q) by (nonlinear_arith);
    }
}

} // verus!
