use super::math::{Expr, Op};
use vstd::prelude::*;
use vstd::string::StringExecFns;

verus! {

/// The fixed display symbol of each operator.
pub open spec fn op_char(op: Op) -> char {
    match op {
        Op::Add => '+',
        Op::Minus => '-',
        Op::Mul => 'x',
        Op::Div => '÷',
    }
}

pub open spec fn digit_char(d: int) -> char
    recommends
        0 <= d < 10,
{
    if d == 0 {
        '0'
    } else if d == 1 {
        '1'
    } else if d == 2 {
        '2'
    } else if d == 3 {
        '3'
    } else if d == 4 {
        '4'
    } else if d == 5 {
        '5'
    } else if d == 6 {
        '6'
    } else if d == 7 {
        '7'
    } else if d == 8 {
        '8'
    } else {
        '9'
    }
}

/// The decimal digits of a non-negative number, most significant first.
pub open spec fn dec_digits(n: int) -> Seq<char>
    recommends
        n >= 0,
    decreases n,
{
    if n < 10 {
        seq![digit_char(n)]
    } else {
        dec_digits(n / 10) + seq![digit_char(n % 10)]
    }
}

/// The decimal rendering of a bounded signed integer, with a leading minus
/// sign when it is negative.
pub open spec fn dec_int(v: int) -> Seq<char> {
    if v < 0 {
        seq!['-'] + dec_digits(-v)
    } else {
        dec_digits(v)
    }
}

/// The main operator of a child expression, if it is not a leaf.
pub open spec fn child_op(e: Expr) -> Option<Op> {
    match e {
        Expr::Single(_) => None,
        Expr::Primitive(op, _, _) => Some(op),
        Expr::Compound(op, _, _) => Some(op),
    }
}

pub open spec fn is_add_or_minus(o: Option<Op>) -> bool {
    o == Some(Op::Add) || o == Some(Op::Minus)
}

/// Whether a left child must be parenthesized under the given parent
/// operator: only multiplication and division group a sum or difference on
/// their left; a leaf never needs grouping.
pub open spec fn paren_left(parent: Op, child: Expr) -> bool {
    match parent {
        Op::Add | Op::Minus => false,
        Op::Mul | Op::Div => is_add_or_minus(child_op(child)),
    }
}

/// Whether a right child must be parenthesized: subtraction and
/// multiplication group a sum or difference on their right, and division
/// additionally groups another division, since division is not associative.
pub open spec fn paren_right(parent: Op, child: Expr) -> bool {
    match parent {
        Op::Add => false,
        Op::Minus => is_add_or_minus(child_op(child)),
        Op::Mul => is_add_or_minus(child_op(child)),
        Op::Div => is_add_or_minus(child_op(child)) || child_op(child) == Some(Op::Div),
    }
}

pub open spec fn wrapped(s: Seq<char>, parens: bool) -> Seq<char> {
    if parens {
        seq!['('] + s + seq![')']
    } else {
        s
    }
}

/// The minimally parenthesized rendering of a tree: parentheses appear only
/// where the textual precedence reading would regroup the tree.
pub open spec fn render_spec(e: Expr) -> Seq<char>
    decreases e,
{
    match e {
        Expr::Single(v) => dec_int(v as int),
        Expr::Primitive(op, a, b) => dec_int(a as int) + seq![op_char(op)] + dec_int(b as int),
        Expr::Compound(op, l, r) => wrapped(render_spec(*l), paren_left(op, *l)) + seq![
            op_char(op),
        ] + wrapped(render_spec(*r), paren_right(op, *r)),
    }
}

fn digit_str(d: u32) -> (s: &'static str)
    requires
        d < 10,
    ensures
        s@ == seq![digit_char(d as int)],
{
    if d == 0 {
        proof {
            reveal_strlit("0");
            assert("0"@ =~= seq![digit_char(d as int)]);
        }
        "0"
    } else if d == 1 {
        proof {
            reveal_strlit("1");
            assert("1"@ =~= seq![digit_char(d as int)]);
        }
        "1"
    } else if d == 2 {
        proof {
            reveal_strlit("2");
            assert("2"@ =~= seq![digit_char(d as int)]);
        }
        "2"
    } else if d == 3 {
        proof {
            reveal_strlit("3");
            assert("3"@ =~= seq![digit_char(d as int)]);
        }
        "3"
    } else if d == 4 {
        proof {
            reveal_strlit("4");
            assert("4"@ =~= seq![digit_char(d as int)]);
        }
        "4"
    } else if d == 5 {
        proof {
            reveal_strlit("5");
            assert("5"@ =~= seq![digit_char(d as int)]);
        }
        "5"
    } else if d == 6 {
        proof {
            reveal_strlit("6");
            assert("6"@ =~= seq![digit_char(d as int)]);
        }
        "6"
    } else if d == 7 {
        proof {
            reveal_strlit("7");
            assert("7"@ =~= seq![digit_char(d as int)]);
        }
        "7"
    } else if d == 8 {
        proof {
            reveal_strlit("8");
            assert("8"@ =~= seq![digit_char(d as int)]);
        }
        "8"
    } else {
        proof {
            reveal_strlit("9");
            assert("9"@ =~= seq![digit_char(d as int)]);
        }
        "9"
    }
}

fn op_str(op: Op) -> (s: &'static str)
    ensures
        s@ == seq![op_char(op)],
{
    match op {
        Op::Add => {
            proof {
                reveal_strlit("+");
                assert("+"@ =~= seq![op_char(op)]);
            }
            "+"
        },
        Op::Minus => {
            proof {
                reveal_strlit("-");
                assert("-"@ =~= seq![op_char(op)]);
            }
            "-"
        },
        Op::Mul => {
            proof {
                reveal_strlit("x");
                assert("x"@ =~= seq![op_char(op)]);
            }
            "x"
        },
        Op::Div => {
            proof {
                reveal_strlit("÷");
                assert("÷"@ =~= seq![op_char(op)]);
            }
            "÷"
        },
    }
}

fn push_digits(s: &mut String, n: u32)
    ensures
        final(s)@ == old(s)@ + dec_digits(n as int),
    decreases n,
{
    if n >= 10 {
        push_digits(s, n / 10);
        let d = digit_str(n % 10);
        s.append(d);
        proof {
            assert(s@ =~= old(s)@ + dec_digits(n as int));
        }
    } else {
        s.append(digit_str(n));
    }
}

fn push_int(s: &mut String, v: i32)
    ensures
        final(s)@ == old(s)@ + dec_int(v as int),
{
    if v < 0 {
        s.append("-");
        let m64: i64 = -(v as i64);
        let m: u32 = m64 as u32;
        push_digits(s, m);
        proof {
            reveal_strlit("-");
            assert(s@ =~= old(s)@ + dec_int(v as int));
        }
    } else {
        push_digits(s, v as u32);
    }
}

fn paren_left_needed(parent: &Op, child: &Expr) -> (r: bool)
    ensures
        r == paren_left(*parent, *child),
{
    match parent {
        Op::Add | Op::Minus => false,
        Op::Mul | Op::Div => match child {
            Expr::Single(_) => false,
            Expr::Primitive(op2, _, _) | Expr::Compound(op2, _, _) => matches!(
                op2,
                Op::Add
                    | Op::Minus,
            ),
        },
    }
}

fn paren_right_needed(parent: &Op, child: &Expr) -> (r: bool)
    ensures
        r == paren_right(*parent, *child),
{
    match parent {
        Op::Add => false,
        Op::Minus | Op::Mul => match child {
            Expr::Single(_) => false,
            Expr::Primitive(op2, _, _) | Expr::Compound(op2, _, _) => matches!(
                op2,
                Op::Add
                    | Op::Minus,
            ),
        },
        Op::Div => match child {
            Expr::Single(_) => false,
            Expr::Primitive(op2, _, _) | Expr::Compound(op2, _, _) => matches!(
                op2,
                Op::Add
                    | Op::Minus
                    | Op::Div,
            ),
        },
    }
}

fn push_expr(s: &mut String, e: &Expr)
    ensures
        final(s)@ == old(s)@ + render_spec(*e),
    decreases *e,
{
    match e {
        Expr::Single(v) => push_int(s, *v),
        Expr::Primitive(op, a, b) => {
            push_int(s, *a);
            s.append(op_str(*op));
            push_int(s, *b);
            proof {
                assert(s@ =~= old(s)@ + render_spec(*e));
            }
        },
        Expr::Compound(op, l, r) => {
            let pl = paren_left_needed(op, l);
            if pl {
                s.append("(");
            }
            push_expr(s, l);
            if pl {
                s.append(")");
            }
            s.append(op_str(*op));
            let pr = paren_right_needed(op, r);
            if pr {
                s.append("(");
            }
            push_expr(s, r);
            if pr {
                s.append(")");
            }
            proof {
                reveal_strlit("(");
                reveal_strlit(")");
                assert(s@ =~= old(s)@ + render_spec(*e));
            }
        },
    }
}

impl Op {
    /// The operator's display symbol as text.
    pub fn symbol(&self) -> (s: &'static str)
        ensures
            s@ == seq![op_char(*self)],
    {
        op_str(*self)
    }
}

impl Expr {
    /// The expression as text, with the fewest parentheses that preserve
    /// the evaluation order the tree shape implies.
    pub fn render(&self) -> (s: String)
        ensures
            s@ == render_spec(*self),
    {
        let mut s = String::new();
        push_expr(&mut s, self);
        proof {
            assert(s@ =~= render_spec(*self));
        }
        s
    }
}

} // verus!
