//! The simplification rules, stated as total specification functions.
//!
//! Every arithmetic operator of the crate is a dispatch over the shapes of its
//! two operands.  The dispatch re-applies operators to intermediate results
//! (for instance when quotients are cross-multiplied), so the recursion is not
//! structural; it is bounded here by an explicit fuel argument, mirroring the
//! nesting-depth bound of the executable code.

use vstd::prelude::*;

use crate::model::{
    can_add_s, digits_val, first_can, gcd_s, last_match_below, neg_s, pow10, ExprV,
};

verus! {

broadcast use vstd::seq::axiom_seq_index_decreases, vstd::seq::axiom_seq_subrange_decreases;

/// The nesting-depth bound of the operator dispatch.
pub const FUEL: u64 = 0x1000000000000;

/// The outcome of one operator application.
pub enum OpOut {
    /// The operator produced this reduced tree.
    Done(ExprV),
    /// A division by a zero number was attempted.
    DivZero,
    /// A numeric intermediate left the range of the scalar type.
    Overflow,
    /// The nesting-depth bound was exhausted.
    NoFuel,
}

/// Negates the tree inside a successful outcome.
pub open spec fn neg_out(o: OpOut) -> OpOut {
    match o {
        OpOut::Done(v) => OpOut::Done(neg_s(v)),
        _ => o,
    }
}

/// Addition of two numbers, watching the scalar range.
pub open spec fn num_add_s(x: nat, y: nat) -> OpOut {
    if x + y <= u32::MAX {
        OpOut::Done(ExprV::Num(x + y))
    } else {
        OpOut::Overflow
    }
}

/// Multiplication of two numbers, watching the scalar range.
pub open spec fn num_mul_s(x: nat, y: nat) -> OpOut {
    if x * y <= u32::MAX {
        OpOut::Done(ExprV::Num(x * y))
    } else {
        OpOut::Overflow
    }
}

/// Subtraction of two numbers: the sign is carried by a negation node,
/// so the scalar itself never goes negative.
pub open spec fn num_sub_s(x: nat, y: nat) -> ExprV {
    if x < y {
        neg_s(ExprV::Num((y - x) as nat))
    } else {
        ExprV::Num((x - y) as nat)
    }
}

/// Division of two numbers: an exact quotient collapses to a number,
/// anything else becomes a quotient in lowest terms.
pub open spec fn num_div_s(x: nat, y: nat) -> OpOut {
    if y == 0 {
        OpOut::DivZero
    } else if x % y == 0 {
        OpOut::Done(ExprV::Num(x / y))
    } else {
        let g = gcd_s(x, y);
        OpOut::Done(
            ExprV::Div(Box::new(ExprV::Num(x / g)), Box::new(ExprV::Num(y / g))),
        )
    }
}

/// A product list folded back into a tree: an empty list is the unit,
/// a singleton is its element, anything longer is a product node.
pub open spec fn mul_of_seq(ms: Seq<ExprV>) -> ExprV {
    if ms.len() == 0 {
        ExprV::Num(1)
    } else if ms.len() == 1 {
        ms[0]
    } else {
        ExprV::Mul(ms)
    }
}

/// Pairwise common-factor extraction over two product lists, scanning the
/// left list from its high end; each left element is matched against the
/// highest equal element still in the right list.
pub open spec fn cancel_rec(
    left: Seq<ExprV>,
    right: Seq<ExprV>,
    common: Seq<ExprV>,
    i: int,
) -> (Seq<ExprV>, Seq<ExprV>, Seq<ExprV>)
    decreases (if i >= 0 { i } else { 0int }),
{
    if i <= 0 || i > left.len() {
        (left, right, common)
    } else {
        let j = last_match_below(right, left[i - 1], right.len() as int);
        if j >= 0 {
            cancel_rec(left.remove(i - 1), right.remove(j), common.push(left[i - 1]), i - 1)
        } else {
            cancel_rec(left, right, common, i - 1)
        }
    }
}

/// Common-factor extraction over whole product lists.
pub open spec fn cancel_s(left: Seq<ExprV>, right: Seq<ExprV>) -> (
    Seq<ExprV>,
    Seq<ExprV>,
    Seq<ExprV>,
) {
    cancel_rec(left, right, Seq::empty(), left.len() as int)
}

/// Sum of two products: shared factors are pulled out in front of the sum
/// of the remainders; with no shared factor the two products stand side by
/// side in a sum.
pub open spec fn mul_add_s(x: Seq<ExprV>, y: Seq<ExprV>) -> ExprV {
    let (l, r, c) = cancel_s(x, y);
    if c.len() == 0 {
        ExprV::Add(seq![ExprV::Mul(l), ExprV::Mul(r)])
    } else {
        ExprV::Mul(c.push(ExprV::Add(seq![mul_of_seq(l), mul_of_seq(r)])))
    }
}

/// Difference of two products, as `mul_add_s` with the right side negated.
pub open spec fn mul_sub_s(x: Seq<ExprV>, y: Seq<ExprV>) -> ExprV {
    let (l, r, c) = cancel_s(x, y);
    if c.len() == 0 {
        ExprV::Add(seq![ExprV::Mul(l), neg_s(ExprV::Mul(r))])
    } else {
        ExprV::Mul(c.push(ExprV::Add(seq![mul_of_seq(l), neg_s(mul_of_seq(r))])))
    }
}

/// Quotient of two products: shared factors cancel and the remainders
/// divide; when both remainders fold to bare numbers the pair is reduced
/// by the greatest common divisor, like any quotient of numbers.
pub open spec fn mul_div_s(x: Seq<ExprV>, y: Seq<ExprV>) -> OpOut {
    let (l, r, c) = cancel_s(x, y);
    match (mul_of_seq(l), mul_of_seq(r)) {
        (ExprV::Num(a), ExprV::Num(b)) => num_div_s(a, b),
        (fl, fr) => OpOut::Done(ExprV::Div(Box::new(fl), Box::new(fr))),
    }
}

/// The sum of two trees.
pub open spec fn add_rec(a: ExprV, b: ExprV, fuel: nat) -> OpOut
    decreases fuel, 0int,
{
    if fuel == 0 {
        OpOut::NoFuel
    } else {
        let f = (fuel - 1) as nat;
        match (a, b) {
            (ExprV::Add(x), ExprV::Add(y)) => OpOut::Done(ExprV::Add(x + y)),
            (ExprV::Mul(x), ExprV::Mul(y)) => OpOut::Done(mul_add_s(x, y)),
            (ExprV::Div(n1, d1), ExprV::Div(n2, d2)) => div_pair_add(*n1, *d1, *n2, *d2, f),
            (ExprV::Neg(x), ExprV::Neg(y)) => match add_rec(*x, *y, f) {
                OpOut::Done(v) => OpOut::Done(ExprV::Neg(Box::new(v))),
                e => e,
            },
            (ExprV::Num(x), ExprV::Num(y)) => num_add_s(x, y),
            (ExprV::Var(x), ExprV::Var(y)) => {
                if x == y {
                    OpOut::Done(ExprV::Mul(seq![ExprV::Num(2), ExprV::Var(x)]))
                } else {
                    OpOut::Done(ExprV::Add(seq![ExprV::Var(x), ExprV::Var(y)]))
                }
            },
            (ExprV::Num(n), _) if n == 0 => OpOut::Done(b),
            (_, ExprV::Num(n)) if n == 0 => OpOut::Done(a),
            (ExprV::Num(n), ExprV::Add(ss)) => add_num_rec(ss, n, f),
            (ExprV::Add(ss), ExprV::Num(n)) => add_num_rec(ss, n, f),
            (ExprV::Neg(x), _) => sub_rec(b, *x, f),
            (_, ExprV::Neg(x)) => sub_rec(a, *x, f),
            (ExprV::Add(ss), _) => OpOut::Done(ExprV::Add(ss.push(b))),
            (_, ExprV::Add(ss)) => OpOut::Done(ExprV::Add(ss.push(a))),
            (ExprV::Div(n, d), _) => div_absorb_add(*n, *d, b, f),
            (_, ExprV::Div(n, d)) => div_absorb_add(*n, *d, a, f),
            _ => OpOut::Done(ExprV::Add(seq![a, b])),
        }
    }
}

/// Folding one more number into a sum's summand list: the first summand that
/// folds a number well absorbs it and moves to the back of the list; with no
/// such summand the number becomes a new summand.
pub open spec fn add_num_rec(ss: Seq<ExprV>, n: nat, fuel: nat) -> OpOut
    decreases fuel, 1int,
{
    let i = first_can(ss, 0);
    if i >= ss.len() {
        OpOut::Done(ExprV::Add(ss.push(ExprV::Num(n))))
    } else {
        match add_rec(ss[i], ExprV::Num(n), fuel) {
            OpOut::Done(x) => OpOut::Done(ExprV::Add(ss.remove(i).push(x))),
            e => e,
        }
    }
}

/// Sum of two quotients: equal denominators add the numerators and
/// re-normalize; different denominators cross-multiply.
pub open spec fn div_pair_add(n1: ExprV, d1: ExprV, n2: ExprV, d2: ExprV, fuel: nat) -> OpOut
    decreases fuel, 1int,
{
    if d1 == d2 {
        match add_rec(n1, n2, fuel) {
            OpOut::Done(nn) => div_rec(nn, d1, fuel),
            e => e,
        }
    } else {
        match mul_rec(n1, d2, fuel) {
            OpOut::Done(p1) => match mul_rec(n2, d1, fuel) {
                OpOut::Done(p2) => match add_rec(p1, p2, fuel) {
                    OpOut::Done(nn) => match mul_rec(d1, d2, fuel) {
                        OpOut::Done(dd) => div_rec(nn, dd, fuel),
                        e => e,
                    },
                    e => e,
                },
                e => e,
            },
            e => e,
        }
    }
}

/// Difference of two quotients, as `div_pair_add` with a sign flip on the
/// second numerator.
pub open spec fn div_pair_sub(n1: ExprV, d1: ExprV, n2: ExprV, d2: ExprV, fuel: nat) -> OpOut
    decreases fuel, 1int,
{
    if d1 == d2 {
        match sub_rec(n1, n2, fuel) {
            OpOut::Done(nn) => div_rec(nn, d1, fuel),
            e => e,
        }
    } else {
        match mul_rec(n1, d2, fuel) {
            OpOut::Done(p1) => match mul_rec(n2, d1, fuel) {
                OpOut::Done(p2) => match sub_rec(p1, p2, fuel) {
                    OpOut::Done(nn) => match mul_rec(d1, d2, fuel) {
                        OpOut::Done(dd) => div_rec(nn, dd, fuel),
                        e => e,
                    },
                    e => e,
                },
                e => e,
            },
            e => e,
        }
    }
}

/// Sum of a quotient and any other tree: the other tree is brought over the
/// quotient's denominator.
pub open spec fn div_absorb_add(n: ExprV, d: ExprV, other: ExprV, fuel: nat) -> OpOut
    decreases fuel, 1int,
{
    match mul_rec(other, d, fuel) {
        OpOut::Done(p) => match add_rec(p, n, fuel) {
            OpOut::Done(nn) => div_rec(nn, d, fuel),
            e => e,
        },
        e => e,
    }
}

/// The difference of two trees.
pub open spec fn sub_rec(a: ExprV, b: ExprV, fuel: nat) -> OpOut
    decreases fuel, 0int,
{
    if fuel == 0 {
        OpOut::NoFuel
    } else {
        let f = (fuel - 1) as nat;
        match (a, b) {
            (ExprV::Add(x), ExprV::Add(y)) => OpOut::Done(
                ExprV::Add(x + y.map(|i: int, e: ExprV| neg_s(e))),
            ),
            (ExprV::Mul(x), ExprV::Mul(y)) => OpOut::Done(mul_sub_s(x, y)),
            (ExprV::Div(n1, d1), ExprV::Div(n2, d2)) => div_pair_sub(*n1, *d1, *n2, *d2, f),
            (ExprV::Neg(x), ExprV::Neg(y)) => sub_rec(*y, *x, f),
            (ExprV::Num(x), ExprV::Num(y)) => OpOut::Done(num_sub_s(x, y)),
            (ExprV::Var(x), ExprV::Var(y)) => {
                if x == y {
                    OpOut::Done(ExprV::Num(0))
                } else {
                    OpOut::Done(ExprV::Add(seq![ExprV::Var(x), neg_s(ExprV::Var(y))]))
                }
            },
            (ExprV::Num(n), _) if n == 0 => OpOut::Done(neg_s(b)),
            (_, ExprV::Num(n)) if n == 0 => OpOut::Done(a),
            (ExprV::Neg(x), _) => neg_out(add_rec(*x, b, f)),
            (_, ExprV::Neg(x)) => add_rec(a, *x, f),
            _ => OpOut::Done(ExprV::Add(seq![a, neg_s(b)])),
        }
    }
}

/// The product of two trees.
pub open spec fn mul_rec(a: ExprV, b: ExprV, fuel: nat) -> OpOut
    decreases fuel, 0int,
{
    if fuel == 0 {
        OpOut::NoFuel
    } else {
        let f = (fuel - 1) as nat;
        match (a, b) {
            (ExprV::Add(x), ExprV::Add(y)) => OpOut::Done(
                ExprV::Mul(seq![ExprV::Add(x), ExprV::Add(y)]),
            ),
            (ExprV::Mul(x), ExprV::Mul(y)) => OpOut::Done(ExprV::Mul(x + y)),
            (ExprV::Div(n1, d1), ExprV::Div(n2, d2)) => match mul_rec(*n1, *n2, f) {
                OpOut::Done(nn) => match mul_rec(*d1, *d2, f) {
                    OpOut::Done(dd) => div_rec(nn, dd, f),
                    e => e,
                },
                e => e,
            },
            (ExprV::Neg(x), ExprV::Neg(y)) => mul_rec(*x, *y, f),
            (ExprV::Num(x), ExprV::Num(y)) => num_mul_s(x, y),
            (ExprV::Var(x), ExprV::Var(y)) => OpOut::Done(
                ExprV::Mul(seq![ExprV::Var(x), ExprV::Var(y)]),
            ),
            (ExprV::Num(n), _) if n == 0 => OpOut::Done(ExprV::Num(0)),
            (_, ExprV::Num(n)) if n == 0 => OpOut::Done(ExprV::Num(0)),
            (ExprV::Num(n), _) if n == 1 => OpOut::Done(b),
            (_, ExprV::Num(n)) if n == 1 => OpOut::Done(a),
            (_, ExprV::Neg(x)) => neg_out(mul_rec(a, *x, f)),
            (ExprV::Neg(x), _) => neg_out(mul_rec(*x, b, f)),
            (_, ExprV::Div(n, d)) => match mul_rec(a, *n, f) {
                OpOut::Done(p) => div_rec(p, *d, f),
                e => e,
            },
            (ExprV::Div(n, d), _) => match mul_rec(b, *n, f) {
                OpOut::Done(p) => div_rec(p, *d, f),
                e => e,
            },
            (ExprV::Mul(ms), _) => OpOut::Done(ExprV::Mul(ms.push(b))),
            (_, ExprV::Mul(ms)) => OpOut::Done(ExprV::Mul(ms.push(a))),
            _ => OpOut::Done(ExprV::Mul(seq![a, b])),
        }
    }
}

/// The quotient of two trees.
pub open spec fn div_rec(a: ExprV, b: ExprV, fuel: nat) -> OpOut
    decreases fuel, 0int,
{
    if fuel == 0 {
        OpOut::NoFuel
    } else {
        let f = (fuel - 1) as nat;
        match (a, b) {
            (ExprV::Add(x), ExprV::Add(y)) => OpOut::Done(
                ExprV::Div(Box::new(ExprV::Add(x)), Box::new(ExprV::Add(y))),
            ),
            (ExprV::Mul(x), ExprV::Mul(y)) => mul_div_s(x, y),
            (ExprV::Div(n1, d1), ExprV::Div(n2, d2)) => mul_rec(
                ExprV::Div(n1, d1),
                ExprV::Div(d2, n2),
                f,
            ),
            (ExprV::Neg(x), ExprV::Neg(y)) => div_rec(*x, *y, f),
            (ExprV::Num(x), ExprV::Num(y)) => num_div_s(x, y),
            (ExprV::Var(x), ExprV::Var(y)) => OpOut::Done(
                ExprV::Div(Box::new(ExprV::Var(x)), Box::new(ExprV::Var(y))),
            ),
            (_, ExprV::Num(n)) if n == 0 => OpOut::DivZero,
            (ExprV::Num(n), _) if n == 0 => OpOut::Done(ExprV::Num(0)),
            (_, ExprV::Num(n)) if n == 1 => OpOut::Done(a),
            (ExprV::Neg(x), _) => neg_out(div_rec(*x, b, f)),
            (_, ExprV::Neg(x)) => neg_out(div_rec(a, *x, f)),
            (_, ExprV::Div(n, d)) => match div_rec(*d, *n, f) {
                OpOut::Done(q) => mul_rec(a, q, f),
                e => e,
            },
            (ExprV::Div(n, d), _) => match mul_rec(*d, b, f) {
                OpOut::Done(dd) => div_rec(*n, dd, f),
                e => e,
            },
            _ => OpOut::Done(ExprV::Div(Box::new(a), Box::new(b))),
        }
    }
}

/// The first binding for `name` at or after index `i`, if any.
pub open spec fn find_bind(
    binds: Seq<(Seq<char>, ExprV)>,
    name: Seq<char>,
    i: int,
) -> Option<ExprV>
    decreases (if i >= 0 { binds.len() - i + 1 } else { 0int }),
{
    if i < 0 || i >= binds.len() {
        Option::None
    } else if binds[i].0 == name {
        Option::Some(binds[i].1)
    } else {
        find_bind(binds, name, i + 1)
    }
}

/// Substitution of variables: matching variables are replaced by their bound
/// trees and every operator along the way is re-applied, so the result is
/// reduced again.
pub open spec fn set_vars_rec(e: ExprV, binds: Seq<(Seq<char>, ExprV)>) -> OpOut
    decreases e, 0int,
{
    match e {
        ExprV::Num(_) => OpOut::Done(e),
        ExprV::Var(nm) => match find_bind(binds, nm, 0) {
            Option::Some(x) => OpOut::Done(x),
            Option::None => OpOut::Done(e),
        },
        ExprV::Neg(c) => neg_out(set_vars_rec(*c, binds)),
        ExprV::Add(ss) => sv_fold_add(ss, binds, 0, ExprV::Num(0)),
        ExprV::Mul(ms) => {
            if ms.len() == 0 {
                OpOut::Done(ExprV::Mul(ms))
            } else {
                match set_vars_rec(ms[0], binds) {
                    OpOut::Done(x) => sv_fold_mul(ms, binds, 1, x),
                    e => e,
                }
            }
        },
        ExprV::Div(n, d) => match set_vars_rec(*n, binds) {
            OpOut::Done(x) => match set_vars_rec(*d, binds) {
                OpOut::Done(y) => div_rec(x, y, FUEL as nat),
                e => e,
            },
            e => e,
        },
    }
}

/// Left fold of substituted summands through the generic sum.
pub open spec fn sv_fold_add(
    ss: Seq<ExprV>,
    binds: Seq<(Seq<char>, ExprV)>,
    k: int,
    acc: ExprV,
) -> OpOut
    decreases ss, (if 0 <= k <= ss.len() { ss.len() - k + 2 } else { 0int }),
{
    if k < 0 || k >= ss.len() {
        OpOut::Done(acc)
    } else {
        match set_vars_rec(ss[k], binds) {
            OpOut::Done(x) => match add_rec(acc, x, FUEL as nat) {
                OpOut::Done(acc2) => sv_fold_add(ss, binds, k + 1, acc2),
                e => e,
            },
            e => e,
        }
    }
}

/// Left fold of substituted multipliers through the generic product.
pub open spec fn sv_fold_mul(
    ms: Seq<ExprV>,
    binds: Seq<(Seq<char>, ExprV)>,
    k: int,
    acc: ExprV,
) -> OpOut
    decreases ms, (if 0 <= k <= ms.len() { ms.len() - k + 2 } else { 0int }),
{
    if k < 0 || k >= ms.len() {
        OpOut::Done(acc)
    } else {
        match set_vars_rec(ms[k], binds) {
            OpOut::Done(x) => match mul_rec(acc, x, FUEL as nat) {
                OpOut::Done(acc2) => sv_fold_mul(ms, binds, k + 1, acc2),
                e => e,
            },
            e => e,
        }
    }
}

} // verus!
