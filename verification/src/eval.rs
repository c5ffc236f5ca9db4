//! Evaluation of an expression tree to an exact rational value.
//!
//! Evaluation never rounds: the result is a sign, a numerator and a
//! denominator.  The numerator and denominator are bounded by the range of
//! the executable 64-bit representation, mirrored here exactly.

use vstd::prelude::*;

use crate::model::ExprV;

verus! {

broadcast use vstd::seq::axiom_seq_index_decreases, vstd::seq::axiom_seq_subrange_decreases;

/// The model of an exact rational value: a sign and two magnitudes.
pub struct RatV {
    pub neg: bool,
    pub num: nat,
    pub den: nat,
}

/// The outcome of evaluating a tree.
pub enum CalcOut {
    /// The tree evaluates to this rational value.
    Val(RatV),
    /// The tree still contains a variable.
    Unbound,
    /// A denominator evaluated to zero.
    DivZero,
    /// An intermediate magnitude left the 64-bit range.
    Overflow,
}

/// The signed numerator of a rational value.
pub open spec fn rat_int(r: RatV) -> int {
    if r.neg {
        -(r.num as int)
    } else {
        r.num as int
    }
}

/// Two rational values stand for the same number.
pub open spec fn rat_eq(a: RatV, b: RatV) -> bool {
    rat_int(a) * b.den == rat_int(b) * a.den
}

/// Sum of two rational values over a common denominator.
pub open spec fn rat_add_s(x: RatV, y: RatV) -> CalcOut {
    let p1 = x.num * y.den;
    let p2 = y.num * x.den;
    let dd = x.den * y.den;
    if p1 > u64::MAX || p2 > u64::MAX || dd > u64::MAX {
        CalcOut::Overflow
    } else if x.neg == y.neg {
        if p1 + p2 > u64::MAX {
            CalcOut::Overflow
        } else {
            CalcOut::Val(RatV { neg: x.neg, num: p1 + p2, den: dd })
        }
    } else if p1 >= p2 {
        CalcOut::Val(RatV { neg: x.neg, num: (p1 - p2) as nat, den: dd })
    } else {
        CalcOut::Val(RatV { neg: y.neg, num: (p2 - p1) as nat, den: dd })
    }
}

/// Product of two rational values.
pub open spec fn rat_mul_s(x: RatV, y: RatV) -> CalcOut {
    let nn = x.num * y.num;
    let dd = x.den * y.den;
    if nn > u64::MAX || dd > u64::MAX {
        CalcOut::Overflow
    } else {
        CalcOut::Val(RatV { neg: x.neg != y.neg, num: nn, den: dd })
    }
}

/// Quotient of two rational values.
pub open spec fn rat_div_s(x: RatV, y: RatV) -> CalcOut {
    if y.num == 0 {
        CalcOut::DivZero
    } else {
        let nn = x.num * y.den;
        let dd = x.den * y.num;
        if nn > u64::MAX || dd > u64::MAX {
            CalcOut::Overflow
        } else {
            CalcOut::Val(RatV { neg: x.neg != y.neg, num: nn, den: dd })
        }
    }
}

/// Evaluation of a tree: numbers are exact, negation flips the sign, sums
/// and products fold their children, quotients divide, and a variable has
/// no value.
pub open spec fn calc_rec(e: ExprV) -> CalcOut
    decreases e, 0int,
{
    match e {
        ExprV::Num(n) => CalcOut::Val(RatV { neg: false, num: n, den: 1 }),
        ExprV::Var(_) => CalcOut::Unbound,
        ExprV::Neg(c) => match calc_rec(*c) {
            CalcOut::Val(r) => CalcOut::Val(RatV { neg: !r.neg, ..r }),
            o => o,
        },
        ExprV::Add(ss) => {
            if ss.len() == 0 {
                CalcOut::Val(RatV { neg: false, num: 0, den: 1 })
            } else {
                match calc_rec(ss[0]) {
                    CalcOut::Val(r) => calc_fold_add(ss, 1, r),
                    o => o,
                }
            }
        },
        ExprV::Mul(ms) => {
            if ms.len() == 0 {
                CalcOut::Val(RatV { neg: false, num: 1, den: 1 })
            } else {
                match calc_rec(ms[0]) {
                    CalcOut::Val(r) => calc_fold_mul(ms, 1, r),
                    o => o,
                }
            }
        },
        ExprV::Div(n, d) => match calc_rec(*n) {
            CalcOut::Val(x) => match calc_rec(*d) {
                CalcOut::Val(y) => rat_div_s(x, y),
                o => o,
            },
            o => o,
        },
    }
}

/// Left fold of summand values.
pub open spec fn calc_fold_add(ss: Seq<ExprV>, k: int, acc: RatV) -> CalcOut
    decreases ss, (if 0 <= k <= ss.len() { ss.len() - k + 2 } else { 0int }),
{
    if k < 0 || k >= ss.len() {
        CalcOut::Val(acc)
    } else {
        match calc_rec(ss[k]) {
            CalcOut::Val(r) => match rat_add_s(acc, r) {
                CalcOut::Val(acc2) => calc_fold_add(ss, k + 1, acc2),
                o => o,
            },
            o => o,
        }
    }
}

/// Left fold of multiplier values.
pub open spec fn calc_fold_mul(ms: Seq<ExprV>, k: int, acc: RatV) -> CalcOut
    decreases ms, (if 0 <= k <= ms.len() { ms.len() - k + 2 } else { 0int }),
{
    if k < 0 || k >= ms.len() {
        CalcOut::Val(acc)
    } else {
        match calc_rec(ms[k]) {
            CalcOut::Val(r) => match rat_mul_s(acc, r) {
                CalcOut::Val(acc2) => calc_fold_mul(ms, k + 1, acc2),
                o => o,
            },
            o => o,
        }
    }
}

} // verus!
