//! The mathematical model of an expression tree.
//!
//! `ExprV` is the ghost counterpart of the executable `Operation` tree: every
//! executable function of this crate is specified against it.

use vstd::prelude::*;

verus! {

broadcast use vstd::seq::axiom_seq_index_decreases, vstd::seq::axiom_seq_subrange_decreases;

/// The shape of an expression: a number, a named variable, a negation,
/// an n-ary sum, an n-ary product, or a quotient of two subtrees.
pub enum ExprV {
    Num(nat),
    Var(Seq<char>),
    Neg(Box<ExprV>),
    Add(Seq<ExprV>),
    Mul(Seq<ExprV>),
    Div(Box<ExprV>, Box<ExprV>),
}

/// Negation of a tree: a negation is unwrapped, zero stays zero,
/// anything else is wrapped in a negation node.
pub open spec fn neg_s(e: ExprV) -> ExprV {
    match e {
        ExprV::Neg(c) => *c,
        ExprV::Num(n) => if n == 0 {
            e
        } else {
            ExprV::Neg(Box::new(e))
        },
        _ => ExprV::Neg(Box::new(e)),
    }
}

/// Whether a number folds well into this tree when added to it:
/// true for a bare number, for a quotient with a bare-number denominator,
/// for a negation of such a tree, and for a sum containing such a summand.
pub open spec fn can_add_s(e: ExprV) -> bool
    decreases e, 1int,
{
    match e {
        ExprV::Num(_) => true,
        ExprV::Var(_) => false,
        ExprV::Neg(c) => can_add_s(*c),
        ExprV::Add(ss) => first_can(ss, 0) < ss.len(),
        ExprV::Mul(_) => false,
        ExprV::Div(_, d) => (*d) is Num,
    }
}

/// The first index at or after `i` whose element folds a number well,
/// or `s.len()` if there is none.
pub open spec fn first_can(s: Seq<ExprV>, i: int) -> int
    decreases s, (if 0 <= i <= s.len() { s.len() - i + 2 } else { 0int }),
{
    if i < 0 || i >= s.len() {
        s.len() as int
    } else if can_add_s(s[i]) {
        i
    } else {
        first_can(s, i + 1)
    }
}

/// The greatest index below `hi` whose element equals `x`, or `-1`.
pub open spec fn last_match_below(s: Seq<ExprV>, x: ExprV, hi: int) -> int
    decreases (if hi >= 0 { hi } else { 0int }),
{
    if hi <= 0 || hi > s.len() {
        -1
    } else if s[hi - 1] == x {
        hi - 1
    } else {
        last_match_below(s, x, hi - 1)
    }
}

/// One step of the Euclidean algorithm, with the smaller value first.
pub open spec fn gcd_rec(smaller: nat, bigger: nat) -> nat
    decreases smaller,
{
    if smaller == 0 {
        bigger
    } else {
        gcd_rec(bigger % smaller, smaller)
    }
}

/// The greatest common divisor of two natural numbers.
pub open spec fn gcd_s(a: nat, b: nat) -> nat {
    if a < b {
        gcd_rec(a, b)
    } else {
        gcd_rec(b, a)
    }
}

/// The numeric value of a run of decimal digit characters.
pub open spec fn digits_val(s: Seq<char>) -> nat
    decreases s,
{
    if s.len() == 0 {
        0
    } else {
        (digits_val(s.drop_last()) * 10 + s.last() as int - 48) as nat
    }
}

/// Whether every character of `s` is a decimal digit.
pub open spec fn all_digits(s: Seq<char>) -> bool {
    forall|i: int| 0 <= i < s.len() ==> '0' <= #[trigger] s[i] && s[i] <= '9'
}

/// The `k`-th power of ten.
pub open spec fn pow10(k: nat) -> nat
    decreases k,
{
    if k == 0 {
        1
    } else {
        10 * pow10((k - 1) as nat)
    }
}

} // verus!
