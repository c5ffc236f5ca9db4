//! The canonical form that construction keeps, and its preservation.
//!
//! Every tree built by the operators out of canonical operands is canonical
//! again: there is no separate simplification pass, so this is the
//! invariant that makes late evaluation exact.

use vstd::prelude::*;

use crate::model::{first_can, last_match_below, neg_s, ExprV};
use crate::rules::{
    add_num_rec, add_rec, cancel_rec, cancel_s, div_absorb_add, div_pair_add, div_pair_sub,
    div_rec, mul_add_s, mul_div_s, mul_of_seq, mul_rec, mul_sub_s, num_div_s, sub_rec, OpOut,
};

verus! {

broadcast use vstd::seq::axiom_seq_index_decreases, vstd::seq::axiom_seq_subrange_decreases;

/// A tree in canonical reduced form: sums and products have at least two
/// children, a product never directly holds a product, a negation or a
/// zero, a negation never directly wraps a negation or a zero, and a
/// quotient never directly holds a negation or a literal zero.
pub open spec fn canon(e: ExprV) -> bool
    decreases e, 0int,
{
    match e {
        ExprV::Num(_) => true,
        ExprV::Var(_) => true,
        ExprV::Neg(c) => canon(*c) && !((*c) is Neg) && *c != ExprV::Num(0),
        ExprV::Add(ss) => ss.len() >= 2 && forall|i: int|
            0 <= i < ss.len() ==> canon(#[trigger] ss[i]),
        ExprV::Mul(ms) => ms.len() >= 2 && forall|i: int|
            0 <= i < ms.len() ==> mul_kid_ok(#[trigger] ms[i]),
        ExprV::Div(n, d) => canon(*n) && canon(*d) && !((*n) is Neg) && !((*d) is Neg) && *n
            != ExprV::Num(0) && *d != ExprV::Num(0) && coprime_if_nums(*n, *d),
    }
}

/// A quotient whose two children are bare numbers is in lowest terms.
pub open spec fn coprime_if_nums(n: ExprV, d: ExprV) -> bool {
    match (n, d) {
        (ExprV::Num(x), ExprV::Num(y)) => crate::model::gcd_s(x, y) == 1,
        _ => true,
    }
}

/// What a product may hold directly: a canonical tree that is itself no
/// product, no negation and no zero.
pub open spec fn mul_kid_ok(e: ExprV) -> bool
    decreases e, 1int,
{
    canon(e) && !(e is Mul) && !(e is Neg) && e != ExprV::Num(0)
}

/// Every element of a product list is an acceptable product child.
pub open spec fn mul_seq_ok(s: Seq<ExprV>) -> bool {
    forall|i: int| 0 <= i < s.len() ==> mul_kid_ok(#[trigger] s[i])
}

/// Negation keeps trees canonical.
pub proof fn lemma_neg_s_canon(e: ExprV)
    requires
        canon(e),
    ensures
        canon(neg_s(e)),
{
}

/// A product list of acceptable children folds back to a canonical tree
/// that is itself no product and no negation.
pub proof fn lemma_mul_of_seq_canon(ms: Seq<ExprV>)
    requires
        mul_seq_ok(ms),
    ensures
        canon(mul_of_seq(ms)),
        !(mul_of_seq(ms) is Neg),
        mul_of_seq(ms) != ExprV::Num(0),
{
    if ms.len() == 1 {
        assert(mul_kid_ok(ms[0]));
    }
}

/// Common-factor extraction keeps all three lists acceptable product
/// children.
pub proof fn lemma_cancel_rec_ok(left: Seq<ExprV>, right: Seq<ExprV>, common: Seq<ExprV>, i: int)
    requires
        mul_seq_ok(left),
        mul_seq_ok(right),
        mul_seq_ok(common),
    ensures
        mul_seq_ok(cancel_rec(left, right, common, i).0),
        mul_seq_ok(cancel_rec(left, right, common, i).1),
        mul_seq_ok(cancel_rec(left, right, common, i).2),
    decreases (if i >= 0 { i } else { 0int }),
{
    if !(i <= 0 || i > left.len()) {
        let j = last_match_below(right, left[i - 1], right.len() as int);
        if j >= 0 {
            lemma_last_match_below_in_range(right, left[i - 1], right.len() as int);
            assert(mul_seq_ok(left.remove(i - 1))) by {
                assert forall|k: int| 0 <= k < left.remove(i - 1).len() implies mul_kid_ok(
                    #[trigger] left.remove(i - 1)[k],
                ) by {
                    if k < i - 1 {
                        assert(left.remove(i - 1)[k] == left[k]);
                    } else {
                        assert(left.remove(i - 1)[k] == left[k + 1]);
                    }
                }
            }
            assert(mul_seq_ok(right.remove(j))) by {
                assert forall|k: int| 0 <= k < right.remove(j).len() implies mul_kid_ok(
                    #[trigger] right.remove(j)[k],
                ) by {
                    if k < j {
                        assert(right.remove(j)[k] == right[k]);
                    } else {
                        assert(right.remove(j)[k] == right[k + 1]);
                    }
                }
            }
            assert(mul_seq_ok(common.push(left[i - 1]))) by {
                assert forall|k: int| 0 <= k < common.push(left[i - 1]).len() implies mul_kid_ok(
                    #[trigger] common.push(left[i - 1])[k],
                ) by {
                    if k < common.len() {
                        assert(common.push(left[i - 1])[k] == common[k]);
                    } else {
                        assert(common.push(left[i - 1])[k] == left[i - 1]);
                    }
                }
            }
            lemma_cancel_rec_ok(
                left.remove(i - 1),
                right.remove(j),
                common.push(left[i - 1]),
                i - 1,
            );
        } else {
            lemma_cancel_rec_ok(left, right, common, i - 1);
        }
    }
}

/// A found last match lies inside the list.
pub proof fn lemma_last_match_below_in_range(s: Seq<ExprV>, x: ExprV, hi: int)
    requires
        0 <= hi <= s.len(),
    ensures
        last_match_below(s, x, hi) < hi,
        last_match_below(s, x, hi) >= 0 ==> last_match_below(s, x, hi) < s.len(),
    decreases (if hi >= 0 { hi } else { 0int }),
{
    if !(hi <= 0 || hi > s.len()) {
        if s[hi - 1] != x {
            lemma_last_match_below_in_range(s, x, hi - 1);
        }
    }
}

/// The sum of two acceptable product lists is canonical.
pub proof fn lemma_mul_add_s_canon(x: Seq<ExprV>, y: Seq<ExprV>)
    requires
        mul_seq_ok(x),
        mul_seq_ok(y),
        x.len() >= 2,
        y.len() >= 2,
    ensures
        canon(mul_add_s(x, y)),
        !(mul_add_s(x, y) is Neg),
        mul_add_s(x, y) != ExprV::Num(0),
{
    lemma_cancel_rec_ok(x, y, Seq::empty(), x.len() as int);
    let (l, r, c) = cancel_s(x, y);
    if c.len() == 0 {
        assert(canon(ExprV::Mul(l)) && canon(ExprV::Mul(r))) by {
            lemma_cancel_keeps_lengths(x, y, Seq::empty(), x.len() as int);
        }
    } else {
        lemma_mul_of_seq_canon(l);
        lemma_mul_of_seq_canon(r);
        let inner = ExprV::Add(seq![mul_of_seq(l), mul_of_seq(r)]);
        assert(canon(inner));
        assert(mul_seq_ok(c.push(inner))) by {
            assert forall|k: int| 0 <= k < c.push(inner).len() implies mul_kid_ok(
                #[trigger] c.push(inner)[k],
            ) by {
                if k < c.len() {
                    assert(c.push(inner)[k] == c[k]);
                } else {
                    assert(c.push(inner)[k] == inner);
                }
            }
        }
    }
}

/// With no common factor the two lists come back whole.
pub proof fn lemma_cancel_keeps_lengths(
    left: Seq<ExprV>,
    right: Seq<ExprV>,
    common: Seq<ExprV>,
    i: int,
)
    ensures
        cancel_rec(left, right, common, i).2.len() == common.len() ==> cancel_rec(
            left,
            right,
            common,
            i,
        ) == (left, right, common),
    decreases (if i >= 0 { i } else { 0int }),
{
    if !(i <= 0 || i > left.len()) {
        let j = last_match_below(right, left[i - 1], right.len() as int);
        if j >= 0 {
            lemma_last_match_below_in_range(right, left[i - 1], right.len() as int);
            lemma_cancel_monotone(
                left.remove(i - 1),
                right.remove(j),
                common.push(left[i - 1]),
                i - 1,
            );
        } else {
            lemma_cancel_keeps_lengths(left, right, common, i - 1);
        }
    }
}

/// The common list never shrinks.
pub proof fn lemma_cancel_monotone(left: Seq<ExprV>, right: Seq<ExprV>, common: Seq<ExprV>, i: int)
    ensures
        cancel_rec(left, right, common, i).2.len() >= common.len(),
    decreases (if i >= 0 { i } else { 0int }),
{
    if !(i <= 0 || i > left.len()) {
        let j = last_match_below(right, left[i - 1], right.len() as int);
        if j >= 0 {
            lemma_last_match_below_in_range(right, left[i - 1], right.len() as int);
            lemma_cancel_monotone(
                left.remove(i - 1),
                right.remove(j),
                common.push(left[i - 1]),
                i - 1,
            );
        } else {
            lemma_cancel_monotone(left, right, common, i - 1);
        }
    }
}

/// The difference of two acceptable product lists is canonical.
pub proof fn lemma_mul_sub_s_canon(x: Seq<ExprV>, y: Seq<ExprV>)
    requires
        mul_seq_ok(x),
        mul_seq_ok(y),
        x.len() >= 2,
        y.len() >= 2,
    ensures
        canon(mul_sub_s(x, y)),
        !(mul_sub_s(x, y) is Neg),
        mul_sub_s(x, y) != ExprV::Num(0),
{
    lemma_cancel_rec_ok(x, y, Seq::empty(), x.len() as int);
    let (l, r, c) = cancel_s(x, y);
    if c.len() == 0 {
        lemma_cancel_keeps_lengths(x, y, Seq::empty(), x.len() as int);
        assert(canon(ExprV::Mul(l)) && canon(ExprV::Mul(r)));
        lemma_neg_s_canon(ExprV::Mul(r));
    } else {
        lemma_mul_of_seq_canon(l);
        lemma_mul_of_seq_canon(r);
        lemma_neg_s_canon(mul_of_seq(r));
        let inner = ExprV::Add(seq![mul_of_seq(l), neg_s(mul_of_seq(r))]);
        assert(canon(inner));
        assert(mul_seq_ok(c.push(inner))) by {
            assert forall|k: int| 0 <= k < c.push(inner).len() implies mul_kid_ok(
                #[trigger] c.push(inner)[k],
            ) by {
                if k < c.len() {
                    assert(c.push(inner)[k] == c[k]);
                } else {
                    assert(c.push(inner)[k] == inner);
                }
            }
        }
    }
}

/// The quotient of two acceptable product lists is canonical, never a
/// negation and never zero.
pub proof fn lemma_mul_div_s_canon(x: Seq<ExprV>, y: Seq<ExprV>)
    requires
        mul_seq_ok(x),
        mul_seq_ok(y),
    ensures
        mul_div_s(x, y) matches OpOut::Done(r) ==> canon(r) && !(r is Neg) && r
            != ExprV::Num(0),
{
    lemma_cancel_rec_ok(x, y, Seq::empty(), x.len() as int);
    let (l, r, c) = cancel_s(x, y);
    lemma_mul_of_seq_canon(l);
    lemma_mul_of_seq_canon(r);
    match (mul_of_seq(l), mul_of_seq(r)) {
        (ExprV::Num(a), ExprV::Num(b)) => {
            lemma_num_div_canon(a, b);
            assert(a > 0) by {
                if l.len() == 1 {
                    assert(mul_kid_ok(l[0]));
                }
            }
        },
        _ => {},
    }
}

/// A first acceptable position lies between its start and the length.
pub proof fn lemma_first_can_range(s: Seq<ExprV>, j: int)
    requires
        0 <= j <= s.len(),
    ensures
        j <= first_can(s, j) <= s.len(),
    decreases s.len() - j,
{
    if j < s.len() && !crate::model::can_add_s(s[j]) {
        lemma_first_can_range(s, j + 1);
    }
}

/// Pushing a canonical tree onto a canonical sum keeps it canonical.
pub proof fn lemma_canon_add_push(ss: Seq<ExprV>, x: ExprV)
    requires
        canon(ExprV::Add(ss)),
        canon(x),
    ensures
        canon(ExprV::Add(ss.push(x))),
{
    assert forall|k: int| 0 <= k < ss.push(x).len() implies canon(#[trigger] ss.push(x)[k]) by {
        if k < ss.len() {
            assert(ss.push(x)[k] == ss[k]);
        } else {
            assert(ss.push(x)[k] == x);
        }
    }
}

/// Concatenating two canonical sums keeps the result canonical.
pub proof fn lemma_canon_add_concat(x: Seq<ExprV>, y: Seq<ExprV>)
    requires
        canon(ExprV::Add(x)),
        canon(ExprV::Add(y)),
    ensures
        canon(ExprV::Add(x + y)),
{
    assert forall|k: int| 0 <= k < (x + y).len() implies canon(#[trigger] (x + y)[k]) by {
        if k < x.len() {
            assert((x + y)[k] == x[k]);
        } else {
            assert((x + y)[k] == y[k - x.len()]);
        }
    }
}

/// Removing one summand and pushing a canonical one keeps a sum canonical.
pub proof fn lemma_canon_add_remove_push(ss: Seq<ExprV>, i: int, x: ExprV)
    requires
        canon(ExprV::Add(ss)),
        0 <= i < ss.len(),
        canon(x),
    ensures
        canon(ExprV::Add(ss.remove(i).push(x))),
{
    let s2 = ss.remove(i).push(x);
    assert forall|k: int| 0 <= k < s2.len() implies canon(#[trigger] s2[k]) by {
        if k < ss.len() - 1 {
            assert(s2[k] == ss.remove(i)[k]);
            if k < i {
                assert(ss.remove(i)[k] == ss[k]);
            } else {
                assert(ss.remove(i)[k] == ss[k + 1]);
            }
        } else {
            assert(s2[k] == x);
        }
    }
}

/// Pushing an acceptable child onto a canonical product keeps it canonical.
pub proof fn lemma_canon_mul_push(ms: Seq<ExprV>, x: ExprV)
    requires
        canon(ExprV::Mul(ms)),
        mul_kid_ok(x),
    ensures
        canon(ExprV::Mul(ms.push(x))),
{
    assert forall|k: int| 0 <= k < ms.push(x).len() implies mul_kid_ok(
        #[trigger] ms.push(x)[k],
    ) by {
        if k < ms.len() {
            assert(ms.push(x)[k] == ms[k]);
        } else {
            assert(ms.push(x)[k] == x);
        }
    }
}

/// Concatenating two canonical products keeps the result canonical.
pub proof fn lemma_canon_mul_concat(x: Seq<ExprV>, y: Seq<ExprV>)
    requires
        canon(ExprV::Mul(x)),
        canon(ExprV::Mul(y)),
    ensures
        canon(ExprV::Mul(x + y)),
{
    assert forall|k: int| 0 <= k < (x + y).len() implies mul_kid_ok(#[trigger] (x + y)[k]) by {
        if k < x.len() {
            assert((x + y)[k] == x[k]);
        } else {
            assert((x + y)[k] == y[k - x.len()]);
        }
    }
}

/// A two-element sum of canonical trees is canonical.
pub proof fn lemma_canon_add_pair(a: ExprV, b: ExprV)
    requires
        canon(a),
        canon(b),
    ensures
        canon(ExprV::Add(seq![a, b])),
{
    assert(seq![a, b][0] == a && seq![a, b][1] == b);
}

/// A two-element product of acceptable children is canonical.
pub proof fn lemma_canon_mul_pair(a: ExprV, b: ExprV)
    requires
        mul_kid_ok(a),
        mul_kid_ok(b),
    ensures
        canon(ExprV::Mul(seq![a, b])),
{
    assert(seq![a, b][0] == a && seq![a, b][1] == b);
}

/// A number quotient constructs a canonical tree, never a negation, and a
/// nonzero one when the dividend is nonzero.
pub proof fn lemma_num_div_canon(x: nat, y: nat)
    ensures
        num_div_s(x, y) matches OpOut::Done(r) ==> canon(r) && !(r is Neg) && (x > 0 ==> r
            != ExprV::Num(0)),
{
    if y != 0 && x % y != 0 {
        crate::laws::lemma_reduced_quotient_coprime(x, y);
    }
    if y != 0 {
        if x % y == 0 {
            if x > 0 {
                vstd::arithmetic::div_mod::lemma_fundamental_div_mod(x as int, y as int);
                assert(x / y > 0) by (nonlinear_arith)
                    requires
                        x as int == y as int * ((x as int) / (y as int)),
                        x > 0,
                        y > 0,
                ;
            }
        } else {
            assert(x > 0) by {
                if x == 0 {
                    vstd::arithmetic::div_mod::lemma_small_mod(0, y);
                }
            }
            let g = crate::model::gcd_s(x, y);
            crate::laws::lemma_gcd_divides(x, y);
            vstd::arithmetic::div_mod::lemma_fundamental_div_mod(x as int, g as int);
            vstd::arithmetic::div_mod::lemma_fundamental_div_mod(y as int, g as int);
            assert(x / g > 0 && y / g > 0) by (nonlinear_arith)
                requires
                    x as int == g as int * ((x as int) / (g as int)),
                    y as int == g as int * ((y as int) / (g as int)),
                    x > 0,
                    y > 0,
                    g > 0,
            ;
            assert(canon(ExprV::Num(x / g)));
            assert(canon(ExprV::Num(y / g)));
            assert(canon(ExprV::Div(Box::new(ExprV::Num(x / g)), Box::new(ExprV::Num(y / g)))));
        }
    }
}

/// The sum of two canonical trees is canonical; when neither operand is a
/// negation the result is none, and when neither is zero the result is not
/// zero either.
pub proof fn lemma_add_rec_canon(a: ExprV, b: ExprV, fuel: nat)
    requires
        canon(a),
        canon(b),
    ensures
        add_rec(a, b, fuel) matches OpOut::Done(r) ==> canon(r) && (!(a is Neg) && !(b is Neg)
            ==> !(r is Neg)) && (!(a is Neg) && !(b is Neg) && a != ExprV::Num(0) && b
            != ExprV::Num(0) ==> r != ExprV::Num(0)),
    decreases fuel, 0int,
{
    if fuel > 0 {
        let f = (fuel - 1) as nat;
        match (a, b) {
            (ExprV::Add(x), ExprV::Add(y)) => {
                lemma_canon_add_concat(x, y);
            },
            (ExprV::Mul(x), ExprV::Mul(y)) => {
                lemma_mul_add_s_canon(x, y);
            },
            (ExprV::Div(n1, d1), ExprV::Div(n2, d2)) => {
                lemma_div_pair_add_canon(*n1, *d1, *n2, *d2, f);
            },
            (ExprV::Neg(x), ExprV::Neg(y)) => {
                lemma_add_rec_canon(*x, *y, f);
            },
            (ExprV::Num(x), ExprV::Num(y)) => {},
            (ExprV::Var(x), ExprV::Var(y)) => {
                if x == y {
                    lemma_canon_mul_pair(ExprV::Num(2), ExprV::Var(x));
                } else {
                    lemma_canon_add_pair(ExprV::Var(x), ExprV::Var(y));
                }
            },
            (ExprV::Num(n), _) if n == 0 => {},
            (_, ExprV::Num(n)) if n == 0 => {},
            (ExprV::Num(n), ExprV::Add(ss)) => {
                lemma_add_num_canon(ss, n, f);
            },
            (ExprV::Add(ss), ExprV::Num(n)) => {
                lemma_add_num_canon(ss, n, f);
            },
            (ExprV::Neg(x), _) => {
                lemma_sub_rec_canon(b, *x, f);
            },
            (_, ExprV::Neg(x)) => {
                lemma_sub_rec_canon(a, *x, f);
            },
            (ExprV::Add(ss), _) => {
                lemma_canon_add_push(ss, b);
            },
            (_, ExprV::Add(ss)) => {
                lemma_canon_add_push(ss, a);
            },
            (ExprV::Div(n, d), _) => {
                lemma_div_absorb_add_canon(*n, *d, b, f);
            },
            (_, ExprV::Div(n, d)) => {
                lemma_div_absorb_add_canon(*n, *d, a, f);
            },
            (first, second) => {
                lemma_canon_add_pair(first, second);
            },
        }
    }
}

/// Folding one more number into a canonical summand list keeps the sum
/// canonical.
pub proof fn lemma_add_num_canon(ss: Seq<ExprV>, n: nat, fuel: nat)
    requires
        canon(ExprV::Add(ss)),
    ensures
        add_num_rec(ss, n, fuel) matches OpOut::Done(r) ==> canon(r) && r is Add,
    decreases fuel, 1int,
{
    lemma_first_can_range(ss, 0);
    let i = first_can(ss, 0);
    if i >= ss.len() {
        lemma_canon_add_push(ss, ExprV::Num(n));
    } else {
        lemma_add_rec_canon(ss[i], ExprV::Num(n), fuel);
        match add_rec(ss[i], ExprV::Num(n), fuel) {
            OpOut::Done(x) => {
                lemma_canon_add_remove_push(ss, i, x);
            },
            _ => {},
        }
    }
}

/// The difference of two canonical trees is canonical.
pub proof fn lemma_sub_rec_canon(a: ExprV, b: ExprV, fuel: nat)
    requires
        canon(a),
        canon(b),
    ensures
        sub_rec(a, b, fuel) matches OpOut::Done(r) ==> canon(r),
    decreases fuel, 0int,
{
    if fuel > 0 {
        let f = (fuel - 1) as nat;
        match (a, b) {
            (ExprV::Add(x), ExprV::Add(y)) => {
                let yn = y.map(|i: int, e: ExprV| neg_s(e));
                assert(canon(ExprV::Add(yn))) by {
                    assert forall|k: int| 0 <= k < yn.len() implies canon(#[trigger] yn[k]) by {
                        assert(yn[k] == neg_s(y[k]));
                        lemma_neg_s_canon(y[k]);
                    }
                }
                lemma_canon_add_concat(x, yn);
            },
            (ExprV::Mul(x), ExprV::Mul(y)) => {
                lemma_mul_sub_s_canon(x, y);
            },
            (ExprV::Div(n1, d1), ExprV::Div(n2, d2)) => {
                lemma_div_pair_sub_canon(*n1, *d1, *n2, *d2, f);
            },
            (ExprV::Neg(x), ExprV::Neg(y)) => {
                lemma_sub_rec_canon(*y, *x, f);
            },
            (ExprV::Num(x), ExprV::Num(y)) => {
                if x < y {
                    lemma_neg_s_canon(ExprV::Num((y - x) as nat));
                }
            },
            (ExprV::Var(x), ExprV::Var(y)) => {
                if x != y {
                    lemma_neg_s_canon(ExprV::Var(y));
                    lemma_canon_add_pair(ExprV::Var(x), neg_s(ExprV::Var(y)));
                }
            },
            (ExprV::Num(n), _) if n == 0 => {
                lemma_neg_s_canon(b);
            },
            (_, ExprV::Num(n)) if n == 0 => {},
            (ExprV::Neg(x), _) => {
                lemma_add_rec_canon(*x, b, f);
                match add_rec(*x, b, f) {
                    OpOut::Done(v) => {
                        lemma_neg_s_canon(v);
                    },
                    _ => {},
                }
            },
            (_, ExprV::Neg(x)) => {
                lemma_add_rec_canon(a, *x, f);
            },
            (first, second) => {
                lemma_neg_s_canon(second);
                lemma_canon_add_pair(first, neg_s(second));
            },
        }
    }
}

/// The product of two canonical trees is canonical, with the same sign and
/// zero guarantees as the sum.
pub proof fn lemma_mul_rec_canon(a: ExprV, b: ExprV, fuel: nat)
    requires
        canon(a),
        canon(b),
    ensures
        mul_rec(a, b, fuel) matches OpOut::Done(r) ==> canon(r) && (!(a is Neg) && !(b is Neg)
            ==> !(r is Neg)) && (!(a is Neg) && !(b is Neg) && a != ExprV::Num(0) && b
            != ExprV::Num(0) ==> r != ExprV::Num(0)),
    decreases fuel, 0int,
{
    if fuel > 0 {
        let f = (fuel - 1) as nat;
        match (a, b) {
            (ExprV::Add(x), ExprV::Add(y)) => {
                lemma_canon_mul_pair(ExprV::Add(x), ExprV::Add(y));
            },
            (ExprV::Mul(x), ExprV::Mul(y)) => {
                lemma_canon_mul_concat(x, y);
            },
            (ExprV::Div(n1, d1), ExprV::Div(n2, d2)) => {
                lemma_mul_rec_canon(*n1, *n2, f);
                match mul_rec(*n1, *n2, f) {
                    OpOut::Done(nn) => {
                        lemma_mul_rec_canon(*d1, *d2, f);
                        match mul_rec(*d1, *d2, f) {
                            OpOut::Done(dd) => {
                                lemma_div_rec_canon(nn, dd, f);
                            },
                            _ => {},
                        }
                    },
                    _ => {},
                }
            },
            (ExprV::Neg(x), ExprV::Neg(y)) => {
                lemma_mul_rec_canon(*x, *y, f);
            },
            (ExprV::Num(x), ExprV::Num(y)) => {
                if x * y <= u32::MAX {
                    assert(x > 0 && y > 0 ==> x * y > 0) by (nonlinear_arith);
                }
            },
            (ExprV::Var(x), ExprV::Var(y)) => {
                lemma_canon_mul_pair(ExprV::Var(x), ExprV::Var(y));
            },
            (ExprV::Num(n), _) if n == 0 => {},
            (_, ExprV::Num(n)) if n == 0 => {},
            (ExprV::Num(n), _) if n == 1 => {},
            (_, ExprV::Num(n)) if n == 1 => {},
            (_, ExprV::Neg(x)) => {
                lemma_mul_rec_canon(a, *x, f);
                match mul_rec(a, *x, f) {
                    OpOut::Done(v) => {
                        lemma_neg_s_canon(v);
                    },
                    _ => {},
                }
            },
            (ExprV::Neg(x), _) => {
                lemma_mul_rec_canon(*x, b, f);
                match mul_rec(*x, b, f) {
                    OpOut::Done(v) => {
                        lemma_neg_s_canon(v);
                    },
                    _ => {},
                }
            },
            (_, ExprV::Div(n, d)) => {
                lemma_mul_rec_canon(a, *n, f);
                match mul_rec(a, *n, f) {
                    OpOut::Done(p) => {
                        lemma_div_rec_canon(p, *d, f);
                    },
                    _ => {},
                }
            },
            (ExprV::Div(n, d), _) => {
                lemma_mul_rec_canon(b, *n, f);
                match mul_rec(b, *n, f) {
                    OpOut::Done(p) => {
                        lemma_div_rec_canon(p, *d, f);
                    },
                    _ => {},
                }
            },
            (ExprV::Mul(ms), _) => {
                lemma_canon_mul_push(ms, b);
            },
            (_, ExprV::Mul(ms)) => {
                lemma_canon_mul_push(ms, a);
            },
            (first, second) => {
                lemma_canon_mul_pair(first, second);
            },
        }
    }
}

/// The quotient of two canonical trees is canonical, with the same sign
/// and zero guarantees as the sum.
pub proof fn lemma_div_rec_canon(a: ExprV, b: ExprV, fuel: nat)
    requires
        canon(a),
        canon(b),
    ensures
        div_rec(a, b, fuel) matches OpOut::Done(r) ==> canon(r) && (!(a is Neg) && !(b is Neg)
            ==> !(r is Neg)) && (!(a is Neg) && !(b is Neg) && a != ExprV::Num(0) && b
            != ExprV::Num(0) ==> r != ExprV::Num(0)),
    decreases fuel, 0int,
{
    if fuel > 0 {
        let f = (fuel - 1) as nat;
        match (a, b) {
            (ExprV::Add(x), ExprV::Add(y)) => {},
            (ExprV::Mul(x), ExprV::Mul(y)) => {
                lemma_mul_div_s_canon(x, y);
            },
            (ExprV::Div(n1, d1), ExprV::Div(n2, d2)) => {
                lemma_mul_rec_canon(ExprV::Div(n1, d1), ExprV::Div(d2, n2), f);
            },
            (ExprV::Neg(x), ExprV::Neg(y)) => {
                lemma_div_rec_canon(*x, *y, f);
            },
            (ExprV::Num(x), ExprV::Num(y)) => {
                lemma_num_div_canon(x, y);
            },
            (ExprV::Var(x), ExprV::Var(y)) => {},
            (_, ExprV::Num(n)) if n == 0 => {},
            (ExprV::Num(n), _) if n == 0 => {},
            (_, ExprV::Num(n)) if n == 1 => {},
            (ExprV::Neg(x), _) => {
                lemma_div_rec_canon(*x, b, f);
                match div_rec(*x, b, f) {
                    OpOut::Done(v) => {
                        lemma_neg_s_canon(v);
                    },
                    _ => {},
                }
            },
            (_, ExprV::Neg(x)) => {
                lemma_div_rec_canon(a, *x, f);
                match div_rec(a, *x, f) {
                    OpOut::Done(v) => {
                        lemma_neg_s_canon(v);
                    },
                    _ => {},
                }
            },
            (_, ExprV::Div(n, d)) => {
                lemma_div_rec_canon(*d, *n, f);
                match div_rec(*d, *n, f) {
                    OpOut::Done(q) => {
                        lemma_mul_rec_canon(a, q, f);
                    },
                    _ => {},
                }
            },
            (ExprV::Div(n, d), _) => {
                lemma_mul_rec_canon(*d, b, f);
                match mul_rec(*d, b, f) {
                    OpOut::Done(dd) => {
                        lemma_div_rec_canon(*n, dd, f);
                    },
                    _ => {},
                }
            },
            (first, second) => {},
        }
    }
}

/// The sum of two canonical quotients is canonical, no negation and not
/// zero.
pub proof fn lemma_div_pair_add_canon(n1: ExprV, d1: ExprV, n2: ExprV, d2: ExprV, fuel: nat)
    requires
        canon(ExprV::Div(Box::new(n1), Box::new(d1))),
        canon(ExprV::Div(Box::new(n2), Box::new(d2))),
    ensures
        div_pair_add(n1, d1, n2, d2, fuel) matches OpOut::Done(r) ==> canon(r) && !(r is Neg)
            && r != ExprV::Num(0),
    decreases fuel, 1int,
{
    if d1 == d2 {
        lemma_add_rec_canon(n1, n2, fuel);
        match add_rec(n1, n2, fuel) {
            OpOut::Done(nn) => {
                lemma_div_rec_canon(nn, d1, fuel);
            },
            _ => {},
        }
    } else {
        lemma_mul_rec_canon(n1, d2, fuel);
        match mul_rec(n1, d2, fuel) {
            OpOut::Done(p1) => {
                lemma_mul_rec_canon(n2, d1, fuel);
                match mul_rec(n2, d1, fuel) {
                    OpOut::Done(p2) => {
                        lemma_add_rec_canon(p1, p2, fuel);
                        match add_rec(p1, p2, fuel) {
                            OpOut::Done(nn) => {
                                lemma_mul_rec_canon(d1, d2, fuel);
                                match mul_rec(d1, d2, fuel) {
                                    OpOut::Done(dd) => {
                                        lemma_div_rec_canon(nn, dd, fuel);
                                    },
                                    _ => {},
                                }
                            },
                            _ => {},
                        }
                    },
                    _ => {},
                }
            },
            _ => {},
        }
    }
}

/// The difference of two canonical quotients is canonical.
pub proof fn lemma_div_pair_sub_canon(n1: ExprV, d1: ExprV, n2: ExprV, d2: ExprV, fuel: nat)
    requires
        canon(ExprV::Div(Box::new(n1), Box::new(d1))),
        canon(ExprV::Div(Box::new(n2), Box::new(d2))),
    ensures
        div_pair_sub(n1, d1, n2, d2, fuel) matches OpOut::Done(r) ==> canon(r),
    decreases fuel, 1int,
{
    if d1 == d2 {
        lemma_sub_rec_canon(n1, n2, fuel);
        match sub_rec(n1, n2, fuel) {
            OpOut::Done(nn) => {
                lemma_div_rec_canon(nn, d1, fuel);
            },
            _ => {},
        }
    } else {
        lemma_mul_rec_canon(n1, d2, fuel);
        match mul_rec(n1, d2, fuel) {
            OpOut::Done(p1) => {
                lemma_mul_rec_canon(n2, d1, fuel);
                match mul_rec(n2, d1, fuel) {
                    OpOut::Done(p2) => {
                        lemma_sub_rec_canon(p1, p2, fuel);
                        match sub_rec(p1, p2, fuel) {
                            OpOut::Done(nn) => {
                                lemma_mul_rec_canon(d1, d2, fuel);
                                match mul_rec(d1, d2, fuel) {
                                    OpOut::Done(dd) => {
                                        lemma_div_rec_canon(nn, dd, fuel);
                                    },
                                    _ => {},
                                }
                            },
                            _ => {},
                        }
                    },
                    _ => {},
                }
            },
            _ => {},
        }
    }
}

/// The sum of a canonical quotient and a canonical tree that is no
/// negation and not zero is canonical, no negation and not zero.
pub proof fn lemma_div_absorb_add_canon(n: ExprV, d: ExprV, other: ExprV, fuel: nat)
    requires
        canon(ExprV::Div(Box::new(n), Box::new(d))),
        canon(other),
        !(other is Neg),
        other != ExprV::Num(0),
    ensures
        div_absorb_add(n, d, other, fuel) matches OpOut::Done(r) ==> canon(r) && !(r is Neg)
            && r != ExprV::Num(0),
    decreases fuel, 1int,
{
    lemma_mul_rec_canon(other, d, fuel);
    match mul_rec(other, d, fuel) {
        OpOut::Done(p) => {
            lemma_add_rec_canon(p, n, fuel);
            match add_rec(p, n, fuel) {
                OpOut::Done(nn) => {
                    lemma_div_rec_canon(nn, d, fuel);
                },
                _ => {},
            }
        },
        _ => {},
    }
}

} // verus!
