//! The general laws of the algebra, stated and proved against the
//! specification rules that every executable operator is pinned to.

use vstd::arithmetic::div_mod::{
    lemma_fundamental_div_mod, lemma_fundamental_div_mod_converse,
};
use vstd::prelude::*;

use crate::errors::MathError;
use crate::eval::{calc_rec, CalcOut, RatV};
use crate::model::{gcd_rec, gcd_s, neg_s, ExprV};
use crate::rational::{matches_calc, Rational};
use crate::rules::{add_rec, div_rec, mul_rec, num_div_s, set_vars_rec, OpOut};
use crate::term::{matches_term, matches_use, Term};

verus! {

/// The greatest common divisor of a pair with a positive member is a
/// positive divisor of both members.
pub proof fn lemma_gcd_rec_divides(s: nat, b: nat)
    requires
        b > 0,
    ensures
        gcd_rec(s, b) > 0,
        s % gcd_rec(s, b) == 0,
        b % gcd_rec(s, b) == 0,
    decreases s,
{
    let g = gcd_rec(s, b);
    if s == 0 {
        assert(b % b == 0) by {
            vstd::arithmetic::div_mod::lemma_mod_self_0(b as int);
        }
        assert(0int % (b as int) == 0) by {
            vstd::arithmetic::div_mod::lemma_small_mod(0, b);
        }
    } else {
        lemma_gcd_rec_divides(b % s, s);
        assert(g == gcd_rec(b % s, s));
        let q = b as int / s as int;
        let r = (b % s) as int;
        lemma_fundamental_div_mod(b as int, s as int);
        let qs = s as int / g as int;
        let qr = r / g as int;
        lemma_fundamental_div_mod(s as int, g as int);
        lemma_fundamental_div_mod(r, g as int);
        assert(s as int == g as int * qs);
        assert(r == g as int * qr);
        assert(b as int == (qs * q + qr) * g as int) by (nonlinear_arith)
            requires
                b as int == s as int * q + r,
                s as int == g as int * qs,
                r == g as int * qr,
        ;
        lemma_fundamental_div_mod_converse(b as int, g as int, qs * q + qr, 0);
    }
}

/// The greatest common divisor of two positive numbers is a positive
/// divisor of both.
pub proof fn lemma_gcd_divides(a: nat, b: nat)
    requires
        a > 0,
        b > 0,
    ensures
        gcd_s(a, b) > 0,
        a % gcd_s(a, b) == 0,
        b % gcd_s(a, b) == 0,
{
    if a < b {
        lemma_gcd_rec_divides(a, b);
    } else {
        lemma_gcd_rec_divides(b, a);
    }
}

/// Scaling both members of a pair scales their greatest common divisor.
pub proof fn lemma_gcd_rec_scale(s: nat, b: nat, c: nat)
    requires
        c > 0,
    ensures
        gcd_rec(s * c, b * c) == c * gcd_rec(s, b),
    decreases s,
{
    if s == 0 {
        assert(s * c == 0) by (nonlinear_arith)
            requires
                s == 0,
        ;
        assert(b * c == c * b) by (nonlinear_arith);
    } else {
        assert(s * c > 0) by (nonlinear_arith)
            requires
                s > 0,
                c > 0,
        ;
        let q = b as int / s as int;
        let r = (b % s) as nat;
        lemma_fundamental_div_mod(b as int, s as int);
        assert(b as int * c as int == q * (s as int * c as int) + r as int * c as int)
            by (nonlinear_arith)
            requires
                b as int == s as int * q + r as int,
        ;
        assert(0 <= (r as int) * (c as int) && (r as int) * (c as int) < (s as int) * (c as int)) by (nonlinear_arith)
            requires
                0 <= r < s,
                c > 0,
        ;
        lemma_fundamental_div_mod_converse(
            b as int * c as int,
            s as int * c as int,
            q,
            r as int * c as int,
        );
        assert((b * c) % (s * c) == r * c);
        lemma_gcd_rec_scale(r, s, c);
    }
}

/// Scaling both arguments scales the greatest common divisor.
pub proof fn lemma_gcd_scale(a: nat, b: nat, c: nat)
    requires
        c > 0,
    ensures
        gcd_s(a * c, b * c) == c * gcd_s(a, b),
{
    assert(a < b ==> a * c < b * c) by (nonlinear_arith)
        requires
            c > 0,
    ;
    assert(a >= b ==> a * c >= b * c) by (nonlinear_arith)
        requires
            c > 0,
    ;
    if a < b {
        lemma_gcd_rec_scale(a, b, c);
    } else {
        lemma_gcd_rec_scale(b, a, c);
    }
}

/// Scaling a dividend and a divisor scales the remainder and keeps the
/// quotient.
proof fn lemma_mod_scale(a: nat, b: nat, c: nat)
    requires
        b > 0,
        c > 0,
    ensures
        (a * c) % (b * c) == (a % b) * c,
        (a * c) / (b * c) == a / b,
{
    assert(b * c > 0) by (nonlinear_arith)
        requires
            b > 0,
            c > 0,
    ;
    let q = a as int / b as int;
    let r = (a % b) as nat;
    lemma_fundamental_div_mod(a as int, b as int);
    assert(a as int * c as int == q * (b as int * c as int) + r as int * c as int)
        by (nonlinear_arith)
        requires
            a as int == b as int * q + r as int,
    ;
    assert(0 <= (r as int) * (c as int) && (r as int) * (c as int) < (b as int) * (c as int)) by (nonlinear_arith)
        requires
            0 <= r < b,
            c > 0,
    ;
    lemma_fundamental_div_mod_converse(
        a as int * c as int,
        b as int * c as int,
        q,
        r as int * c as int,
    );
}

/// Canonical reduction is invariant under scaling: a quotient of scalars
/// and the same quotient with both sides multiplied by a common factor
/// construct the very same tree.
pub proof fn lemma_division_scale_invariant(a: nat, b: nat, c: nat)
    requires
        b > 0,
        c > 0,
    ensures
        num_div_s(a * c, b * c) == num_div_s(a, b),
{
    assert(b * c > 0) by (nonlinear_arith)
        requires
            b > 0,
            c > 0,
    ;
    lemma_mod_scale(a, b, c);
    if a % b == 0 {
        assert((a % b) * c == 0) by (nonlinear_arith)
            requires
                a % b == 0,
        ;
    } else {
        let r0 = a % b;
        assert(r0 * c != 0) by (nonlinear_arith)
            requires
                r0 != 0,
                c > 0,
        ;
        assert(a > 0) by {
            if a == 0 {
                vstd::arithmetic::div_mod::lemma_small_mod(0, b);
            }
        }
        let g = gcd_s(a, b);
        lemma_gcd_divides(a, b);
        assert(a * c > 0) by (nonlinear_arith)
            requires
                a > 0,
                c > 0,
        ;
        lemma_gcd_scale(a, b, c);
        assert(gcd_s(a * c, b * c) == c * g);
        assert(c * g > 0) by (nonlinear_arith)
            requires
                c > 0,
                g > 0,
        ;
        lemma_fundamental_div_mod(a as int, g as int);
        lemma_fundamental_div_mod(b as int, g as int);
        let x = (a / g) as int;
        let y = (b / g) as int;
        assert(a as int * c as int == x * (c as int * g as int) + 0) by (nonlinear_arith)
            requires
                a as int == g as int * x,
        ;
        assert(b as int * c as int == y * (c as int * g as int) + 0) by (nonlinear_arith)
            requires
                b as int == g as int * y,
        ;
        lemma_fundamental_div_mod_converse(a as int * c as int, c as int * g as int, x, 0);
        lemma_fundamental_div_mod_converse(b as int * c as int, c as int * g as int, y, 0);
    }
}

/// A quotient of scalars evaluates to exactly the ratio of those scalars:
/// the tree that the construction reduces to keeps the value.
pub proof fn lemma_quotient_value(a: nat, b: nat)
    requires
        0 < b <= u32::MAX,
        a <= u32::MAX,
    ensures
        num_div_s(a, b) matches OpOut::Done(e) && (calc_rec(e) matches CalcOut::Val(q)
            && !q.neg && q.den > 0 && q.num * b == a * q.den),
{
    if a % b == 0 {
        lemma_fundamental_div_mod(a as int, b as int);
        let e = ExprV::Num(a / b);
        assert(calc_rec(e) == CalcOut::Val(RatV { neg: false, num: a / b, den: 1 }));
        assert((a / b) * b == a * 1) by (nonlinear_arith)
            requires
                a as int == b as int * ((a as int) / (b as int)),
        ;
    } else {
        assert(a > 0) by {
            if a == 0 {
                vstd::arithmetic::div_mod::lemma_small_mod(0, b);
            }
        }
        let g = gcd_s(a, b);
        lemma_gcd_divides(a, b);
        lemma_fundamental_div_mod(a as int, g as int);
        lemma_fundamental_div_mod(b as int, g as int);
        let x = a / g;
        let y = b / g;
        assert(y > 0) by (nonlinear_arith)
            requires
                b as int == g as int * y as int,
                b > 0,
        ;
        assert(x <= a && y <= b) by (nonlinear_arith)
            requires
                a as int == g as int * x as int,
                b as int == g as int * y as int,
                g > 0,
                a >= 0,
                b >= 0,
        ;
        let e = ExprV::Div(Box::new(ExprV::Num(x)), Box::new(ExprV::Num(y)));
        assert(num_div_s(a, b) == OpOut::Done(e));
        assert(calc_rec(e) matches CalcOut::Val(q) && !q.neg && q.num == x * 1 && q.den == 1
            * y) by {
            reveal_with_fuel(calc_rec, 2);
        }
        assert(x * 1 == x && 1 * y == y) by (nonlinear_arith);
        assert(x * b == a * y) by (nonlinear_arith)
            requires
                a as int == g as int * x as int,
                b as int == g as int * y as int,
        ;
    }
}

/// The reduced quotient of two scalars that do not divide exactly is in
/// lowest terms: its two number children are coprime and the denominator is
/// positive.
pub proof fn lemma_reduced_quotient_coprime(a: nat, b: nat)
    requires
        b > 0,
        a % b != 0,
    ensures
        num_div_s(a, b) matches OpOut::Done(e) && e matches ExprV::Div(n, d) && (*n) matches
            ExprV::Num(x) && (*d) matches ExprV::Num(y) && y > 0 && gcd_s(x, y) == 1,
{
    assert(a > 0) by {
        if a == 0 {
            vstd::arithmetic::div_mod::lemma_small_mod(0, b);
        }
    }
    let g = gcd_s(a, b);
    lemma_gcd_divides(a, b);
    lemma_fundamental_div_mod(a as int, g as int);
    lemma_fundamental_div_mod(b as int, g as int);
    let x = a / g;
    let y = b / g;
    assert(y > 0) by (nonlinear_arith)
        requires
            b as int == g as int * y as int,
            b > 0,
    ;
    assert(x * g == a && y * g == b) by (nonlinear_arith)
        requires
            a as int == g as int * x as int,
            b as int == g as int * y as int,
    ;
    lemma_gcd_scale(x, y, g);
    assert(g * gcd_s(x, y) == g * 1) by {
        assert(gcd_s(x * g, y * g) == g * gcd_s(x, y));
    }
    assert(gcd_s(x, y) == 1) by (nonlinear_arith)
        requires
            g * gcd_s(x, y) == g * 1,
            g > 0,
    ;
}

/// Double negation cancels on any tree whose own top negation, if there is
/// one, is canonical: not a negation of a negation and not a negation of
/// zero.  Every canonical tree satisfies that premise.  Negating zero gives
/// zero back; negating a negation of a negation does not cancel, which is
/// why the premise is needed.
pub proof fn lemma_double_negation(x: ExprV)
    requires
        x matches ExprV::Neg(c) ==> !((*c) is Neg) && *c != ExprV::Num(0),
    ensures
        neg_s(neg_s(x)) == x,
        neg_s(ExprV::Num(0)) == ExprV::Num(0),
{
}

/// Negation keeps negations canonical at the top: the result never holds a
/// negation directly inside a negation and never a negated zero.
pub proof fn lemma_negation_canonical(x: ExprV)
    requires
        x matches ExprV::Neg(c) ==> !((*c) is Neg) && *c != ExprV::Num(0),
    ensures
        neg_s(x) matches ExprV::Neg(c) ==> !((*c) is Neg) && *c != ExprV::Num(0),
{
}

/// A bound variable substitutes to exactly its binding.
pub proof fn lemma_bound_variable(name: Seq<char>, v: ExprV)
    ensures
        set_vars_rec(ExprV::Var(name), seq![(name, v)]) == OpOut::Done(v),
{
    assert(seq![(name, v)][0].0 == name);
}

/// Substituting and then evaluating in one step agrees with building the
/// substituted term first and evaluating it afterwards: any results that
/// meet the one-step contract and the two contracts of the two-step path
/// are the same value, and the two paths fail together.
pub proof fn lemma_substitution_paths(
    e: ExprV,
    binds: Seq<(Seq<char>, ExprV)>,
    one_step: Result<Rational, MathError>,
    built: Result<Term, MathError>,
    two_step: Result<Rational, MathError>,
)
    requires
        matches_use(one_step, e, binds),
        matches_term(built, set_vars_rec(e, binds)),
        built matches Ok(t) ==> matches_calc(two_step, calc_rec(t@)),
        built matches Err(err) ==> two_step == Result::<Rational, MathError>::Err(err),
    ensures
        one_step == two_step,
{
}

/// Construction keeps exact values: the tree that the sum of two
/// constructed quotients reduces to denotes exactly the rational sum
/// `(a*d + c*b) / (b*d)`.  This is the exactness that late evaluation
/// relies on: no rounding happens while the tree is built.
pub proof fn lemma_sum_of_quotients_exact(a: nat, b: nat, c: nat, d: nat, fuel: nat)
    requires
        0 < b <= u32::MAX,
        a <= u32::MAX,
        0 < d <= u32::MAX,
        c <= u32::MAX,
    ensures
        match (num_div_s(a, b), num_div_s(c, d)) {
            (OpOut::Done(q1), OpOut::Done(q2)) => match add_rec(q1, q2, fuel) {
                OpOut::Done(r) => calc_rec(r) matches CalcOut::Val(v) && !v.neg && v.den > 0
                    && v.num * (b * d) == (a * d + c * b) * v.den,
                _ => true,
            },
            _ => false,
        },
{
    lemma_quotient_value(a, b);
    lemma_quotient_value(c, d);
    if fuel > 0 {
        let f = (fuel - 1) as nat;
        if a % b == 0 && c % d == 0 {
            lemma_exact_exact(a, b, c, d, fuel);
        } else if a % b == 0 {
            lemma_exact_frac(a, b, c, d, f);
        } else if c % d == 0 {
            lemma_frac_exact(a, b, c, d, f);
        } else {
            lemma_frac_frac(a, b, c, d, f);
        }
    }
}

/// The dividend, divisor and quotient facts of an exact scalar division.
proof fn lemma_exact_facts(a: nat, b: nat)
    requires
        b > 0,
        a % b == 0,
    ensures
        b * (a / b) == a,
        a / b <= a,
{
    lemma_fundamental_div_mod(a as int, b as int);
    assert(a / b <= a) by (nonlinear_arith)
        requires
            a as int == b as int * ((a as int) / (b as int)),
            b >= 1,
            a >= 0,
    ;
}

/// The component facts of a quotient reduced by the greatest common
/// divisor.
proof fn lemma_frac_facts(a: nat, b: nat)
    requires
        b > 0,
        a % b != 0,
    ensures
        ({
            let g = gcd_s(a, b);
            g > 0 && g * (a / g) == a && g * (b / g) == b && a / g > 0 && b / g > 0 && a / g
                <= a && b / g <= b
        }),
{
    assert(a > 0) by {
        if a == 0 {
            vstd::arithmetic::div_mod::lemma_small_mod(0, b);
        }
    }
    let g = gcd_s(a, b);
    lemma_gcd_divides(a, b);
    lemma_fundamental_div_mod(a as int, g as int);
    lemma_fundamental_div_mod(b as int, g as int);
    assert(a / g > 0 && b / g > 0 && a / g <= a && b / g <= b) by (nonlinear_arith)
        requires
            a as int == g as int * ((a as int) / (g as int)),
            b as int == g as int * ((b as int) / (g as int)),
            a > 0,
            b > 0,
            g > 0,
    ;
}

/// The exactness of the sum when both quotients collapsed to numbers.
proof fn lemma_exact_exact(a: nat, b: nat, c: nat, d: nat, fuel: nat)
    requires
        0 < b <= u32::MAX,
        a <= u32::MAX,
        0 < d <= u32::MAX,
        c <= u32::MAX,
        a % b == 0,
        c % d == 0,
        fuel > 0,
    ensures
        match add_rec(ExprV::Num(a / b), ExprV::Num(c / d), fuel) {
            OpOut::Done(r) => calc_rec(r) matches CalcOut::Val(v) && !v.neg && v.den > 0
                && v.num * (b * d) == (a * d + c * b) * v.den,
            _ => true,
        },
{
    lemma_exact_facts(a, b);
    lemma_exact_facts(c, d);
    let u = a / b;
    let w = c / d;
    if u + w <= u32::MAX {
        assert((u + w) * (b * d) == (a * d + c * b) * 1) by (nonlinear_arith)
            requires
                b * u == a,
                d * w == c,
        ;
    }
}

/// The exactness of the sum when only the left quotient collapsed.
proof fn lemma_exact_frac(a: nat, b: nat, c: nat, d: nat, f: nat)
    requires
        0 < b <= u32::MAX,
        a <= u32::MAX,
        0 < d <= u32::MAX,
        c <= u32::MAX,
        a % b == 0,
        c % d != 0,
        num_div_s(c, d) matches OpOut::Done(q2) && (calc_rec(q2) matches CalcOut::Val(v2)
            && !v2.neg && v2.den > 0 && v2.num * d == c * v2.den),
    ensures
        num_div_s(c, d) matches OpOut::Done(q2) ==> match add_rec(
            ExprV::Num(a / b),
            q2,
            f + 1,
        ) {
            OpOut::Done(r) => calc_rec(r) matches CalcOut::Val(v) && !v.neg && v.den > 0
                && v.num * (b * d) == (a * d + c * b) * v.den,
            _ => true,
        },
{
    reveal_with_fuel(add_rec, 3);
    reveal_with_fuel(mul_rec, 3);
    lemma_exact_facts(a, b);
    lemma_frac_facts(c, d);
    let u = a / b;
    let g2 = gcd_s(c, d);
    let c1 = c / g2;
    let d1 = d / g2;
    if u == 0 {
        let q2 = ExprV::Div(Box::new(ExprV::Num(c1)), Box::new(ExprV::Num(d1)));
        assert(add_rec(ExprV::Num(u), q2, f + 1) == OpOut::Done(q2));
        match calc_rec(q2) {
            CalcOut::Val(v2) => {
                assert(v2.num * (b * d) == (a * d + c * b) * v2.den) by (nonlinear_arith)
                    requires
                        v2.num * d == c * v2.den,
                        b * u == a,
                        u == 0,
                ;
            },
            _ => {},
        }
    } else {
        match mul_rec(ExprV::Num(u), ExprV::Num(d1), f) {
            OpOut::Done(p) => {
                assert(p == ExprV::Num(u * d1));
                match add_rec(ExprV::Num(u * d1), ExprV::Num(c1), f) {
                    OpOut::Done(nn) => {
                        assert(nn == ExprV::Num(u * d1 + c1));
                        match calc_rec_of_div(u * d1 + c1, d1, f) {
                            CalcOut::Val(v) => {
                                let x0 = u * d1 + c1;
                                assert(a * d + c * b == (b * g2) * x0) by (nonlinear_arith)
                                    requires
                                        x0 == u * d1 + c1,
                                        b * u == a,
                                        g2 * c1 == c,
                                        g2 * d1 == d,
                                ;
                                assert(b * d == (b * g2) * d1) by (nonlinear_arith)
                                    requires
                                        g2 * d1 == d,
                                ;
                                assert(v.num * (b * d) == (a * d + c * b) * v.den)
                                    by (nonlinear_arith)
                                    requires
                                        v.num * d1 == x0 * v.den,
                                        b * d == (b * g2) * d1,
                                        a * d + c * b == (b * g2) * x0,
                                ;
                            },
                            _ => {},
                        }
                    },
                    _ => {},
                }
            },
            _ => {},
        }
    }
}

/// The value of dividing two scalars, as the rules compute it.
proof fn calc_rec_of_div(n: nat, d: nat, f: nat) -> (o: CalcOut)
    requires
        0 < d <= u32::MAX,
        n <= u32::MAX,
    ensures
        match div_rec(ExprV::Num(n), ExprV::Num(d), f) {
            OpOut::Done(r) => o == calc_rec(r) && (o matches CalcOut::Val(v) && !v.neg && v.den
                > 0 && v.num * d == n * v.den),
            _ => true,
        },
{
    lemma_quotient_value(n, d);
    match div_rec(ExprV::Num(n), ExprV::Num(d), f) {
        OpOut::Done(r) => calc_rec(r),
        _ => CalcOut::Unbound,
    }
}

/// The exactness of the sum when only the right quotient collapsed.
proof fn lemma_frac_exact(a: nat, b: nat, c: nat, d: nat, f: nat)
    requires
        0 < b <= u32::MAX,
        a <= u32::MAX,
        0 < d <= u32::MAX,
        c <= u32::MAX,
        a % b != 0,
        c % d == 0,
        num_div_s(a, b) matches OpOut::Done(q1) && (calc_rec(q1) matches CalcOut::Val(v1)
            && !v1.neg && v1.den > 0 && v1.num * b == a * v1.den),
    ensures
        num_div_s(a, b) matches OpOut::Done(q1) ==> match add_rec(
            q1,
            ExprV::Num(c / d),
            f + 1,
        ) {
            OpOut::Done(r) => calc_rec(r) matches CalcOut::Val(v) && !v.neg && v.den > 0
                && v.num * (b * d) == (a * d + c * b) * v.den,
            _ => true,
        },
{
    reveal_with_fuel(add_rec, 3);
    reveal_with_fuel(mul_rec, 3);
    lemma_exact_facts(c, d);
    lemma_frac_facts(a, b);
    let w = c / d;
    let g1 = gcd_s(a, b);
    let a1 = a / g1;
    let b1 = b / g1;
    let q1 = ExprV::Div(Box::new(ExprV::Num(a1)), Box::new(ExprV::Num(b1)));
    if w == 0 {
        assert(add_rec(q1, ExprV::Num(w), f + 1) == OpOut::Done(q1));
        match calc_rec(q1) {
            CalcOut::Val(v1) => {
                assert(v1.num * (b * d) == (a * d + c * b) * v1.den) by (nonlinear_arith)
                    requires
                        v1.num * b == a * v1.den,
                        d * w == c,
                        w == 0,
                ;
            },
            _ => {},
        }
    } else {
        match mul_rec(ExprV::Num(w), ExprV::Num(b1), f) {
            OpOut::Done(p) => {
                assert(p == ExprV::Num(w * b1));
                match add_rec(ExprV::Num(w * b1), ExprV::Num(a1), f) {
                    OpOut::Done(nn) => {
                        assert(nn == ExprV::Num(w * b1 + a1));
                        match calc_rec_of_div(w * b1 + a1, b1, f) {
                            CalcOut::Val(v) => {
                                let x0 = w * b1 + a1;
                                assert(a * d + c * b == (d * g1) * x0) by (nonlinear_arith)
                                    requires
                                        x0 == w * b1 + a1,
                                        d * w == c,
                                        g1 * a1 == a,
                                        g1 * b1 == b,
                                ;
                                assert(b * d == (d * g1) * b1) by (nonlinear_arith)
                                    requires
                                        g1 * b1 == b,
                                ;
                                assert(v.num * (b * d) == (a * d + c * b) * v.den)
                                    by (nonlinear_arith)
                                    requires
                                        v.num * b1 == x0 * v.den,
                                        b * d == (d * g1) * b1,
                                        a * d + c * b == (d * g1) * x0,
                                ;
                            },
                            _ => {},
                        }
                    },
                    _ => {},
                }
            },
            _ => {},
        }
    }
}

/// The exactness of the sum when both quotients stayed fractions.
proof fn lemma_frac_frac(a: nat, b: nat, c: nat, d: nat, f: nat)
    requires
        0 < b <= u32::MAX,
        a <= u32::MAX,
        0 < d <= u32::MAX,
        c <= u32::MAX,
        a % b != 0,
        c % d != 0,
    ensures
        match (num_div_s(a, b), num_div_s(c, d)) {
            (OpOut::Done(q1), OpOut::Done(q2)) => match add_rec(q1, q2, f + 1) {
                OpOut::Done(r) => calc_rec(r) matches CalcOut::Val(v) && !v.neg && v.den > 0
                    && v.num * (b * d) == (a * d + c * b) * v.den,
                _ => true,
            },
            _ => false,
        },
{
    reveal_with_fuel(add_rec, 3);
    reveal_with_fuel(mul_rec, 5);
    lemma_frac_facts(a, b);
    lemma_frac_facts(c, d);
    let g1 = gcd_s(a, b);
    let a1 = a / g1;
    let b1 = b / g1;
    let g2 = gcd_s(c, d);
    let c1 = c / g2;
    let d1 = d / g2;
    if b1 == d1 {
        match add_rec(ExprV::Num(a1), ExprV::Num(c1), f) {
            OpOut::Done(nn) => {
                assert(nn == ExprV::Num(a1 + c1));
                match calc_rec_of_div(a1 + c1, b1, f) {
                    CalcOut::Val(v) => {
                        let k = g1 * g2;
                        let x0 = a1 + c1;
                        assert(a * d + c * b == (k * b1) * x0) by (nonlinear_arith)
                            requires
                                k == g1 * g2,
                                x0 == a1 + c1,
                                g1 * a1 == a,
                                g1 * b1 == b,
                                g2 * c1 == c,
                                g2 * d1 == d,
                                b1 == d1,
                        ;
                        assert(b * d == (k * b1) * b1) by (nonlinear_arith)
                            requires
                                k == g1 * g2,
                                g1 * b1 == b,
                                g2 * d1 == d,
                                b1 == d1,
                        ;
                        assert(v.num * (b * d) == (a * d + c * b) * v.den) by (nonlinear_arith)
                            requires
                                v.num * b1 == x0 * v.den,
                                b * d == (k * b1) * b1,
                                a * d + c * b == (k * b1) * x0,
                        ;
                    },
                    _ => {},
                }
            },
            _ => {},
        }
    } else {
        match mul_rec(ExprV::Num(a1), ExprV::Num(d1), f) {
            OpOut::Done(p1) => {
                assert(p1 == ExprV::Num(a1 * d1));
                match mul_rec(ExprV::Num(c1), ExprV::Num(b1), f) {
                    OpOut::Done(p2) => {
                        assert(p2 == ExprV::Num(c1 * b1));
                        match add_rec(ExprV::Num(a1 * d1), ExprV::Num(c1 * b1), f) {
                            OpOut::Done(nn) => {
                                assert(nn == ExprV::Num(a1 * d1 + c1 * b1));
                                match mul_rec(ExprV::Num(b1), ExprV::Num(d1), f) {
                                    OpOut::Done(dd) => {
                                        assert(dd == ExprV::Num(b1 * d1));
                                        assert(b1 * d1 > 0) by (nonlinear_arith)
                                            requires
                                                b1 > 0,
                                                d1 > 0,
                                        ;
                                        match calc_rec_of_div(a1 * d1 + c1 * b1, b1 * d1, f) {
                                            CalcOut::Val(v) => {
                                                let k = g1 * g2;
                                                let x0 = a1 * d1 + c1 * b1;
                                                let y0 = b1 * d1;
                                                assert(a * d == k * (a1 * d1))
                                                    by (nonlinear_arith)
                                                    requires
                                                        k == g1 * g2,
                                                        g1 * a1 == a,
                                                        g2 * d1 == d,
                                                ;
                                                assert(c * b == k * (c1 * b1))
                                                    by (nonlinear_arith)
                                                    requires
                                                        k == g1 * g2,
                                                        g2 * c1 == c,
                                                        g1 * b1 == b,
                                                ;
                                                assert(a * d + c * b == k * x0)
                                                    by (nonlinear_arith)
                                                    requires
                                                        a * d == k * (a1 * d1),
                                                        c * b == k * (c1 * b1),
                                                        x0 == a1 * d1 + c1 * b1,
                                                ;
                                                assert(b * d == k * y0) by (nonlinear_arith)
                                                    requires
                                                        k == g1 * g2,
                                                        y0 == b1 * d1,
                                                        g1 * b1 == b,
                                                        g2 * d1 == d,
                                                ;
                                                assert(v.num * (b * d) == (a * d + c * b)
                                                    * v.den) by (nonlinear_arith)
                                                    requires
                                                        v.num * y0 == x0 * v.den,
                                                        b * d == k * y0,
                                                        a * d + c * b == k * x0,
                                                ;
                                            },
                                            _ => {},
                                        }
                                    },
                                    _ => {},
                                }
                            },
                            _ => {},
                        }
                    },
                    _ => {},
                }
            },
            _ => {},
        }
    }
}

/// Scale invariance at the scalar interface: whenever the scaled pair
/// still fits the scalar type, constructing the quotient of the scaled
/// pair gives the very same tree as constructing the original quotient.
pub proof fn lemma_div_scale_at_api(a: u32, b: u32, c: u32)
    requires
        b != 0,
        c != 0,
    ensures
        num_div_s((a as nat) * (c as nat), (b as nat) * (c as nat)) == num_div_s(
            a as nat,
            b as nat,
        ),
{
    lemma_division_scale_invariant(a as nat, b as nat, c as nat);
}

/// Construction keeps exact values under multiplication too: the tree that
/// the product of two constructed quotients reduces to denotes exactly
/// `(a*c) / (b*d)`.
pub proof fn lemma_product_of_quotients_exact(a: nat, b: nat, c: nat, d: nat, fuel: nat)
    requires
        0 < b <= u32::MAX,
        a <= u32::MAX,
        0 < d <= u32::MAX,
        c <= u32::MAX,
    ensures
        match (num_div_s(a, b), num_div_s(c, d)) {
            (OpOut::Done(q1), OpOut::Done(q2)) => match mul_rec(q1, q2, fuel) {
                OpOut::Done(r) => calc_rec(r) matches CalcOut::Val(v) && !v.neg && v.den > 0
                    && v.num * (b * d) == (a * c) * v.den,
                _ => true,
            },
            _ => false,
        },
{
    lemma_quotient_value(a, b);
    lemma_quotient_value(c, d);
    if fuel > 0 {
        let f = (fuel - 1) as nat;
        if a % b == 0 && c % d == 0 {
            lemma_mul_exact_exact(a, b, c, d, fuel);
        } else if a % b == 0 {
            lemma_mul_exact_frac(a, b, c, d, f);
        } else if c % d == 0 {
            lemma_mul_frac_exact(a, b, c, d, f);
        } else {
            lemma_mul_frac_frac(a, b, c, d, f);
        }
    }
}

/// The exactness of the product when both quotients collapsed to numbers.
proof fn lemma_mul_exact_exact(a: nat, b: nat, c: nat, d: nat, fuel: nat)
    requires
        0 < b <= u32::MAX,
        a <= u32::MAX,
        0 < d <= u32::MAX,
        c <= u32::MAX,
        a % b == 0,
        c % d == 0,
        fuel > 0,
    ensures
        match mul_rec(ExprV::Num(a / b), ExprV::Num(c / d), fuel) {
            OpOut::Done(r) => calc_rec(r) matches CalcOut::Val(v) && !v.neg && v.den > 0
                && v.num * (b * d) == (a * c) * v.den,
            _ => true,
        },
{
    lemma_exact_facts(a, b);
    lemma_exact_facts(c, d);
    let u = a / b;
    let w = c / d;
    if u * w <= u32::MAX {
        assert((u * w) * (b * d) == (a * c) * 1) by (nonlinear_arith)
            requires
                b * u == a,
                d * w == c,
        ;
    }
}

/// The exactness of the product when only the left quotient collapsed.
proof fn lemma_mul_exact_frac(a: nat, b: nat, c: nat, d: nat, f: nat)
    requires
        0 < b <= u32::MAX,
        a <= u32::MAX,
        0 < d <= u32::MAX,
        c <= u32::MAX,
        a % b == 0,
        c % d != 0,
        num_div_s(c, d) matches OpOut::Done(q2) && (calc_rec(q2) matches CalcOut::Val(v2)
            && !v2.neg && v2.den > 0 && v2.num * d == c * v2.den),
    ensures
        num_div_s(c, d) matches OpOut::Done(q2) ==> match mul_rec(
            ExprV::Num(a / b),
            q2,
            f + 1,
        ) {
            OpOut::Done(r) => calc_rec(r) matches CalcOut::Val(v) && !v.neg && v.den > 0
                && v.num * (b * d) == (a * c) * v.den,
            _ => true,
        },
{
    reveal_with_fuel(mul_rec, 3);
    lemma_exact_facts(a, b);
    lemma_frac_facts(c, d);
    let u = a / b;
    let g2 = gcd_s(c, d);
    let c1 = c / g2;
    let d1 = d / g2;
    let q2 = ExprV::Div(Box::new(ExprV::Num(c1)), Box::new(ExprV::Num(d1)));
    if u == 0 {
        assert((b * d) * 0 == 0 && (a * c) * 1 == 0) by (nonlinear_arith)
            requires
                b * u == a,
                u == 0,
        ;
    } else if u == 1 {
        match calc_rec(q2) {
            CalcOut::Val(v2) => {
                assert(v2.num * (b * d) == (a * c) * v2.den) by (nonlinear_arith)
                    requires
                        v2.num * d == c * v2.den,
                        b * u == a,
                        u == 1,
                ;
            },
            _ => {},
        }
    } else {
        match mul_rec(ExprV::Num(u), ExprV::Num(c1), f) {
            OpOut::Done(p) => {
                assert(p == ExprV::Num(u * c1));
                match calc_rec_of_div(u * c1, d1, f) {
                    CalcOut::Val(v) => {
                        assert(a * c == (b * g2) * (u * c1)) by (nonlinear_arith)
                            requires
                                b * u == a,
                                g2 * c1 == c,
                        ;
                        assert(b * d == (b * g2) * d1) by (nonlinear_arith)
                            requires
                                g2 * d1 == d,
                        ;
                        assert(v.num * (b * d) == (a * c) * v.den) by (nonlinear_arith)
                            requires
                                v.num * d1 == (u * c1) * v.den,
                                b * d == (b * g2) * d1,
                                a * c == (b * g2) * (u * c1),
                        ;
                    },
                    _ => {},
                }
            },
            _ => {},
        }
    }
}

/// The exactness of the product when only the right quotient collapsed.
#[verifier::spinoff_prover]
#[verifier::rlimit(80)]
proof fn lemma_mul_frac_exact(a: nat, b: nat, c: nat, d: nat, f: nat)
    requires
        0 < b <= u32::MAX,
        a <= u32::MAX,
        0 < d <= u32::MAX,
        c <= u32::MAX,
        a % b != 0,
        c % d == 0,
        num_div_s(a, b) matches OpOut::Done(q1) && (calc_rec(q1) matches CalcOut::Val(v1)
            && !v1.neg && v1.den > 0 && v1.num * b == a * v1.den),
    ensures
        num_div_s(a, b) matches OpOut::Done(q1) ==> match mul_rec(
            q1,
            ExprV::Num(c / d),
            f + 1,
        ) {
            OpOut::Done(r) => calc_rec(r) matches CalcOut::Val(v) && !v.neg && v.den > 0
                && v.num * (b * d) == (a * c) * v.den,
            _ => true,
        },
{
    reveal_with_fuel(mul_rec, 3);
    lemma_exact_facts(c, d);
    lemma_frac_facts(a, b);
    let w = c / d;
    let g1 = gcd_s(a, b);
    let a1 = a / g1;
    let b1 = b / g1;
    let q1 = ExprV::Div(Box::new(ExprV::Num(a1)), Box::new(ExprV::Num(b1)));
    if w == 0 {
        assert((b * d) * 0 == 0 && (a * c) * 1 == 0) by (nonlinear_arith)
            requires
                d * w == c,
                w == 0,
        ;
    } else if w == 1 {
        match calc_rec(q1) {
            CalcOut::Val(v1) => {
                assert(v1.num * (b * d) == (a * c) * v1.den) by (nonlinear_arith)
                    requires
                        v1.num * b == a * v1.den,
                        d * w == c,
                        w == 1,
                ;
            },
            _ => {},
        }
    } else {
        match mul_rec(ExprV::Num(w), ExprV::Num(a1), f) {
            OpOut::Done(p) => {
                assert(p == ExprV::Num(w * a1));
                match calc_rec_of_div(w * a1, b1, f) {
                    CalcOut::Val(v) => {
                        assert(a * c == (d * g1) * (w * a1)) by (nonlinear_arith)
                            requires
                                d * w == c,
                                g1 * a1 == a,
                        ;
                        assert(b * d == (d * g1) * b1) by (nonlinear_arith)
                            requires
                                g1 * b1 == b,
                        ;
                        assert(v.num * (b * d) == (a * c) * v.den) by (nonlinear_arith)
                            requires
                                v.num * b1 == (w * a1) * v.den,
                                b * d == (d * g1) * b1,
                                a * c == (d * g1) * (w * a1),
                        ;
                    },
                    _ => {},
                }
            },
            _ => {},
        }
    }
}

/// The exactness of the product when both quotients stayed fractions.
proof fn lemma_mul_frac_frac(a: nat, b: nat, c: nat, d: nat, f: nat)
    requires
        0 < b <= u32::MAX,
        a <= u32::MAX,
        0 < d <= u32::MAX,
        c <= u32::MAX,
        a % b != 0,
        c % d != 0,
    ensures
        match (num_div_s(a, b), num_div_s(c, d)) {
            (OpOut::Done(q1), OpOut::Done(q2)) => match mul_rec(q1, q2, f + 1) {
                OpOut::Done(r) => calc_rec(r) matches CalcOut::Val(v) && !v.neg && v.den > 0
                    && v.num * (b * d) == (a * c) * v.den,
                _ => true,
            },
            _ => false,
        },
{
    reveal_with_fuel(mul_rec, 4);
    lemma_frac_facts(a, b);
    lemma_frac_facts(c, d);
    let g1 = gcd_s(a, b);
    let a1 = a / g1;
    let b1 = b / g1;
    let g2 = gcd_s(c, d);
    let c1 = c / g2;
    let d1 = d / g2;
    match mul_rec(ExprV::Num(a1), ExprV::Num(c1), f) {
        OpOut::Done(nn) => {
            assert(nn == ExprV::Num(a1 * c1));
            match mul_rec(ExprV::Num(b1), ExprV::Num(d1), f) {
                OpOut::Done(dd) => {
                    assert(dd == ExprV::Num(b1 * d1));
                    assert(b1 * d1 > 0) by (nonlinear_arith)
                        requires
                            b1 > 0,
                            d1 > 0,
                    ;
                    match calc_rec_of_div(a1 * c1, b1 * d1, f) {
                        CalcOut::Val(v) => {
                            let k = g1 * g2;
                            assert(a * c == k * (a1 * c1)) by (nonlinear_arith)
                                requires
                                    k == g1 * g2,
                                    g1 * a1 == a,
                                    g2 * c1 == c,
                            ;
                            assert(b * d == k * (b1 * d1)) by (nonlinear_arith)
                                requires
                                    k == g1 * g2,
                                    g1 * b1 == b,
                                    g2 * d1 == d,
                            ;
                            assert(v.num * (b * d) == (a * c) * v.den) by (nonlinear_arith)
                                requires
                                    v.num * (b1 * d1) == (a1 * c1) * v.den,
                                    b * d == k * (b1 * d1),
                                    a * c == k * (a1 * c1),
                            ;
                        },
                        _ => {},
                    }
                },
                _ => {},
            }
        },
        _ => {},
    }
}

} // verus!
