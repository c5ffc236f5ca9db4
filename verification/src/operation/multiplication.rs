//! The n-ary product node and its common-factor cancellation.

use vstd::prelude::*;

use crate::errors::MathError;
use crate::model::{last_match_below, ExprV};
use crate::operation::addition::Addition;
use crate::operation::division::Division;
use crate::operation::number::Number;
use crate::operation::{
    lemma_view_seq_concat, lemma_view_seq_push, lemma_view_seq_remove, matches_out, pair_vec,
    view_seq, view_seq_props, Operation,
};
use crate::rules::{cancel_rec, cancel_s, mul_add_s, mul_div_s, mul_of_seq, mul_sub_s};

verus! {

broadcast use crate::operation::lemma_view_unfold, crate::operation::view_seq_props, vstd::seq::axiom_seq_index_decreases, vstd::seq::axiom_seq_subrange_decreases, vstd::std_specs::vec::axiom_vec_index_decreases;

/// An ordered list of multipliers: a flattened n-ary product.
#[derive(Debug)]
pub struct Multiplication {
    pub multipliers: Vec<Operation>,
}

/// The highest index in `right` holding a tree equal to `x`, if any.
#[verifier::loop_isolation(false)]
pub fn last_match(right: &Vec<Operation>, x: &Operation) -> (r: Option<usize>)
    ensures
        match r {
            Some(j) => j < right@.len() && last_match_below(
                view_seq(right@),
                x@,
                right@.len() as int,
            ) == j as int,
            None => last_match_below(view_seq(right@), x@, right@.len() as int) == -1,
        },
{
    broadcast use view_seq_props;

    let ghost vs = view_seq(right@);
    let mut j: usize = right.len();
    while j > 0
        invariant
            0 <= j <= right@.len(),
            vs == view_seq(right@),
            last_match_below(vs, x@, right@.len() as int) == last_match_below(
                vs,
                x@,
                j as int,
            ),
        decreases j,
    {
        if crate::operation::eq_op(&right[j - 1], x) {
            return Some(j - 1);
        }
        j = j - 1;
    }
    None
}

/// Removes every multiplier present in both lists, scanning the left list
/// from its high end; the removed trees are returned, in scan order.
pub fn cancel(left: &mut Vec<Operation>, right: &mut Vec<Operation>) -> (common: Vec<Operation>)
    ensures
        (view_seq(final(left)@), view_seq(final(right)@), view_seq(common@)) == cancel_s(
            view_seq(old(left)@),
            view_seq(old(right)@),
        ),
{
    broadcast use view_seq_props;

    let ghost l0 = view_seq(old(left)@);
    let ghost r0 = view_seq(old(right)@);
    let mut common: Vec<Operation> = Vec::new();
    let mut i: usize = left.len();
    while i > 0
        invariant
            0 <= i <= left@.len(),
            cancel_rec(l0, r0, Seq::empty(), l0.len() as int) == cancel_rec(
                view_seq(left@),
                view_seq(right@),
                view_seq(common@),
                i as int,
            ),
        decreases i,
    {
        i = i - 1;
        let jopt = last_match(right, &left[i]);
        match jopt {
            Some(j) => {
                proof {
                    lemma_view_seq_remove(left@, i as int);
                    lemma_view_seq_remove(right@, j as int);
                    lemma_view_seq_push(common@, left@[i as int]);
                }
                let e = left.remove(i);
                right.remove(j);
                common.push(e);
            },
            None => {},
        }
    }
    common
}

impl Multiplication {
    /// Sum of two products: shared factors are pulled out in front of the
    /// sum of the remainders; with no shared factor the two products stand
    /// side by side in a sum.
    pub fn add(self, rhs: Multiplication) -> (r: Operation)
        ensures
            r@ == mul_add_s(view_seq(self.multipliers@), view_seq(rhs.multipliers@)),
    {
        broadcast use view_seq_props;

        let mut left = self.multipliers;
        let mut right = rhs.multipliers;
        let mut common = cancel(&mut left, &mut right);
        if common.len() == 0 {
            Operation::Addition(Addition {
                summands: pair_vec(
                    Operation::Multiplication(Multiplication { multipliers: left }),
                    Operation::Multiplication(Multiplication { multipliers: right }),
                ),
            })
        } else {
            let lf = mul_of_vec(left);
            let rf = mul_of_vec(right);
            let inner = Operation::Addition(Addition { summands: pair_vec(lf, rf) });
            proof {
                lemma_view_seq_push(common@, inner);
            }
            common.push(inner);
            Operation::Multiplication(Multiplication { multipliers: common })
        }
    }

    /// Difference of two products, with the right remainder negated.
    pub fn sub(self, rhs: Multiplication) -> (r: Operation)
        ensures
            r@ == mul_sub_s(view_seq(self.multipliers@), view_seq(rhs.multipliers@)),
    {
        broadcast use view_seq_props;

        let mut left = self.multipliers;
        let mut right = rhs.multipliers;
        let mut common = cancel(&mut left, &mut right);
        if common.len() == 0 {
            let neg_right = Operation::Multiplication(Multiplication {
                multipliers: right,
            }).neg();
            Operation::Addition(Addition {
                summands: pair_vec(
                    Operation::Multiplication(Multiplication { multipliers: left }),
                    neg_right,
                ),
            })
        } else {
            let lf = mul_of_vec(left);
            let rf = mul_of_vec(right).neg();
            let inner = Operation::Addition(Addition { summands: pair_vec(lf, rf) });
            proof {
                lemma_view_seq_push(common@, inner);
            }
            common.push(inner);
            Operation::Multiplication(Multiplication { multipliers: common })
        }
    }

    /// Product of two products: the multiplier lists are concatenated.
    pub fn mul(self, rhs: Multiplication) -> (r: Operation)
        ensures
            r@ == ExprV::Mul(view_seq(self.multipliers@) + view_seq(rhs.multipliers@)),
    {
        proof {
            lemma_view_seq_concat(self.multipliers@, rhs.multipliers@);
        }
        let mut out = self.multipliers;
        let mut tail = rhs.multipliers;
        out.append(&mut tail);
        Operation::Multiplication(Multiplication { multipliers: out })
    }

    /// Quotient of two products: shared factors cancel and the remainders
    /// divide; two bare-number remainders are reduced by the greatest
    /// common divisor, like any quotient of numbers.
    pub fn div(self, rhs: Multiplication) -> (r: Result<Operation, MathError>)
        ensures
            matches_out(r, mul_div_s(view_seq(self.multipliers@), view_seq(rhs.multipliers@))),
    {
        broadcast use crate::operation::lemma_view_unfold;

        let mut left = self.multipliers;
        let mut right = rhs.multipliers;
        let common = cancel(&mut left, &mut right);
        let lf = mul_of_vec(left);
        let rf = mul_of_vec(right);
        match (lf, rf) {
            (Operation::Number(a), Operation::Number(b)) => a.div(b),
            (fl, fr) => Ok(Operation::Division(Division {
                divident: Box::new(fl),
                divisor: Box::new(fr),
            })),
        }
    }
}

/// A multiplier list folded back into one tree: an empty list is the unit,
/// a singleton is its element, anything longer is a product node.
pub fn mul_of_vec(ms: Vec<Operation>) -> (r: Operation)
    ensures
        r@ == mul_of_seq(view_seq(ms@)),
{
    broadcast use view_seq_props;

    if ms.len() == 0 {
        Operation::Number(Number { value: 1 })
    } else if ms.len() == 1 {
        let mut ms2 = ms;
        ms2.remove(0)
    } else {
        Operation::Multiplication(Multiplication { multipliers: ms })
    }
}

} // verus!
