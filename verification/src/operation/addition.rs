//! The n-ary sum node.

use vstd::prelude::*;

use crate::errors::MathError;
use crate::model::{first_can, neg_s, ExprV};
use crate::operation::division::Division;
use crate::operation::multiplication::Multiplication;
use crate::operation::number::Number;
use crate::operation::{
    lemma_view_seq_concat, lemma_view_seq_push, lemma_view_seq_remove, pair_vec, view_seq,
    view_seq_props, Operation,
};
use crate::rules::{add_num_rec, OpOut, FUEL};

verus! {

broadcast use crate::operation::view_seq_props, vstd::seq::axiom_seq_index_decreases, vstd::seq::axiom_seq_subrange_decreases, vstd::std_specs::vec::axiom_vec_index_decreases;

/// An ordered list of summands: a flattened n-ary sum.
#[derive(Debug)]
pub struct Addition {
    pub summands: Vec<Operation>,
}

impl Addition {
    /// Sum of two sums: the summand lists are concatenated; folding happens
    /// lazily as later additions run through the dispatcher.
    pub fn add(self, rhs: Addition) -> (r: Operation)
        ensures
            r@ == ExprV::Add(view_seq(self.summands@) + view_seq(rhs.summands@)),
    {
        proof {
            lemma_view_seq_concat(self.summands@, rhs.summands@);
        }
        let mut out = self.summands;
        let mut tail = rhs.summands;
        out.append(&mut tail);
        Operation::Addition(Addition { summands: out })
    }

    /// Difference of two sums: the right summands are negated and appended.
    #[verifier::loop_isolation(false)]
    #[verifier::rlimit(30)]
    pub fn sub(self, rhs: Addition) -> (r: Operation)
        ensures
            r@ == ExprV::Add(
                view_seq(self.summands@) + view_seq(rhs.summands@).map(
                    |i: int, e: ExprV| neg_s(e),
                ),
            ),
    {
        broadcast use view_seq_props;

        let ghost x0 = self.summands@;
        let ghost y0 = rhs.summands@;
        let mut out = self.summands;
        let mut rest = rhs.summands;
        while rest.len() > 0
            invariant
                rest@.len() <= y0.len(),
                forall|k: int|
                    0 <= k < rest@.len() ==> rest@[k] == y0[y0.len() - rest@.len() + k],
                out@.len() == x0.len() + y0.len() - rest@.len(),
                forall|k: int| 0 <= k < x0.len() ==> out@[k] == x0[k],
                forall|k: int|
                    x0.len() <= k < out@.len() ==> out@[k]@ == neg_s(y0[k - x0.len()]@),
            decreases rest.len(),
        {
            let ghost r_old = rest@;
            let e = rest.remove(0);
            proof {
                assert(e == y0[y0.len() - r_old.len()]);
                assert forall|k: int|
                    0 <= k < rest@.len() implies rest@[k] == y0[y0.len() - rest@.len()
                    + k] by {
                    assert(rest@[k] == r_old[k + 1]);
                }
            }
            let n = e.neg();
            out.push(n);
        }
        proof {
            assert(view_seq(out@) =~= view_seq(x0) + view_seq(y0).map(
                |i: int, e: ExprV| neg_s(e),
            ));
        }
        Operation::Addition(Addition { summands: out })
    }

    /// Product of two sums: a two-element product node.
    pub fn mul(self, rhs: Addition) -> (r: Operation)
        ensures
            r@ == ExprV::Mul(
                seq![
                    ExprV::Add(view_seq(self.summands@)),
                    ExprV::Add(view_seq(rhs.summands@)),
                ],
            ),
    {
        broadcast use crate::operation::lemma_view_unfold;

        Operation::Multiplication(Multiplication {
            multipliers: pair_vec(Operation::Addition(self), Operation::Addition(rhs)),
        })
    }

    /// Quotient of two sums: a quotient node.
    pub fn div(self, rhs: Addition) -> (r: Operation)
        ensures
            r@ == ExprV::Div(
                Box::new(ExprV::Add(view_seq(self.summands@))),
                Box::new(ExprV::Add(view_seq(rhs.summands@))),
            ),
    {
        broadcast use crate::operation::lemma_view_unfold;

        Operation::Division(Division {
            divident: Box::new(Operation::Addition(self)),
            divisor: Box::new(Operation::Addition(rhs)),
        })
    }
}

/// How the result and the new summand list of `add_num` correspond to the
/// outcome of the specification rule.
pub open spec fn matches_add_num(
    r: Result<(), MathError>,
    before: Seq<ExprV>,
    after: Seq<ExprV>,
    o: OpOut,
) -> bool {
    match o {
        OpOut::Done(v) => r is Ok && ExprV::Add(after) == v,
        OpOut::DivZero => r == Result::<(), MathError>::Err(MathError::DivisionByZero)
            && after == before,
        OpOut::Overflow => r == Result::<(), MathError>::Err(MathError::Overflow)
            && after == before,
        OpOut::NoFuel => r == Result::<(), MathError>::Err(MathError::DepthLimit)
            && after == before,
    }
}

/// The first position whose element folds a number well, if any.
#[verifier::loop_isolation(false)]
pub fn first_can_index(v: &Vec<Operation>) -> (r: Option<usize>)
    ensures
        match r {
            Some(i) => i < v@.len() && first_can(view_seq(v@), 0) == i as int,
            None => first_can(view_seq(v@), 0) == v@.len() as int,
        },
{
    broadcast use view_seq_props;

    let ghost vs = view_seq(v@);
    let mut i: usize = 0;
    while i < v.len()
        invariant
            0 <= i <= v@.len(),
            vs == view_seq(v@),
            first_can(vs, 0) == first_can(vs, i as int),
        decreases v@.len() - i,
    {
        if v[i].can_add_number_well() {
            return Some(i);
        }
        i = i + 1;
    }
    None
}

impl Addition {
    /// Folds one more number into the summand list: the first summand that
    /// folds a number well absorbs it and moves to the back of the list;
    /// with no such summand the number becomes a new summand.  On an error
    /// the list is left as it was.
    pub fn add_num(&mut self, num: Number) -> (r: Result<(), MathError>)
        ensures
            matches_add_num(
                r,
                view_seq(old(self).summands@),
                view_seq(final(self).summands@),
                add_num_rec(view_seq(old(self).summands@), num.value as nat, FUEL as nat),
            ),
    {
        self.add_num_fuel(num, FUEL)
    }

    /// Folds one more number into the summand list, spending one unit of
    /// fuel per dispatch of the inner addition.
    pub fn add_num_fuel(&mut self, num: Number, fuel: u64) -> (r: Result<(), MathError>)
        ensures
            matches_add_num(
                r,
                view_seq(old(self).summands@),
                view_seq(final(self).summands@),
                add_num_rec(view_seq(old(self).summands@), num.value as nat, fuel as nat),
            ),
        decreases fuel, 1int,
    {
        match first_can_index(&self.summands) {
            None => {
                proof {
                    lemma_view_seq_push(self.summands@, Operation::Number(num));
                    broadcast use crate::operation::lemma_view_unfold;

                }
                self.summands.push(Operation::Number(num));
                Ok(())
            },
            Some(i) => {
                let elem = self.summands[i].clone_op();
                match elem.add_fuel(Operation::Number(num), fuel) {
                    Ok(x) => {
                        proof {
                            lemma_view_seq_remove(self.summands@, i as int);
                            lemma_view_seq_push(self.summands@.remove(i as int), x);
                        }
                        self.summands.remove(i);
                        self.summands.push(x);
                        Ok(())
                    },
                    Err(e) => Err(e),
                }
            },
        }
    }
}

} // verus!
