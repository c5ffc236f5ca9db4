//! The variable leaf and its substitution matching.

use vstd::prelude::*;

use crate::model::{neg_s, ExprV};
use crate::operation::addition::Addition;
use crate::operation::division::Division;
use crate::operation::multiplication::Multiplication;
use crate::operation::number::Number;
use crate::operation::{lemma_view_unfold, pair_vec, view_seq_props, Operation};

verus! {

broadcast use lemma_view_unfold, view_seq_props;

/// A leaf holding a name; never simplified, only substituted.
#[derive(Debug)]
pub struct Variable {
    pub name: Vec<char>,
}

impl Variable {
    /// Sum of two variables: equal names degenerate to twice the variable,
    /// different names stand side by side in a sum.
    pub fn add(self, rhs: Variable) -> (r: Operation)
        ensures
            self.name@ == rhs.name@ ==> r@ == ExprV::Mul(
                seq![ExprV::Num(2), ExprV::Var(self.name@)],
            ),
            self.name@ != rhs.name@ ==> r@ == ExprV::Add(
                seq![ExprV::Var(self.name@), ExprV::Var(rhs.name@)],
            ),
    {
        if eq_names(&self.name, &rhs.name) {
            Operation::Multiplication(Multiplication {
                multipliers: pair_vec(
                    Operation::Number(Number { value: 2 }),
                    Operation::Variable(self),
                ),
            })
        } else {
            Operation::Addition(Addition {
                summands: pair_vec(Operation::Variable(self), Operation::Variable(rhs)),
            })
        }
    }

    /// Difference of two variables: equal names cancel to zero, different
    /// names leave a sum with the right side negated.
    pub fn sub(self, rhs: Variable) -> (r: Operation)
        ensures
            self.name@ == rhs.name@ ==> r@ == ExprV::Num(0),
            self.name@ != rhs.name@ ==> r@ == ExprV::Add(
                seq![ExprV::Var(self.name@), neg_s(ExprV::Var(rhs.name@))],
            ),
    {
        if eq_names(&self.name, &rhs.name) {
            Operation::Number(Number { value: 0 })
        } else {
            let n = Operation::Variable(rhs).neg();
            Operation::Addition(Addition {
                summands: pair_vec(Operation::Variable(self), n),
            })
        }
    }

    /// Product of two variables: a two-element product node.
    pub fn mul(self, rhs: Variable) -> (r: Operation)
        ensures
            r@ == ExprV::Mul(seq![ExprV::Var(self.name@), ExprV::Var(rhs.name@)]),
    {
        Operation::Multiplication(Multiplication {
            multipliers: pair_vec(Operation::Variable(self), Operation::Variable(rhs)),
        })
    }

    /// Quotient of two variables: a quotient node.
    pub fn div(self, rhs: Variable) -> (r: Operation)
        ensures
            r@ == ExprV::Div(
                Box::new(ExprV::Var(self.name@)),
                Box::new(ExprV::Var(rhs.name@)),
            ),
    {
        Operation::Division(Division {
            divident: Box::new(Operation::Variable(self)),
            divisor: Box::new(Operation::Variable(rhs)),
        })
    }
}

/// Character-wise equality of two names.
#[verifier::loop_isolation(false)]
pub fn eq_names(a: &Vec<char>, b: &Vec<char>) -> (r: bool)
    ensures
        r == (a@ == b@),
{
    if a.len() != b.len() {
        return false;
    }
    let mut i: usize = 0;
    while i < a.len()
        invariant
            0 <= i <= a.len(),
            a.len() == b.len(),
            forall|k: int| 0 <= k < i ==> a@[k] == b@[k],
        decreases a.len() - i,
    {
        if a[i] != b[i] {
            return false;
        }
        i = i + 1;
    }
    proof {
        assert(a@ =~= b@);
    }
    true
}

} // verus!
