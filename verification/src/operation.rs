//! The expression tree and the operator dispatcher.
//!
//! `Operation` is the tagged union of the six shapes.  Every arithmetic
//! operator is implemented once here as a match over the pair of operand
//! shapes, delegating to the owning shape where a specialized rule exists.

use vstd::prelude::*;

pub mod addition;
pub mod division;
pub mod multiplication;
pub mod negation;
pub mod number;
pub mod variable;

use crate::chars::chars_of;
use crate::errors::MathError;
use crate::eval::{calc_fold_add, calc_fold_mul, calc_rec, CalcOut};
use crate::model::{can_add_s, first_can, neg_s, ExprV};
use crate::rational::{matches_calc, rat_add, rat_div, rat_mul, Rational};
use crate::rules::{
    add_rec, div_rec, find_bind, mul_rec, set_vars_rec, sub_rec, sv_fold_add, sv_fold_mul,
    OpOut, FUEL,
};
use addition::Addition;
use division::Division;
use multiplication::Multiplication;
use negation::Negation;
use number::Number;
use variable::Variable;

verus! {

broadcast use vstd::seq::axiom_seq_index_decreases, vstd::seq::axiom_seq_subrange_decreases, vstd::std_specs::vec::axiom_vec_index_decreases;

/// An expression tree: one of the six shapes.
#[derive(Debug)]
pub enum Operation {
    Addition(Addition),
    Multiplication(Multiplication),
    Division(Division),
    Negation(Negation),
    Number(Number),
    Variable(Variable),
}

impl View for Operation {
    type V = ExprV;

    open spec fn view(&self) -> ExprV
        decreases self,
    {
        match self {
            Operation::Addition(add) => ExprV::Add(view_seq(add.summands@)),
            Operation::Multiplication(mul) => ExprV::Mul(view_seq(mul.multipliers@)),
            Operation::Division(div) => ExprV::Div(
                Box::new((*div.divident)@),
                Box::new((*div.divisor)@),
            ),
            Operation::Negation(neg) => ExprV::Neg(Box::new((*neg.value)@)),
            Operation::Number(num) => ExprV::Num(num.value as nat),
            Operation::Variable(var) => ExprV::Var(var.name@),
        }
    }
}

/// The views of a sequence of trees, element by element.
pub open spec fn view_seq(s: Seq<Operation>) -> Seq<ExprV>
    decreases s,
{
    if s.len() == 0 {
        Seq::empty()
    } else {
        seq![s[0]@] + view_seq(s.drop_first())
    }
}

/// The defining equation of `view`, as an ambient fact: the view of a tree
/// is determined by its shape and the views of its children.
pub broadcast proof fn lemma_view_unfold(op: Operation)
    ensures
        #[trigger] op@ == (match op {
            Operation::Addition(add) => ExprV::Add(view_seq(add.summands@)),
            Operation::Multiplication(mul) => ExprV::Mul(view_seq(mul.multipliers@)),
            Operation::Division(div) => ExprV::Div(
                Box::new((*div.divident)@),
                Box::new((*div.divisor)@),
            ),
            Operation::Negation(neg) => ExprV::Neg(Box::new((*neg.value)@)),
            Operation::Number(num) => ExprV::Num(num.value as nat),
            Operation::Variable(var) => ExprV::Var(var.name@),
        }),
{
}

/// How `view_seq` relates to its argument, element by element.
pub broadcast proof fn view_seq_props(s: Seq<Operation>)
    ensures
        (#[trigger] view_seq(s)).len() == s.len(),
        forall|i: int| 0 <= i < s.len() ==> view_seq(s)[i] == s[i]@,
    decreases s,
{
    if s.len() > 0 {
        view_seq_props(s.drop_first());
        assert(view_seq(s) == seq![s[0]@] + view_seq(s.drop_first()));
        assert forall|i: int| 0 <= i < s.len() implies view_seq(s)[i] == s[i]@ by {
            if i > 0 {
                assert(view_seq(s)[i] == view_seq(s.drop_first())[i - 1]);
                assert(s.drop_first()[i - 1] == s[i]);
            }
        }
    }
}

/// Appending sequences of trees appends their views.
pub proof fn lemma_view_seq_concat(a: Seq<Operation>, b: Seq<Operation>)
    ensures
        view_seq(a + b) == view_seq(a) + view_seq(b),
{
    broadcast use view_seq_props;

    assert(view_seq(a + b) =~= view_seq(a) + view_seq(b));
}

/// Pushing onto a sequence of trees pushes its view.
pub proof fn lemma_view_seq_push(a: Seq<Operation>, x: Operation)
    ensures
        view_seq(a.push(x)) == view_seq(a).push(x@),
{
    broadcast use view_seq_props;

    assert(view_seq(a.push(x)) =~= view_seq(a).push(x@));
}

/// Removing from a sequence of trees removes from its view.
pub proof fn lemma_view_seq_remove(a: Seq<Operation>, i: int)
    requires
        0 <= i < a.len(),
    ensures
        view_seq(a.remove(i)) == view_seq(a).remove(i),
{
    broadcast use view_seq_props;

    assert(view_seq(a.remove(i)) =~= view_seq(a).remove(i));
}

/// How a `Result` of the executable dispatcher corresponds to the outcome
/// of the specification rules.
pub open spec fn matches_out(r: Result<Operation, MathError>, o: OpOut) -> bool {
    match o {
        OpOut::Done(v) => r matches Ok(op) && op@ == v,
        OpOut::DivZero => r == Result::<Operation, MathError>::Err(MathError::DivisionByZero),
        OpOut::Overflow => r == Result::<Operation, MathError>::Err(MathError::Overflow),
        OpOut::NoFuel => r == Result::<Operation, MathError>::Err(MathError::DepthLimit),
    }
}

/// A two-element list of trees.
pub fn pair_vec(a: Operation, b: Operation) -> (r: Vec<Operation>)
    ensures
        r@ =~= seq![a, b],
        view_seq(r@) =~= seq![a@, b@],
{
    broadcast use view_seq_props;

    let mut v: Vec<Operation> = Vec::new();
    v.push(a);
    v.push(b);
    v
}

impl Operation {
    /// A deep copy of the tree.
    #[verifier::loop_isolation(false)]
    pub fn clone_op(&self) -> (r: Operation)
        ensures
            r@ == self@,
        decreases self,
    {
        broadcast use view_seq_props, lemma_view_unfold;

        match self {
            Operation::Number(num) => Operation::Number(Number { value: num.value }),
            Operation::Variable(var) => Operation::Variable(Variable {
                name: copy_name(&var.name),
            }),
            Operation::Negation(neg) => Operation::Negation(Negation {
                value: Box::new(neg.value.clone_op()),
            }),
            Operation::Division(div) => Operation::Division(Division {
                divident: Box::new(div.divident.clone_op()),
                divisor: Box::new(div.divisor.clone_op()),
            }),
            Operation::Addition(add) => {
                let mut out: Vec<Operation> = Vec::new();
                let mut i: usize = 0;
                while i < add.summands.len()
                    invariant
                        0 <= i <= add.summands.len(),
                        out@.len() == i,
                        forall|k: int| 0 <= k < i ==> out@[k]@ == add.summands@[k]@,
                    decreases add.summands.len() - i,
                {
                    let c = add.summands[i].clone_op();
                    out.push(c);
                    i = i + 1;
                }
                proof {
                    assert(view_seq(out@) =~= view_seq(add.summands@));
                }
                Operation::Addition(Addition { summands: out })
            },
            Operation::Multiplication(mul) => {
                let mut out: Vec<Operation> = Vec::new();
                let mut i: usize = 0;
                while i < mul.multipliers.len()
                    invariant
                        0 <= i <= mul.multipliers.len(),
                        out@.len() == i,
                        forall|k: int| 0 <= k < i ==> out@[k]@ == mul.multipliers@[k]@,
                    decreases mul.multipliers.len() - i,
                {
                    let c = mul.multipliers[i].clone_op();
                    out.push(c);
                    i = i + 1;
                }
                proof {
                    assert(view_seq(out@) =~= view_seq(mul.multipliers@));
                }
                Operation::Multiplication(Multiplication { multipliers: out })
            },
        }
    }

    /// Negation: a negation is unwrapped, a zero number stays itself,
    /// anything else is wrapped.
    pub fn neg(self) -> (r: Operation)
        ensures
            r@ == neg_s(self@),
    {
        proof {
            broadcast use lemma_view_unfold;

        }
        match self {
            Operation::Negation(neg) => *neg.value,
            Operation::Number(num) => {
                if num.value == 0 {
                    Operation::Number(num)
                } else {
                    Operation::Negation(Negation {
                        value: Box::new(Operation::Number(num)),
                    })
                }
            },
            other => Operation::Negation(Negation { value: Box::new(other) }),
        }
    }

    /// Whether a number folds well into this tree when added to it.
    #[verifier::loop_isolation(false)]
    pub fn can_add_number_well(&self) -> (r: bool)
        ensures
            r == can_add_s(self@),
        decreases self,
    {
        broadcast use view_seq_props, lemma_view_unfold;

        match self {
            Operation::Number(_) => true,
            Operation::Variable(_) => false,
            Operation::Multiplication(_) => false,
            Operation::Division(div) => match &*div.divisor {
                Operation::Number(_) => true,
                _ => false,
            },
            Operation::Negation(neg) => neg.value.can_add_number_well(),
            Operation::Addition(add) => {
                let ghost vs = view_seq(add.summands@);
                let mut i: usize = 0;
                while i < add.summands.len()
                    invariant
                        0 <= i <= add.summands.len(),
                        vs == view_seq(add.summands@),
                        vs.len() == add.summands@.len(),
                        first_can(vs, 0) == first_can(vs, i as int),
                    decreases add.summands.len() - i,
                {
                    if add.summands[i].can_add_number_well() {
                        return true;
                    }
                    i = i + 1;
                }
                false
            },
        }
    }
}

impl Default for Operation {
    /// The default tree: the number zero.
    fn default() -> (r: Self)
        ensures
            r@ == ExprV::Num(0),
    {
        Operation::Number(Number { value: 0 })
    }
}

/// A copy of a name, character by character.
#[verifier::loop_isolation(false)]
pub fn copy_name(a: &Vec<char>) -> (r: Vec<char>)
    ensures
        r@ == a@,
{
    let mut out: Vec<char> = Vec::new();
    let mut i: usize = 0;
    while i < a.len()
        invariant
            0 <= i <= a.len(),
            out@ =~= a@.subrange(0, i as int),
        decreases a.len() - i,
    {
        out.push(a[i]);
        i = i + 1;
    }
    proof {
        assert(out@ =~= a@);
    }
    out
}

/// Structural equality of two trees, which is equality of their views.
pub fn eq_op(a: &Operation, b: &Operation) -> (r: bool)
    ensures
        r == (a@ == b@),
    decreases a,
{
    broadcast use view_seq_props, lemma_view_unfold;

    match (a, b) {
        (Operation::Number(x), Operation::Number(y)) => x.value == y.value,
        (Operation::Variable(x), Operation::Variable(y)) => crate::operation::variable::eq_names(
            &x.name,
            &y.name,
        ),
        (Operation::Negation(x), Operation::Negation(y)) => eq_op(&x.value, &y.value),
        (Operation::Division(x), Operation::Division(y)) => {
            eq_op(&x.divident, &y.divident) && eq_op(&x.divisor, &y.divisor)
        },
        (Operation::Addition(x), Operation::Addition(y)) => eq_vecs(&x.summands, &y.summands),
        (Operation::Multiplication(x), Operation::Multiplication(y)) => eq_vecs(
            &x.multipliers,
            &y.multipliers,
        ),
        _ => false,
    }
}

/// Element-wise structural equality of two lists of trees.
#[verifier::loop_isolation(false)]
pub fn eq_vecs(a: &Vec<Operation>, b: &Vec<Operation>) -> (r: bool)
    ensures
        r == (view_seq(a@) == view_seq(b@)),
    decreases a,
{
    broadcast use view_seq_props;

    if a.len() != b.len() {
        return false;
    }
    let mut i: usize = 0;
    while i < a.len()
        invariant
            0 <= i <= a.len(),
            a@.len() == b@.len(),
            forall|k: int| 0 <= k < i ==> a@[k]@ == b@[k]@,
        decreases a.len() - i,
    {
        if !eq_op(&a[i], &b[i]) {
            proof {
                assert(view_seq(a@)[i as int] != view_seq(b@)[i as int]);
            }
            return false;
        }
        i = i + 1;
    }
    proof {
        assert(view_seq(a@) =~= view_seq(b@));
    }
    true
}

impl PartialEq for Operation {
    /// Structural equality of two trees.
    fn eq(&self, other: &Self) -> (r: bool) {
        eq_op(self, other)
    }
}

impl vstd::std_specs::cmp::PartialEqSpecImpl for Operation {
    open spec fn obeys_eq_spec() -> bool {
        true
    }

    open spec fn eq_spec(&self, other: &Self) -> bool {
        self@ == other@
    }
}

impl Clone for Operation {
    /// A deep copy of the tree.
    fn clone(&self) -> (r: Self)
        ensures
            r@ == self@,
    {
        self.clone_op()
    }
}

impl Operation {
    /// The sum of two trees, under the standing nesting-depth bound.
    pub fn add(self, rhs: Operation) -> (r: Result<Operation, MathError>)
        ensures
            matches_out(r, add_rec(self@, rhs@, FUEL as nat)),
    {
        self.add_fuel(rhs, FUEL)
    }

    /// The difference of two trees, under the standing nesting-depth bound.
    pub fn sub(self, rhs: Operation) -> (r: Result<Operation, MathError>)
        ensures
            matches_out(r, sub_rec(self@, rhs@, FUEL as nat)),
    {
        self.sub_fuel(rhs, FUEL)
    }

    /// The product of two trees, under the standing nesting-depth bound.
    pub fn mul(self, rhs: Operation) -> (r: Result<Operation, MathError>)
        ensures
            matches_out(r, mul_rec(self@, rhs@, FUEL as nat)),
    {
        self.mul_fuel(rhs, FUEL)
    }

    /// The quotient of two trees, under the standing nesting-depth bound.
    pub fn div(self, rhs: Operation) -> (r: Result<Operation, MathError>)
        ensures
            matches_out(r, div_rec(self@, rhs@, FUEL as nat)),
    {
        self.div_fuel(rhs, FUEL)
    }

    /// The sum of two trees, spending one unit of fuel per dispatch.
    pub fn add_fuel(self, rhs: Operation, fuel: u64) -> (r: Result<Operation, MathError>)
        ensures
            matches_out(r, add_rec(self@, rhs@, fuel as nat)),
        decreases fuel, 0int,
    {
        if fuel == 0 {
            return Err(MathError::DepthLimit);
        }
        let f = fuel - 1;
        match (self, rhs) {
            (Operation::Addition(x), Operation::Addition(y)) => Ok(x.add(y)),
            (Operation::Multiplication(x), Operation::Multiplication(y)) => Ok(x.add(y)),
            (Operation::Division(x), Operation::Division(y)) => x.add_div(y, f),
            (Operation::Negation(x), Operation::Negation(y)) => {
                match (*x.value).add_fuel(*y.value, f) {
                    Ok(v) => Ok(Operation::Negation(Negation { value: Box::new(v) })),
                    Err(e) => Err(e),
                }
            },
            (Operation::Number(x), Operation::Number(y)) => x.add(y),
            (Operation::Variable(x), Operation::Variable(y)) => Ok(x.add(y)),
            (Operation::Number(num), any) if num.value == 0 => Ok(any),
            (any, Operation::Number(num)) if num.value == 0 => Ok(any),
            (Operation::Number(num), Operation::Addition(mut add)) => {
                match add.add_num_fuel(num, f) {
                    Ok(u) => Ok(Operation::Addition(add)),
                    Err(e) => Err(e),
                }
            },
            (Operation::Addition(mut add), Operation::Number(num)) => {
                match add.add_num_fuel(num, f) {
                    Ok(u) => Ok(Operation::Addition(add)),
                    Err(e) => Err(e),
                }
            },
            (Operation::Negation(x), any) => any.sub_fuel(*x.value, f),
            (any, Operation::Negation(x)) => any.sub_fuel(*x.value, f),
            (Operation::Addition(mut add), any) => {
                proof {
                    lemma_view_seq_push(add.summands@, any);
                }
                add.summands.push(any);
                Ok(Operation::Addition(add))
            },
            (any, Operation::Addition(mut add)) => {
                proof {
                    lemma_view_seq_push(add.summands@, any);
                }
                add.summands.push(any);
                Ok(Operation::Addition(add))
            },
            (Operation::Division(div), any) => div.absorb_add(any, f),
            (any, Operation::Division(div)) => div.absorb_add(any, f),
            (first, second) => Ok(Operation::Addition(Addition {
                summands: pair_vec(first, second),
            })),
        }
    }

    /// The difference of two trees, spending one unit of fuel per dispatch.
    pub fn sub_fuel(self, rhs: Operation, fuel: u64) -> (r: Result<Operation, MathError>)
        ensures
            matches_out(r, sub_rec(self@, rhs@, fuel as nat)),
        decreases fuel, 0int,
    {
        if fuel == 0 {
            return Err(MathError::DepthLimit);
        }
        let f = fuel - 1;
        match (self, rhs) {
            (Operation::Addition(x), Operation::Addition(y)) => Ok(x.sub(y)),
            (Operation::Multiplication(x), Operation::Multiplication(y)) => Ok(x.sub(y)),
            (Operation::Division(x), Operation::Division(y)) => x.sub_div(y, f),
            (Operation::Negation(x), Operation::Negation(y)) => {
                (*y.value).sub_fuel(*x.value, f)
            },
            (Operation::Number(x), Operation::Number(y)) => Ok(x.sub(y)),
            (Operation::Variable(x), Operation::Variable(y)) => Ok(x.sub(y)),
            (Operation::Number(num), any) if num.value == 0 => Ok(any.neg()),
            (any, Operation::Number(num)) if num.value == 0 => Ok(any),
            (Operation::Negation(x), any) => match (*x.value).add_fuel(any, f) {
                Ok(v) => Ok(v.neg()),
                Err(e) => Err(e),
            },
            (any, Operation::Negation(x)) => any.add_fuel(*x.value, f),
            (first, second) => {
                let ns = second.neg();
                Ok(Operation::Addition(Addition { summands: pair_vec(first, ns) }))
            },
        }
    }

    /// The product of two trees, spending one unit of fuel per dispatch.
    pub fn mul_fuel(self, rhs: Operation, fuel: u64) -> (r: Result<Operation, MathError>)
        ensures
            matches_out(r, mul_rec(self@, rhs@, fuel as nat)),
        decreases fuel, 0int,
    {
        if fuel == 0 {
            return Err(MathError::DepthLimit);
        }
        let f = fuel - 1;
        match (self, rhs) {
            (Operation::Addition(x), Operation::Addition(y)) => Ok(x.mul(y)),
            (Operation::Multiplication(x), Operation::Multiplication(y)) => Ok(x.mul(y)),
            (Operation::Division(x), Operation::Division(y)) => {
                let nn = match (*x.divident).mul_fuel(*y.divident, f) {
                    Ok(v) => v,
                    Err(e) => {
                        return Err(e);
                    },
                };
                let dd = match (*x.divisor).mul_fuel(*y.divisor, f) {
                    Ok(v) => v,
                    Err(e) => {
                        return Err(e);
                    },
                };
                nn.div_fuel(dd, f)
            },
            (Operation::Negation(x), Operation::Negation(y)) => {
                (*x.value).mul_fuel(*y.value, f)
            },
            (Operation::Number(x), Operation::Number(y)) => x.mul(y),
            (Operation::Variable(x), Operation::Variable(y)) => Ok(x.mul(y)),
            (Operation::Number(num), any) if num.value == 0 => Ok(
                Operation::Number(Number { value: 0 }),
            ),
            (any, Operation::Number(num)) if num.value == 0 => Ok(
                Operation::Number(Number { value: 0 }),
            ),
            (Operation::Number(num), any) if num.value == 1 => Ok(any),
            (any, Operation::Number(num)) if num.value == 1 => Ok(any),
            (any, Operation::Negation(x)) => match any.mul_fuel(*x.value, f) {
                Ok(v) => Ok(v.neg()),
                Err(e) => Err(e),
            },
            (Operation::Negation(x), any) => match (*x.value).mul_fuel(any, f) {
                Ok(v) => Ok(v.neg()),
                Err(e) => Err(e),
            },
            (any, Operation::Division(div)) => {
                let p = match any.mul_fuel(*div.divident, f) {
                    Ok(v) => v,
                    Err(e) => {
                        return Err(e);
                    },
                };
                p.div_fuel(*div.divisor, f)
            },
            (Operation::Division(div), any) => {
                let p = match any.mul_fuel(*div.divident, f) {
                    Ok(v) => v,
                    Err(e) => {
                        return Err(e);
                    },
                };
                p.div_fuel(*div.divisor, f)
            },
            (Operation::Multiplication(mut mul), any) => {
                proof {
                    lemma_view_seq_push(mul.multipliers@, any);
                }
                mul.multipliers.push(any);
                Ok(Operation::Multiplication(mul))
            },
            (any, Operation::Multiplication(mut mul)) => {
                proof {
                    lemma_view_seq_push(mul.multipliers@, any);
                }
                mul.multipliers.push(any);
                Ok(Operation::Multiplication(mul))
            },
            (first, second) => Ok(Operation::Multiplication(Multiplication {
                multipliers: pair_vec(first, second),
            })),
        }
    }

    /// The quotient of two trees, spending one unit of fuel per dispatch.
    pub fn div_fuel(self, rhs: Operation, fuel: u64) -> (r: Result<Operation, MathError>)
        ensures
            matches_out(r, div_rec(self@, rhs@, fuel as nat)),
        decreases fuel, 0int,
    {
        if fuel == 0 {
            return Err(MathError::DepthLimit);
        }
        let f = fuel - 1;
        match (self, rhs) {
            (Operation::Addition(x), Operation::Addition(y)) => Ok(x.div(y)),
            (Operation::Multiplication(x), Operation::Multiplication(y)) => x.div(y),
            (Operation::Division(x), Operation::Division(y)) => {
                let flipped = Operation::Division(Division {
                    divident: y.divisor,
                    divisor: y.divident,
                });
                Operation::Division(x).mul_fuel(flipped, f)
            },
            (Operation::Negation(x), Operation::Negation(y)) => {
                (*x.value).div_fuel(*y.value, f)
            },
            (Operation::Number(x), Operation::Number(y)) => x.div(y),
            (Operation::Variable(x), Operation::Variable(y)) => Ok(x.div(y)),
            (any, Operation::Number(num)) if num.value == 0 => Err(
                MathError::DivisionByZero,
            ),
            (Operation::Number(num), any) if num.value == 0 => Ok(Operation::Number(num)),
            (any, Operation::Number(num)) if num.value == 1 => Ok(any),
            (Operation::Negation(x), any) => match (*x.value).div_fuel(any, f) {
                Ok(v) => Ok(v.neg()),
                Err(e) => Err(e),
            },
            (any, Operation::Negation(x)) => match any.div_fuel(*x.value, f) {
                Ok(v) => Ok(v.neg()),
                Err(e) => Err(e),
            },
            (any, Operation::Division(div)) => {
                let q = match (*div.divisor).div_fuel(*div.divident, f) {
                    Ok(v) => v,
                    Err(e) => {
                        return Err(e);
                    },
                };
                any.mul_fuel(q, f)
            },
            (Operation::Division(div), any) => {
                let dd = match (*div.divisor).mul_fuel(any, f) {
                    Ok(v) => v,
                    Err(e) => {
                        return Err(e);
                    },
                };
                (*div.divident).div_fuel(dd, f)
            },
            (first, second) => Ok(Operation::Division(Division {
                divident: Box::new(first),
                divisor: Box::new(second),
            })),
        }
    }
}

/// The ghost bindings that a list of named trees stands for.
pub open spec fn binds_view(vars: Seq<(&str, &Operation)>) -> Seq<(Seq<char>, ExprV)> {
    vars.map(|i: int, p: (&str, &Operation)| (p.0@, p.1@))
}

impl Operation {
    /// Evaluation to an exact rational value.  Fails on a tree that still
    /// contains a variable, on a denominator that evaluates to zero, and on
    /// a magnitude leaving the 64-bit range.
    #[verifier::loop_isolation(false)]
    #[verifier::rlimit(50)]
    pub fn calc(&self) -> (r: Result<Rational, MathError>)
        ensures
            matches_calc(r, calc_rec(self@)),
        decreases self,
    {
        broadcast use view_seq_props;

        match self {
            Operation::Number(num) => Ok(Rational {
                negative: false,
                numerator: num.value as u64,
                denominator: 1,
            }),
            Operation::Variable(_) => Err(MathError::UnboundVariable),
            Operation::Negation(neg) => match neg.value.calc() {
                Ok(v) => Ok(Rational { negative: !v.negative, ..v }),
                Err(e) => Err(e),
            },
            Operation::Division(div) => {
                let a = match div.divident.calc() {
                    Ok(v) => v,
                    Err(e) => {
                        return Err(e);
                    },
                };
                let b = match div.divisor.calc() {
                    Ok(v) => v,
                    Err(e) => {
                        return Err(e);
                    },
                };
                rat_div(a, b)
            },
            Operation::Addition(add) => {
                let ghost vs = view_seq(add.summands@);
                if add.summands.len() == 0 {
                    return Ok(Rational { negative: false, numerator: 0, denominator: 1 });
                }
                let mut acc = match add.summands[0].calc() {
                    Ok(v) => v,
                    Err(e) => {
                        return Err(e);
                    },
                };
                let mut k: usize = 1;
                while k < add.summands.len()
                    invariant
                        1 <= k <= add.summands.len(),
                        calc_rec(self@) == calc_fold_add(vs, k as int, acc@),
                    decreases add.summands.len() - k,
                {
                    let v = match add.summands[k].calc() {
                        Ok(v) => v,
                        Err(e) => {
                            return Err(e);
                        },
                    };
                    acc = match rat_add(acc, v) {
                        Ok(v2) => v2,
                        Err(e) => {
                            return Err(e);
                        },
                    };
                    k = k + 1;
                }
                Ok(acc)
            },
            Operation::Multiplication(mul) => {
                let ghost vs = view_seq(mul.multipliers@);
                if mul.multipliers.len() == 0 {
                    return Ok(Rational { negative: false, numerator: 1, denominator: 1 });
                }
                let mut acc = match mul.multipliers[0].calc() {
                    Ok(v) => v,
                    Err(e) => {
                        return Err(e);
                    },
                };
                let mut k: usize = 1;
                while k < mul.multipliers.len()
                    invariant
                        1 <= k <= mul.multipliers.len(),
                        calc_rec(self@) == calc_fold_mul(vs, k as int, acc@),
                    decreases mul.multipliers.len() - k,
                {
                    let v = match mul.multipliers[k].calc() {
                        Ok(v) => v,
                        Err(e) => {
                            return Err(e);
                        },
                    };
                    acc = match rat_mul(acc, v) {
                        Ok(v2) => v2,
                        Err(e) => {
                            return Err(e);
                        },
                    };
                    k = k + 1;
                }
                Ok(acc)
            },
        }
    }

    /// Substitution of variables: matching variables are replaced by deep
    /// copies of their bound trees and every operator along the way is
    /// re-applied, so the result is reduced again.
    #[verifier::loop_isolation(false)]
    pub fn set_vars(&self, vars: &[(&str, &Operation)]) -> (r: Result<Operation, MathError>)
        ensures
            matches_out(r, set_vars_rec(self@, binds_view(vars@))),
        decreases self,
    {
        broadcast use view_seq_props;

        let ghost binds = binds_view(vars@);
        match self {
            Operation::Number(_) => Ok(self.clone_op()),
            Operation::Variable(var) => {
                let mut j: usize = 0;
                while j < vars.len()
                    invariant
                        0 <= j <= vars@.len(),
                        find_bind(binds, var.name@, 0) == find_bind(binds, var.name@, j as int),
                    decreases vars@.len() - j,
                {
                    let key = chars_of(vars[j].0);
                    if crate::operation::variable::eq_names(&var.name, &key) {
                        return Ok(vars[j].1.clone_op());
                    }
                    j = j + 1;
                }
                Ok(self.clone_op())
            },
            Operation::Negation(neg) => match neg.value.set_vars(vars) {
                Ok(v) => Ok(v.neg()),
                Err(e) => Err(e),
            },
            Operation::Division(div) => {
                let a = match div.divident.set_vars(vars) {
                    Ok(v) => v,
                    Err(e) => {
                        return Err(e);
                    },
                };
                let b = match div.divisor.set_vars(vars) {
                    Ok(v) => v,
                    Err(e) => {
                        return Err(e);
                    },
                };
                a.div(b)
            },
            Operation::Addition(add) => {
                let ghost vs = view_seq(add.summands@);
                let mut acc = Operation::Number(Number { value: 0 });
                let mut k: usize = 0;
                while k < add.summands.len()
                    invariant
                        0 <= k <= add.summands.len(),
                        set_vars_rec(self@, binds) == sv_fold_add(vs, binds, k as int, acc@),
                    decreases add.summands.len() - k,
                {
                    let v = match add.summands[k].set_vars(vars) {
                        Ok(v) => v,
                        Err(e) => {
                            return Err(e);
                        },
                    };
                    acc = match acc.add(v) {
                        Ok(v2) => v2,
                        Err(e) => {
                            return Err(e);
                        },
                    };
                    k = k + 1;
                }
                Ok(acc)
            },
            Operation::Multiplication(mul) => {
                let ghost vs = view_seq(mul.multipliers@);
                if mul.multipliers.len() == 0 {
                    return Ok(self.clone_op());
                }
                let mut acc = match mul.multipliers[0].set_vars(vars) {
                    Ok(v) => v,
                    Err(e) => {
                        return Err(e);
                    },
                };
                let mut k: usize = 1;
                while k < mul.multipliers.len()
                    invariant
                        1 <= k <= mul.multipliers.len(),
                        set_vars_rec(self@, binds) == sv_fold_mul(vs, binds, k as int, acc@),
                    decreases mul.multipliers.len() - k,
                {
                    let v = match mul.multipliers[k].set_vars(vars) {
                        Ok(v) => v,
                        Err(e) => {
                            return Err(e);
                        },
                    };
                    acc = match acc.mul(v) {
                        Ok(v2) => v2,
                        Err(e) => {
                            return Err(e);
                        },
                    };
                    k = k + 1;
                }
                Ok(acc)
            },
        }
    }
}

} // verus!
