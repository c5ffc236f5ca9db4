//! The public term type: a reduced expression tree with construction,
//! substitution and evaluation.

use vstd::prelude::*;

use crate::chars::chars_of;
use crate::errors::{MathError, TryFromStrError};
use crate::eval::{calc_rec, CalcOut};
use crate::model::{neg_s, ExprV};
use crate::operation::number::Number;
use crate::operation::variable::Variable;
use crate::operation::{eq_op, Operation};
use crate::rational::{matches_calc, Rational};
use crate::rules::{add_rec, div_rec, mul_rec, num_div_s, set_vars_rec, sub_rec, OpOut, FUEL};

verus! {

/// A mathematical term, kept in canonical reduced form: every operator that
/// builds one simplifies on the way, so evaluating late loses no precision.
#[derive(Debug)]
pub struct Term {
    operation: Operation,
}

impl View for Term {
    type V = ExprV;

    closed spec fn view(&self) -> ExprV {
        self.operation@
    }
}

/// How a `Result` of a term operator corresponds to the outcome of the
/// specification rules.
pub open spec fn matches_term(r: Result<Term, MathError>, o: OpOut) -> bool {
    match o {
        OpOut::Done(v) => r matches Ok(t) && t@ == v,
        OpOut::DivZero => r == Result::<Term, MathError>::Err(MathError::DivisionByZero),
        OpOut::Overflow => r == Result::<Term, MathError>::Err(MathError::Overflow),
        OpOut::NoFuel => r == Result::<Term, MathError>::Err(MathError::DepthLimit),
    }
}

/// How an evaluate-after-substitution result corresponds to the outcome of
/// the substitution followed by the evaluation.
pub open spec fn matches_use(
    r: Result<Rational, MathError>,
    e: ExprV,
    binds: Seq<(Seq<char>, ExprV)>,
) -> bool {
    match set_vars_rec(e, binds) {
        OpOut::Done(v) => matches_calc(r, calc_rec(v)),
        OpOut::DivZero => r == Result::<Rational, MathError>::Err(MathError::DivisionByZero),
        OpOut::Overflow => r == Result::<Rational, MathError>::Err(MathError::Overflow),
        OpOut::NoFuel => r == Result::<Rational, MathError>::Err(MathError::DepthLimit),
    }
}

/// The ghost bindings that a list of named terms stands for.
pub open spec fn term_binds_view(vars: Seq<(&str, &Term)>) -> Seq<(Seq<char>, ExprV)> {
    vars.map(|i: int, p: (&str, &Term)| (p.0@, p.1@))
}

impl Term {
    /// Parses a term from text and evaluates it in one step.
    pub fn process(term: &str) -> (r: Result<Rational, TryFromStrError>)
        ensures
            match crate::parse_string::parse_full(term@) {
                crate::parse_string::ParseOut::Done(v) => match calc_rec(v) {
                    CalcOut::Val(q) => r matches Ok(x) && x@ == q,
                    CalcOut::Unbound => r == Result::<Rational, TryFromStrError>::Err(
                        TryFromStrError::Arithmetic(MathError::UnboundVariable),
                    ),
                    CalcOut::DivZero => r == Result::<Rational, TryFromStrError>::Err(
                        TryFromStrError::Arithmetic(MathError::DivisionByZero),
                    ),
                    CalcOut::Overflow => r == Result::<Rational, TryFromStrError>::Err(
                        TryFromStrError::Arithmetic(MathError::Overflow),
                    ),
                },
                crate::parse_string::ParseOut::BadChar(c) => r == Result::<
                    Rational,
                    TryFromStrError,
                >::Err(TryFromStrError::UnexpectedCharacter(c)),
                crate::parse_string::ParseOut::Eof => r == Result::<
                    Rational,
                    TryFromStrError,
                >::Err(TryFromStrError::UnexpectedEof),
                crate::parse_string::ParseOut::Arith(e) => r == Result::<
                    Rational,
                    TryFromStrError,
                >::Err(TryFromStrError::Arithmetic(e)),
            },
    {
        let t = match crate::parse_string::parse_string(term) {
            Ok(t) => t,
            Err(e) => {
                return Err(e);
            },
        };
        match t.calc() {
            Ok(v) => Ok(v),
            Err(e) => Err(TryFromStrError::Arithmetic(e)),
        }
    }

    /// The tree of this term, for the operator dispatcher.
    pub(crate) fn into_operation(self) -> (r: Operation)
        ensures
            r@ == self@,
    {
        self.operation
    }

    /// A term made of one tree.
    pub(crate) fn of_operation(operation: Operation) -> (r: Term)
        ensures
            r@ == operation@,
    {
        Term { operation }
    }

    /// A new variable.
    pub fn var(name: &str) -> (r: Term)
        ensures
            r@ == ExprV::Var(name@),
    {
        Term { operation: Operation::Variable(Variable { name: chars_of(name) }) }
    }

    /// A quotient of two scalars, reduced on construction; fails exactly on
    /// a zero divisor.
    pub fn div(divident: u32, divisor: u32) -> (r: Result<Term, MathError>)
        ensures
            matches_term(r, num_div_s(divident as nat, divisor as nat)),
            r is Ok <==> divisor != 0,
    {
        let a = Operation::Number(Number { value: divident });
        let b = Operation::Number(Number { value: divisor });
        match a.div_fuel(b, FUEL) {
            Ok(op) => Ok(Term { operation: op }),
            Err(e) => Err(e),
        }
    }

    /// The negation of this term.
    pub fn neg(self) -> (r: Term)
        ensures
            r@ == neg_s(self@),
    {
        Term { operation: self.operation.neg() }
    }

    /// The sum of two terms.
    pub fn add(self, rhs: Term) -> (r: Result<Term, MathError>)
        ensures
            matches_term(r, add_rec(self@, rhs@, FUEL as nat)),
    {
        match self.operation.add(rhs.operation) {
            Ok(op) => Ok(Term { operation: op }),
            Err(e) => Err(e),
        }
    }

    /// The difference of two terms.
    pub fn sub(self, rhs: Term) -> (r: Result<Term, MathError>)
        ensures
            matches_term(r, sub_rec(self@, rhs@, FUEL as nat)),
    {
        match self.operation.sub(rhs.operation) {
            Ok(op) => Ok(Term { operation: op }),
            Err(e) => Err(e),
        }
    }

    /// The product of two terms.
    pub fn mul(self, rhs: Term) -> (r: Result<Term, MathError>)
        ensures
            matches_term(r, mul_rec(self@, rhs@, FUEL as nat)),
    {
        match self.operation.mul(rhs.operation) {
            Ok(op) => Ok(Term { operation: op }),
            Err(e) => Err(e),
        }
    }

    /// The quotient of two terms.
    pub fn div_by(self, rhs: Term) -> (r: Result<Term, MathError>)
        ensures
            matches_term(r, div_rec(self@, rhs@, FUEL as nat)),
    {
        match self.operation.div(rhs.operation) {
            Ok(op) => Ok(Term { operation: op }),
            Err(e) => Err(e),
        }
    }

    /// Evaluation to an exact rational value.
    pub fn calc(&self) -> (r: Result<Rational, MathError>)
        ensures
            matches_calc(r, calc_rec(self@)),
    {
        self.operation.calc()
    }

    /// A copy of this term with all matching variables replaced by the given
    /// terms and the result fully re-simplified.
    pub fn with_vars(&self, variables: &[(&str, &Term)]) -> (r: Result<Term, MathError>)
        ensures
            matches_term(r, set_vars_rec(self@, term_binds_view(variables@))),
    {
        let mut ops: Vec<(&str, &Operation)> = Vec::new();
        let mut i: usize = 0;
        while i < variables.len()
            invariant
                0 <= i <= variables@.len(),
                ops@.len() == i,
                forall|k: int|
                    0 <= k < i ==> #[trigger] ops@[k].0@ == variables@[k].0@ && ops@[k].1@
                        == variables@[k].1@,
            decreases variables@.len() - i,
        {
            let pair = &variables[i];
            ops.push((pair.0, &pair.1.operation));
            i = i + 1;
        }
        proof {
            assert(crate::operation::binds_view(ops@) =~= term_binds_view(variables@));
        }
        match self.operation.set_vars(ops.as_slice()) {
            Ok(op) => Ok(Term { operation: op }),
            Err(e) => Err(e),
        }
    }

    /// A copy of this term with all variables of the given name replaced.
    pub fn with_var(&self, name: &str, term: &Term) -> (r: Result<Term, MathError>)
        ensures
            matches_term(r, set_vars_rec(self@, seq![(name@, term@)])),
    {
        let mut binding: Vec<(&str, &Term)> = Vec::new();
        binding.push((name, term));
        proof {
            assert(term_binds_view(binding@) =~= seq![(name@, term@)]);
        }
        self.with_vars(binding.as_slice())
    }

    /// Replaces all matching variables in place; on an error the term is
    /// left as it was.
    pub fn set_vars(&mut self, variables: &[(&str, &Term)]) -> (r: Result<(), MathError>)
        ensures
            match set_vars_rec(old(self)@, term_binds_view(variables@)) {
                OpOut::Done(v) => r is Ok && final(self)@ == v,
                OpOut::DivZero => r == Result::<(), MathError>::Err(MathError::DivisionByZero)
                    && final(self)@ == old(self)@,
                OpOut::Overflow => r == Result::<(), MathError>::Err(MathError::Overflow)
                    && final(self)@ == old(self)@,
                OpOut::NoFuel => r == Result::<(), MathError>::Err(MathError::DepthLimit)
                    && final(self)@ == old(self)@,
            },
    {
        match self.with_vars(variables) {
            Ok(t) => {
                self.operation = t.operation;
                Ok(())
            },
            Err(e) => Err(e),
        }
    }

    /// Replaces all variables of the given name in place; on an error the
    /// term is left as it was.
    pub fn set_var(&mut self, name: &str, term: &Term) -> (r: Result<(), MathError>)
        ensures
            match set_vars_rec(old(self)@, seq![(name@, term@)]) {
                OpOut::Done(v) => r is Ok && final(self)@ == v,
                OpOut::DivZero => r == Result::<(), MathError>::Err(MathError::DivisionByZero)
                    && final(self)@ == old(self)@,
                OpOut::Overflow => r == Result::<(), MathError>::Err(MathError::Overflow)
                    && final(self)@ == old(self)@,
                OpOut::NoFuel => r == Result::<(), MathError>::Err(MathError::DepthLimit)
                    && final(self)@ == old(self)@,
            },
    {
        match self.with_var(name, term) {
            Ok(t) => {
                self.operation = t.operation;
                Ok(())
            },
            Err(e) => Err(e),
        }
    }

    /// Replaces all matching variables and evaluates the result.
    pub fn use_vars(&self, variables: &[(&str, &Term)]) -> (r: Result<Rational, MathError>)
        ensures
            matches_use(r, self@, term_binds_view(variables@)),
    {
        match self.with_vars(variables) {
            Ok(t) => t.calc(),
            Err(e) => Err(e),
        }
    }

    /// Replaces all variables of the given name and evaluates the result.
    pub fn use_var(&self, name: &str, term: &Term) -> (r: Result<Rational, MathError>)
        ensures
            matches_use(r, self@, seq![(name@, term@)]),
    {
        match self.with_var(name, term) {
            Ok(t) => t.calc(),
            Err(e) => Err(e),
        }
    }
}

impl From<u32> for Term {
    /// A term holding one scalar.
    fn from(value: u32) -> (r: Term) {
        Term { operation: Operation::Number(Number { value }) }
    }
}

impl vstd::std_specs::convert::FromSpecImpl<u32> for Term {
    open spec fn obeys_from_spec() -> bool {
        true
    }

    closed spec fn from_spec(value: u32) -> Term {
        Term { operation: Operation::Number(Number { value }) }
    }
}

/// What a term made from a scalar stands for.
pub broadcast proof fn lemma_term_from(value: u32)
    ensures
        (#[trigger] <Term as vstd::std_specs::convert::FromSpec<u32>>::from_spec(value))@
            == ExprV::Num(value as nat),
{
}

impl Default for Term {
    /// The default term: the number zero.
    fn default() -> (r: Self)
        ensures
            r@ == ExprV::Num(0),
    {
        Term { operation: Operation::Number(Number { value: 0 }) }
    }
}

impl PartialEq for Term {
    /// Structural equality of two terms.
    fn eq(&self, other: &Self) -> (r: bool) {
        eq_op(&self.operation, &other.operation)
    }
}

impl vstd::std_specs::cmp::PartialEqSpecImpl for Term {
    open spec fn obeys_eq_spec() -> bool {
        true
    }

    open spec fn eq_spec(&self, other: &Self) -> bool {
        self@ == other@
    }
}

impl Clone for Term {
    /// A deep copy of the term.
    fn clone(&self) -> (r: Self)
        ensures
            r@ == self@,
    {
        Term { operation: self.operation.clone_op() }
    }
}

} // verus!
