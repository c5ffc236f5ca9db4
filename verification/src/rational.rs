//! Exact rational values, the result type of evaluation.

use vstd::prelude::*;

use crate::errors::MathError;
use crate::eval::{rat_add_s, rat_div_s, rat_mul_s, CalcOut, RatV};

verus! {

/// An exact rational value: a sign and two 64-bit magnitudes.  The value it
/// stands for is `numerator / denominator`, negated when `negative` holds.
#[derive(Debug, Clone, Copy, PartialEq, Eq, Structural)]
pub struct Rational {
    pub negative: bool,
    pub numerator: u64,
    pub denominator: u64,
}

impl View for Rational {
    type V = RatV;

    open spec fn view(&self) -> RatV {
        RatV { neg: self.negative, num: self.numerator as nat, den: self.denominator as nat }
    }
}

/// How a `Result` of the executable evaluation corresponds to the outcome
/// of the specification rules.
pub open spec fn matches_calc(r: Result<Rational, MathError>, o: CalcOut) -> bool {
    match o {
        CalcOut::Val(v) => r matches Ok(q) && q@ == v,
        CalcOut::Unbound => r == Result::<Rational, MathError>::Err(MathError::UnboundVariable),
        CalcOut::DivZero => r == Result::<Rational, MathError>::Err(MathError::DivisionByZero),
        CalcOut::Overflow => r == Result::<Rational, MathError>::Err(MathError::Overflow),
    }
}

/// Sum of two rational values over a common denominator.
pub fn rat_add(x: Rational, y: Rational) -> (r: Result<Rational, MathError>)
    ensures
        matches_calc(r, rat_add_s(x@, y@)),
{
    let p1 = match x.numerator.checked_mul(y.denominator) {
        Some(v) => v,
        None => {
            return Err(MathError::Overflow);
        },
    };
    let p2 = match y.numerator.checked_mul(x.denominator) {
        Some(v) => v,
        None => {
            return Err(MathError::Overflow);
        },
    };
    let dd = match x.denominator.checked_mul(y.denominator) {
        Some(v) => v,
        None => {
            return Err(MathError::Overflow);
        },
    };
    if x.negative == y.negative {
        match p1.checked_add(p2) {
            Some(s) => Ok(Rational { negative: x.negative, numerator: s, denominator: dd }),
            None => Err(MathError::Overflow),
        }
    } else if p1 >= p2 {
        Ok(Rational { negative: x.negative, numerator: p1 - p2, denominator: dd })
    } else {
        Ok(Rational { negative: y.negative, numerator: p2 - p1, denominator: dd })
    }
}

/// Product of two rational values.
pub fn rat_mul(x: Rational, y: Rational) -> (r: Result<Rational, MathError>)
    ensures
        matches_calc(r, rat_mul_s(x@, y@)),
{
    let nn = match x.numerator.checked_mul(y.numerator) {
        Some(v) => v,
        None => {
            return Err(MathError::Overflow);
        },
    };
    let dd = match x.denominator.checked_mul(y.denominator) {
        Some(v) => v,
        None => {
            return Err(MathError::Overflow);
        },
    };
    Ok(Rational { negative: x.negative != y.negative, numerator: nn, denominator: dd })
}

/// Quotient of two rational values.
pub fn rat_div(x: Rational, y: Rational) -> (r: Result<Rational, MathError>)
    ensures
        matches_calc(r, rat_div_s(x@, y@)),
{
    if y.numerator == 0 {
        return Err(MathError::DivisionByZero);
    }
    let nn = match x.numerator.checked_mul(y.denominator) {
        Some(v) => v,
        None => {
            return Err(MathError::Overflow);
        },
    };
    let dd = match x.denominator.checked_mul(y.numerator) {
        Some(v) => v,
        None => {
            return Err(MathError::Overflow);
        },
    };
    Ok(Rational { negative: x.negative != y.negative, numerator: nn, denominator: dd })
}

} // verus!
