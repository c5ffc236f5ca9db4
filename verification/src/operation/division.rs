//! The quotient node.  Its cross-multiplication and denominator-unification
//! rules live in the dispatcher, since they re-dispatch on the children.

use vstd::prelude::*;

use crate::errors::MathError;
use crate::operation::{eq_op, matches_out, Operation};
use crate::rules::{div_absorb_add, div_pair_add, div_pair_sub};

verus! {

/// Exactly two owned children: the numerator and the denominator.
#[derive(Debug)]
pub struct Division {
    pub divident: Box<Operation>,
    pub divisor: Box<Operation>,
}

impl Division {
    /// Sum of two quotients: equal denominators add the numerators and
    /// re-normalize; different denominators cross-multiply.
    pub(crate) fn add_div(self, rhs: Division, fuel: u64) -> (r: Result<Operation, MathError>)
        ensures
            matches_out(
                r,
                div_pair_add(
                    (*self.divident)@,
                    (*self.divisor)@,
                    (*rhs.divident)@,
                    (*rhs.divisor)@,
                    fuel as nat,
                ),
            ),
        decreases fuel, 1int,
    {
        if eq_op(&self.divisor, &rhs.divisor) {
            let nn = match (*self.divident).add_fuel(*rhs.divident, fuel) {
                Ok(v) => v,
                Err(e) => {
                    return Err(e);
                },
            };
            nn.div_fuel(*self.divisor, fuel)
        } else {
            let d1c = self.divisor.clone_op();
            let d2c = rhs.divisor.clone_op();
            let p1 = match (*self.divident).mul_fuel(*rhs.divisor, fuel) {
                Ok(v) => v,
                Err(e) => {
                    return Err(e);
                },
            };
            let p2 = match (*rhs.divident).mul_fuel(*self.divisor, fuel) {
                Ok(v) => v,
                Err(e) => {
                    return Err(e);
                },
            };
            let nn = match p1.add_fuel(p2, fuel) {
                Ok(v) => v,
                Err(e) => {
                    return Err(e);
                },
            };
            let dd = match d1c.mul_fuel(d2c, fuel) {
                Ok(v) => v,
                Err(e) => {
                    return Err(e);
                },
            };
            nn.div_fuel(dd, fuel)
        }
    }

    /// Difference of two quotients, as `add_div` with a sign flip on the
    /// second numerator.
    pub(crate) fn sub_div(self, rhs: Division, fuel: u64) -> (r: Result<Operation, MathError>)
        ensures
            matches_out(
                r,
                div_pair_sub(
                    (*self.divident)@,
                    (*self.divisor)@,
                    (*rhs.divident)@,
                    (*rhs.divisor)@,
                    fuel as nat,
                ),
            ),
        decreases fuel, 1int,
    {
        if eq_op(&self.divisor, &rhs.divisor) {
            let nn = match (*self.divident).sub_fuel(*rhs.divident, fuel) {
                Ok(v) => v,
                Err(e) => {
                    return Err(e);
                },
            };
            nn.div_fuel(*self.divisor, fuel)
        } else {
            let d1c = self.divisor.clone_op();
            let d2c = rhs.divisor.clone_op();
            let p1 = match (*self.divident).mul_fuel(*rhs.divisor, fuel) {
                Ok(v) => v,
                Err(e) => {
                    return Err(e);
                },
            };
            let p2 = match (*rhs.divident).mul_fuel(*self.divisor, fuel) {
                Ok(v) => v,
                Err(e) => {
                    return Err(e);
                },
            };
            let nn = match p1.sub_fuel(p2, fuel) {
                Ok(v) => v,
                Err(e) => {
                    return Err(e);
                },
            };
            let dd = match d1c.mul_fuel(d2c, fuel) {
                Ok(v) => v,
                Err(e) => {
                    return Err(e);
                },
            };
            nn.div_fuel(dd, fuel)
        }
    }

    /// Sum of this quotient and any other tree: the other tree is brought
    /// over this quotient's denominator.
    pub(crate) fn absorb_add(self, other: Operation, fuel: u64) -> (r: Result<
        Operation,
        MathError,
    >)
        ensures
            matches_out(
                r,
                div_absorb_add((*self.divident)@, (*self.divisor)@, other@, fuel as nat),
            ),
        decreases fuel, 1int,
    {
        let dc = self.divisor.clone_op();
        let p = match other.mul_fuel(*self.divisor, fuel) {
            Ok(v) => v,
            Err(e) => {
                return Err(e);
            },
        };
        let nn = match p.add_fuel(*self.divident, fuel) {
            Ok(v) => v,
            Err(e) => {
                return Err(e);
            },
        };
        nn.div_fuel(dc, fuel)
    }
}

} // verus!
