//! The number leaf and its reduction logic.

use vstd::prelude::*;

use crate::model::{gcd_rec, gcd_s, ExprV};
use crate::operation::division::Division;
use crate::operation::{matches_out, Operation};
use crate::errors::MathError;
use crate::rules::{num_add_s, num_div_s, num_mul_s, num_sub_s};

verus! {

broadcast use crate::operation::lemma_view_unfold;

/// A leaf holding one scalar value.  The scalar stays unsigned; a negative
/// quantity is represented by a negation node around a number.
#[derive(Debug)]
pub struct Number {
    pub value: u32,
}

impl Number {
    /// Sum of two numbers, folded directly.
    pub fn add(self, rhs: Number) -> (r: Result<Operation, MathError>)
        ensures
            matches_out(r, num_add_s(self.value as nat, rhs.value as nat)),
    {
        match self.value.checked_add(rhs.value) {
            Some(v) => Ok(Operation::Number(Number { value: v })),
            None => Err(MathError::Overflow),
        }
    }

    /// Product of two numbers, folded directly.
    pub fn mul(self, rhs: Number) -> (r: Result<Operation, MathError>)
        ensures
            matches_out(r, num_mul_s(self.value as nat, rhs.value as nat)),
    {
        match self.value.checked_mul(rhs.value) {
            Some(v) => Ok(Operation::Number(Number { value: v })),
            None => Err(MathError::Overflow),
        }
    }

    /// Difference of two numbers; when the right side is larger the result
    /// is the negation of the positive difference.
    pub fn sub(self, rhs: Number) -> (r: Operation)
        ensures
            r@ == num_sub_s(self.value as nat, rhs.value as nat),
    {
        if self.value < rhs.value {
            Operation::Number(Number { value: rhs.value - self.value }).neg()
        } else {
            Operation::Number(Number { value: self.value - rhs.value })
        }
    }

    /// Quotient of two numbers: exact quotients collapse to a number, all
    /// others become a quotient reduced by the greatest common divisor.
    pub fn div(self, rhs: Number) -> (r: Result<Operation, MathError>)
        ensures
            matches_out(r, num_div_s(self.value as nat, rhs.value as nat)),
    {
        if rhs.value == 0 {
            Err(MathError::DivisionByZero)
        } else if self.value % rhs.value == 0 {
            Ok(Operation::Number(Number { value: self.value / rhs.value }))
        } else {
            let g = greatest_common_divisor(self.value, rhs.value);
            proof {
                lemma_gcd_pos(self.value as nat, rhs.value as nat);
            }
            Ok(Operation::Division(Division {
                divident: Box::new(Operation::Number(Number { value: self.value / g })),
                divisor: Box::new(Operation::Number(Number { value: rhs.value / g })),
            }))
        }
    }
}

/// The Euclidean algorithm: replace the pair (smaller, bigger) by
/// (bigger mod smaller, smaller) until the smaller value is zero.
pub fn greatest_common_divisor(a: u32, b: u32) -> (g: u32)
    ensures
        g as nat == gcd_s(a as nat, b as nat),
{
    let mut smaller: u32 = if a < b {
        a
    } else {
        b
    };
    let mut bigger: u32 = if a < b {
        b
    } else {
        a
    };
    while smaller != 0
        invariant
            gcd_rec(smaller as nat, bigger as nat) == gcd_s(a as nat, b as nat),
        decreases smaller,
    {
        let new_bigger = smaller;
        smaller = bigger % smaller;
        bigger = new_bigger;
    }
    bigger
}

/// The greatest common divisor of two positive numbers is positive.
pub proof fn lemma_gcd_pos(a: nat, b: nat)
    requires
        a > 0,
        b > 0,
    ensures
        gcd_s(a, b) > 0,
{
    if a < b {
        lemma_gcd_rec_pos(a, b);
    } else {
        lemma_gcd_rec_pos(b, a);
    }
}

/// The greatest common divisor of a pair with a positive member is positive.
pub proof fn lemma_gcd_rec_pos(smaller: nat, bigger: nat)
    requires
        bigger > 0,
    ensures
        gcd_rec(smaller, bigger) > 0,
    decreases smaller,
{
    if smaller != 0 {
        lemma_gcd_rec_pos(bigger % smaller, smaller);
    }
}

} // verus!
