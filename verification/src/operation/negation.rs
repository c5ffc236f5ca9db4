//! The negation node.  Its arithmetic lives in the dispatcher, since every
//! rule about a negation re-dispatches on the child.

use vstd::prelude::*;

use crate::operation::Operation;

verus! {

/// One owned child, standing for its arithmetic negation.  The child is
/// never itself a negation and never a number with value zero when the tree
/// was built by this crate's operators.
#[derive(Debug)]
pub struct Negation {
    pub value: Box<Operation>,
}

} // verus!
