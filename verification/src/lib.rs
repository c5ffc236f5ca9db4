//! Exact symbolic arithmetic over expression trees.
//!
//! Expressions are built from numbers, named variables and the four basic
//! operators; every construction step keeps the tree in a canonical reduced
//! form, so converting to an approximate value is postponed until the result
//! is asked for, and no precision is lost along the way.

pub mod canonical;
pub mod chars;
pub mod errors;
pub mod eval;
pub mod laws;
pub mod model;
pub mod operation;
pub mod parse_string;
pub mod rational;
pub mod rules;
pub mod term;

pub use errors::{MathError, TryFromStrError};
pub use model::ExprV;
pub use operation::Operation;
pub use parse_string::parse_string;
pub use rational::Rational;
pub use rules::OpOut;
pub use term::Term;
