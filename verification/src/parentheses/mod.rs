//! Deciding where an expression must be wrapped in parentheses to keep its
//! grouping when it is printed again.

pub mod expression;
pub mod grouping;
pub mod laws;
pub mod round_trip;
pub mod shape;
pub mod stability;
pub mod wrap;
