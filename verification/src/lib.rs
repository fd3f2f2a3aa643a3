//! Random search for closed-form expressions: the expression tree, its
//! notation and its random generation.

pub mod decimal;
pub mod expr;
pub mod generate;
pub mod render;
pub mod report;

pub use crate::expr::Expr;
