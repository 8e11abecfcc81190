//! Structured columns for a constraint-system table.
//!
//! A structured column is one whose values follow a fixed, algebraically
//! describable pattern — today, a row-index counter — so that its multilinear
//! extension can be evaluated in closed form instead of being committed and
//! proved row by row. This crate holds the structured-column specification
//! type, its two size-validation rules, and the synthesis of the closed-form
//! expression, together with proofs that the synthesized expression evaluates
//! to exactly the declared values at every row of the boolean hypercube.

pub mod expr;
pub mod structured;

pub use expr::ArithExpr;
pub use structured::{Error, StructuredDynSize, incrementing_expr};
