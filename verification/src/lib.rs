//! A small symbolic-expression library.
//!
//! Arithmetic formulas (numbers, named variables, the five binary operators
//! and explicit bracket groups) are held as an owned tree. The tree renders
//! back to an infix string, inserting parentheses exactly where an operand
//! binds as loosely as, or more loosely than, the operator around it, and
//! evaluates to a number once the caller supplies values for the variables
//! and a routine that combines two numbers with an operator.

pub mod brackets;
pub mod display;
pub mod eval;
pub mod expr;
pub mod rank;
pub mod scalar;
pub mod variable;

pub use brackets::Brackets;
pub use eval::{ArithmeticalError, Bindings, EvalResult};
pub use expr::Expr;
pub use rank::{needs_wrap, Op, Priority};
pub use scalar::Scalar;
pub use variable::Variable;
