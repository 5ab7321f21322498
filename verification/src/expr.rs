//! The expression tree.

use vstd::prelude::*;

use crate::brackets::Brackets;
use crate::rank::{op_rank, Op, Priority, RANK_ATOM};
use crate::scalar::Scalar;
use crate::variable::Variable;

verus! {

/// A node of a formula: a numeric leaf, a named variable, a binary
/// operation over two owned children, or an explicit bracket group. The
/// tree is finite and owned; combining two expressions moves them into the
/// new parent.
#[derive(Debug)]
pub enum Expr {
    Value(Scalar),
    Variable(Variable),
    Binary(Op, Box<Expr>, Box<Expr>),
    Bracketed(Box<Expr>, Brackets),
}

/// A binary node over two children, as a specification value.
pub open spec fn binary(op: Op, left: Expr, right: Expr) -> Expr {
    Expr::Binary(op, Box::new(left), Box::new(right))
}

/// A bracket group around a child, as a specification value.
pub open spec fn bracketed(inner: Expr, form: Brackets) -> Expr {
    Expr::Bracketed(Box::new(inner), form)
}

/// The precedence rank of a node: its operator's rank for a binary node,
/// the tightest rank for everything else.
pub open spec fn rank(e: Expr) -> int {
    match e {
        Expr::Binary(op, _, _) => op_rank(op),
        _ => RANK_ATOM as int,
    }
}

impl Priority for Expr {
    open spec fn rank_spec(&self) -> int {
        rank(*self)
    }

    fn priority(&self) -> (r: i8) {
        match self {
            Expr::Binary(op, _, _) => op.priority(),
            _ => RANK_ATOM,
        }
    }
}

impl Expr {
    /// A numeric leaf.
    pub fn value(v: Scalar) -> (e: Expr)
        ensures
            e == Expr::Value(v),
    {
        Expr::Value(v)
    }

    /// A variable leaf.
    pub fn variable(v: Variable) -> (e: Expr)
        ensures
            e == Expr::Variable(v),
    {
        Expr::Variable(v)
    }

    /// Combines two expressions under an operator kind.
    pub fn combine(self, op: Op, rhs: Expr) -> (e: Expr)
        ensures
            e == binary(op, self, rhs),
    {
        Expr::Binary(op, Box::new(self), Box::new(rhs))
    }

    /// The sum of this expression and another.
    pub fn add(self, rhs: Expr) -> (e: Expr)
        ensures
            e == binary(Op::Add, self, rhs),
    {
        self.combine(Op::Add, rhs)
    }

    /// The difference of this expression and another.
    pub fn sub(self, rhs: Expr) -> (e: Expr)
        ensures
            e == binary(Op::Sub, self, rhs),
    {
        self.combine(Op::Sub, rhs)
    }

    /// The product of this expression and another.
    pub fn mul(self, rhs: Expr) -> (e: Expr)
        ensures
            e == binary(Op::Mul, self, rhs),
    {
        self.combine(Op::Mul, rhs)
    }

    /// The quotient of this expression and another.
    pub fn div(self, rhs: Expr) -> (e: Expr)
        ensures
            e == binary(Op::Div, self, rhs),
    {
        self.combine(Op::Div, rhs)
    }

    /// This expression raised to another.
    pub fn pow(self, rhs: Expr) -> (e: Expr)
        ensures
            e == binary(Op::Pow, self, rhs),
    {
        self.combine(Op::Pow, rhs)
    }

    /// Whether this node is a binary operation, the one node kind the
    /// bracketing rule may wrap.
    pub fn is_binary(&self) -> (r: bool)
        ensures
            r == (*self is Binary),
    {
        matches!(self, Expr::Binary(_, _, _))
    }

    /// Wraps this expression in an explicit bracket group of the given form.
    pub fn bracket(self, form: Brackets) -> (e: Expr)
        ensures
            e == bracketed(self, form),
    {
        Expr::Bracketed(Box::new(self), form)
    }

    /// Wraps this expression in explicit round brackets.
    pub fn braced(self) -> (e: Expr)
        ensures
            e == bracketed(self, Brackets::Round),
    {
        self.bracket(Brackets::Round)
    }
}

/// Law: a bracket group sits at the tightest rank whatever its inner
/// expression's own rank, so a surrounding operator never re-wraps it.
pub proof fn lemma_bracketed_rank(inner: Expr, form: Brackets)
    ensures
        rank(bracketed(inner, form)) == RANK_ATOM as int,
{
}

} // verus!
