//! Operator kinds, their precedence ranks, and the bracketing rule.
//!
//! A rank orders the operators by how tightly they bind: a higher number
//! binds tighter. Additive operators are the loosest, then the
//! multiplicative ones, then exponentiation; leaves and explicit bracket
//! groups are the tightest of all, so they are never re-wrapped.

use vstd::prelude::*;

verus! {

/// The five binary operator kinds.
#[derive(Clone, Copy, Debug, PartialEq, Eq, Structural)]
pub enum Op {
    Add,
    Sub,
    Mul,
    Div,
    Pow,
}

/// Rank of the additive operators: the loosest.
pub const RANK_ADDITIVE: i8 = 1;

/// Rank of the multiplicative operators.
pub const RANK_MULTIPLICATIVE: i8 = 2;

/// Rank of exponentiation.
pub const RANK_POWER: i8 = 3;

/// Rank of leaves and bracket groups: the tightest.
pub const RANK_ATOM: i8 = 4;

/// The rank of an operator kind.
pub open spec fn op_rank(op: Op) -> int {
    match op {
        Op::Add => RANK_ADDITIVE as int,
        Op::Sub => RANK_ADDITIVE as int,
        Op::Mul => RANK_MULTIPLICATIVE as int,
        Op::Div => RANK_MULTIPLICATIVE as int,
        Op::Pow => RANK_POWER as int,
    }
}

/// The infix symbol of an operator kind, spaces included.
pub open spec fn op_symbol(op: Op) -> Seq<char> {
    match op {
        Op::Add => " + "@,
        Op::Sub => " - "@,
        Op::Mul => " * "@,
        Op::Div => " / "@,
        Op::Pow => " ^ "@,
    }
}

/// Anything with a precedence rank: expression nodes and operator kinds.
pub trait Priority {
    /// The rank as a mathematical value.
    spec fn rank_spec(&self) -> int;

    /// The rank. A higher number binds tighter.
    fn priority(&self) -> (r: i8)
        ensures
            r as int == self.rank_spec(),
    ;
}

impl Priority for Op {
    open spec fn rank_spec(&self) -> int {
        op_rank(*self)
    }

    fn priority(&self) -> (r: i8) {
        match self {
            Op::Add => RANK_ADDITIVE,
            Op::Sub => RANK_ADDITIVE,
            Op::Mul => RANK_MULTIPLICATIVE,
            Op::Div => RANK_MULTIPLICATIVE,
            Op::Pow => RANK_POWER,
        }
    }
}

impl Op {
    /// The infix symbol used when rendering.
    pub fn symbol(&self) -> (s: &'static str)
        ensures
            s@ == op_symbol(*self),
    {
        match self {
            Op::Add => " + ",
            Op::Sub => " - ",
            Op::Mul => " * ",
            Op::Div => " / ",
            Op::Pow => " ^ ",
        }
    }
}

/// Whether an operand must be parenthesized inside a parent operator:
/// exactly when the operand is itself a binary operation (`child_is_leaf`
/// is false) and its rank does not bind strictly tighter than the parent's.
pub open spec fn spec_needs_wrap(child_rank: int, parent_rank: int, child_is_leaf: bool) -> bool {
    !child_is_leaf && child_rank <= parent_rank
}

/// The single bracketing rule shared by every rendering decision.
/// `child_is_leaf` is true when the operand is not itself a binary operation.
pub fn needs_wrap(child_rank: i8, parent_rank: i8, child_is_leaf: bool) -> (r: bool)
    ensures
        r == spec_needs_wrap(child_rank as int, parent_rank as int, child_is_leaf),
{
    !child_is_leaf && child_rank <= parent_rank
}

/// Law: additive kinds share the loosest rank, multiplicative kinds share
/// the next, and exponentiation outranks them both.
pub proof fn lemma_operator_ranks()
    ensures
        op_rank(Op::Add) == op_rank(Op::Sub),
        op_rank(Op::Mul) == op_rank(Op::Div),
        op_rank(Op::Mul) > op_rank(Op::Add),
        op_rank(Op::Pow) > op_rank(Op::Mul),
        forall|op: Op| op_rank(op) < RANK_ATOM as int,
{
}

} // verus!
