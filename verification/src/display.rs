//! Rendering an expression tree back to an infix string.
//!
//! Each binary node compares its operands' ranks against its own: an
//! operand that is itself a binary operation and does not bind strictly
//! tighter than its parent is parenthesized, every other operand is
//! rendered bare. Bracket groups always show their configured pair.

use vstd::prelude::*;

use crate::brackets::{close_symbol, open_symbol};
use crate::expr::{rank, Expr};
use crate::rank::{needs_wrap, op_rank, op_symbol, spec_needs_wrap, Op, Priority};

verus! {

/// The rendering of an operand standing inside a parent of the given
/// rank: the operand's own rendering, parenthesized exactly when the
/// bracketing rule asks for it.
pub open spec fn rendered_operand(child: Expr, parent_rank: int) -> Seq<char>
    decreases child, 1int,
{
    if spec_needs_wrap(rank(child), parent_rank, !(child is Binary)) {
        "("@ + render(child) + ")"@
    } else {
        render(child)
    }
}

/// The canonical infix rendering of an expression.
pub open spec fn render(e: Expr) -> Seq<char>
    decreases e, 0int,
{
    match e {
        Expr::Value(s) => s.text_spec(),
        Expr::Variable(v) => v.name(),
        Expr::Binary(op, l, r) => rendered_operand(*l, op_rank(op)) + op_symbol(op)
            + rendered_operand(*r, op_rank(op)),
        Expr::Bracketed(inner, form) => open_symbol(form) + render(*inner) + close_symbol(form),
    }
}

/// Appends an operand's rendering to `out`, parenthesized when the
/// bracketing rule asks for it inside a parent of rank `parent_rank`.
fn append_operand(out: &mut String, child: &Expr, parent_rank: i8)
    ensures
        final(out)@ == old(out)@ + rendered_operand(*child, parent_rank as int),
    decreases *child, 1int,
{
    let wrap = needs_wrap(child.priority(), parent_rank, !child.is_binary());
    if wrap {
        out.append("(");
    }
    let rendering = child.to_string();
    out.append(rendering.as_str());
    if wrap {
        out.append(")");
    }
    assert(out@ =~= old(out)@ + rendered_operand(*child, parent_rank as int));
}

impl Expr {
    /// Renders the expression as the canonical infix string.
    pub fn to_string(&self) -> (r: String)
        ensures
            r@ == render(*self),
        decreases *self, 0int,
    {
        match self {
            Expr::Value(s) => String::from_str(s.text()),
            Expr::Variable(v) => String::from_str(v.literal()),
            Expr::Binary(op, l, r) => {
                let parent_rank = op.priority();
                let mut out = String::new();
                append_operand(&mut out, l, parent_rank);
                out.append(op.symbol());
                append_operand(&mut out, r, parent_rank);
                assert(out@ =~= render(*self));
                out
            },
            Expr::Bracketed(inner, form) => {
                let symbols = form.get_symbols();
                let mut out = String::from_str(symbols.0);
                let inner_rendering = inner.to_string();
                out.append(inner_rendering.as_str());
                out.append(symbols.1);
                assert(out@ =~= render(*self));
                out
            },
        }
    }
}

/// Law: inside a parent operator of any rank, an operand that is itself a
/// binary operation of equal or looser rank is parenthesized, and every
/// other operand — a leaf or a bracket group — is rendered bare.
pub proof fn lemma_operand_wrapping(child: Expr, parent_rank: int)
    ensures
        child is Binary && rank(child) <= parent_rank ==> rendered_operand(child, parent_rank)
            == "("@ + render(child) + ")"@,
        child is Binary && rank(child) > parent_rank ==> rendered_operand(child, parent_rank)
            == render(child),
        !(child is Binary) ==> rendered_operand(child, parent_rank) == render(child),
{
}

/// Law: a binary node renders as its left operand, its operator symbol,
/// then its right operand, each operand parenthesized exactly when it is
/// itself a binary operation of equal or looser rank than the operator.
pub proof fn lemma_binary_rendering(op: Op, l: Expr, r: Expr)
    ensures
        render(crate::expr::binary(op, l, r)) == rendered_operand(l, op_rank(op)) + op_symbol(op)
            + rendered_operand(r, op_rank(op)),
{
}

/// Law: an explicit bracket group always renders its configured pair
/// around its inner rendering, whatever the inner expression is — a
/// caller's override, never inferred away.
pub proof fn lemma_bracketed_rendering(inner: Expr, form: crate::brackets::Brackets)
    ensures
        render(crate::expr::bracketed(inner, form)) == open_symbol(form) + render(inner)
            + close_symbol(form),
{
}

} // verus!
