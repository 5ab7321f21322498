//! Evaluating an expression tree to a number.
//!
//! The library walks the tree, looks variables up, decides division by
//! zero and propagates the first error met in left-to-right order, but it
//! performs no floating-point arithmetic itself: the caller hands in a
//! routine `f` that combines two binary64 bit patterns under an operator
//! kind, and evaluation calls it once per binary node reached. The
//! contract records those calls as a trace: the ghost sequence of
//! `OpApp` steps returned beside the result. `eval_trace` then replays
//! the walk as a mathematical function of the tree, the bindings and the
//! trace, so the outcome is pinned exactly, and every step of the trace
//! is tied to what `f` may return for its operands.

use vstd::prelude::*;

use crate::expr::{binary, Expr};
use crate::rank::Op;
use crate::scalar::{bits_are_zero, is_zero_bits, Scalar};
use crate::variable::Variable;

verus! {

/// Why evaluation failed.
#[derive(Clone, Debug, PartialEq, Eq)]
pub enum ArithmeticalError {
    /// The right operand of a division evaluated to an exact zero,
    /// negative zero included.
    ZeroDivision,
    /// The named variable had no value among the bindings.
    UnknownVariable(Variable),
}

/// What evaluation returns: the bit pattern of the numeric result, or the
/// first error met walking the tree.
pub type EvalResult = Result<u64, ArithmeticalError>;

/// An evaluation outcome as specifications see it: a number's bit
/// pattern, a division by zero, or an unbound variable known by name.
pub enum Outcome {
    Num(u64),
    DivByZero,
    Unbound(Seq<char>),
}

/// The outcome an evaluation result stands for.
pub open spec fn out_view(r: EvalResult) -> Outcome {
    match r {
        Ok(bits) => Outcome::Num(bits),
        Err(ArithmeticalError::ZeroDivision) => Outcome::DivByZero,
        Err(ArithmeticalError::UnknownVariable(v)) => Outcome::Unbound(v.name()),
    }
}

/// One recorded arithmetic step: the operator kind, the two operand bit
/// patterns handed to the caller's routine, and the bit pattern it
/// returned.
pub struct OpApp {
    pub op: Op,
    pub left: u64,
    pub right: u64,
    pub out: u64,
}

/// Replays an evaluation of `e` under the bindings `b` against the trace
/// `t` of arithmetic steps: the outcome together with the steps left
/// over, or nothing when the trace does not fit the walk.
///
/// A value yields its own bit pattern and a variable its bound value, or
/// `Unbound` with its name; neither consumes a step. A bracket group is
/// transparent. A binary node evaluates its left child first, returning
/// its error before touching the right child, then the right child's
/// error; division by a number whose bit pattern is an exact zero fails
/// without consuming a step, and any other combination consumes the next
/// step, which must carry exactly the operator and the two operand
/// patterns the walk reached.
pub open spec fn eval_trace(e: Expr, b: Map<Seq<char>, u64>, t: Seq<OpApp>) -> Option<
    (Outcome, Seq<OpApp>),
>
    decreases e,
{
    match e {
        Expr::Value(s) => Some((Outcome::Num(s.bits_spec()), t)),
        Expr::Variable(v) => if b.contains_key(v.name()) {
            Some((Outcome::Num(b[v.name()]), t))
        } else {
            Some((Outcome::Unbound(v.name()), t))
        },
        Expr::Bracketed(inner, _) => eval_trace(*inner, b, t),
        Expr::Binary(op, l, r) => match eval_trace(*l, b, t) {
            None => None,
            Some((lo, after_left)) => match lo {
                Outcome::Num(lv) => match eval_trace(*r, b, after_left) {
                    None => None,
                    Some((ro, after_right)) => match ro {
                        Outcome::Num(rv) => if op == Op::Div && is_zero_bits(rv) {
                            Some((Outcome::DivByZero, after_right))
                        } else if after_right.len() > 0 && after_right.first() == (OpApp {
                            op,
                            left: lv,
                            right: rv,
                            out: after_right.first().out,
                        }) {
                            Some((Outcome::Num(after_right.first().out), after_right.drop_first()))
                        } else {
                            None
                        },
                        _ => Some((ro, after_right)),
                    },
                },
                _ => Some((lo, after_left)),
            },
        },
    }
}

/// Whether every step of a trace is a behaviour of the routine `f`: `f`,
/// given the step's operator and operands, may return the step's result.
pub open spec fn trace_of<F: Fn(Op, u64, u64) -> u64>(t: Seq<OpApp>, f: F) -> bool {
    forall|i: int|
        0 <= i < t.len() ==> #[trigger] call_ensures(f, (t[i].op, t[i].left, t[i].right), t[i].out)
}

/// A completed evaluation stays completed when more steps follow the
/// trace it consumed: the extra steps are simply left over.
proof fn lemma_eval_trace_frame(
    e: Expr,
    b: Map<Seq<char>, u64>,
    t: Seq<OpApp>,
    o: Outcome,
    left_over: Seq<OpApp>,
    rest: Seq<OpApp>,
)
    requires
        eval_trace(e, b, t) == Some((o, left_over)),
    ensures
        eval_trace(e, b, t + rest) == Some((o, left_over + rest)),
    decreases e,
{
    match e {
        Expr::Value(_) => {},
        Expr::Variable(_) => {},
        Expr::Bracketed(inner, _) => {
            lemma_eval_trace_frame(*inner, b, t, o, left_over, rest);
        },
        Expr::Binary(op, l, r) => {
            let (lo, after_left) = eval_trace(*l, b, t).unwrap();
            lemma_eval_trace_frame(*l, b, t, lo, after_left, rest);
            match lo {
                Outcome::Num(lv) => {
                    let (ro, after_right) = eval_trace(*r, b, after_left).unwrap();
                    lemma_eval_trace_frame(*r, b, after_left, ro, after_right, rest);
                    match ro {
                        Outcome::Num(rv) => {
                            if op == Op::Div && is_zero_bits(rv) {
                            } else {
                                assert(after_right.len() > 0);
                                assert((after_right + rest).first() == after_right.first());
                                assert((after_right + rest).drop_first() =~= after_right.drop_first()
                                    + rest);
                            }
                        },
                        _ => {},
                    }
                },
                _ => {},
            }
        },
    }
}

/// Values for variables, supplied at evaluation time. Inserting a name a
/// second time replaces its value; a name never inserted stays absent and
/// is never defaulted.
pub struct Bindings {
    entries: Vec<(Variable, Scalar)>,
}

/// The mapping a list of entries stands for: later entries win.
pub open spec fn map_of(entries: Seq<(Variable, Scalar)>) -> Map<Seq<char>, u64>
    decreases entries.len(),
{
    if entries.len() == 0 {
        Map::empty()
    } else {
        map_of(entries.drop_last()).insert(
            entries.last().0.name(),
            entries.last().1.bits_spec(),
        )
    }
}

impl View for Bindings {
    type V = Map<Seq<char>, u64>;

    closed spec fn view(&self) -> Map<Seq<char>, u64> {
        map_of(self.entries@)
    }
}

impl Bindings {
    /// An empty set of bindings.
    pub fn new() -> (b: Bindings)
        ensures
            b@ == Map::<Seq<char>, u64>::empty(),
    {
        let b = Bindings { entries: Vec::new() };
        proof {
            assert(b@ =~= Map::<Seq<char>, u64>::empty());
        }
        b
    }

    /// Gives the variable a value, replacing any earlier one.
    pub fn insert(&mut self, v: Variable, value: Scalar)
        ensures
            final(self)@ == old(self)@.insert(v.name(), value.bits_spec()),
    {
        let ghost old_entries = self.entries@;
        self.entries.push((v, value));
        proof {
            assert(self.entries@.drop_last() =~= old_entries);
        }
    }

    /// The value bound to the name, if any.
    pub fn get(&self, name: &Variable) -> (r: Option<u64>)
        ensures
            match r {
                Some(bits) => self@.contains_key(name.name()) && self@[name.name()] == bits,
                None => !self@.contains_key(name.name()),
            },
    {
        let mut i: usize = self.entries.len();
        while i > 0
            invariant
                i <= self.entries@.len(),
                forall|j: int|
                    i <= j < self.entries@.len() ==> #[trigger] self.entries@[j].0.name()
                        != name.name(),
            decreases i,
        {
            i = i - 1;
            let pair = &self.entries[i];
            if pair.0.same_name(name) {
                proof {
                    lemma_map_of_unmatched_suffix(self.entries@, name.name(), i + 1);
                }
                return Some(pair.1.bits());
            }
        }
        proof {
            lemma_map_of_unmatched_suffix(self.entries@, name.name(), 0);
        }
        None
    }
}

/// When no entry from position `i` on carries the name, the mapping looks
/// the name up exactly as the first `i` entries alone would.
proof fn lemma_map_of_unmatched_suffix(entries: Seq<(Variable, Scalar)>, name: Seq<char>, i: int)
    requires
        0 <= i <= entries.len(),
        forall|j: int| i <= j < entries.len() ==> #[trigger] entries[j].0.name() != name,
    ensures
        map_of(entries).contains_key(name) == map_of(entries.take(i)).contains_key(name),
        map_of(entries).contains_key(name) ==> map_of(entries)[name] == map_of(entries.take(i))[name],
    decreases entries.len() - i,
{
    if i == entries.len() {
        assert(entries.take(i) =~= entries);
    } else {
        lemma_map_of_unmatched_suffix(entries, name, i + 1);
        assert(entries.take(i + 1).drop_last() =~= entries.take(i));
        assert(entries.take(i + 1).last() == entries[i]);
    }
}

impl Expr {
    /// Evaluates the expression under the given variable values. The
    /// routine `f` performs each binary operation: it receives the
    /// operator kind and the binary64 bit patterns of the two operands
    /// and returns the bit pattern of the combination. Everything else —
    /// the walk order, variable lookup, the exact-zero check before a
    /// division and first-error-wins propagation — is the library's own.
    ///
    /// Beside the result comes the ghost trace of the arithmetic steps
    /// taken, in order: replaying the walk against that trace yields
    /// exactly the result, with the whole trace consumed, and each step
    /// is a behaviour of `f` on the operands the walk reached.
    pub fn eval_vars<F: Fn(Op, u64, u64) -> u64>(&self, variables: &Bindings, f: &F) -> (r: (
        EvalResult,
        Ghost<Seq<OpApp>>,
    ))
        requires
            forall|args: (Op, u64, u64)| #[trigger] call_requires(*f, args),
        ensures
            eval_trace(*self, variables@, r.1@) == Some((out_view(r.0), Seq::<OpApp>::empty())),
            trace_of(r.1@, *f),
        decreases *self,
    {
        match self {
            Expr::Value(s) => (Ok(s.bits()), Ghost(Seq::empty())),
            Expr::Variable(v) => match variables.get(v) {
                Some(bits) => (Ok(bits), Ghost(Seq::empty())),
                None => {
                    let unbound = v.clone();
                    (Err(ArithmeticalError::UnknownVariable(unbound)), Ghost(Seq::empty()))
                },
            },
            Expr::Bracketed(inner, _) => inner.eval_vars(variables, f),
            Expr::Binary(op, l, r) => {
                let (left_result, Ghost(left_trace)) = l.eval_vars(variables, f);
                let lv = match left_result {
                    Ok(bits) => bits,
                    Err(e) => {
                        return (Err(e), Ghost(left_trace));
                    },
                };
                let (right_result, Ghost(right_trace)) = r.eval_vars(variables, f);
                proof {
                    lemma_eval_trace_frame(
                        **l,
                        variables@,
                        left_trace,
                        Outcome::Num(lv),
                        Seq::empty(),
                        right_trace,
                    );
                    assert(Seq::<OpApp>::empty() + right_trace =~= right_trace);
                }
                let rv = match right_result {
                    Ok(bits) => bits,
                    Err(e) => {
                        proof {
                            lemma_trace_of_concat(left_trace, right_trace, *f);
                        }
                        return (Err(e), Ghost(left_trace + right_trace));
                    },
                };
                if matches!(op, Op::Div) && bits_are_zero(rv) {
                    proof {
                        lemma_trace_of_concat(left_trace, right_trace, *f);
                    }
                    (Err(ArithmeticalError::ZeroDivision), Ghost(left_trace + right_trace))
                } else {
                    let combined = (*f)(*op, lv, rv);
                    let ghost step = OpApp { op: *op, left: lv, right: rv, out: combined };
                    let ghost trace = left_trace + right_trace + seq![step];
                    proof {
                        lemma_trace_of_concat(left_trace, right_trace, *f);
                        lemma_trace_of_concat(left_trace + right_trace, seq![step], *f);
                        lemma_eval_trace_frame(
                            **l,
                            variables@,
                            left_trace,
                            Outcome::Num(lv),
                            Seq::empty(),
                            right_trace + seq![step],
                        );
                        assert(left_trace + (right_trace + seq![step]) =~= trace);
                        assert(Seq::<OpApp>::empty() + (right_trace + seq![step]) =~= right_trace
                            + seq![step]);
                        lemma_eval_trace_frame(
                            **r,
                            variables@,
                            right_trace,
                            Outcome::Num(rv),
                            Seq::empty(),
                            seq![step],
                        );
                        assert(Seq::<OpApp>::empty() + seq![step] =~= seq![step]);
                        assert(seq![step].first() == step);
                        assert(seq![step].drop_first() =~= Seq::<OpApp>::empty());
                    }
                    (Ok(combined), Ghost(trace))
                }
            },
        }
    }

    /// Evaluates with no variable values supplied: any variable in the
    /// tree fails the evaluation.
    pub fn eval<F: Fn(Op, u64, u64) -> u64>(&self, f: &F) -> (r: (EvalResult, Ghost<Seq<OpApp>>))
        requires
            forall|args: (Op, u64, u64)| #[trigger] call_requires(*f, args),
        ensures
            eval_trace(*self, Map::<Seq<char>, u64>::empty(), r.1@) == Some(
                (out_view(r.0), Seq::<OpApp>::empty()),
            ),
            trace_of(r.1@, *f),
    {
        let variables = Bindings::new();
        self.eval_vars(&variables, f)
    }
}

/// Steps drawn from `f` stay steps drawn from `f` under concatenation.
proof fn lemma_trace_of_concat<F: Fn(Op, u64, u64) -> u64>(a: Seq<OpApp>, b: Seq<OpApp>, f: F)
    requires
        trace_of(a, f),
        trace_of(b, f),
    ensures
        trace_of(a + b, f),
{
    assert forall|i: int| 0 <= i < (a + b).len() implies #[trigger] call_ensures(
        f,
        ((a + b)[i].op, (a + b)[i].left, (a + b)[i].right),
        (a + b)[i].out,
    ) by {
        if i < a.len() {
            assert((a + b)[i] == a[i]);
        } else {
            assert((a + b)[i] == b[i - a.len()]);
        }
    }
}

/// Law: dividing by a number whose bit pattern is an exact IEEE-754 zero
/// — positive or negative — fails with a division-by-zero outcome,
/// whatever bindings are supplied and whatever trace of arithmetic steps
/// is offered: no step is consumed, so no arithmetic routine is ever
/// consulted.
pub proof fn lemma_div_by_zero(a: Scalar, z: Scalar, b: Map<Seq<char>, u64>, t: Seq<OpApp>)
    requires
        is_zero_bits(z.bits_spec()),
    ensures
        eval_trace(binary(Op::Div, Expr::Value(a), Expr::Value(z)), b, t) == Some(
            (Outcome::DivByZero, t),
        ),
{
    let e = binary(Op::Div, Expr::Value(a), Expr::Value(z));
    assert(eval_trace(*e->Binary_1, b, t) == Some((Outcome::Num(a.bits_spec()), t)));
    assert(eval_trace(*e->Binary_2, b, t) == Some((Outcome::Num(z.bits_spec()), t)));
}

/// Law: dividing by a number that is not an exact zero cannot fail: a
/// completed evaluation — one consuming its whole trace — always yields
/// a number, namely the result of the trace's one step, which carries
/// exactly the two operand bit patterns.
pub proof fn lemma_div_nonzero(a: Scalar, z: Scalar, b: Map<Seq<char>, u64>, t: Seq<OpApp>)
    requires
        !is_zero_bits(z.bits_spec()),
    ensures
        eval_trace(binary(Op::Div, Expr::Value(a), Expr::Value(z)), b, t) matches Some((o, rest))
            ==> (o matches Outcome::Num(n) && t.len() >= 1 && t.first() == (OpApp {
            op: Op::Div,
            left: a.bits_spec(),
            right: z.bits_spec(),
            out: n,
        }) && rest == t.drop_first()),
{
    let e = binary(Op::Div, Expr::Value(a), Expr::Value(z));
    assert(eval_trace(*e->Binary_1, b, t) == Some((Outcome::Num(a.bits_spec()), t)));
    assert(eval_trace(*e->Binary_2, b, t) == Some((Outcome::Num(z.bits_spec()), t)));
}

/// Every variable of the tree has a value among the bindings.
pub open spec fn vars_bound(e: Expr, b: Map<Seq<char>, u64>) -> bool
    decreases e,
{
    match e {
        Expr::Value(_) => true,
        Expr::Variable(v) => b.contains_key(v.name()),
        Expr::Binary(_, l, r) => vars_bound(*l, b) && vars_bound(*r, b),
        Expr::Bracketed(inner, _) => vars_bound(*inner, b),
    }
}

/// Whether the tree holds a division node anywhere.
pub open spec fn has_division(e: Expr) -> bool
    decreases e,
{
    match e {
        Expr::Value(_) => false,
        Expr::Variable(_) => false,
        Expr::Binary(op, l, r) => op == Op::Div || has_division(*l) || has_division(*r),
        Expr::Bracketed(inner, _) => has_division(*inner),
    }
}

/// Law: when every variable of the tree is bound and the tree holds no
/// division, evaluation cannot fail: every completed walk ends in a
/// number. Construction and rendering never fail at all, so these are
/// the only two sources of failure the library has.
pub proof fn lemma_eval_total(
    e: Expr,
    b: Map<Seq<char>, u64>,
    t: Seq<OpApp>,
    o: Outcome,
    left_over: Seq<OpApp>,
)
    requires
        eval_trace(e, b, t) == Some((o, left_over)),
        vars_bound(e, b),
        !has_division(e),
    ensures
        o is Num,
    decreases e,
{
    match e {
        Expr::Value(_) => {},
        Expr::Variable(_) => {},
        Expr::Bracketed(inner, _) => {
            lemma_eval_total(*inner, b, t, o, left_over);
        },
        Expr::Binary(op, l, r) => {
            let (lo, after_left) = eval_trace(*l, b, t).unwrap();
            lemma_eval_total(*l, b, t, lo, after_left);
            let (ro, after_right) = eval_trace(*r, b, after_left).unwrap();
            lemma_eval_total(*r, b, after_left, ro, after_right);
        },
    }
}

/// Law: an unbound-variable outcome always names a variable that truly
/// has no value among the bindings.
pub proof fn lemma_unbound_reports_missing(
    e: Expr,
    b: Map<Seq<char>, u64>,
    t: Seq<OpApp>,
    name: Seq<char>,
    left_over: Seq<OpApp>,
)
    requires
        eval_trace(e, b, t) == Some((Outcome::Unbound(name), left_over)),
    ensures
        !b.contains_key(name),
    decreases e,
{
    match e {
        Expr::Value(_) => {},
        Expr::Variable(_) => {},
        Expr::Bracketed(inner, _) => {
            lemma_unbound_reports_missing(*inner, b, t, name, left_over);
        },
        Expr::Binary(op, l, r) => {
            let (lo, after_left) = eval_trace(*l, b, t).unwrap();
            match lo {
                Outcome::Num(_) => {
                    let (ro, after_right) = eval_trace(*r, b, after_left).unwrap();
                    match ro {
                        Outcome::Num(_) => {},
                        _ => {
                            lemma_unbound_reports_missing(*r, b, after_left, name, after_right);
                        },
                    }
                },
                _ => {
                    lemma_unbound_reports_missing(*l, b, t, name, after_left);
                },
            }
        },
    }
}

/// Law: a variable with no binding fails with an unbound-variable
/// outcome carrying its name, and a bound variable yields exactly its
/// bound value; neither consumes an arithmetic step.
pub proof fn lemma_variable_lookup(v: Variable, b: Map<Seq<char>, u64>, t: Seq<OpApp>)
    ensures
        !b.contains_key(v.name()) ==> eval_trace(Expr::Variable(v), b, t) == Some(
            (Outcome::Unbound(v.name()), t),
        ),
        b.contains_key(v.name()) ==> eval_trace(Expr::Variable(v), b, t) == Some(
            (Outcome::Num(b[v.name()]), t),
        ),
{
}

} // verus!
