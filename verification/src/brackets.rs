//! The bracket forms a caller can force around an expression.

use vstd::prelude::*;

verus! {

/// A bracket pair: round `( )`, figure `{ }` or square `[ ]`.
#[derive(Clone, Copy, Debug, PartialEq, Eq, Structural)]
pub enum Brackets {
    Round,
    Figure,
    Square,
}

/// The opening symbol of a bracket form.
pub open spec fn open_symbol(form: Brackets) -> Seq<char> {
    match form {
        Brackets::Round => "("@,
        Brackets::Figure => "{"@,
        Brackets::Square => "["@,
    }
}

/// The closing symbol of a bracket form.
pub open spec fn close_symbol(form: Brackets) -> Seq<char> {
    match form {
        Brackets::Round => ")"@,
        Brackets::Figure => "}"@,
        Brackets::Square => "]"@,
    }
}

impl Brackets {
    /// The opening and closing symbol of this bracket form.
    pub fn get_symbols(&self) -> (symbols: (&'static str, &'static str))
        ensures
            symbols.0@ == open_symbol(*self),
            symbols.1@ == close_symbol(*self),
    {
        match self {
            Brackets::Round => ("(", ")"),
            Brackets::Figure => ("{", "}"),
            Brackets::Square => ("[", "]"),
        }
    }
}

} // verus!
