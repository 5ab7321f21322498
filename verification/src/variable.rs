//! Named symbolic variables.

use vstd::prelude::*;

verus! {

/// A symbolic name. Two variables stand for the same unknown exactly when
/// their names match.
#[derive(Debug, PartialEq, Eq, Hash)]
pub struct Variable {
    literal: String,
}

impl Clone for Variable {
    /// A clone carries the same name.
    fn clone(&self) -> (v: Variable)
        ensures
            v.name() == self.name(),
    {
        Variable { literal: self.literal.clone() }
    }
}

impl Variable {
    /// The name, seen from specifications.
    pub closed spec fn name(&self) -> Seq<char> {
        self.literal@
    }

    /// Builds a variable from its name.
    pub fn new(literal: &str) -> (v: Variable)
        ensures
            v.name() == literal@,
    {
        Variable { literal: String::from_str(literal) }
    }

    /// The name of this variable.
    pub fn literal(&self) -> (name: &str)
        ensures
            name@ == self.name(),
    {
        self.literal.as_str()
    }

    /// Whether two variables carry the same name.
    pub fn same_name(&self, other: &Variable) -> (r: bool)
        ensures
            r == (self.name() == other.name()),
    {
        self.literal == other.literal
    }
}

} // verus!
