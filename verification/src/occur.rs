use vstd::prelude::*;

verus! {

/// How a clause takes part in a boolean query.
#[derive(Clone, Copy, Debug, PartialEq, Eq, Hash, Structural)]
pub enum Occur {
    /// The clause is optional; a document that matches it scores higher.
    Should,
    /// The clause is required.
    Must,
    /// A document that matches the clause is excluded.
    MustNot,
}

impl Occur {
    /// The prefix that stands for the occurrence in a rendered query.
    pub open spec fn symbol_text(self) -> Seq<char> {
        match self {
            Occur::Should => "?"@,
            Occur::Must => "+"@,
            Occur::MustNot => "-"@,
        }
    }

    /// Returns the prefix of the occurrence: `?`, `+` or `-`.
    pub fn symbol(self) -> (text: &'static str)
        ensures
            text@ == self.symbol_text(),
    {
        match self {
            Occur::Should => "?",
            Occur::Must => "+",
            Occur::MustNot => "-",
        }
    }
}

} // verus!
