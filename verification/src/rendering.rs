use crate::decimal::{decimal, push_decimal};
use crate::occur::Occur;
use crate::user_input_ast::{
    lemma_views, views, AstView, BoundView, FieldView, LeafView, LiteralView, UserInputAST, UserInputBound,
    UserInputField, UserInputLeaf, UserInputLiteral,
};
use vstd::prelude::*;

verus! {

impl FieldView {
    /// A field reads `name#rank`.
    pub open spec fn rendering(self) -> Seq<char> {
        self.name + "#"@ + decimal(self.rank as nat)
    }
}

/// An optional field as the prefix of what it scopes: `name#rank:`, or nothing.
pub open spec fn field_prefix(field: Option<FieldView>) -> Seq<char> {
    match field {
        Some(f) => f.rendering() + ":"@,
        None => Seq::empty(),
    }
}

impl LiteralView {
    /// A literal reads `field:"phrase"`, or `"phrase"` without a field.
    pub open spec fn rendering(self) -> Seq<char> {
        field_prefix(self.field) + "\""@ + self.phrase + "\""@
    }
}

impl BoundView {
    /// The bound as the lower end of a range: `[` opens an inclusive end, `{`
    /// an exclusive or an open one.
    pub open spec fn lower_rendering(self) -> Seq<char> {
        match self {
            BoundView::Inclusive(word) => "[\""@ + word + "\""@,
            BoundView::Exclusive(word) => "{\""@ + word + "\""@,
            BoundView::Unbounded => "{\"*\""@,
        }
    }

    /// The bound as the upper end of a range: `]` closes an inclusive end, `}`
    /// an exclusive or an open one.
    pub open spec fn upper_rendering(self) -> Seq<char> {
        match self {
            BoundView::Inclusive(word) => "\""@ + word + "\"]"@,
            BoundView::Exclusive(word) => "\""@ + word + "\"}"@,
            BoundView::Unbounded => "\"*\"}"@,
        }
    }
}

impl LeafView {
    /// A leaf reads as its literal, as `*`, or as `field:lower TO upper`.
    pub open spec fn rendering(self) -> Seq<char> {
        match self {
            LeafView::Literal(literal) => literal.rendering(),
            LeafView::All => "*"@,
            LeafView::Range { field, lower, upper } => field_prefix(field)
                + lower.lower_rendering() + " TO "@ + upper.upper_rendering(),
        }
    }
}

impl AstView {
    /// A clause reads as its members in parentheses, an empty one as
    /// `<emptyclause>`; a unary node as the occurrence's symbol before its
    /// subtree in parentheses; a leaf as itself.
    pub open spec fn rendering(self) -> Seq<char>
        decreases self, 0nat,
    {
        match self {
            AstView::Clause(members) => if members.len() == 0 {
                "<emptyclause>"@
            } else {
                "("@ + joined(members) + ")"@
            },
            AstView::Unary(occur, subtree) => occur.symbol_text() + "("@ + subtree.rendering()
                + ")"@,
            AstView::Leaf(leaf) => leaf.rendering(),
        }
    }
}

/// The renderings of `members`, one space between neighbours.
pub open spec fn joined(members: Seq<AstView>) -> Seq<char>
    decreases members, 1nat,
{
    if members.len() == 0 {
        Seq::empty()
    } else if members.len() == 1 {
        members[0].rendering()
    } else {
        joined(members.drop_last()) + " "@ + members.last().rendering()
    }
}

impl UserInputField {
    /// Appends the field to `out`, as `name#rank`.
    pub fn fmt(&self, out: &mut String)
        ensures
            final(out)@ == old(out)@ + self@.rendering(),
    {
        out.append(self.name.as_str());
        out.append("#");
        push_decimal(out, self.rank);
        assert(out@ =~= old(out)@ + self@.rendering());
    }

    /// Returns the field as text.
    pub fn render(&self) -> (text: String)
        ensures
            text@ == self@.rendering(),
    {
        let mut text = String::new();
        self.fmt(&mut text);
        assert(text@ =~= self@.rendering());
        text
    }
}

/// Appends the prefix of an optional field to `out`: `name#rank:`, or nothing.
fn fmt_field_prefix(field: &Option<UserInputField>, out: &mut String)
    ensures
        final(out)@ == old(out)@ + field_prefix(crate::user_input_ast::field_view(*field)),
{
    match field {
        Some(f) => {
            f.fmt(out);
            out.append(":");
            assert(out@ =~= old(out)@ + field_prefix(Some(f@)));
        },
        None => {
            assert(out@ =~= old(out)@ + Seq::<char>::empty());
        },
    }
}

impl UserInputLiteral {
    /// Appends the literal to `out`, as `field:"phrase"` or `"phrase"`.
    pub fn fmt(&self, out: &mut String)
        ensures
            final(out)@ == old(out)@ + self@.rendering(),
    {
        fmt_field_prefix(&self.field, out);
        out.append("\"");
        out.append(self.phrase.as_str());
        out.append("\"");
        assert(out@ =~= old(out)@ + self@.rendering());
    }

    /// Returns the literal as text.
    pub fn render(&self) -> (text: String)
        ensures
            text@ == self@.rendering(),
    {
        let mut text = String::new();
        self.fmt(&mut text);
        assert(text@ =~= self@.rendering());
        text
    }
}

impl UserInputBound {
    /// Appends the bound to `out` as the lower end of a range.
    pub fn display_lower(&self, out: &mut String)
        ensures
            final(out)@ == old(out)@ + self@.lower_rendering(),
    {
        match self {
            UserInputBound::Inclusive(word) => {
                out.append("[\"");
                out.append(word.as_str());
                out.append("\"");
            },
            UserInputBound::Exclusive(word) => {
                out.append("{\"");
                out.append(word.as_str());
                out.append("\"");
            },
            UserInputBound::Unbounded => {
                out.append("{\"*\"");
            },
        }
        assert(out@ =~= old(out)@ + self@.lower_rendering());
    }

    /// Appends the bound to `out` as the upper end of a range.
    pub fn display_upper(&self, out: &mut String)
        ensures
            final(out)@ == old(out)@ + self@.upper_rendering(),
    {
        match self {
            UserInputBound::Inclusive(word) => {
                out.append("\"");
                out.append(word.as_str());
                out.append("\"]");
            },
            UserInputBound::Exclusive(word) => {
                out.append("\"");
                out.append(word.as_str());
                out.append("\"}");
            },
            UserInputBound::Unbounded => {
                out.append("\"*\"}");
            },
        }
        assert(out@ =~= old(out)@ + self@.upper_rendering());
    }
}

impl UserInputLeaf {
    /// Appends the leaf to `out`.
    pub fn fmt(&self, out: &mut String)
        ensures
            final(out)@ == old(out)@ + self@.rendering(),
    {
        match self {
            UserInputLeaf::Literal(literal) => literal.fmt(out),
            UserInputLeaf::Range { field, lower, upper } => {
                fmt_field_prefix(field, out);
                lower.display_lower(out);
                out.append(" TO ");
                upper.display_upper(out);
                assert(out@ =~= old(out)@ + self@.rendering());
            },
            UserInputLeaf::All => out.append("*"),
        }
    }

    /// Returns the leaf as text.
    pub fn render(&self) -> (text: String)
        ensures
            text@ == self@.rendering(),
    {
        let mut text = String::new();
        self.fmt(&mut text);
        assert(text@ =~= self@.rendering());
        text
    }
}

impl UserInputAST {
    /// Appends the tree to `out`.
    pub fn fmt(&self, out: &mut String)
        ensures
            final(out)@ == old(out)@ + self@.rendering(),
        decreases self,
    {
        match self {
            UserInputAST::Clause(subqueries) => {
                if subqueries.is_empty() {
                    out.append("<emptyclause>");
                } else {
                    let ghost members = views(subqueries@);
                    proof {
                        lemma_views(subqueries@);
                    }
                    out.append("(");
                    subqueries[0].fmt(out);
                    assert(members.take(1) =~= seq![members[0]]);
                    let mut i: usize = 1;
                    while i < subqueries.len()
                        invariant
                            1 <= i <= subqueries.len(),
                            *self == UserInputAST::Clause(*subqueries),
                            members == views(subqueries@),
                            out@ == old(out)@ + "("@ + joined(members.take(i as int)),
                        decreases subqueries.len() - i,
                    {
                        out.append(" ");
                        proof {
                            assert(decreases_to!(*self => self->Clause_0));
                        }
                        subqueries[i].fmt(out);
                        proof {
                            lemma_views(subqueries@);
                            let shorter = members.take(i as int);
                            let longer = members.take(i + 1);
                            assert(longer.drop_last() =~= shorter);
                            assert(longer.last() == members[i as int]);
                            assert(out@ =~= old(out)@ + "("@ + joined(longer));
                        }
                        i = i + 1;
                    }
                    out.append(")");
                    proof {
                        assert(members.take(i as int) =~= members);
                        assert(out@ =~= old(out)@ + self@.rendering());
                    }
                }
            },
            UserInputAST::Unary(occur, subquery) => {
                out.append(occur.symbol());
                out.append("(");
                subquery.fmt(out);
                out.append(")");
                assert(out@ =~= old(out)@ + self@.rendering());
            },
            UserInputAST::Leaf(leaf) => leaf.fmt(out),
        }
    }

    /// Returns the tree as text.
    pub fn render(&self) -> (text: String)
        ensures
            text@ == self@.rendering(),
    {
        let mut text = String::new();
        self.fmt(&mut text);
        assert(text@ =~= self@.rendering());
        text
    }
}

} // verus!
