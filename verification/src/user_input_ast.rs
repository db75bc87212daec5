use crate::occur::Occur;
use vstd::prelude::*;
use vstd::std_specs::cmp::PartialEqSpecImpl;
use vstd::std_specs::convert::FromSpecImpl;

verus! {

/// A field reference: a name, and a rank that tells fields of one name apart.
pub struct UserInputField {
    pub name: String,
    pub rank: u32,
}

/// A term or phrase to match, in one field or in the default fields.
pub struct UserInputLiteral {
    pub field: Option<UserInputField>,
    pub phrase: String,
}

/// One end of a range.
pub enum UserInputBound {
    Inclusive(String),
    Exclusive(String),
    Unbounded,
}

/// A terminal match condition.
pub enum UserInputLeaf {
    Literal(UserInputLiteral),
    All,
    Range { field: Option<UserInputField>, lower: UserInputBound, upper: UserInputBound },
}

/// A parsed query: a tree whose nodes own their children.
pub enum UserInputAST {
    Clause(Vec<UserInputAST>),
    Unary(Occur, Box<UserInputAST>),
    Leaf(Box<UserInputLeaf>),
}

/// Mathematical value of a [`UserInputField`].
pub struct FieldView {
    pub name: Seq<char>,
    pub rank: u32,
}

/// Mathematical value of a [`UserInputLiteral`].
pub struct LiteralView {
    pub field: Option<FieldView>,
    pub phrase: Seq<char>,
}

/// Mathematical value of a [`UserInputBound`].
pub enum BoundView {
    Inclusive(Seq<char>),
    Exclusive(Seq<char>),
    Unbounded,
}

/// Mathematical value of a [`UserInputLeaf`].
pub enum LeafView {
    Literal(LiteralView),
    All,
    Range { field: Option<FieldView>, lower: BoundView, upper: BoundView },
}

/// Mathematical value of a [`UserInputAST`].
pub enum AstView {
    Clause(Seq<AstView>),
    Unary(Occur, Box<AstView>),
    Leaf(LeafView),
}

impl View for UserInputField {
    type V = FieldView;

    open spec fn view(&self) -> FieldView {
        FieldView { name: self.name@, rank: self.rank }
    }
}

/// The value of an optional field reference.
pub open spec fn field_view(field: Option<UserInputField>) -> Option<FieldView> {
    match field {
        Some(f) => Some(f@),
        None => None,
    }
}

impl View for UserInputLiteral {
    type V = LiteralView;

    open spec fn view(&self) -> LiteralView {
        LiteralView { field: field_view(self.field), phrase: self.phrase@ }
    }
}

impl View for UserInputBound {
    type V = BoundView;

    open spec fn view(&self) -> BoundView {
        match self {
            UserInputBound::Inclusive(word) => BoundView::Inclusive(word@),
            UserInputBound::Exclusive(word) => BoundView::Exclusive(word@),
            UserInputBound::Unbounded => BoundView::Unbounded,
        }
    }
}

impl View for UserInputLeaf {
    type V = LeafView;

    open spec fn view(&self) -> LeafView {
        match self {
            UserInputLeaf::Literal(literal) => LeafView::Literal(literal@),
            UserInputLeaf::All => LeafView::All,
            UserInputLeaf::Range { field, lower, upper } => LeafView::Range {
                field: field_view(*field),
                lower: lower@,
                upper: upper@,
            },
        }
    }
}

impl UserInputAST {
    /// The value of the tree.
    pub open spec fn model(self) -> AstView
        decreases self, 0nat,
    {
        match self {
            UserInputAST::Clause(subqueries) => AstView::Clause(views(subqueries@)),
            UserInputAST::Unary(occur, subquery) => AstView::Unary(occur, Box::new(subquery.model())),
            UserInputAST::Leaf(leaf) => AstView::Leaf(leaf@),
        }
    }
}

impl View for UserInputAST {
    type V = AstView;

    open spec fn view(&self) -> AstView {
        self.model()
    }
}

/// The values of a list of trees, in order.
pub open spec fn views(asts: Seq<UserInputAST>) -> Seq<AstView>
    decreases asts, 1nat,
{
    if asts.len() == 0 {
        Seq::empty()
    } else {
        views(asts.drop_last()).push(asts.last().model())
    }
}

impl PartialEq for UserInputField {
    fn eq(&self, other: &Self) -> (equal: bool) {
        self.name == other.name && self.rank == other.rank
    }
}

impl PartialEqSpecImpl for UserInputField {
    open spec fn obeys_eq_spec() -> bool {
        true
    }

    open spec fn eq_spec(&self, other: &Self) -> bool {
        self@ == other@
    }
}

impl PartialEq for UserInputLiteral {
    fn eq(&self, other: &Self) -> (equal: bool) {
        self.field == other.field && self.phrase == other.phrase
    }
}

impl PartialEqSpecImpl for UserInputLiteral {
    open spec fn obeys_eq_spec() -> bool {
        true
    }

    open spec fn eq_spec(&self, other: &Self) -> bool {
        self@ == other@
    }
}

impl PartialEq for UserInputBound {
    fn eq(&self, other: &Self) -> (equal: bool) {
        match (self, other) {
            (UserInputBound::Inclusive(a), UserInputBound::Inclusive(b)) => *a == *b,
            (UserInputBound::Exclusive(a), UserInputBound::Exclusive(b)) => *a == *b,
            (UserInputBound::Unbounded, UserInputBound::Unbounded) => true,
            _ => false,
        }
    }
}

impl PartialEqSpecImpl for UserInputBound {
    open spec fn obeys_eq_spec() -> bool {
        true
    }

    open spec fn eq_spec(&self, other: &Self) -> bool {
        self@ == other@
    }
}

impl PartialEq for UserInputLeaf {
    fn eq(&self, other: &Self) -> (equal: bool) {
        match (self, other) {
            (UserInputLeaf::Literal(a), UserInputLeaf::Literal(b)) => *a == *b,
            (UserInputLeaf::All, UserInputLeaf::All) => true,
            (
                UserInputLeaf::Range { field: field_a, lower: lower_a, upper: upper_a },
                UserInputLeaf::Range { field: field_b, lower: lower_b, upper: upper_b },
            ) => *field_a == *field_b && *lower_a == *lower_b && *upper_a == *upper_b,
            _ => false,
        }
    }
}

impl PartialEqSpecImpl for UserInputLeaf {
    open spec fn obeys_eq_spec() -> bool {
        true
    }

    open spec fn eq_spec(&self, other: &Self) -> bool {
        self@ == other@
    }
}

/// The values of a list stand at the places of the trees they belong to.
pub proof fn lemma_views(asts: Seq<UserInputAST>)
    ensures
        views(asts).len() == asts.len(),
        forall|i: int| 0 <= i < asts.len() ==> (#[trigger] views(asts)[i]) == asts[i]@,
    decreases asts.len(),
{
    if asts.len() > 0 {
        lemma_views(asts.drop_last());
    }
}

/// The tree that folding `nodes` under `occur` gives: a lone node stays as it
/// is, several nodes are each wrapped with `occur` and grouped in one clause.
pub open spec fn composed(occur: Occur, nodes: Seq<AstView>) -> AstView {
    if nodes.len() == 1 {
        nodes[0]
    } else {
        AstView::Clause(nodes.map_values(|node: AstView| AstView::Unary(occur, Box::new(node))))
    }
}

impl UserInputBound {
    /// The text of the bound, whatever its kind; an open end reads `*`.
    pub open spec fn term_text(self) -> Seq<char> {
        match self {
            UserInputBound::Inclusive(word) => word@,
            UserInputBound::Exclusive(word) => word@,
            UserInputBound::Unbounded => "*"@,
        }
    }

    /// Returns the text of the bound, `*` for an open end.
    pub fn term_str(&self) -> (text: &str)
        ensures
            text@ == self.term_text(),
    {
        match self {
            UserInputBound::Inclusive(contents) => contents.as_str(),
            UserInputBound::Exclusive(contents) => contents.as_str(),
            UserInputBound::Unbounded => "*",
        }
    }
}

impl UserInputAST {
    /// Attaches an occurrence to this tree.
    pub fn unary(self, occur: Occur) -> (ast: UserInputAST)
        ensures
            ast == UserInputAST::Unary(occur, Box::new(self)),
            ast@ == AstView::Unary(occur, Box::new(self@)),
    {
        UserInputAST::Unary(occur, Box::new(self))
    }

    /// Folds sibling trees under one occurrence.
    ///
    /// The list must not be empty and the occurrence must not be `MustNot`:
    /// exclusion belongs to a single member, never to a group.
    pub fn compose(occur: Occur, asts: Vec<UserInputAST>) -> (ast: UserInputAST)
        requires
            occur != Occur::MustNot,
            asts.len() > 0,
        ensures
            ast@ == composed(occur, views(asts@)),
            asts.len() == 1 ==> ast == asts[0],
    {
        if asts.len() == 1 {
            let mut asts = asts;
            proof {
                lemma_views(asts@);
            }
            let only = asts.pop();
            only.unwrap()
        } else {
            let ghost items = asts@;
            let ghost nodes = views(items);
            let mut members: Vec<UserInputAST> = Vec::new();
            for ast in it: asts
                invariant
                    it.seq() == items,
                    nodes == views(items),
                    members.len() == it.index(),
                    forall|j: int|
                        0 <= j < members.len() ==> (#[trigger] members[j])@ == AstView::Unary(
                            occur,
                            Box::new(nodes[j]),
                        ),
            {
                proof {
                    lemma_views(items);
                }
                members.push(ast.unary(occur));
            }
            let clause = UserInputAST::Clause(members);
            proof {
                assert(clause@ == composed(occur, nodes)) by {
                    let wrapped = nodes.map_values(
                        |node: AstView| AstView::Unary(occur, Box::new(node)),
                    );
                    lemma_views(items);
                    lemma_views(members@);
                    assert(views(members@) =~= wrapped);
                }
            }
            clause
        }
    }

    /// The query with no condition at all: an empty clause.
    pub fn empty_query() -> (ast: UserInputAST)
        ensures
            ast@ == AstView::Clause(Seq::empty()),
    {
        let ast = UserInputAST::Clause(Vec::new());
        proof {
            lemma_views(ast->Clause_0@);
            assert(ast@->Clause_0 =~= Seq::empty());
        }
        ast
    }

    /// Folds sibling trees as required clauses.
    pub fn and(asts: Vec<UserInputAST>) -> (ast: UserInputAST)
        requires
            asts.len() > 0,
        ensures
            ast@ == composed(Occur::Must, views(asts@)),
            asts.len() == 1 ==> ast == asts[0],
    {
        UserInputAST::compose(Occur::Must, asts)
    }

    /// Folds sibling trees as optional clauses.
    pub fn or(asts: Vec<UserInputAST>) -> (ast: UserInputAST)
        requires
            asts.len() > 0,
        ensures
            ast@ == composed(Occur::Should, views(asts@)),
            asts.len() == 1 ==> ast == asts[0],
    {
        UserInputAST::compose(Occur::Should, asts)
    }
}

impl From<UserInputLiteral> for UserInputLeaf {
    fn from(literal: UserInputLiteral) -> (leaf: UserInputLeaf) {
        UserInputLeaf::Literal(literal)
    }
}

impl FromSpecImpl<UserInputLiteral> for UserInputLeaf {
    open spec fn obeys_from_spec() -> bool {
        true
    }

    open spec fn from_spec(literal: UserInputLiteral) -> UserInputLeaf {
        UserInputLeaf::Literal(literal)
    }
}

impl From<UserInputLeaf> for UserInputAST {
    fn from(leaf: UserInputLeaf) -> (ast: UserInputAST) {
        UserInputAST::Leaf(Box::new(leaf))
    }
}

impl FromSpecImpl<UserInputLeaf> for UserInputAST {
    open spec fn obeys_from_spec() -> bool {
        true
    }

    open spec fn from_spec(leaf: UserInputLeaf) -> UserInputAST {
        UserInputAST::Leaf(Box::new(leaf))
    }
}

/// Folding a single node leaves it as it is, with no occurrence attached;
/// folding two or more gives a clause with one member for each node, in order,
/// each being that node wrapped with the occurrence.
pub proof fn lemma_fold_elision(occur: Occur, nodes: Seq<AstView>)
    ensures
        nodes.len() == 1 ==> composed(occur, nodes) == nodes[0],
        nodes.len() >= 2 ==> (composed(occur, nodes) matches AstView::Clause(members)
            && members.len() == nodes.len() && forall|i: int|
            0 <= i < nodes.len() ==> #[trigger] members[i] == AstView::Unary(
                occur,
                Box::new(nodes[i]),
            )),
{
}

} // verus!
