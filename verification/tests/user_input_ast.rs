use query_core::{
    Occur, UserInputAST, UserInputBound, UserInputField, UserInputLeaf, UserInputLiteral,
};

fn title() -> UserInputField {
    UserInputField { name: "title".to_string(), rank: 0 }
}

fn word(phrase: &str) -> UserInputAST {
    UserInputAST::from(UserInputLeaf::from(UserInputLiteral {
        field: None,
        phrase: phrase.to_string(),
    }))
}

#[test]
fn literal_with_field_renders_name_rank_and_phrase() {
    let literal = UserInputLiteral { field: Some(title()), phrase: "diary".to_string() };
    assert_eq!(literal.render(), "title#0:\"diary\"");
}

#[test]
fn literal_without_field_renders_phrase_in_quotes() {
    let literal = UserInputLiteral { field: None, phrase: "diary".to_string() };
    assert_eq!(literal.render(), "\"diary\"");
}

#[test]
fn range_from_open_end_to_inclusive_end() {
    let range = UserInputLeaf::Range {
        field: Some(title()),
        lower: UserInputBound::Unbounded,
        upper: UserInputBound::Inclusive("2020".to_string()),
    };
    assert_eq!(range.render(), "title#0:{\"*\" TO \"2020\"]");
}

#[test]
fn and_of_three_wraps_each_member_with_must() {
    let ast = UserInputAST::and(vec![word("a"), word("b"), word("c")]);
    assert_eq!(ast.render(), "(+(\"a\") +(\"b\") +(\"c\"))");
}

#[test]
fn and_of_one_is_the_bare_member() {
    let ast = UserInputAST::and(vec![word("a")]);
    assert_eq!(ast.render(), "\"a\"");
    assert!(matches!(ast, UserInputAST::Leaf(_)));
}

#[test]
fn or_of_two_wraps_each_member_with_should() {
    let ast = UserInputAST::or(vec![word("a"), word("b")]);
    assert_eq!(ast.render(), "(?(\"a\") ?(\"b\"))");
}

#[test]
fn unary_must_not_renders_minus() {
    let ast = word("a").unary(Occur::MustNot);
    assert_eq!(ast.render(), "-(\"a\")");
}

#[test]
fn or_of_one_is_the_bare_member() {
    let ast = UserInputAST::or(vec![word("a")]);
    assert_eq!(ast.render(), "\"a\"");
    assert!(matches!(ast, UserInputAST::Leaf(_)));
}

#[test]
fn compose_of_two_gives_a_clause_of_unary_members() {
    let ast = UserInputAST::compose(Occur::Must, vec![word("a"), word("b")]);
    match ast {
        UserInputAST::Clause(members) => {
            assert_eq!(members.len(), 2);
            for member in members.iter() {
                assert!(matches!(member, UserInputAST::Unary(Occur::Must, _)));
            }
        }
        _ => panic!("two members fold to a clause"),
    }
}

#[test]
fn and_of_one_clause_keeps_the_clause() {
    let inner = UserInputAST::or(vec![word("a"), word("b")]);
    let ast = UserInputAST::and(vec![inner]);
    assert_eq!(ast.render(), "(?(\"a\") ?(\"b\"))");
}

#[test]
fn nested_folds_render_inside_out() {
    let left = UserInputAST::or(vec![word("a"), word("b")]);
    let ast = UserInputAST::and(vec![left, word("c")]);
    assert_eq!(ast.render(), "(+((?(\"a\") ?(\"b\"))) +(\"c\"))");
}

#[test]
fn empty_query_is_an_empty_clause() {
    let ast = UserInputAST::empty_query();
    assert!(matches!(&ast, UserInputAST::Clause(members) if members.is_empty()));
    assert_eq!(ast.render(), "<emptyclause>");
}

#[test]
fn all_leaf_renders_as_a_star() {
    assert_eq!(UserInputLeaf::All.render(), "*");
    assert_eq!(UserInputAST::from(UserInputLeaf::All).render(), "*");
}

#[test]
fn field_renders_name_and_rank() {
    assert_eq!(title().render(), "title#0");
    let field = UserInputField { name: "body".to_string(), rank: 4_294_967_295 };
    assert_eq!(field.render(), "body#4294967295");
    let field = UserInputField { name: "body".to_string(), rank: 1070 };
    assert_eq!(field.render(), "body#1070");
}

#[test]
fn range_brackets_follow_the_kind_of_each_end() {
    let range = UserInputLeaf::Range {
        field: None,
        lower: UserInputBound::Inclusive("a".to_string()),
        upper: UserInputBound::Exclusive("k".to_string()),
    };
    assert_eq!(range.render(), "[\"a\" TO \"k\"}");
    let range = UserInputLeaf::Range {
        field: None,
        lower: UserInputBound::Exclusive("a".to_string()),
        upper: UserInputBound::Unbounded,
    };
    assert_eq!(range.render(), "{\"a\" TO \"*\"}");
}

#[test]
fn bounds_write_after_what_is_there() {
    let mut out = String::from("x");
    UserInputBound::Inclusive("1".to_string()).display_lower(&mut out);
    out.push('|');
    UserInputBound::Inclusive("2".to_string()).display_upper(&mut out);
    assert_eq!(out, "x[\"1\"|\"2\"]");
}

#[test]
fn term_str_is_the_text_of_the_bound() {
    assert_eq!(UserInputBound::Inclusive("2020".to_string()).term_str(), "2020");
    assert_eq!(UserInputBound::Exclusive("2021".to_string()).term_str(), "2021");
    assert_eq!(UserInputBound::Unbounded.term_str(), "*");
}

#[test]
fn open_end_differs_from_a_literal_star() {
    assert!(UserInputBound::Unbounded != UserInputBound::Inclusive("*".to_string()));
    assert!(UserInputBound::Unbounded != UserInputBound::Exclusive("*".to_string()));
    assert_eq!(
        UserInputBound::Unbounded.term_str(),
        UserInputBound::Inclusive("*".to_string()).term_str()
    );
}

#[test]
fn fields_are_equal_when_name_and_rank_are() {
    assert!(title() == title());
    assert!(title() != UserInputField { name: "title".to_string(), rank: 1 });
    assert!(title() != UserInputField { name: "body".to_string(), rank: 0 });
}

#[test]
fn leaves_are_equal_part_by_part() {
    let literal = |field: Option<UserInputField>, phrase: &str| {
        UserInputLeaf::Literal(UserInputLiteral { field, phrase: phrase.to_string() })
    };
    assert!(literal(Some(title()), "a") == literal(Some(title()), "a"));
    assert!(literal(Some(title()), "a") != literal(None, "a"));
    assert!(literal(None, "a") != literal(None, "b"));
    assert!(literal(None, "*") != UserInputLeaf::All);
    assert!(UserInputLeaf::All == UserInputLeaf::All);
    let range = |upper: UserInputBound| UserInputLeaf::Range {
        field: Some(title()),
        lower: UserInputBound::Unbounded,
        upper,
    };
    assert!(
        range(UserInputBound::Inclusive("1".to_string()))
            == range(UserInputBound::Inclusive("1".to_string()))
    );
    assert!(
        range(UserInputBound::Inclusive("1".to_string()))
            != range(UserInputBound::Exclusive("1".to_string()))
    );
}

#[test]
fn occurrence_symbols() {
    assert_eq!(Occur::Should.symbol(), "?");
    assert_eq!(Occur::Must.symbol(), "+");
    assert_eq!(Occur::MustNot.symbol(), "-");
}
