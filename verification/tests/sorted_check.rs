use macro_kit::diag::ErrorKind;
use macro_kit::sorted::match_visitor::{
    arm_name, check_arms, find_marker, get_path_string, MatchVisitor,
};
use macro_kit::sorted::order::{find_violation, sorts_before_or_with};
use macro_kit::sorted::{check, check_expand, expand};
use macro_kit::syntax::{
    AttrArgs, Attribute, Expr, Generics, Item, ItemBody, Pat, PatKind, Variant,
};
use macro_kit::token::Span;

fn sp(id: u64) -> Span {
    Span { id }
}

fn an_enum(names: &[&str]) -> Item {
    let variants = names
        .iter()
        .enumerate()
        .map(|(k, name)| Variant { name: name.to_string(), span: sp(100 + k as u64) })
        .collect();
    Item {
        name: "E".to_string(),
        attrs: vec![],
        generics: Generics { params: vec![], predicates: vec![] },
        body: ItemBody::Enum(variants),
        span: sp(1),
    }
}

fn attr(path: &[&str]) -> Attribute {
    Attribute {
        path: path.iter().map(|s| s.to_string()).collect(),
        args: AttrArgs::Empty,
        span: sp(9),
    }
}

fn pat(kind: PatKind, path: &[&str], id: u64) -> Pat {
    Pat { kind, path: path.iter().map(|s| s.to_string()).collect(), span: sp(id) }
}

fn marked(pats: Vec<Pat>, children: Vec<Expr>) -> Expr {
    Expr::Match { attrs: vec![attr(&["sorted"])], pats, children }
}

fn attrs_of(e: &Expr) -> Vec<Vec<String>> {
    match e {
        Expr::Match { attrs, .. } => attrs.iter().map(|a| a.path.clone()).collect(),
        Expr::Other { .. } => panic!("expected a match"),
    }
}

#[test]
fn enum_in_order_passes() {
    assert!(macro_kit::sorted::sorted(&an_enum(&["Fmt", "Io", "Utf8", "Var"])).is_ok());
    assert!(macro_kit::sorted::sorted(&an_enum(&[])).is_ok());
    assert!(macro_kit::sorted::sorted(&an_enum(&["Only"])).is_ok());
    assert!(expand(&an_enum(&["A", "A", "B"])).is_ok());
}

#[test]
fn enum_with_two_variants_out_of_order() {
    let err = macro_kit::sorted::sorted(&an_enum(&["Write", "Read"])).unwrap_err();
    assert_eq!(err.kind, ErrorKind::OrderingViolation);
    assert_eq!(err.message, "Read should sort before Write");
    assert_eq!(err.span, sp(101));
}

#[test]
fn enum_reports_the_first_place_out_of_order() {
    let names = ["ThatFailed", "ThisFailed", "SomethingFailed", "WhoKnowsWhatFailed"];
    let err = expand(&an_enum(&names)).unwrap_err();
    assert_eq!(err.message, "SomethingFailed should sort before ThatFailed");
    assert_eq!(err.span, sp(102));

    let err = expand(&an_enum(&["A", "C", "D", "B"])).unwrap_err();
    assert_eq!(err.message, "B should sort before C");
    assert_eq!(err.span, sp(103));

    let err = expand(&an_enum(&["B", "D", "C", "A"])).unwrap_err();
    assert_eq!(err.message, "A should sort before B");
    assert_eq!(err.span, sp(103));
}

#[test]
fn of_equal_names_the_first_is_reported() {
    let err = expand(&an_enum(&["A", "C", "B", "B"])).unwrap_err();
    assert_eq!(err.message, "B should sort before C");
    assert_eq!(err.span, sp(102));
}

#[test]
fn names_are_ordered_byte_by_byte() {
    assert!(sorts_before_or_with("Z", "a"));
    assert!(!sorts_before_or_with("a", "Z"));
    assert!(sorts_before_or_with("", "a"));
    assert!(sorts_before_or_with("ab", "ab"));
    assert!(sorts_before_or_with("ab", "abc"));
    assert!(!sorts_before_or_with("abc", "ab"));
    assert!(sorts_before_or_with("z", "é"));
    assert!(!sorts_before_or_with("é", "z"));
    assert!(sorts_before_or_with("Z", "_"));
    assert!(sorts_before_or_with("_", "a"));
    assert!(expand(&an_enum(&["A", "Z", "_x", "a"])).is_ok());
    assert_eq!(find_violation(&vec!["b", "a", "c"]), Some((0, 1)));
    assert_eq!(find_violation(&vec!["a", "b", "c"]), None);
    assert_eq!(find_violation(&vec!["a", "c", "d", "b", "b"]), Some((1, 3)));
}

#[test]
fn anything_but_an_enum_is_rejected_at_the_call_site() {
    for body in [ItemBody::NamedStruct(vec![]), ItemBody::TupleStruct, ItemBody::Other] {
        let mut input = an_enum(&[]);
        input.body = body;
        let err = macro_kit::sorted::sorted(&input).unwrap_err();
        assert_eq!(err.kind, ErrorKind::StructuralMismatch);
        assert_eq!(err.span, Span::at_call_site());
        assert_eq!(err.span, sp(0));
        assert_eq!(err.message, "expected enum or match expression");
    }
}

#[test]
fn path_segments_are_joined_by_dots() {
    let path = vec!["Error".to_string(), "Fmt".to_string()];
    assert_eq!(get_path_string(&path), "Error.Fmt");
    assert_eq!(get_path_string(&vec!["x".to_string()]), "x");
    assert_eq!(get_path_string(&vec![]), "");
    assert_eq!(arm_name(&pat(PatKind::Wild, &[], 1)).as_deref(), Some("_"));
    assert_eq!(arm_name(&pat(PatKind::Ident, &["x"], 1)).as_deref(), Some("x"));
    assert_eq!(arm_name(&pat(PatKind::Struct, &["a", "B"], 1)).as_deref(), Some("a.B"));
    assert_eq!(arm_name(&pat(PatKind::TupleStruct, &["a", "B"], 1)).as_deref(), Some("a.B"));
    assert_eq!(arm_name(&pat(PatKind::Path, &["B"], 1)).as_deref(), Some("B"));
    assert_eq!(arm_name(&pat(PatKind::Other, &[], 1)), None);
}

#[test]
fn marked_match_in_order_passes_and_loses_its_marker() {
    let mut body = Expr::Other {
        children: vec![Expr::Match {
            attrs: vec![attr(&["inline"]), attr(&["sorted"]), attr(&["sorted"])],
            pats: vec![
                pat(PatKind::TupleStruct, &["Error", "Fmt"], 10),
                pat(PatKind::TupleStruct, &["Error", "Io"], 11),
                pat(PatKind::Wild, &[], 12),
            ],
            children: vec![],
        }],
    };
    assert!(check(&mut body).is_ok());
    match &body {
        Expr::Other { children } => {
            assert_eq!(
                attrs_of(&children[0]),
                vec![vec!["inline".to_string()], vec!["sorted".to_string()]]
            );
        }
        _ => panic!("expected the body"),
    }
}

#[test]
fn marked_match_out_of_order_is_reported_at_the_late_arm() {
    let mut body = marked(
        vec![
            pat(PatKind::TupleStruct, &["Error", "Io"], 10),
            pat(PatKind::TupleStruct, &["Error", "Fmt"], 11),
            pat(PatKind::Wild, &[], 12),
        ],
        vec![],
    );
    let err = check_expand(&mut body).unwrap_err();
    assert_eq!(err.kind, ErrorKind::OrderingViolation);
    assert_eq!(err.message, "Error.Fmt should sort before Error.Io");
    assert_eq!(err.span, sp(11));
    assert!(attrs_of(&body).is_empty());
}

#[test]
fn wildcard_sorts_by_its_underscore() {
    let mut early = marked(
        vec![pat(PatKind::Wild, &[], 10), pat(PatKind::Ident, &["a"], 11)],
        vec![],
    );
    assert!(check(&mut early).is_ok());
    let mut late = marked(
        vec![pat(PatKind::Wild, &[], 10), pat(PatKind::Ident, &["Z"], 11)],
        vec![],
    );
    let err = check(&mut late).unwrap_err();
    assert_eq!(err.message, "Z should sort before _");
    assert_eq!(err.span, sp(11));
}

#[test]
fn unsupported_pattern_is_reported_whatever_the_order() {
    let pats = vec![
        pat(PatKind::Ident, &["b"], 10),
        pat(PatKind::Ident, &["a"], 11),
        pat(PatKind::Other, &[], 12),
        pat(PatKind::Other, &[], 13),
    ];
    let err = check_arms(&pats).unwrap();
    assert_eq!(err.kind, ErrorKind::UnsupportedConstruct);
    assert_eq!(err.message, "unsupported by sorted");
    assert_eq!(err.span, sp(12));
    let mut body = marked(pats, vec![]);
    let err = check(&mut body).unwrap_err();
    assert_eq!(err.span, sp(12));
}

#[test]
fn match_without_a_marker_is_not_checked() {
    let mut body = Expr::Match {
        attrs: vec![attr(&["allow"]), attr(&["rustfmt", "sorted"])],
        pats: vec![pat(PatKind::Ident, &["b"], 10), pat(PatKind::Other, &[], 11)],
        children: vec![],
    };
    assert!(check(&mut body).is_ok());
    assert_eq!(attrs_of(&body).len(), 2);
    assert_eq!(find_marker(&vec![attr(&["allow"]), attr(&["sorted"])]), 1);
    assert_eq!(find_marker(&vec![attr(&["allow"])]), 1);
    assert_eq!(find_marker(&vec![]), 0);
}

#[test]
fn nested_matches_are_checked_and_the_first_failure_wins() {
    let inner_bad = marked(
        vec![pat(PatKind::Ident, &["y"], 20), pat(PatKind::Ident, &["x"], 21)],
        vec![],
    );
    let inner_worse = marked(vec![pat(PatKind::Other, &[], 30)], vec![]);
    let outer_good = marked(
        vec![pat(PatKind::Ident, &["a"], 10), pat(PatKind::Ident, &["b"], 11)],
        vec![Expr::Other { children: vec![inner_bad] }, inner_worse],
    );
    let mut body = Expr::Other { children: vec![Expr::Other { children: vec![] }, outer_good] };
    let err = check(&mut body).unwrap_err();
    assert_eq!(err.message, "x should sort before y");
    assert_eq!(err.span, sp(21));
    // every marker is taken off, also after the failure
    match &body {
        Expr::Other { children } => match &children[1] {
            Expr::Match { attrs, children, .. } => {
                assert!(attrs.is_empty());
                assert!(attrs_of(&children[1]).is_empty());
                match &children[0] {
                    Expr::Other { children } => assert!(attrs_of(&children[0]).is_empty()),
                    _ => panic!("expected a block"),
                }
            }
            _ => panic!("expected a match"),
        },
        _ => panic!("expected the body"),
    }
}

#[test]
fn failure_of_the_outer_match_comes_before_those_inside_it() {
    let inner = marked(vec![pat(PatKind::Other, &[], 30)], vec![]);
    let mut body = marked(
        vec![pat(PatKind::Ident, &["b"], 10), pat(PatKind::Ident, &["a"], 11)],
        vec![inner],
    );
    let err = check(&mut body).unwrap_err();
    assert_eq!(err.message, "a should sort before b");
    match &body {
        Expr::Match { children, .. } => assert!(attrs_of(&children[0]).is_empty()),
        _ => panic!("expected a match"),
    }
}

#[test]
fn visitor_keeps_the_failure_that_it_holds() {
    let mut visitor = MatchVisitor { err: None };
    let mut attrs = vec![attr(&["sorted"])];
    visitor.visit_expr_match_mut(&mut attrs, &vec![pat(PatKind::Other, &[], 5)]);
    assert!(attrs.is_empty());
    assert_eq!(visitor.err.as_ref().map(|e| e.span), Some(sp(5)));
    let mut attrs = vec![attr(&["sorted"])];
    visitor.visit_expr_match_mut(&mut attrs, &vec![pat(PatKind::Other, &[], 6)]);
    assert!(attrs.is_empty());
    assert_eq!(visitor.err.as_ref().map(|e| e.span), Some(sp(5)));
    let mut tree = Expr::Other { children: vec![marked(vec![pat(PatKind::Other, &[], 7)], vec![])] };
    visitor.visit_expr_mut(&mut tree);
    assert_eq!(visitor.err.as_ref().map(|e| e.span), Some(sp(5)));
}
