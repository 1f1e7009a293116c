use macro_kit::builder::get_struct_fields;
use macro_kit::builder::model::{BuilderModel, Slot};
use macro_kit::diag::ErrorKind;
use macro_kit::syntax::{
    AttrArgs, Attribute, Field, Generics, Item, ItemBody, PathSegment, TypeExpr,
};
use macro_kit::token::{Span, TokenTree};

fn sp(id: u64) -> Span {
    Span { id }
}

fn path(name: &str, args: Vec<TypeExpr>) -> TypeExpr {
    TypeExpr::Path {
        leading_colon: false,
        segments: vec![PathSegment { ident: name.to_string(), args }],
    }
}

fn each(name: &str) -> Attribute {
    Attribute {
        path: vec!["config".to_string()],
        args: AttrArgs::List(vec![
            TokenTree::Ident { name: "accumulator".to_string(), span: sp(0) },
            TokenTree::Punct { ch: '=', joint: false, span: sp(0) },
            TokenTree::Literal { text: format!("\"{}\"", name), span: sp(0) },
        ]),
        span: sp(0),
    }
}

fn field(name: &str, ty: TypeExpr, attrs: Vec<Attribute>, id: u64) -> Field {
    Field { name: name.to_string(), ty, attrs, span: sp(id) }
}

fn command() -> Item {
    Item {
        name: "Command".to_string(),
        attrs: vec![],
        generics: Generics { params: vec![], predicates: vec![] },
        body: ItemBody::NamedStruct(vec![
            field("executable", path("String", vec![]), vec![], 10),
            field("args", path("Vec", vec![path("String", vec![])]), vec![each("arg")], 11),
            field("env", path("Vec", vec![path("String", vec![])]), vec![each("env")], 12),
            field("current_dir", path("Option", vec![path("String", vec![])]), vec![], 13),
        ]),
        span: sp(1),
    }
}

fn plain_pair() -> Item {
    Item {
        name: "Pair".to_string(),
        attrs: vec![],
        generics: Generics { params: vec![], predicates: vec![] },
        body: ItemBody::NamedStruct(vec![
            field("left", path("u8", vec![]), vec![], 20),
            field("right", path("u8", vec![]), vec![], 21),
        ]),
        span: sp(1),
    }
}

fn one(slot: &Slot<u32>) -> Option<u32> {
    match slot {
        Slot::One(v) => Some(*v),
        _ => None,
    }
}

fn many(slot: &Slot<u32>) -> Option<Vec<u32>> {
    match slot {
        Slot::Many(v) => Some(v.clone()),
        _ => None,
    }
}

#[test]
fn plain_fields_build_when_every_setter_was_called() {
    let input = plain_pair();
    let fields = get_struct_fields(&input).unwrap();
    let mut b: BuilderModel<u32> = BuilderModel::new(&fields);
    assert!(b.set(0, 1));
    assert!(b.set(1, 2));
    assert!(b.set(0, 3));
    let out = b.build().unwrap();
    assert_eq!(one(&out[0]), Some(3));
    assert_eq!(one(&out[1]), Some(2));
}

#[test]
fn plain_field_that_was_never_set_is_reported_missing() {
    let input = plain_pair();
    let fields = get_struct_fields(&input).unwrap();
    let mut b: BuilderModel<u32> = BuilderModel::new(&fields);
    assert!(b.set(0, 1));
    let err = b.build().unwrap_err();
    assert_eq!(err.kind, ErrorKind::MissingRequiredField);
    assert_eq!(err.span, sp(21));
    assert_eq!(err.message, "right field is missing");
}

#[test]
fn failed_build_empties_the_slots_before_the_missing_field() {
    let input = plain_pair();
    let fields = get_struct_fields(&input).unwrap();
    let mut b: BuilderModel<u32> = BuilderModel::new(&fields);
    assert!(b.set(0, 1));
    assert!(b.build().is_err());
    assert!(b.set(1, 2));
    let err = b.build().unwrap_err();
    assert_eq!(err.message, "left field is missing");
}

#[test]
fn second_build_fails_on_the_first_required_field() {
    let input = command();
    let fields = get_struct_fields(&input).unwrap();
    let mut b: BuilderModel<u32> = BuilderModel::new(&fields);
    assert!(b.set(0, 7));
    assert!(b.build().is_ok());
    let err = b.build().unwrap_err();
    assert_eq!(err.kind, ErrorKind::MissingRequiredField);
    assert_eq!(err.message, "executable field is missing");
    assert_eq!(err.span, sp(10));
}

#[test]
fn second_build_reports_a_repeated_field_too() {
    let input = Item {
        name: "Only".to_string(),
        attrs: vec![],
        generics: Generics { params: vec![], predicates: vec![] },
        body: ItemBody::NamedStruct(vec![field(
            "items",
            path("Vec", vec![path("u8", vec![])]),
            vec![],
            30,
        )]),
        span: sp(1),
    };
    let fields = get_struct_fields(&input).unwrap();
    let mut b: BuilderModel<u32> = BuilderModel::new(&fields);
    let out = b.build().unwrap();
    assert_eq!(many(&out[0]), Some(vec![]));
    let err = b.build().unwrap_err();
    assert_eq!(err.message, "items field is missing");
}

#[test]
fn optional_field_may_stay_unset() {
    let input = command();
    let fields = get_struct_fields(&input).unwrap();
    let mut b: BuilderModel<u32> = BuilderModel::new(&fields);
    assert!(b.set(0, 7));
    let out = b.build().unwrap();
    assert!(matches!(out[3], Slot::Absent));
    assert_eq!(one(&out[0]), Some(7));
    assert_eq!(many(&out[1]), Some(vec![]));
}

#[test]
fn optional_field_keeps_what_was_set() {
    let input = command();
    let fields = get_struct_fields(&input).unwrap();
    let mut b: BuilderModel<u32> = BuilderModel::new(&fields);
    assert!(b.set(0, 7));
    assert!(b.set(3, 9));
    let out = b.build().unwrap();
    assert_eq!(one(&out[3]), Some(9));
}

#[test]
fn accumulator_keeps_call_order() {
    let input = command();
    let fields = get_struct_fields(&input).unwrap();
    let mut b: BuilderModel<u32> = BuilderModel::new(&fields);
    assert!(b.set(0, 7));
    assert!(b.push(1, 10));
    assert!(b.push(1, 20));
    assert!(b.push(1, 30));
    let out = b.build().unwrap();
    assert_eq!(many(&out[1]), Some(vec![10, 20, 30]));
    assert_eq!(many(&out[2]), Some(vec![]));
}

#[test]
fn setter_after_accumulation_replaces_the_sequence() {
    let input = command();
    let fields = get_struct_fields(&input).unwrap();
    let mut b: BuilderModel<u32> = BuilderModel::new(&fields);
    assert!(b.set(0, 7));
    assert!(b.push(1, 10));
    assert!(b.push(1, 20));
    assert!(b.set_all(1, vec![5]));
    assert!(b.push(1, 6));
    let out = b.build().unwrap();
    assert_eq!(many(&out[1]), Some(vec![5, 6]));
}

#[test]
fn accumulator_starts_anew_after_a_build() {
    let input = command();
    let fields = get_struct_fields(&input).unwrap();
    let mut b: BuilderModel<u32> = BuilderModel::new(&fields);
    assert!(b.set(0, 7));
    assert!(b.push(1, 10));
    assert!(b.build().is_ok());
    assert!(b.push(1, 11));
    assert!(b.set(0, 8));
    let err = b.build().unwrap_err();
    assert_eq!(err.message, "env field is missing");
}

#[test]
fn builder_has_only_the_methods_that_were_synthesized() {
    let input = command();
    let fields = get_struct_fields(&input).unwrap();
    let mut b: BuilderModel<u32> = BuilderModel::new(&fields);
    assert!(!b.set(1, 1));
    assert!(!b.set_all(0, vec![1]));
    assert!(!b.set_all(2, vec![1]));
    assert!(b.set_all(1, vec![1]));
    assert!(!b.push(0, 1));
    assert!(!b.push(3, 1));
    assert!(b.push(2, 1));
    assert!(!b.set(4, 1));
    assert!(!b.push(4, 1));
    assert!(!b.set_all(4, vec![]));
}
