use macro_kit::debug::associated_type_visiter::AssociatedTypeVisiter;
use macro_kit::debug::bounds::{
    associated_types, classify_params, collect_associated, get_none_phantom_generic_param_arr,
    mentions_param, mentions_param_in, plan_bounds, type_param_names, BoundClass,
};
use macro_kit::debug::{do_expand, get_field_info, get_field_info_arr, impl_debug};
use macro_kit::diag::ErrorKind;
use macro_kit::shape::{classify, directive_pairs, find_directive, in_config, Shape};
use macro_kit::syntax::{
    render_type, write_segment, write_type, AttrArgs, Attribute, Field, GenericParam, Generics,
    Item, ItemBody, ParamKind, PathSegment, TypeExpr,
};
use macro_kit::token::{Span, TokenTree};

fn sp(id: u64) -> Span {
    Span { id }
}

fn seg(name: &str, args: Vec<TypeExpr>) -> PathSegment {
    PathSegment { ident: name.to_string(), args }
}

fn path(name: &str, args: Vec<TypeExpr>) -> TypeExpr {
    TypeExpr::Path { leading_colon: false, segments: vec![seg(name, args)] }
}

fn plain(name: &str) -> TypeExpr {
    path(name, vec![])
}

fn assoc(param: &str, name: &str) -> TypeExpr {
    TypeExpr::Path { leading_colon: false, segments: vec![seg(param, vec![]), seg(name, vec![])] }
}

fn pairs(items: &[(&str, &str)]) -> Vec<TokenTree> {
    let mut tokens = Vec::new();
    for (k, (key, literal)) in items.iter().enumerate() {
        if k > 0 {
            tokens.push(TokenTree::Punct { ch: ',', joint: false, span: sp(0) });
        }
        tokens.push(TokenTree::Ident { name: key.to_string(), span: sp(0) });
        tokens.push(TokenTree::Punct { ch: '=', joint: false, span: sp(0) });
        tokens.push(TokenTree::Literal { text: literal.to_string(), span: sp(0) });
    }
    tokens
}

fn config(items: &[(&str, &str)]) -> Attribute {
    Attribute { path: vec!["config".to_string()], args: AttrArgs::List(pairs(items)), span: sp(7) }
}

fn field(name: &str, ty: TypeExpr, attrs: Vec<Attribute>) -> Field {
    Field { name: name.to_string(), ty, attrs, span: sp(2) }
}

fn param(kind: ParamKind, name: &str, bounds: &str) -> GenericParam {
    GenericParam { kind, name: name.to_string(), bounds: bounds.to_string() }
}

fn strukt(name: &str, params: Vec<GenericParam>, predicates: &[&str], fields: Vec<Field>) -> Item {
    Item {
        name: name.to_string(),
        attrs: vec![],
        generics: Generics {
            params,
            predicates: predicates.iter().map(|s| s.to_string()).collect(),
        },
        body: ItemBody::NamedStruct(fields),
        span: sp(1),
    }
}

fn body(name: &str, lines: &[&str]) -> String {
    let mut out = String::new();
    out.push_str(
        " {\n    fn fmt(&self, f: &mut std::fmt::Formatter<'_>) -> std::fmt::Result {\n        f.debug_struct(\"",
    );
    out.push_str(name);
    out.push_str("\")\n");
    for line in lines {
        out.push_str("            ");
        out.push_str(line);
        out.push('\n');
    }
    out.push_str("            .finish()\n    }\n}\n");
    out
}

#[test]
fn debug_for_a_struct_without_generics() {
    let input = strukt(
        "Field",
        vec![],
        &[],
        vec![
            field("name", TypeExpr::Other { text: "&'static str".to_string(), nested: vec![] }, vec![]),
            field("bitmask", plain("u8"), vec![config(&[("format", "\"0b{:08b}\"")])]),
        ],
    );
    let out = macro_kit::debug::derive(&input).unwrap();
    let expected = format!(
        "impl std::fmt::Debug for Field{}",
        body(
            "Field",
            &[
                ".field(\"name\", &self.name)",
                ".field(\"bitmask\", &format_args!(\"0b{:08b}\", &self.bitmask))",
            ]
        )
    );
    assert_eq!(out, expected);
}

#[test]
fn parameter_in_a_plain_field_gets_the_bound() {
    let input = strukt(
        "Field",
        vec![param(ParamKind::Type, "T", "")],
        &[],
        vec![field("value", plain("T"), vec![])],
    );
    let out = do_expand(&input).unwrap();
    let expected = format!(
        "impl<T: std::fmt::Debug> std::fmt::Debug for Field<T>{}",
        body("Field", &[".field(\"value\", &self.value)"])
    );
    assert_eq!(out, expected);
    assert_eq!(get_none_phantom_generic_param_arr(&input), vec![true]);
}

#[test]
fn parameter_only_in_a_marker_gets_no_bound() {
    let input = strukt(
        "Field",
        vec![param(ParamKind::Type, "T", ""), param(ParamKind::Type, "U", "Clone")],
        &[],
        vec![
            field("marker", path("PhantomData", vec![plain("T")]), vec![]),
            field("string", plain("U"), vec![]),
        ],
    );
    assert_eq!(get_none_phantom_generic_param_arr(&input), vec![false, true]);
    let out = do_expand(&input).unwrap();
    let expected = format!(
        "impl<T, U: Clone + std::fmt::Debug> std::fmt::Debug for Field<T, U>{}",
        body("Field", &[".field(\"marker\", &self.marker)", ".field(\"string\", &self.string)"])
    );
    assert_eq!(out, expected);
}

#[test]
fn marker_is_known_by_the_last_segment_of_its_path() {
    let full = TypeExpr::Path {
        leading_colon: true,
        segments: vec![seg("std", vec![]), seg("marker", vec![]), seg("PhantomData", vec![plain("T")])],
    };
    assert!(!mentions_param(&full, "T"));
    assert!(mentions_param(&path("Box", vec![plain("T")]), "T"));
    assert!(!mentions_param(&path("Box", vec![path("PhantomData", vec![plain("T")])]), "T"));
    assert!(mentions_param(
        &path("HashMap", vec![plain("K"), path("Vec", vec![plain("T")])]),
        "T"
    ));
    assert!(mentions_param(
        &TypeExpr::Other { text: "&'a [T]".to_string(), nested: vec![plain("T")] },
        "T"
    ));
    assert!(!mentions_param(&assoc("T", "Value"), "T"));
    assert!(!mentions_param(&plain("Tee"), "T"));
    assert!(mentions_param_in(&vec![plain("u8"), plain("T")], "T"));
    assert!(!mentions_param_in(&vec![], "T"));
}

#[test]
fn parameter_used_through_an_associated_type_bounds_the_path() {
    let input = strukt(
        "Field",
        vec![param(ParamKind::Type, "T", "Trait")],
        &[],
        vec![field("values", path("Vec", vec![assoc("T", "Value")]), vec![])],
    );
    assert_eq!(get_none_phantom_generic_param_arr(&input), vec![false]);
    let out = do_expand(&input).unwrap();
    let expected = format!(
        "impl<T: Trait> std::fmt::Debug for Field<T> where T::Value: std::fmt::Debug{}",
        body("Field", &[".field(\"values\", &self.values)"])
    );
    assert_eq!(out, expected);
}

#[test]
fn parameter_used_both_ways_gets_both() {
    let input = strukt(
        "Pair",
        vec![
            param(ParamKind::Lifetime, "'a", ""),
            param(ParamKind::Type, "T", ""),
            param(ParamKind::Const, "N", "usize"),
        ],
        &["T: Trait"],
        vec![
            field("own", plain("T"), vec![]),
            field(
                "theirs",
                TypeExpr::Other {
                    text: "&'a [T::Value; N]".to_string(),
                    nested: vec![assoc("T", "Value")],
                },
                vec![],
            ),
            field("again", path("Option", vec![assoc("T", "Value")]), vec![]),
            field("far", path("PhantomData", vec![assoc("T", "Far")]), vec![]),
            field("not_ours", assoc("U", "Value"), vec![]),
        ],
    );
    let out = do_expand(&input).unwrap();
    let lines = [
        ".field(\"own\", &self.own)",
        ".field(\"theirs\", &self.theirs)",
        ".field(\"again\", &self.again)",
        ".field(\"far\", &self.far)",
        ".field(\"not_ours\", &self.not_ours)",
    ];
    let expected = format!(
        "impl<'a, T: std::fmt::Debug, const N: usize> std::fmt::Debug for Pair<'a, T, N> where T: Trait, T::Value: std::fmt::Debug, T::Value: std::fmt::Debug, T::Far: std::fmt::Debug{}",
        body("Pair", &lines)
    );
    assert_eq!(out, expected);
}

#[test]
fn supplied_clause_takes_the_place_of_the_analysis() {
    let mut input = strukt(
        "Wrapper",
        vec![param(ParamKind::Type, "T", "Trait"), param(ParamKind::Type, "U", "")],
        &[],
        vec![
            field("field", path("Field", vec![plain("T")]), vec![]),
            field("other", plain("U"), vec![]),
            field("more", assoc("T", "More"), vec![]),
        ],
    );
    input.attrs = vec![config(&[("bound", "\"T::Value: \\\"x\\\".len() + Debug\"")])];
    let out = do_expand(&input).unwrap();
    let lines = [
        ".field(\"field\", &self.field)",
        ".field(\"other\", &self.other)",
        ".field(\"more\", &self.more)",
    ];
    let expected = format!(
        "impl<T: Trait, U> std::fmt::Debug for Wrapper<T, U> where T::Value: \"x\".len() + Debug{}",
        body("Wrapper", &lines)
    );
    assert_eq!(out, expected);
    let (flags, extra) = plan_bounds(&input, Some("X: Y".to_string()));
    assert_eq!(flags, vec![false, false]);
    assert_eq!(extra, vec!["X: Y".to_string()]);
    let (flags, extra) = plan_bounds(&input, None);
    assert_eq!(flags, vec![true, true]);
    assert_eq!(extra, vec!["T::More: std::fmt::Debug".to_string()]);
}

#[test]
fn lifetimes_and_constants_get_no_bound() {
    let input = strukt(
        "S",
        vec![
            param(ParamKind::Lifetime, "'a", "'b"),
            param(ParamKind::Lifetime, "'b", ""),
            param(ParamKind::Const, "T", "usize"),
        ],
        &[],
        vec![field("x", plain("T"), vec![])],
    );
    assert_eq!(get_none_phantom_generic_param_arr(&input), vec![false, false, false]);
    let out = do_expand(&input).unwrap();
    assert!(out.starts_with(
        "impl<'a: 'b, 'b, const T: usize> std::fmt::Debug for S<'a, 'b, T> {\n"
    ));
    assert!(type_param_names(&input.generics).is_empty());
}

#[test]
fn format_is_the_last_string_literal_given() {
    let f = field(
        "x",
        plain("u8"),
        vec![
            config(&[("format", "\"{:?}\""), ("other", "1"), ("format", "r\"{:x}\"")]),
            config(&[("format", "7")]),
            Attribute { path: vec!["config".to_string()], args: AttrArgs::Empty, span: sp(3) },
            Attribute {
                path: vec!["other".to_string()],
                args: AttrArgs::List(pairs(&[("format", "\"no\"")])),
                span: sp(3),
            },
        ],
    );
    let d = get_field_info(&f);
    assert_eq!(d.format.as_deref(), Some("r\"{:x}\""));
    assert!(d.accumulator.is_none());
    assert_eq!(d.shape, Shape::Plain);
    assert_eq!(find_directive(&f.attrs, "format").map(|s| s.as_str()), Some("r\"{:x}\""));
    assert_eq!(find_directive(&f.attrs, "other"), None);
    assert_eq!(find_directive(&f.attrs, "absent"), None);
}

#[test]
fn malformed_list_gives_no_format() {
    let mut tokens = pairs(&[("format", "\"{:?}\"")]);
    tokens.push(TokenTree::Ident { name: "stray".to_string(), span: sp(0) });
    let broken =
        Attribute { path: vec!["config".to_string()], args: AttrArgs::List(tokens), span: sp(3) };
    assert!(in_config(&broken));
    assert!(directive_pairs(&broken).is_none());
    let f = field("x", plain("u8"), vec![broken]);
    assert!(get_field_info(&f).format.is_none());
    let good = config(&[("a", "1"), ("b", "\"two\"")]);
    let found = directive_pairs(&good).unwrap();
    assert_eq!(found.len(), 2);
    assert_eq!((found[1].0.as_str(), found[1].1.as_str()), ("b", "\"two\""));
}

#[test]
fn anything_but_a_struct_with_named_fields_has_no_debug() {
    for body in [ItemBody::TupleStruct, ItemBody::UnitStruct, ItemBody::Enum(vec![]), ItemBody::Union] {
        let mut input = strukt("S", vec![param(ParamKind::Type, "T", "")], &[], vec![]);
        input.body = body;
        let err = macro_kit::debug::derive(&input).unwrap_err();
        assert_eq!(err.kind, ErrorKind::StructuralMismatch);
        assert_eq!(err.span, sp(1));
        assert_eq!(err.message, "not found fields named");
        assert!(get_field_info_arr(&input).is_err());
        assert_eq!(get_none_phantom_generic_param_arr(&input), vec![false]);
    }
}

#[test]
fn visitor_collects_associated_types_in_order() {
    let ty = path(
        "Map",
        vec![
            assoc("T", "Key"),
            TypeExpr::Other {
                text: "(U::A, V::B, T)".to_string(),
                nested: vec![assoc("U", "A"), assoc("V", "B"), plain("T")],
            },
        ],
    );
    let nested = TypeExpr::Path {
        leading_colon: false,
        segments: vec![seg("T", vec![assoc("U", "In")]), seg("Out", vec![assoc("T", "Deep")])],
    };
    let mut visitor = AssociatedTypeVisiter {
        generic_type_arr: vec!["T".to_string(), "U".to_string()],
        associated_type_map: vec![],
    };
    assert!(visitor.knows("U"));
    assert!(!visitor.knows("V"));
    visitor.visit_type_path(&ty);
    visitor.visit_type_path(&nested);
    let found: Vec<String> = visitor.associated_type_map.iter().map(|t| render_type(t)).collect();
    assert_eq!(found, vec!["T::Key", "U::A", "T<U::In>::Out<T::Deep>", "U::In", "T::Deep"]);
    let types = vec![assoc("U", "X"), plain("U")];
    visitor.visit_types(&types);
    assert_eq!(visitor.associated_type_map.len(), 6);
}

#[test]
fn associated_types_of_the_fields() {
    let generics = Generics {
        params: vec![
            param(ParamKind::Type, "T", ""),
            param(ParamKind::Lifetime, "'a", ""),
            param(ParamKind::Type, "U", ""),
        ],
        predicates: vec![],
    };
    assert_eq!(type_param_names(&generics), vec!["T".to_string(), "U".to_string()]);
    let fields = vec![
        field("a", assoc("U", "A"), vec![]),
        field("b", plain("T"), vec![]),
        field("c", path("Vec", vec![assoc("T", "C")]), vec![]),
    ];
    let found: Vec<String> =
        associated_types(&generics, &fields).iter().map(|t| render_type(t)).collect();
    assert_eq!(found, vec!["U::A", "T::C"]);
}

#[test]
fn types_are_written_as_paths_with_their_arguments() {
    let ty = TypeExpr::Path {
        leading_colon: true,
        segments: vec![
            seg("std", vec![]),
            seg("collections", vec![]),
            seg(
                "HashMap",
                vec![
                    plain("String"),
                    path("Vec", vec![TypeExpr::Other { text: "&'a str".to_string(), nested: vec![] }]),
                ],
            ),
        ],
    };
    assert_eq!(render_type(&ty), "::std::collections::HashMap<String, Vec<&'a str>>");
    let mut out = String::from("x: ");
    write_type(&plain("u8"), &mut out);
    out.push_str(", y: ");
    write_segment(&seg("Option", vec![plain("T")]), &mut out);
    assert_eq!(out, "x: u8, y: Option<T>");
    assert_eq!(
        render_type(&TypeExpr::Path { leading_colon: false, segments: vec![] }),
        ""
    );
    let list = path("Vec", vec![plain("u8"), plain("A")]);
    let (shape, elem) = classify(&list);
    assert_eq!(shape, Shape::Repeated);
    assert_eq!(render_type(elem), "u8");
}

#[test]
fn emitter_takes_the_bounds_as_given() {
    let input = strukt(
        "S",
        vec![param(ParamKind::Type, "T", "")],
        &["T: Copy"],
        vec![field("x", plain("u8"), vec![])],
    );
    let fields = get_field_info_arr(&input).unwrap();
    let out = impl_debug(
        &input.name,
        &input.generics,
        &fields,
        &vec![true],
        &vec!["A: B".to_string(), "C: D".to_string()],
    );
    assert!(out.starts_with(
        "impl<T: std::fmt::Debug> std::fmt::Debug for S<T> where T: Copy, A: B, C: D {\n"
    ));
}

#[test]
fn analysis_ends_in_one_of_three_classes() {
    let input = strukt(
        "S",
        vec![
            param(ParamKind::Type, "A", ""),
            param(ParamKind::Type, "B", ""),
            param(ParamKind::Type, "C", ""),
            param(ParamKind::Type, "D", ""),
            param(ParamKind::Type, "E", ""),
            param(ParamKind::Lifetime, "'a", ""),
            param(ParamKind::Const, "N", "usize"),
        ],
        &[],
        vec![
            field("a", path("Vec", vec![plain("A")]), vec![]),
            field("b", path("PhantomData", vec![plain("B")]), vec![]),
            field("c", assoc("C", "Out"), vec![]),
            field("d", plain("D"), vec![]),
            field("d2", assoc("D", "Out"), vec![]),
            field("n", plain("N"), vec![]),
        ],
    );
    assert_eq!(
        classify_params(&input),
        vec![
            BoundClass::Bounded,
            BoundClass::Exempt,
            BoundClass::Projected,
            BoundClass::Bounded,
            BoundClass::Exempt,
            BoundClass::Exempt,
            BoundClass::Exempt,
        ]
    );
    let mut other = strukt("S", vec![param(ParamKind::Type, "A", "")], &[], vec![]);
    other.body = ItemBody::TupleStruct;
    assert_eq!(classify_params(&other), vec![BoundClass::Exempt]);
    if let ItemBody::NamedStruct(fields) = &input.body {
        let found = collect_associated(vec!["D".to_string()], fields);
        assert_eq!(found.len(), 1);
        assert_eq!(render_type(found[0]), "D::Out");
    }
}
