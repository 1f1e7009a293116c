use macro_kit::builder::{do_extend, get_real_field_info, get_struct_fields};
use macro_kit::diag::ErrorKind;
use macro_kit::shape::Shape;
use macro_kit::syntax::{
    AttrArgs, Attribute, Field, Generics, Item, ItemBody, PathSegment, TypeExpr, Variant,
};
use macro_kit::token::{Span, TokenTree};

fn sp(id: u64) -> Span {
    Span { id }
}

fn path(name: &str, args: Vec<TypeExpr>) -> TypeExpr {
    TypeExpr::Path {
        leading_colon: false,
        segments: vec![PathSegment { ident: name.to_string(), args }],
    }
}

fn plain(name: &str) -> TypeExpr {
    path(name, vec![])
}

fn config(key: &str, literal: &str, id: u64) -> Attribute {
    Attribute {
        path: vec!["config".to_string()],
        args: AttrArgs::List(vec![
            TokenTree::Ident { name: key.to_string(), span: sp(id) },
            TokenTree::Punct { ch: '=', joint: false, span: sp(id) },
            TokenTree::Literal { text: literal.to_string(), span: sp(id) },
        ]),
        span: sp(id),
    }
}

fn field(name: &str, ty: TypeExpr, attrs: Vec<Attribute>, id: u64) -> Field {
    Field { name: name.to_string(), ty, attrs, span: sp(id) }
}

fn item(name: &str, body: ItemBody) -> Item {
    Item {
        name: name.to_string(),
        attrs: vec![],
        generics: Generics { params: vec![], predicates: vec![] },
        body,
        span: sp(1),
    }
}

const MISSING_HEAD: &str = "        let mut ";

fn required_step(name: &str) -> String {
    format!(
        "{}{n};\n        if let Some(v) = self.{n}.take() {{\n            {n} = v;\n        }} else {{\n            let err = format!(\"{{}} field is missing\", stringify!({n}));\n            return std::result::Result::Err(err.into());\n        }}\n",
        MISSING_HEAD,
        n = name
    )
}

fn setter(name: &str, ty: &str) -> String {
    format!(
        "    fn {n}(&mut self, {n}: {t}) -> &mut Self {{\n        self.{n} = std::option::Option::Some({n});\n        self\n    }}\n",
        n = name,
        t = ty
    )
}

fn accumulator(each: &str, name: &str, ty: &str) -> String {
    format!(
        "    fn {e}(&mut self, v: {t}) -> &mut Self {{\n        if let Some(ref mut arr) = self.{n} {{\n            arr.push(v);\n        }} else {{\n            self.{n} = Some(vec![v]);\n        }}\n        self\n    }}\n",
        e = each,
        n = name,
        t = ty
    )
}

#[test]
fn builder_for_plain_optional_and_repeated_fields() {
    let input = item(
        "Command",
        ItemBody::NamedStruct(vec![
            field("executable", plain("String"), vec![], 2),
            field(
                "args",
                path("Vec", vec![plain("String")]),
                vec![config("accumulator", "\"arg\"", 3)],
                4,
            ),
            field("current_dir", path("Option", vec![plain("String")]), vec![], 5),
        ]),
    );
    let out = macro_kit::builder::derive(&input).unwrap();
    let mut expected = String::new();
    expected.push_str("pub struct CommandBuilder {\n");
    expected.push_str("    executable: std::option::Option<String>,\n");
    expected.push_str("    args: std::option::Option<Vec<String>>,\n");
    expected.push_str("    current_dir: std::option::Option<String>,\n");
    expected.push_str("}\n\n");
    expected.push_str("impl CommandBuilder {\n");
    expected.push_str(&setter("executable", "String"));
    expected.push_str(&accumulator("arg", "args", "String"));
    expected.push_str(&setter("args", "Vec<String>"));
    expected.push_str(&setter("current_dir", "String"));
    expected.push_str(
        "    fn build(&mut self) -> std::result::Result<Command, std::boxed::Box<dyn std::error::Error>> {\n",
    );
    expected.push_str(&required_step("executable"));
    expected.push_str(&required_step("args"));
    expected.push_str("        let current_dir = self.current_dir.take();\n");
    expected.push_str("        return std::result::Result::Ok(Command {\n");
    expected.push_str("            executable,\n            args,\n            current_dir,\n");
    expected.push_str("        });\n    }\n}\n\n");
    expected.push_str("impl Command {\n    fn builder() -> CommandBuilder {\n        CommandBuilder {\n");
    expected.push_str("            executable: None,\n");
    expected.push_str("            args: Some(vec![]),\n");
    expected.push_str("            current_dir: None,\n");
    expected.push_str("        }\n    }\n}\n");
    assert_eq!(out, expected);
}

#[test]
fn accumulator_with_the_name_of_the_field_leaves_no_setter() {
    let input = item(
        "Env",
        ItemBody::NamedStruct(vec![field(
            "env",
            path("Vec", vec![plain("String")]),
            vec![config("accumulator", "\"env\"", 3)],
            4,
        )]),
    );
    let out = do_extend(&input).unwrap();
    assert!(out.contains(&accumulator("env", "env", "String")));
    assert!(!out.contains("fn env(&mut self, env: Vec<String>)"));
    assert_eq!(out.matches("fn env(").count(), 1);
}

#[test]
fn accumulator_on_a_field_that_is_not_repeated_is_passed_over() {
    let input = item(
        "One",
        ItemBody::NamedStruct(vec![field(
            "name",
            plain("String"),
            vec![config("accumulator", "\"part\"", 3)],
            4,
        )]),
    );
    let out = macro_kit::builder::derive(&input).unwrap();
    assert!(!out.contains("fn part("));
    assert!(out.contains(&setter("name", "String")));
}

#[test]
fn accumulator_name_is_the_value_of_the_literal() {
    let f = field(
        "args",
        path("Vec", vec![plain("String")]),
        vec![config("accumulator", "r#\"arg\"#", 3)],
        4,
    );
    let d = get_real_field_info(&f).unwrap();
    assert_eq!(d.accumulator.as_deref(), Some("arg"));
    assert_eq!(d.shape, Shape::Repeated);
    assert!(d.format.is_none());
}

#[test]
fn last_accumulator_wins() {
    let f = field(
        "args",
        path("Vec", vec![plain("String")]),
        vec![config("accumulator", "\"one\"", 3), config("accumulator", "\"two\"", 4)],
        5,
    );
    let d = get_real_field_info(&f).unwrap();
    assert_eq!(d.accumulator.as_deref(), Some("two"));
}

#[test]
fn shapes_follow_the_last_segment_of_the_path() {
    let full = TypeExpr::Path {
        leading_colon: false,
        segments: vec![
            PathSegment { ident: "std".to_string(), args: vec![] },
            PathSegment { ident: "option".to_string(), args: vec![] },
            PathSegment { ident: "Option".to_string(), args: vec![plain("u8")] },
        ],
    };
    let f = field("a", full, vec![], 2);
    let d = get_real_field_info(&f).unwrap();
    assert_eq!(d.shape, Shape::Optional);
    assert!(matches!(d.elem, TypeExpr::Path { segments, .. } if segments[0].ident == "u8"));

    let other = TypeExpr::Other { text: "&'static str".to_string(), nested: vec![plain("str")] };
    let f = field("b", other, vec![], 3);
    let d = get_real_field_info(&f).unwrap();
    assert_eq!(d.shape, Shape::Plain);
    assert!(matches!(d.elem, TypeExpr::Other { text, .. } if text == "&'static str"));

    let bare = field("c", plain("Vec"), vec![], 4);
    let d = get_real_field_info(&bare).unwrap();
    assert_eq!(d.shape, Shape::Repeated);
    assert!(matches!(d.elem, TypeExpr::Path { segments, .. } if segments[0].ident == "Vec"));
}

#[test]
fn unknown_key_is_rejected_at_the_attribute() {
    let input = item(
        "Command",
        ItemBody::NamedStruct(vec![
            field("executable", plain("String"), vec![], 2),
            field(
                "args",
                path("Vec", vec![plain("String")]),
                vec![config("eac", "\"arg\"", 30)],
                4,
            ),
        ]),
    );
    let err = macro_kit::builder::derive(&input).unwrap_err();
    assert_eq!(err.kind, ErrorKind::UnsupportedConstruct);
    assert_eq!(err.span, sp(30));
    assert_eq!(err.message, "expected `config(accumulator = \"...\")`");
}

#[test]
fn value_that_is_no_string_literal_is_rejected() {
    let f = field("args", path("Vec", vec![plain("String")]), vec![config("accumulator", "7", 9)], 4);
    let err = get_real_field_info(&f).unwrap_err();
    assert_eq!(err.kind, ErrorKind::UnsupportedConstruct);
    assert_eq!(err.span, sp(9));
}

#[test]
fn config_attribute_without_a_list_is_rejected() {
    let bare = Attribute { path: vec!["config".to_string()], args: AttrArgs::Empty, span: sp(8) };
    let f = field("a", plain("u8"), vec![bare], 4);
    let err = get_real_field_info(&f).unwrap_err();
    assert_eq!(err.kind, ErrorKind::UnsupportedConstruct);
    assert_eq!(err.span, sp(8));
}

#[test]
fn attributes_of_other_namespaces_are_passed_over() {
    let doc = Attribute {
        path: vec!["doc".to_string()],
        args: AttrArgs::Value(vec![TokenTree::Literal { text: "\"x\"".to_string(), span: sp(8) }]),
        span: sp(8),
    };
    let f = field("a", plain("u8"), vec![doc], 4);
    let d = get_real_field_info(&f).unwrap();
    assert!(d.accumulator.is_none());
}

#[test]
fn empty_list_and_trailing_comma_are_accepted() {
    let empty = Attribute {
        path: vec!["config".to_string()],
        args: AttrArgs::List(vec![]),
        span: sp(8),
    };
    let mut with_comma = config("accumulator", "\"x\"", 9);
    if let AttrArgs::List(tokens) = &mut with_comma.args {
        tokens.push(TokenTree::Punct { ch: ',', joint: false, span: sp(9) });
    }
    let f = field("a", path("Vec", vec![plain("u8")]), vec![empty, with_comma], 4);
    let d = get_real_field_info(&f).unwrap();
    assert_eq!(d.accumulator.as_deref(), Some("x"));
}

#[test]
fn anything_but_a_struct_with_named_fields_is_rejected() {
    for body in [
        ItemBody::TupleStruct,
        ItemBody::UnitStruct,
        ItemBody::Enum(vec![Variant { name: "A".to_string(), span: sp(2) }]),
        ItemBody::Union,
        ItemBody::Other,
    ] {
        let input = item("Thing", body);
        let err = get_struct_fields(&input).unwrap_err();
        assert_eq!(err.kind, ErrorKind::StructuralMismatch);
        assert_eq!(err.span, sp(1));
        assert_eq!(err.message, "Must define on a Struct with named fields");
        assert!(macro_kit::builder::derive(&input).is_err());
    }
}

#[test]
fn struct_without_fields_gets_an_empty_builder() {
    let input = item("Nothing", ItemBody::NamedStruct(vec![]));
    let out = macro_kit::builder::derive(&input).unwrap();
    assert!(out.starts_with("pub struct NothingBuilder {\n}\n"));
    assert!(out.contains("        return std::result::Result::Ok(Nothing {\n        });\n"));
}
