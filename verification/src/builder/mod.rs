//! The builder synthesizer: for a struct with named fields, a companion
//! builder type with one slot per field, setters, accumulators and a
//! validating finalizer.

use vstd::prelude::*;

use crate::diag::{reported, Diagnostic, ErrorKind, Report};
use crate::lit::{lit_str_value, string_value};
use crate::shape::{
    attr_pairs, classify, directive_pairs, each_of, element_of, in_config, is_config,
    named_fields, shape_of, FieldDescriptor, FieldPlan, Pair, Shape,
};
use crate::syntax::{render_type, type_text, Attribute, Field, Item, ItemBody};
use crate::text::{append_all, concat, render, same_text, texts};

pub mod model;

verus! {

/// What the user is told where a `config` attribute on a field is not of the
/// form that the builder knows.
pub open spec fn usage() -> Seq<char> {
    "expected `config(accumulator = \"...\")`"@
}

/// What the user is told where the input is no struct with named fields.
pub open spec fn not_a_struct() -> Seq<char> {
    "Must define on a Struct with named fields"@
}

/// Whether every pair of a directive list is `accumulator = "..."`.
pub open spec fn accumulator_pairs(pairs: Seq<Pair>) -> bool {
    forall|k: int|
        0 <= k < pairs.len() ==> (#[trigger] pairs[k]).0 == "accumulator"@ && lit_str_value(
            pairs[k].1,
        ) is Some
}

/// Whether the builder accepts an attribute of a field: every attribute
/// outside the namespace `config`, and inside it only lists of
/// `accumulator = "..."`.
pub open spec fn attr_accepted(attr: Attribute) -> bool {
    is_config(attr) ==> attr_pairs(attr) is Some && accumulator_pairs(attr_pairs(attr).unwrap())
}

/// The accumulator that one accepted attribute names, if it names one: the
/// value of its last pair.
pub open spec fn attr_accumulator(attr: Attribute) -> Option<Seq<char>> {
    if is_config(attr) && attr_pairs(attr) is Some && attr_pairs(attr).unwrap().len() > 0 {
        lit_str_value(attr_pairs(attr).unwrap().last().1)
    } else {
        None
    }
}

/// The accumulator that the first `n` attributes of a field ask for: the
/// last one named wins.
pub open spec fn accumulator_upto(attrs: Seq<Attribute>, n: nat) -> Option<Seq<char>>
    decreases n,
{
    if n == 0 || n > attrs.len() {
        None
    } else if attr_accumulator(attrs[n - 1]) is Some {
        attr_accumulator(attrs[n - 1])
    } else {
        accumulator_upto(attrs, (n - 1) as nat)
    }
}

/// The index of the first attribute, from `i` on, that the builder does not
/// accept; the number of attributes where it accepts them all.
pub open spec fn first_rejected(attrs: Seq<Attribute>, i: int) -> int
    decreases attrs.len() - i,
{
    if i < 0 || i >= attrs.len() {
        attrs.len() as int
    } else if attr_accepted(attrs[i]) {
        first_rejected(attrs, i + 1)
    } else {
        i
    }
}

/// What the builder goes by for the field `f`: its name, the shape and the
/// element type of its declared type, and the accumulator that its
/// attributes name.
pub open spec fn plan_of(f: Field) -> FieldPlan {
    FieldPlan {
        name: f.name@,
        shape: shape_of(f.ty),
        elem: type_text(element_of(f.ty)),
        accumulator: accumulator_upto(f.attrs@, f.attrs@.len()),
        format: None,
    }
}

/// What the builder goes by for each of `fields`, in order.
pub open spec fn plans_of(fields: Seq<Field>) -> Seq<FieldPlan> {
    Seq::new(fields.len(), |k: int| plan_of(fields[k]))
}

/// Whether `d` is what the builder knows of the field `f`.
pub open spec fn describes(d: FieldDescriptor, f: Field) -> bool {
    &&& *d.field == f
    &&& d.wf()
    &&& d.deep_view() == plan_of(f)
}

/// Whether `ds` describes the fields `fields`, one by one.
pub open spec fn describes_all(ds: Seq<FieldDescriptor>, fields: Seq<Field>) -> bool {
    &&& ds.len() == fields.len()
    &&& forall|k: int| 0 <= k < ds.len() ==> describes(#[trigger] ds[k], fields[k])
}

/// What is wrong with the attributes of a field, if anything: the first of
/// them that the builder does not accept.
pub open spec fn field_failure(f: Field) -> Option<Report> {
    let bad = first_rejected(f.attrs@, 0);
    if bad < f.attrs@.len() {
        Some(
            Report {
                kind: ErrorKind::UnsupportedConstruct,
                span: f.attrs@[bad].span,
                message: usage(),
            },
        )
    } else {
        None
    }
}

/// The index of the first field, from `i` on, that has an attribute which
/// the builder does not accept; the number of fields where there is none.
pub open spec fn first_bad_field(fields: Seq<Field>, i: int) -> int
    decreases fields.len() - i,
{
    if i < 0 || i >= fields.len() {
        fields.len() as int
    } else if field_failure(fields[i]) is None {
        first_bad_field(fields, i + 1)
    } else {
        i
    }
}

/// What is wrong with the input of the builder, if anything: it is no struct
/// with named fields, or one of its fields has an attribute that the builder
/// does not accept, of which the first is reported.
pub open spec fn failure(item: Item) -> Option<Report> {
    match named_fields(item) {
        None => Some(
            Report {
                kind: ErrorKind::StructuralMismatch,
                span: item.span,
                message: not_a_struct(),
            },
        ),
        Some(fields) => {
            let bad = first_bad_field(fields, 0);
            if bad < fields.len() {
                field_failure(fields[bad])
            } else {
                None
            }
        },
    }
}

/// Reads one attribute of the namespace `config`: the accumulator that it
/// names, or nothing where its list is empty. Fails where the builder does
/// not accept the attribute.
fn read_accumulator(attr: &Attribute) -> (r: Result<Option<String>, ()>)
    requires
        is_config(*attr),
    ensures
        r is Ok <==> attr_accepted(*attr),
        r is Ok ==> r.unwrap().deep_view() == attr_accumulator(*attr),
{
    let pairs = match directive_pairs(attr) {
        Some(pairs) => pairs,
        None => {
            return Err(());
        },
    };
    let ghost all = attr_pairs(*attr).unwrap();
    let mut found: Option<String> = None;
    let mut k: usize = 0;
    while k < pairs.len()
        invariant
            k <= pairs.len(),
            is_config(*attr),
            attr_pairs(*attr) == Some(all),
            all == crate::shape::pairs_view(pairs@),
            accumulator_pairs(all.take(k as int)),
            found.deep_view() == (if k > 0 {
                lit_str_value(all[k - 1].1)
            } else {
                None
            }),
        decreases pairs.len() - k,
    {
        let (key, literal) = pairs[k];
        if !same_text(key.as_str(), "accumulator") {
            assert(all[k as int].0 != "accumulator"@);
            return Err(());
        }
        match string_value(literal.as_str()) {
            Some(value) => {
                found = Some(value);
            },
            None => {
                assert(lit_str_value(all[k as int].1) is None);
                return Err(());
            },
        }
        assert forall|j: int| 0 <= j < k + 1 implies (#[trigger] all.take(k + 1)[j]).0
            == "accumulator"@ && lit_str_value(all.take(k + 1)[j].1) is Some by {
            if j < k {
                assert(all.take(k as int)[j] == all.take(k + 1)[j]);
            }
        }
        k += 1;
    }
    assert(all.take(pairs.len() as int) =~= all);
    Ok(found)
}

/// Describes one field: the shape of its type, its element type, and the
/// accumulator that its `config` attributes name. Fails at the first
/// attribute of the namespace `config` that is not a list of
/// `accumulator = "..."`.
pub fn get_real_field_info<'a>(f: &'a Field) -> (r: Result<FieldDescriptor<'a>, Diagnostic>)
    ensures
        reported(r.err(), field_failure(*f)),
        r is Ok ==> describes(r.unwrap(), *f),
{
    let (shape, elem) = classify(&f.ty);
    let mut each: Option<String> = None;
    let mut i: usize = 0;
    while i < f.attrs.len()
        invariant
            i <= f.attrs.len(),
            first_rejected(f.attrs@, 0) == first_rejected(f.attrs@, i as int),
            each.deep_view() == accumulator_upto(f.attrs@, i as nat),
        decreases f.attrs.len() - i,
    {
        let attr = &f.attrs[i];
        if in_config(attr) {
            match read_accumulator(attr) {
                Ok(Some(name)) => {
                    each = Some(name);
                },
                Ok(None) => {},
                Err(_) => {
                    let message = String::from_str("expected `config(accumulator = \"...\")`");
                    return Err(
                        Diagnostic::new(ErrorKind::UnsupportedConstruct, attr.span, message),
                    );
                },
            }
        }
        i += 1;
    }
    Ok(FieldDescriptor { field: f, shape, elem, accumulator: each, format: None })
}

/// Describes the fields of a struct with named fields, in declaration order.
/// Fails where the item is anything else, and at the first field that has an
/// attribute which the builder does not accept.
pub fn get_struct_fields<'a>(item: &'a Item) -> (r: Result<Vec<FieldDescriptor<'a>>, Diagnostic>)
    ensures
        reported(r.err(), failure(*item)),
        r is Ok ==> describes_all(r.unwrap()@, named_fields(*item).unwrap()),
{
    match &item.body {
        ItemBody::NamedStruct(named) => {
            let mut result: Vec<FieldDescriptor<'a>> = Vec::new();
            let mut i: usize = 0;
            while i < named.len()
                invariant
                    i <= named.len(),
                    named_fields(*item) == Some(named@),
                    first_bad_field(named@, 0) == first_bad_field(named@, i as int),
                    describes_all(result@, named@.take(i as int)),
                decreases named.len() - i,
            {
                match get_real_field_info(&named[i]) {
                    Ok(d) => {
                        result.push(d);
                    },
                    Err(e) => {
                        return Err(e);
                    },
                }
                i += 1;
            }
            assert(named@.take(named.len() as int) =~= named@);
            Ok(result)
        },
        _ => {
            let message = String::from_str("Must define on a Struct with named fields");
            Err(Diagnostic::new(ErrorKind::StructuralMismatch, item.span, message))
        },
    }
}


/// The type of what a slot holds when it is filled: a sequence of elements
/// for a repeated field, one element for any other.
pub open spec fn slot_type(d: FieldPlan) -> Seq<char> {
    if d.shape == Shape::Repeated {
        concat(seq!["Vec<"@, d.elem, ">"@])
    } else {
        d.elem
    }
}

/// Whether the builder has a method that appends one element to the slot of
/// this field.
pub open spec fn has_accumulator(d: FieldPlan) -> bool {
    d.shape == Shape::Repeated && d.accumulator is Some
}

/// Whether the builder has a setter for this field: always, unless the
/// accumulator of the field bears the field's own name.
pub open spec fn has_setter(d: FieldPlan) -> bool {
    !(has_accumulator(d) && d.accumulator.unwrap() == d.name)
}

/// The declaration of the slot of one field.
pub open spec fn slot_decl(d: FieldPlan) -> Seq<char> {
    concat(seq!["    "@, d.name, ": std::option::Option<"@, slot_type(d), ">,\n"@])
}

/// The declaration of the builder type: one optional slot per field.
pub open spec fn struct_builder_text(builder: Seq<char>, ds: Seq<FieldPlan>) -> Seq<char> {
    concat(
        seq![
            "pub struct "@,
            builder,
            " {\n"@,
            each_of(ds, ds.len(), |d: FieldPlan| slot_decl(d)),
            "}\n"@,
        ],
    )
}

/// The method that appends one element to the slot of a repeated field.
pub open spec fn accumulator_text(d: FieldPlan) -> Seq<char> {
    concat(
        seq![
            "    fn "@,
            d.accumulator.unwrap(),
            "(&mut self, v: "@,
            d.elem,
            ") -> &mut Self {\n        if let Some(ref mut arr) = self."@,
            d.name,
            " {\n            arr.push(v);\n        } else {\n            self."@,
            d.name,
            " = Some(vec![v]);\n        }\n        self\n    }\n"@,
        ],
    )
}

/// The method that stores a value in the slot of a field, in place of what
/// the slot held.
pub open spec fn setter_text(d: FieldPlan) -> Seq<char> {
    concat(
        seq![
            "    fn "@,
            d.name,
            "(&mut self, "@,
            d.name,
            ": "@,
            slot_type(d),
            ") -> &mut Self {\n        self."@,
            d.name,
            " = std::option::Option::Some("@,
            d.name,
            ");\n        self\n    }\n"@,
        ],
    )
}

/// The methods that the builder has for one field: the accumulator where
/// the field asks for one, then the setter unless the accumulator took its
/// name.
pub open spec fn methods_text(d: FieldPlan) -> Seq<char> {
    (if has_accumulator(d) {
        accumulator_text(d)
    } else {
        Seq::empty()
    }) + (if has_setter(d) {
        setter_text(d)
    } else {
        Seq::empty()
    })
}

/// What the finalizer does for one field: it takes what the slot holds and
/// fails where a slot that is not optional holds nothing.
pub open spec fn step_text(d: FieldPlan) -> Seq<char> {
    if d.shape == Shape::Optional {
        concat(
            seq![
                "        let "@,
                d.name,
                " = self."@,
                d.name,
                ".take();\n"@,
            ],
        )
    } else {
        concat(
            seq![
                "        let mut "@,
                d.name,
                ";\n        if let Some(v) = self."@,
                d.name,
                ".take() {\n            "@,
                d.name,
                " = v;\n        } else {\n            let err = format!(\"{} field is missing\", stringify!("@,
                d.name,
                "));\n            return std::result::Result::Err(err.into());\n        }\n"@,
            ],
        )
    }
}

/// One field in the literal that the finalizer returns.
pub open spec fn move_text(d: FieldPlan) -> Seq<char> {
    concat(seq!["            "@, d.name, ",\n"@])
}

/// The finalizer: one step per field, then the struct made of what the
/// steps took.
pub open spec fn build_text(target: Seq<char>, ds: Seq<FieldPlan>) -> Seq<char> {
    concat(
        seq![
            "    fn build(&mut self) -> std::result::Result<"@,
            target,
            ", std::boxed::Box<dyn std::error::Error>> {\n"@,
            each_of(ds, ds.len(), |d: FieldPlan| step_text(d)),
            "        return std::result::Result::Ok("@,
            target,
            " {\n"@,
            each_of(ds, ds.len(), |d: FieldPlan| move_text(d)),
            "        });\n    }\n"@,
        ],
    )
}

/// The methods of the builder type: those of each field, then the finalizer.
pub open spec fn struct_builder_impl_text(
    target: Seq<char>,
    builder: Seq<char>,
    ds: Seq<FieldPlan>,
) -> Seq<char> {
    concat(
        seq![
            "impl "@,
            builder,
            " {\n"@,
            each_of(ds, ds.len(), |d: FieldPlan| methods_text(d)),
            build_text(target, ds),
            "}\n"@,
        ],
    )
}

/// What a slot holds in a fresh builder: an empty sequence for a repeated
/// field, nothing for any other.
pub open spec fn init_text(d: FieldPlan) -> Seq<char> {
    concat(
        seq![
            "            "@,
            d.name,
            if d.shape == Shape::Repeated {
                ": Some(vec![]),\n"@
            } else {
                ": None,\n"@
            },
        ],
    )
}

/// The factory on the struct itself, which makes a fresh builder.
pub open spec fn struct_impl_text(
    target: Seq<char>,
    builder: Seq<char>,
    ds: Seq<FieldPlan>,
) -> Seq<char> {
    concat(
        seq![
            "impl "@,
            target,
            " {\n    fn builder() -> "@,
            builder,
            " {\n        "@,
            builder,
            " {\n"@,
            each_of(ds, ds.len(), |d: FieldPlan| init_text(d)),
            "        }\n    }\n}\n"@,
        ],
    )
}

/// Everything that the synthesizer emits for a struct named `target` with
/// the fields `ds`: the builder type, its methods, and the factory.
pub open spec fn builder_text(target: Seq<char>, ds: Seq<FieldPlan>) -> Seq<char> {
    let builder = target + "Builder"@;
    concat(
        seq![
            struct_builder_text(builder, ds),
            "\n"@,
            struct_builder_impl_text(target, builder, ds),
            "\n"@,
            struct_impl_text(target, builder, ds),
        ],
    )
}

/// The type of what the slot of a field holds, as a fresh string.
fn render_slot_type(d: &FieldDescriptor) -> (r: String)
    ensures
        r@ == slot_type(d.deep_view()),
{
    let elem = render_type(d.elem);
    match d.shape {
        Shape::Repeated => {
            let parts = vec!["Vec<", elem.as_str(), ">"];
            assert(texts(parts@) =~= seq!["Vec<"@, elem@, ">"@]);
            render(&parts)
        },
        _ => elem,
    }
}

/// Emits the declaration of the builder type.
pub fn struct_builder(builder_ident: &String, struct_fields: &Vec<FieldDescriptor>) -> (r: String)
    ensures
        r@ == struct_builder_text(builder_ident@, struct_fields.deep_view()),
{
    let ghost part = |d: FieldPlan| slot_decl(d);
    let mut inner = String::new();
    let mut i: usize = 0;
    while i < struct_fields.len()
        invariant
            i <= struct_fields.len(),
            part == (|d: FieldPlan| slot_decl(d)),
            inner@ == each_of(struct_fields.deep_view(), i as nat, part),
        decreases struct_fields.len() - i,
    {
        let f = &struct_fields[i];
        let ty = render_slot_type(f);
        let parts = vec!["    ", f.field.name.as_str(), ": std::option::Option<", ty.as_str(), ">,\n"];
        assert(texts(parts@) =~= seq![
            "    "@,
            f.field.name@,
            ": std::option::Option<"@,
            slot_type(f.deep_view()),
            ">,\n"@,
        ]);
        append_all(&mut inner, &parts);
        i += 1;
    }
    let parts = vec!["pub struct ", builder_ident.as_str(), " {\n", inner.as_str(), "}\n"];
    assert(texts(parts@) =~= seq![
        "pub struct "@,
        builder_ident@,
        " {\n"@,
        each_of(struct_fields.deep_view(), struct_fields@.len(), part),
        "}\n"@,
    ]);
    render(&parts)
}


/// Appends the methods that the builder has for one field.
fn write_methods(f: &FieldDescriptor, out: &mut String)
    ensures
        final(out)@ == old(out)@ + methods_text(f.deep_view()),
{
    let name = f.field.name.as_str();
    let mut is_same_name_gened = false;
    let ghost start = out@;
    match f.shape {
        Shape::Repeated => {
            match &f.accumulator {
                Some(each_name) => {
                    let elem = render_type(f.elem);
                    let parts = vec![
                        "    fn ",
                        each_name.as_str(),
                        "(&mut self, v: ",
                        elem.as_str(),
                        ") -> &mut Self {\n        if let Some(ref mut arr) = self.",
                        name,
                        " {\n            arr.push(v);\n        } else {\n            self.",
                        name,
                        " = Some(vec![v]);\n        }\n        self\n    }\n",
                    ];
                    assert(texts(parts@) =~= seq![
                        "    fn "@,
                        f.accumulator.unwrap()@,
                        "(&mut self, v: "@,
                        type_text(*f.elem),
                        ") -> &mut Self {\n        if let Some(ref mut arr) = self."@,
                        f.field.name@,
                        " {\n            arr.push(v);\n        } else {\n            self."@,
                        f.field.name@,
                        " = Some(vec![v]);\n        }\n        self\n    }\n"@,
                    ]);
                    append_all(out, &parts);
                    if same_text(each_name.as_str(), name) {
                        is_same_name_gened = true;
                    }
                },
                None => {},
            }
        },
        _ => {},
    }
    let ghost middle = out@;
    assert(middle =~= start + (if has_accumulator(f.deep_view()) {
        accumulator_text(f.deep_view())
    } else {
        Seq::empty()
    }));
    if !is_same_name_gened {
        let ty = render_slot_type(f);
        let parts = vec![
            "    fn ",
            name,
            "(&mut self, ",
            name,
            ": ",
            ty.as_str(),
            ") -> &mut Self {\n        self.",
            name,
            " = std::option::Option::Some(",
            name,
            ");\n        self\n    }\n",
        ];
        assert(texts(parts@) =~= seq![
            "    fn "@,
            f.field.name@,
            "(&mut self, "@,
            f.field.name@,
            ": "@,
            slot_type(f.deep_view()),
            ") -> &mut Self {\n        self."@,
            f.field.name@,
            " = std::option::Option::Some("@,
            f.field.name@,
            ");\n        self\n    }\n"@,
        ]);
        append_all(out, &parts);
    }
    assert(out@ =~= start + methods_text(f.deep_view()));
}

/// Appends what the finalizer does for one field.
fn write_step(f: &FieldDescriptor, out: &mut String)
    ensures
        final(out)@ == old(out)@ + step_text(f.deep_view()),
{
    let name = f.field.name.as_str();
    match f.shape {
        Shape::Optional => {
            let parts = vec!["        let ", name, " = self.", name, ".take();\n"];
            assert(texts(parts@) =~= seq![
                "        let "@,
                f.field.name@,
                " = self."@,
                f.field.name@,
                ".take();\n"@,
            ]);
            append_all(out, &parts);
        },
        _ => {
            let parts = vec![
                "        let mut ",
                name,
                ";\n        if let Some(v) = self.",
                name,
                ".take() {\n            ",
                name,
                " = v;\n        } else {\n            let err = format!(\"{} field is missing\", stringify!(",
                name,
                "));\n            return std::result::Result::Err(err.into());\n        }\n",
            ];
            assert(texts(parts@) =~= seq![
                "        let mut "@,
                f.field.name@,
                ";\n        if let Some(v) = self."@,
                f.field.name@,
                ".take() {\n            "@,
                f.field.name@,
                " = v;\n        } else {\n            let err = format!(\"{} field is missing\", stringify!("@,
                f.field.name@,
                "));\n            return std::result::Result::Err(err.into());\n        }\n"@,
            ]);
            append_all(out, &parts);
        },
    }
}

/// Emits the finalizer.
fn build_method(ident: &String, struct_fields: &Vec<FieldDescriptor>) -> (r: String)
    ensures
        r@ == build_text(ident@, struct_fields.deep_view()),
{
    let ghost step = |d: FieldPlan| step_text(d);
    let ghost moved = |d: FieldPlan| move_text(d);
    let mut build_inner = String::new();
    let mut inner = String::new();
    let mut i: usize = 0;
    while i < struct_fields.len()
        invariant
            i <= struct_fields.len(),
            step == (|d: FieldPlan| step_text(d)),
            moved == (|d: FieldPlan| move_text(d)),
            build_inner@ == each_of(struct_fields.deep_view(), i as nat, step),
            inner@ == each_of(struct_fields.deep_view(), i as nat, moved),
        decreases struct_fields.len() - i,
    {
        let f = &struct_fields[i];
        write_step(f, &mut build_inner);
        let parts = vec!["            ", f.field.name.as_str(), ",\n"];
        assert(texts(parts@) =~= seq!["            "@, f.field.name@, ",\n"@]);
        append_all(&mut inner, &parts);
        i += 1;
    }
    let parts = vec![
        "    fn build(&mut self) -> std::result::Result<",
        ident.as_str(),
        ", std::boxed::Box<dyn std::error::Error>> {\n",
        build_inner.as_str(),
        "        return std::result::Result::Ok(",
        ident.as_str(),
        " {\n",
        inner.as_str(),
        "        });\n    }\n",
    ];
    assert(texts(parts@) =~= seq![
        "    fn build(&mut self) -> std::result::Result<"@,
        ident@,
        ", std::boxed::Box<dyn std::error::Error>> {\n"@,
        each_of(struct_fields.deep_view(), struct_fields@.len(), step),
        "        return std::result::Result::Ok("@,
        ident@,
        " {\n"@,
        each_of(struct_fields.deep_view(), struct_fields@.len(), moved),
        "        });\n    }\n"@,
    ]);
    render(&parts)
}

/// Emits the methods of the builder type: for each field its accumulator
/// and its setter, then the finalizer.
pub fn struct_builder_impl(
    ident: &String,
    builder_ident: &String,
    struct_fields: &Vec<FieldDescriptor>,
) -> (r: String)
    ensures
        r@ == struct_builder_impl_text(ident@, builder_ident@, struct_fields.deep_view()),
{
    let ghost part = |d: FieldPlan| methods_text(d);
    let mut builder_impls = String::new();
    let mut i: usize = 0;
    while i < struct_fields.len()
        invariant
            i <= struct_fields.len(),
            part == (|d: FieldPlan| methods_text(d)),
            builder_impls@ == each_of(struct_fields.deep_view(), i as nat, part),
        decreases struct_fields.len() - i,
    {
        write_methods(&struct_fields[i], &mut builder_impls);
        i += 1;
    }
    let build = build_method(ident, struct_fields);
    let parts = vec![
        "impl ",
        builder_ident.as_str(),
        " {\n",
        builder_impls.as_str(),
        build.as_str(),
        "}\n",
    ];
    assert(texts(parts@) =~= seq![
        "impl "@,
        builder_ident@,
        " {\n"@,
        each_of(struct_fields.deep_view(), struct_fields@.len(), part),
        build_text(ident@, struct_fields.deep_view()),
        "}\n"@,
    ]);
    render(&parts)
}

/// Emits the factory on the struct itself.
pub fn struct_impl(
    ident: &String,
    builder_ident: &String,
    struct_fields: &Vec<FieldDescriptor>,
) -> (r: String)
    ensures
        r@ == struct_impl_text(ident@, builder_ident@, struct_fields.deep_view()),
{
    let ghost part = |d: FieldPlan| init_text(d);
    let mut inner = String::new();
    let mut i: usize = 0;
    while i < struct_fields.len()
        invariant
            i <= struct_fields.len(),
            part == (|d: FieldPlan| init_text(d)),
            inner@ == each_of(struct_fields.deep_view(), i as nat, part),
        decreases struct_fields.len() - i,
    {
        let f = &struct_fields[i];
        let init = match f.shape {
            Shape::Repeated => ": Some(vec![]),\n",
            _ => ": None,\n",
        };
        let parts = vec!["            ", f.field.name.as_str(), init];
        assert(texts(parts@) =~= seq![
            "            "@,
            f.field.name@,
            if f.shape == Shape::Repeated {
                ": Some(vec![]),\n"@
            } else {
                ": None,\n"@
            },
        ]);
        append_all(&mut inner, &parts);
        i += 1;
    }
    let parts = vec![
        "impl ",
        ident.as_str(),
        " {\n    fn builder() -> ",
        builder_ident.as_str(),
        " {\n        ",
        builder_ident.as_str(),
        " {\n",
        inner.as_str(),
        "        }\n    }\n}\n",
    ];
    assert(texts(parts@) =~= seq![
        "impl "@,
        ident@,
        " {\n    fn builder() -> "@,
        builder_ident@,
        " {\n        "@,
        builder_ident@,
        " {\n"@,
        each_of(struct_fields.deep_view(), struct_fields@.len(), part),
        "        }\n    }\n}\n"@,
    ]);
    render(&parts)
}

/// Synthesizes the builder of an item. On a struct with named fields whose
/// attributes the builder accepts, the result is the text that
/// `builder_text` gives for the struct's name and the descriptors of its
/// fields; on any other input, the diagnostic of `get_struct_fields`.
pub fn do_extend(ast: &Item) -> (r: Result<String, Diagnostic>)
    ensures
        reported(r.err(), failure(*ast)),
        r is Ok ==> r.unwrap()@ == builder_text(
            ast.name@,
            plans_of(named_fields(*ast).unwrap()),
        ),
{
    let struct_fields = match get_struct_fields(ast) {
        Ok(fields) => fields,
        Err(e) => {
            return Err(e);
        },
    };
    let builder_ident = crate::text::join2(ast.name.as_str(), "Builder");
    let struct_builder = struct_builder(&builder_ident, &struct_fields);
    let struct_builder_impl = struct_builder_impl(&ast.name, &builder_ident, &struct_fields);
    let struct_impl = struct_impl(&ast.name, &builder_ident, &struct_fields);
    let parts = vec![
        struct_builder.as_str(),
        "\n",
        struct_builder_impl.as_str(),
        "\n",
        struct_impl.as_str(),
    ];
    assert(texts(parts@) =~= seq![
        struct_builder_text(builder_ident@, struct_fields.deep_view()),
        "\n"@,
        struct_builder_impl_text(ast.name@, builder_ident@, struct_fields.deep_view()),
        "\n"@,
        struct_impl_text(ast.name@, builder_ident@, struct_fields.deep_view()),
    ]);
    assert(struct_fields.deep_view() =~= plans_of(named_fields(*ast).unwrap()));
    Ok(render(&parts))
}

/// The entry of the builder synthesizer: the code to put after the item, or
/// the diagnostic to report in its place.
pub fn derive(input: &Item) -> (r: Result<String, Diagnostic>)
    ensures
        reported(r.err(), failure(*input)),
        r is Ok ==> r.unwrap()@ == builder_text(
            input.name@,
            plans_of(named_fields(*input).unwrap()),
        ),
{
    do_extend(input)
}

} // verus!
