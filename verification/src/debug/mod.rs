//! The debug-impl synthesizer: for a struct with named fields, an
//! implementation of `std::fmt::Debug` that prints every field, with the
//! bounds that its type parameters need.

use vstd::prelude::*;

use crate::diag::{reported, Diagnostic, ErrorKind, Report};
use crate::lit::string_value;
use crate::shape::{
    classify, directive_upto, each_of, element_of, find_directive, named_fields, shape_of,
    FieldDescriptor, FieldPlan,
};
use crate::syntax::{type_text, Field, GenericParam, Generics, Item, ItemBody, ParamKind};
use crate::text::{
    append_all, concat, join2, join_strings, join_with, render, texts, views,
};
use self::bounds::{added_predicates, gets_bound, plan_bounds};

pub mod associated_type_visiter;
pub mod bounds;

verus! {

/// What the user is told where the input is no struct with named fields.
pub open spec fn no_named_fields() -> Seq<char> {
    "not found fields named"@
}

/// What is wrong with the input of the synthesizer, if anything: it is no
/// struct with named fields.
pub open spec fn failure(item: Item) -> Option<Report> {
    if named_fields(item) is None {
        Some(
            Report {
                kind: ErrorKind::StructuralMismatch,
                span: item.span,
                message: no_named_fields(),
            },
        )
    } else {
        None
    }
}

/// What the synthesizer goes by for the field `f`: its name, the shape and
/// the element type of its declared type, and the template that its
/// attributes give with `format = "..."`.
pub open spec fn plan_of(f: Field) -> FieldPlan {
    FieldPlan {
        name: f.name@,
        shape: shape_of(f.ty),
        elem: type_text(element_of(f.ty)),
        accumulator: None,
        format: directive_upto(f.attrs@, "format"@, f.attrs@.len()),
    }
}

/// What the synthesizer goes by for each of `fields`, in order.
pub open spec fn plans_of(fields: Seq<Field>) -> Seq<FieldPlan> {
    Seq::new(fields.len(), |k: int| plan_of(fields[k]))
}

/// Whether `d` is what the synthesizer knows of the field `f`.
pub open spec fn describes(d: FieldDescriptor, f: Field) -> bool {
    &&& *d.field == f
    &&& d.wf()
    &&& d.deep_view() == plan_of(f)
}

/// Whether `ds` describes the fields `fields`, one by one.
pub open spec fn describes_all(ds: Seq<FieldDescriptor>, fields: Seq<Field>) -> bool {
    &&& ds.len() == fields.len()
    &&& forall|k: int| 0 <= k < ds.len() ==> describes(#[trigger] ds[k], fields[k])
}

/// The text in angle brackets that lists `parts`; nothing where there are
/// none.
pub open spec fn angle(parts: Seq<Seq<char>>) -> Seq<char> {
    if parts.len() == 0 {
        Seq::empty()
    } else {
        "<"@ + join_with(parts, ", "@, parts.len()) + ">"@
    }
}

/// The `where` clause that holds `predicates`; nothing where there are none.
pub open spec fn where_text(predicates: Seq<Seq<char>>) -> Seq<char> {
    if predicates.len() == 0 {
        Seq::empty()
    } else {
        " where "@ + join_with(predicates, ", "@, predicates.len())
    }
}

/// The declaration of a generic parameter in the header of the
/// implementation: as in the struct, with `std::fmt::Debug` added to the
/// bounds of a type parameter where `add` holds.
pub open spec fn param_decl(p: GenericParam, add: bool) -> Seq<char> {
    match p.kind {
        ParamKind::Const => concat(seq!["const "@, p.name@, ": "@, p.bounds@]),
        ParamKind::Lifetime => if p.bounds@.len() == 0 {
            p.name@
        } else {
            concat(seq![p.name@, ": "@, p.bounds@])
        },
        ParamKind::Type => if p.bounds@.len() == 0 {
            if add {
                concat(seq![p.name@, ": std::fmt::Debug"@])
            } else {
                p.name@
            }
        } else {
            if add {
                concat(seq![p.name@, ": "@, p.bounds@, " + std::fmt::Debug"@])
            } else {
                concat(seq![p.name@, ": "@, p.bounds@])
            }
        },
    }
}

/// The declarations of the generic parameters, with the bound added to each
/// parameter for which `add` holds.
pub open spec fn param_decls(params: Seq<GenericParam>, add: Seq<bool>) -> Seq<Seq<char>> {
    Seq::new(params.len(), |k: int| param_decl(params[k], k < add.len() && add[k]))
}

/// The names of the generic parameters.
pub open spec fn param_names(params: Seq<GenericParam>) -> Seq<Seq<char>> {
    Seq::new(params.len(), |k: int| params[k].name@)
}

/// The line that prints one field: the field itself, or the field under its
/// template where it has one.
pub open spec fn field_line(d: FieldPlan) -> Seq<char> {
    match d.format {
        Some(template) => concat(
            seq![
                "            .field(\""@,
                d.name,
                "\", &format_args!("@,
                template,
                ", &self."@,
                d.name,
                "))\n"@,
            ],
        ),
        None => concat(
            seq!["            .field(\""@, d.name, "\", &self."@, d.name, ")\n"@],
        ),
    }
}

/// The implementation of `std::fmt::Debug` for the struct `name` with the
/// generic parameters `params`, of which those marked in `add` get the
/// bound, with `extra` after the predicates of the struct's own `where`
/// clause, and one line for each of the fields `ds`.
pub open spec fn impl_debug_text(
    name: Seq<char>,
    generics: Generics,
    ds: Seq<FieldPlan>,
    add: Seq<bool>,
    extra: Seq<Seq<char>>,
) -> Seq<char> {
    concat(
        seq![
            "impl"@,
            angle(param_decls(generics.params@, add)),
            " std::fmt::Debug for "@,
            name,
            angle(param_names(generics.params@)),
            where_text(views(generics.predicates@) + extra),
            " {\n    fn fmt(&self, f: &mut std::fmt::Formatter<'_>) -> std::fmt::Result {\n        f.debug_struct(\""@,
            name,
            "\")\n"@,
            each_of(ds, ds.len(), |d: FieldPlan| field_line(d)),
            "            .finish()\n    }\n}\n"@,
        ],
    )
}

/// What the synthesizer emits for a struct with named fields.
pub open spec fn debug_text(item: Item) -> Seq<char> {
    impl_debug_text(
        item.name@,
        item.generics,
        plans_of(named_fields(item).unwrap()),
        Seq::new(
            item.generics.params@.len(),
            |k: int| gets_bound(item, item.generics.params@[k]),
        ),
        added_predicates(item),
    )
}

/// Describes one field: the shape of its type, its element type, and the
/// template that its attributes give.
pub fn get_field_info<'a>(field: &'a Field) -> (r: FieldDescriptor<'a>)
    ensures
        describes(r, *field),
{
    let (shape, elem) = classify(&field.ty);
    let debug_attr = match find_directive(&field.attrs, "format") {
        Some(template) => Some(template.clone()),
        None => None,
    };
    FieldDescriptor { field, shape, elem, accumulator: None, format: debug_attr }
}

/// Describes the fields of a struct with named fields, in declaration order.
/// Fails where the item is anything else, and only there.
pub fn get_field_info_arr<'a>(ast: &'a Item) -> (r: Result<Vec<FieldDescriptor<'a>>, Diagnostic>)
    ensures
        reported(r.err(), failure(*ast)),
        r is Ok ==> describes_all(r.unwrap()@, named_fields(*ast).unwrap()),
{
    match &ast.body {
        ItemBody::NamedStruct(named) => {
            let mut result: Vec<FieldDescriptor<'a>> = Vec::new();
            let mut i: usize = 0;
            while i < named.len()
                invariant
                    i <= named.len(),
                    describes_all(result@, named@.take(i as int)),
                decreases named.len() - i,
            {
                result.push(get_field_info(&named[i]));
                i += 1;
            }
            assert(named@.take(named.len() as int) =~= named@);
            Ok(result)
        },
        _ => {
            let message = String::from_str("not found fields named");
            Err(Diagnostic::new(ErrorKind::StructuralMismatch, ast.span, message))
        },
    }
}

/// The declaration of one generic parameter, as a fresh string.
fn render_param(p: &GenericParam, add: bool) -> (r: String)
    ensures
        r@ == param_decl(*p, add),
{
    let name = p.name.as_str();
    let bounds = p.bounds.as_str();
    let bare = bounds.unicode_len() == 0;
    match p.kind {
        ParamKind::Const => {
            let parts = vec!["const ", name, ": ", bounds];
            assert(texts(parts@) =~= seq!["const "@, p.name@, ": "@, p.bounds@]);
            render(&parts)
        },
        ParamKind::Lifetime => {
            if bare {
                p.name.clone()
            } else {
                let parts = vec![name, ": ", bounds];
                assert(texts(parts@) =~= seq![p.name@, ": "@, p.bounds@]);
                render(&parts)
            }
        },
        ParamKind::Type => {
            if bare && add {
                let parts = vec![name, ": std::fmt::Debug"];
                assert(texts(parts@) =~= seq![p.name@, ": std::fmt::Debug"@]);
                render(&parts)
            } else if bare {
                p.name.clone()
            } else if add {
                let parts = vec![name, ": ", bounds, " + std::fmt::Debug"];
                assert(texts(parts@) =~= seq![p.name@, ": "@, p.bounds@, " + std::fmt::Debug"@]);
                render(&parts)
            } else {
                let parts = vec![name, ": ", bounds];
                assert(texts(parts@) =~= seq![p.name@, ": "@, p.bounds@]);
                render(&parts)
            }
        },
    }
}

/// The text in angle brackets that lists `parts`.
fn render_angle(parts: &Vec<String>) -> (r: String)
    ensures
        r@ == angle(views(parts@)),
{
    if parts.len() == 0 {
        String::new()
    } else {
        let inner = join_strings(parts, ", ");
        crate::text::join3("<", inner.as_str(), ">")
    }
}

/// Emits the implementation of `std::fmt::Debug`.
///
/// `none_phantom_generic_param_arr` says for each generic parameter whether
/// it gets the bound, and a parameter of which it says nothing gets none;
/// `extra_predicates` are added to the `where` clause.
pub fn impl_debug(
    ident: &String,
    generics: &Generics,
    field_info_arr: &Vec<FieldDescriptor>,
    none_phantom_generic_param_arr: &Vec<bool>,
    extra_predicates: &Vec<String>,
) -> (r: String)
    ensures
        r@ == impl_debug_text(
            ident@,
            *generics,
            field_info_arr.deep_view(),
            none_phantom_generic_param_arr@,
            views(extra_predicates@),
        ),
{
    let ghost add = none_phantom_generic_param_arr@;
    let mut decls: Vec<String> = Vec::new();
    let mut names: Vec<String> = Vec::new();
    let mut k: usize = 0;
    while k < generics.params.len()
        invariant
            k <= generics.params.len(),
            add == none_phantom_generic_param_arr@,
            decls@.len() == k,
            names@.len() == k,
            forall|t: int|
                0 <= t < k ==> (#[trigger] decls@[t])@ == param_decl(
                    generics.params@[t],
                    t < add.len() && add[t],
                ),
            forall|t: int| 0 <= t < k ==> (#[trigger] names@[t])@ == generics.params@[t].name@,
        decreases generics.params.len() - k,
    {
        let g = &generics.params[k];
        let add_bound = k < none_phantom_generic_param_arr.len()
            && none_phantom_generic_param_arr[k];
        decls.push(render_param(g, add_bound));
        names.push(g.name.clone());
        k += 1;
    }
    assert(views(decls@) =~= param_decls(generics.params@, add));
    assert(views(names@) =~= param_names(generics.params@));
    let impl_generics = render_angle(&decls);
    let ty_generics = render_angle(&names);

    let mut predicates: Vec<String> = Vec::new();
    let mut k: usize = 0;
    while k < generics.predicates.len()
        invariant
            k <= generics.predicates.len(),
            predicates@.len() == k,
            forall|t: int| 0 <= t < k ==> (#[trigger] predicates@[t])@ == generics.predicates@[t]@,
        decreases generics.predicates.len() - k,
    {
        predicates.push(generics.predicates[k].clone());
        k += 1;
    }
    let mut k: usize = 0;
    while k < extra_predicates.len()
        invariant
            k <= extra_predicates.len(),
            predicates@.len() == generics.predicates@.len() + k,
            forall|t: int|
                0 <= t < generics.predicates@.len() ==> (#[trigger] predicates@[t])@
                    == generics.predicates@[t]@,
            forall|t: int|
                generics.predicates@.len() <= t < predicates@.len() ==> (#[trigger] predicates@[t])@
                    == extra_predicates@[t - generics.predicates@.len()]@,
        decreases extra_predicates.len() - k,
    {
        predicates.push(extra_predicates[k].clone());
        k += 1;
    }
    assert(views(predicates@) =~= views(generics.predicates@) + views(extra_predicates@));
    let where_clause = if predicates.len() == 0 {
        String::new()
    } else {
        let inner = join_strings(&predicates, ", ");
        join2(" where ", inner.as_str())
    };

    let ghost line = |d: FieldPlan| field_line(d);
    let mut field_ts = String::new();
    let mut i: usize = 0;
    while i < field_info_arr.len()
        invariant
            i <= field_info_arr.len(),
            line == (|d: FieldPlan| field_line(d)),
            field_ts@ == each_of(field_info_arr.deep_view(), i as nat, line),
        decreases field_info_arr.len() - i,
    {
        let f = &field_info_arr[i];
        let f_ident_str = f.field.name.as_str();
        match &f.format {
            Some(debug_attr) => {
                let parts = vec![
                    "            .field(\"",
                    f_ident_str,
                    "\", &format_args!(",
                    debug_attr.as_str(),
                    ", &self.",
                    f_ident_str,
                    "))\n",
                ];
                assert(texts(parts@) =~= seq![
                    "            .field(\""@,
                    f.field.name@,
                    "\", &format_args!("@,
                    f.format.unwrap()@,
                    ", &self."@,
                    f.field.name@,
                    "))\n"@,
                ]);
                append_all(&mut field_ts, &parts);
            },
            None => {
                let parts = vec![
                    "            .field(\"",
                    f_ident_str,
                    "\", &self.",
                    f_ident_str,
                    ")\n",
                ];
                assert(texts(parts@) =~= seq![
                    "            .field(\""@,
                    f.field.name@,
                    "\", &self."@,
                    f.field.name@,
                    ")\n"@,
                ]);
                append_all(&mut field_ts, &parts);
            },
        }
        i += 1;
    }
    let parts = vec![
        "impl",
        impl_generics.as_str(),
        " std::fmt::Debug for ",
        ident.as_str(),
        ty_generics.as_str(),
        where_clause.as_str(),
        " {\n    fn fmt(&self, f: &mut std::fmt::Formatter<'_>) -> std::fmt::Result {\n        f.debug_struct(\"",
        ident.as_str(),
        "\")\n",
        field_ts.as_str(),
        "            .finish()\n    }\n}\n",
    ];
    assert(texts(parts@) =~= seq![
        "impl"@,
        angle(param_decls(generics.params@, add)),
        " std::fmt::Debug for "@,
        ident@,
        angle(param_names(generics.params@)),
        where_text(views(generics.predicates@) + views(extra_predicates@)),
        " {\n    fn fmt(&self, f: &mut std::fmt::Formatter<'_>) -> std::fmt::Result {\n        f.debug_struct(\""@,
        ident@,
        "\")\n"@,
        each_of(field_info_arr.deep_view(), field_info_arr@.len(), line),
        "            .finish()\n    }\n}\n"@,
    ]);
    render(&parts)
}


/// Synthesizes the implementation of `std::fmt::Debug` for an item. On a
/// struct with named fields the result is the text that `debug_text` gives;
/// any other item is rejected.
pub fn do_expand(ast: &Item) -> (r: Result<String, Diagnostic>)
    ensures
        reported(r.err(), failure(*ast)),
        r is Ok ==> r.unwrap()@ == debug_text(*ast),
{
    let field_info_arr = match get_field_info_arr(ast) {
        Ok(fields) => fields,
        Err(e) => {
            return Err(e);
        },
    };
    let clause = match find_directive(&ast.attrs, "bound") {
        Some(literal) => string_value(literal.as_str()),
        None => None,
    };
    let (none_phantom_generic_param_arr, extra) = plan_bounds(ast, clause);
    assert(field_info_arr.deep_view() =~= plans_of(named_fields(*ast).unwrap()));
    assert(none_phantom_generic_param_arr@ =~= Seq::new(
        ast.generics.params@.len(),
        |k: int| gets_bound(*ast, ast.generics.params@[k]),
    ));
    Ok(
        impl_debug(
            &ast.name,
            &ast.generics,
            &field_info_arr,
            &none_phantom_generic_param_arr,
            &extra,
        ),
    )
}

/// The entry of the debug-impl synthesizer: the code to put after the item,
/// or the diagnostic to report in its place.
pub fn derive(input: &Item) -> (r: Result<String, Diagnostic>)
    ensures
        reported(r.err(), failure(*input)),
        r is Ok ==> r.unwrap()@ == debug_text(*input),
{
    do_expand(input)
}


} // verus!
