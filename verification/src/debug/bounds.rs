//! The generic-bound analyzer: which type parameters of a struct need the
//! bound `std::fmt::Debug`, and which associated types need it in their
//! stead.

use vstd::prelude::*;

use crate::lit::lit_str_value;
use crate::shape::{directive_upto, named_fields};
use crate::syntax::{
    render_type, type_text, Field, GenericParam, Generics, Item, ItemBody, ParamKind, PathSegment,
    TypeExpr,
};
use crate::text::{join2, same_text, views};
use super::associated_type_visiter::{
    is_projection, names_hold, pointees, projections, projections_in_segments,
    projections_in_types, AssociatedTypeVisiter,
};

verus! {

broadcast use {
    vstd::std_specs::vec::axiom_vec_index_decreases,
    vstd::std_specs::vec::axiom_vec_decreases_to_view,
    vstd::seq::axiom_seq_index_decreases,
};

/// Whether a path is the zero-sized marker wrapper: its last segment is
/// named `PhantomData`.
pub open spec fn is_marker_path(segments: Seq<PathSegment>) -> bool {
    segments.len() > 0 && segments.last().ident@ == "PhantomData"@
}

/// Whether the type parameter `name` stands in the type by itself, outside
/// every marker wrapper: the type is the path `name`, or a type nested in
/// it, not inside a marker, mentions `name`.
pub open spec fn mentions(ty: TypeExpr, name: Seq<char>) -> bool
    decreases ty, 0nat,
{
    match ty {
        TypeExpr::Path { segments, .. } => !is_marker_path(segments@) && ((segments@.len() == 1
            && segments@[0].ident@ == name) || mentions_in_segments(segments@, 0, name)),
        TypeExpr::Other { nested, .. } => mentions_in_types(nested@, 0, name),
    }
}

/// Whether a generic argument of a segment from index `i` on mentions the
/// parameter.
pub open spec fn mentions_in_segments(segments: Seq<PathSegment>, i: int, name: Seq<char>) -> bool
    decreases segments, segments.len() - i,
{
    if i < 0 || i >= segments.len() {
        false
    } else {
        mentions_in_types(segments[i].args@, 0, name) || mentions_in_segments(
            segments,
            i + 1,
            name,
        )
    }
}

/// Whether a type from index `i` on mentions the parameter.
pub open spec fn mentions_in_types(types: Seq<TypeExpr>, i: int, name: Seq<char>) -> bool
    decreases types, types.len() - i,
{
    if i < 0 || i >= types.len() {
        false
    } else {
        mentions(types[i], name) || mentions_in_types(types, i + 1, name)
    }
}

/// Whether the type of a field from index `i` on mentions the parameter.
pub open spec fn mentioned_in_fields(fields: Seq<Field>, i: int, name: Seq<char>) -> bool
    decreases fields.len() - i,
{
    if i < 0 || i >= fields.len() {
        false
    } else {
        mentions(fields[i].ty, name) || mentioned_in_fields(fields, i + 1, name)
    }
}

/// Whether the analysis gives a generic parameter the bound
/// `std::fmt::Debug`: it is a type parameter, and the type of some field
/// mentions it outside every marker wrapper.
pub open spec fn needs_bound(item: Item, p: GenericParam) -> bool {
    p.kind == ParamKind::Type && named_fields(item) is Some && mentioned_in_fields(
        named_fields(item).unwrap(),
        0,
        p.name@,
    )
}

/// The names of the type parameters among the first `n` generic parameters.
pub open spec fn type_params(params: Seq<GenericParam>, n: nat) -> Seq<Seq<char>>
    decreases n,
{
    if n == 0 || n > params.len() {
        Seq::empty()
    } else if params[n - 1].kind == ParamKind::Type {
        type_params(params, (n - 1) as nat).push(params[n - 1].name@)
    } else {
        type_params(params, (n - 1) as nat)
    }
}

/// The associated types of the parameters `names` in the types of the
/// fields from index `i` on, in the order in which they stand.
pub open spec fn projections_in_fields(fields: Seq<Field>, i: int, names: Seq<Seq<char>>) -> Seq<
    TypeExpr,
>
    decreases fields.len() - i,
{
    if i < 0 || i >= fields.len() {
        Seq::empty()
    } else {
        projections(fields[i].ty, names) + projections_in_fields(fields, i + 1, names)
    }
}

/// The named fields of an item; none where the item is no struct with named
/// fields.
pub open spec fn fields_of(item: Item) -> Seq<Field> {
    match named_fields(item) {
        Some(fields) => fields,
        None => Seq::empty(),
    }
}

/// The `where` predicates that bound each of `types` by `std::fmt::Debug`.
pub open spec fn debug_predicates(types: Seq<TypeExpr>) -> Seq<Seq<char>> {
    Seq::new(types.len(), |k: int| type_text(types[k]) + ": std::fmt::Debug"@)
}

/// The bound clause that the struct itself supplies with
/// `#[config(bound = "...")]`, where it supplies one.
pub open spec fn bound_override(item: Item) -> Option<Seq<char>> {
    match directive_upto(item.attrs@, "bound"@, item.attrs@.len()) {
        Some(literal) => lit_str_value(literal),
        None => None,
    }
}

/// Whether a generic parameter gets the bound added to its declaration:
/// never where the struct supplies its own clause, else as the analysis
/// says.
pub open spec fn gets_bound(item: Item, p: GenericParam) -> bool {
    bound_override(item) is None && needs_bound(item, p)
}

/// The predicates that the synthesizer adds to the `where` clause: the
/// clause that the struct supplies, where it supplies one; else one
/// predicate for every associated type of a type parameter in the types of
/// the fields.
pub open spec fn added_predicates(item: Item) -> Seq<Seq<char>> {
    match bound_override(item) {
        Some(clause) => seq![clause],
        None => debug_predicates(
            projections_in_fields(
                fields_of(item),
                0,
                type_params(item.generics.params@, item.generics.params@.len()),
            ),
        ),
    }
}

/// Whether the type parameter `name` stands in the type by itself, outside
/// every marker wrapper.
pub fn mentions_param(ty: &TypeExpr, name: &str) -> (r: bool)
    ensures
        r == mentions(*ty, name@),
    decreases ty, 0nat,
{
    match ty {
        TypeExpr::Path { segments, .. } => {
            if segments.len() > 0 && same_text(
                segments[segments.len() - 1].ident.as_str(),
                "PhantomData",
            ) {
                return false;
            }
            if segments.len() == 1 && same_text(segments[0].ident.as_str(), name) {
                return true;
            }
            let mut k: usize = 0;
            while k < segments.len()
                invariant
                    k <= segments.len(),
                    ty matches TypeExpr::Path { segments: s, .. } && s == segments,
                    !is_marker_path(segments@),
                    !(segments@.len() == 1 && segments@[0].ident@ == name@),
                    mentions_in_segments(segments@, 0, name@) == mentions_in_segments(
                        segments@,
                        k as int,
                        name@,
                    ),
                decreases segments.len() - k,
            {
                if mentions_param_in(&segments[k].args, name) {
                    return true;
                }
                k += 1;
            }
            false
        },
        TypeExpr::Other { nested, .. } => mentions_param_in(nested, name),
    }
}

/// Whether one of `types` mentions the type parameter `name`.
pub fn mentions_param_in(types: &Vec<TypeExpr>, name: &str) -> (r: bool)
    ensures
        r == mentions_in_types(types@, 0, name@),
    decreases types, 1nat,
{
    let mut k: usize = 0;
    while k < types.len()
        invariant
            k <= types.len(),
            mentions_in_types(types@, 0, name@) == mentions_in_types(types@, k as int, name@),
        decreases types.len() - k,
    {
        if mentions_param(&types[k], name) {
            return true;
        }
        k += 1;
    }
    false
}

/// For each generic parameter of the item, whether the analysis gives it
/// the bound `std::fmt::Debug`.
pub fn get_none_phantom_generic_param_arr(ast: &Item) -> (r: Vec<bool>)
    ensures
        r@.len() == ast.generics.params@.len(),
        forall|k: int|
            0 <= k < r@.len() ==> #[trigger] r@[k] == needs_bound(*ast, ast.generics.params@[k]),
{
    let mut result: Vec<bool> = Vec::new();
    let mut k: usize = 0;
    while k < ast.generics.params.len()
        invariant
            k <= ast.generics.params.len(),
            result@.len() == k,
            forall|t: int|
                0 <= t < k ==> #[trigger] result@[t] == needs_bound(*ast, ast.generics.params@[t]),
        decreases ast.generics.params.len() - k,
    {
        let p = &ast.generics.params[k];
        let mut found = false;
        match (&p.kind, &ast.body) {
            (ParamKind::Type, ItemBody::NamedStruct(named)) => {
                let mut i: usize = 0;
                while i < named.len() && !found
                    invariant
                        i <= named.len(),
                        found ==> mentioned_in_fields(named@, 0, p.name@),
                        !found ==> mentioned_in_fields(named@, 0, p.name@) == mentioned_in_fields(
                            named@,
                            i as int,
                            p.name@,
                        ),
                    decreases named.len() - i,
                {
                    found = mentions_param(&named[i].ty, p.name.as_str());
                    i += 1;
                }
            },
            _ => {},
        }
        result.push(found);
        k += 1;
    }
    result
}

/// The names of the type parameters among the generic parameters.
pub fn type_param_names(generics: &Generics) -> (r: Vec<String>)
    ensures
        views(r@) == type_params(generics.params@, generics.params@.len()),
{
    let mut names: Vec<String> = Vec::new();
    let mut k: usize = 0;
    assert(views(names@) =~= Seq::<Seq<char>>::empty());
    while k < generics.params.len()
        invariant
            k <= generics.params.len(),
            views(names@) == type_params(generics.params@, k as nat),
        decreases generics.params.len() - k,
    {
        let p = &generics.params[k];
        match p.kind {
            ParamKind::Type => {
                let ghost before = views(names@);
                names.push(p.name.clone());
                assert(views(names@) =~= before.push(p.name@));
            },
            _ => {},
        }
        k += 1;
    }
    names
}

/// The associated types of the parameters `names` in the types of the
/// fields, in the order in which they stand.
pub fn collect_associated<'a>(names: Vec<String>, fields: &'a Vec<Field>) -> (r: Vec<&'a TypeExpr>)
    ensures
        pointees(r@) == projections_in_fields(fields@, 0, views(names@)),
{
    let ghost wanted = views(names@);
    let mut visitor = AssociatedTypeVisiter {
        generic_type_arr: names,
        associated_type_map: Vec::new(),
    };
    let mut i: usize = 0;
    assert(pointees(visitor.associated_type_map@) =~= Seq::<TypeExpr>::empty());
    assert(Seq::<TypeExpr>::empty() + projections_in_fields(fields@, 0, wanted)
        =~= projections_in_fields(fields@, 0, wanted));
    while i < fields.len()
        invariant
            i <= fields.len(),
            views(visitor.generic_type_arr@) == wanted,
            pointees(visitor.associated_type_map@) + projections_in_fields(
                fields@,
                i as int,
                wanted,
            ) == projections_in_fields(fields@, 0, wanted),
        decreases fields.len() - i,
    {
        let ghost before = pointees(visitor.associated_type_map@);
        visitor.visit_type_path(&fields[i].ty);
        proof {
            let now = projections(fields@[i as int].ty, wanted);
            let rest = projections_in_fields(fields@, i + 1, wanted);
            assert(before + now + rest =~= before + (now + rest));
        }
        i += 1;
    }
    assert(pointees(visitor.associated_type_map@) + Seq::<TypeExpr>::empty() =~= pointees(
        visitor.associated_type_map@,
    ));
    visitor.associated_type_map
}

/// The associated types of the type parameters of the item in the types of
/// its fields, in the order in which they stand.
pub fn associated_types<'a>(generics: &Generics, fields: &'a Vec<Field>) -> (r: Vec<&'a TypeExpr>)
    ensures
        pointees(r@) == projections_in_fields(
            fields@,
            0,
            type_params(generics.params@, generics.params@.len()),
        ),
{
    collect_associated(type_param_names(generics), fields)
}

/// How the analysis of the bounds ends for a generic parameter.
#[derive(Clone, Copy, Debug, PartialEq, Eq, Structural)]
pub enum BoundClass {
    /// The parameter itself is bound: the type of a field mentions it
    /// outside every marker wrapper.
    Bounded,
    /// The parameter is used only through associated types: those are bound,
    /// the parameter is not.
    Projected,
    /// Nothing is bound: the parameter is no type parameter, or the fields
    /// mention it only inside marker wrappers, or not at all.
    Exempt,
}

/// How the analysis ends for the generic parameter `p` of an item.
pub open spec fn class_of(item: Item, p: GenericParam) -> BoundClass {
    if needs_bound(item, p) {
        BoundClass::Bounded
    } else if p.kind == ParamKind::Type && projections_in_fields(
        fields_of(item),
        0,
        seq![p.name@],
    ).len() > 0 {
        BoundClass::Projected
    } else {
        BoundClass::Exempt
    }
}

/// For each generic parameter of the item, how the analysis ends.
pub fn classify_params(ast: &Item) -> (r: Vec<BoundClass>)
    ensures
        r@.len() == ast.generics.params@.len(),
        forall|k: int|
            0 <= k < r@.len() ==> #[trigger] r@[k] == class_of(*ast, ast.generics.params@[k]),
{
    let bounded = get_none_phantom_generic_param_arr(ast);
    let mut result: Vec<BoundClass> = Vec::new();
    let mut k: usize = 0;
    while k < ast.generics.params.len()
        invariant
            k <= ast.generics.params.len(),
            bounded@.len() == ast.generics.params@.len(),
            forall|t: int|
                0 <= t < bounded@.len() ==> #[trigger] bounded@[t] == needs_bound(
                    *ast,
                    ast.generics.params@[t],
                ),
            result@.len() == k,
            forall|t: int|
                0 <= t < k ==> #[trigger] result@[t] == class_of(*ast, ast.generics.params@[t]),
        decreases ast.generics.params.len() - k,
    {
        let p = &ast.generics.params[k];
        let class = if bounded[k] {
            BoundClass::Bounded
        } else {
            match (&p.kind, &ast.body) {
                (ParamKind::Type, ItemBody::NamedStruct(named)) => {
                    let mut names: Vec<String> = Vec::new();
                    names.push(p.name.clone());
                    assert(views(names@) =~= seq![p.name@]);
                    if collect_associated(names, named).len() > 0 {
                        BoundClass::Projected
                    } else {
                        BoundClass::Exempt
                    }
                },
                _ => BoundClass::Exempt,
            }
        };
        result.push(class);
        k += 1;
    }
    result
}


/// Decides the bounds of the implementation, given the clause that the
/// struct supplies, if it supplies one: for each generic parameter whether
/// it gets the bound `std::fmt::Debug`, and the predicates to add to the
/// `where` clause.
///
/// A supplied clause stands alone: no parameter gets the bound and the
/// clause is the one predicate added. Without one, a type parameter gets the
/// bound where the type of a field mentions it outside every marker wrapper,
/// and every associated type of a type parameter in the types of the fields
/// gets a predicate of its own.
pub fn plan_bounds(ast: &Item, clause: Option<String>) -> (r: (Vec<bool>, Vec<String>))
    ensures
        r.0@.len() == ast.generics.params@.len(),
        forall|k: int|
            0 <= k < r.0@.len() ==> #[trigger] r.0@[k] == (clause is None && needs_bound(
                *ast,
                ast.generics.params@[k],
            )),
        views(r.1@) == (match clause {
            Some(c) => seq![c@],
            None => debug_predicates(
                projections_in_fields(
                    fields_of(*ast),
                    0,
                    type_params(ast.generics.params@, ast.generics.params@.len()),
                ),
            ),
        }),
{
    match clause {
        Some(c) => {
            let mut flags: Vec<bool> = Vec::new();
            let mut k: usize = 0;
            while k < ast.generics.params.len()
                invariant
                    k <= ast.generics.params.len(),
                    flags@.len() == k,
                    forall|t: int| 0 <= t < k ==> !#[trigger] flags@[t],
                decreases ast.generics.params.len() - k,
            {
                flags.push(false);
                k += 1;
            }
            let mut extra: Vec<String> = Vec::new();
            extra.push(c);
            assert(views(extra@) =~= seq![c@]);
            (flags, extra)
        },
        None => {
            let flags = get_none_phantom_generic_param_arr(ast);
            let mut extra: Vec<String> = Vec::new();
            match &ast.body {
                ItemBody::NamedStruct(named) => {
                    let found = associated_types(&ast.generics, named);
                    let mut k: usize = 0;
                    while k < found.len()
                        invariant
                            k <= found.len(),
                            extra@.len() == k,
                            forall|t: int|
                                0 <= t < k ==> (#[trigger] extra@[t])@ == type_text(*found@[t])
                                    + ": std::fmt::Debug"@,
                        decreases found.len() - k,
                    {
                        let path = render_type(found[k]);
                        extra.push(join2(path.as_str(), ": std::fmt::Debug"));
                        k += 1;
                    }
                    assert(views(extra@) =~= debug_predicates(pointees(found@)));
                },
                _ => {
                    assert(views(extra@) =~= debug_predicates(Seq::<TypeExpr>::empty()));
                },
            }
            (flags, extra)
        },
    }
}

/// Whether a type is the zero-sized marker wrapper.
pub open spec fn is_marker(ty: TypeExpr) -> bool {
    ty matches TypeExpr::Path { segments, .. } && is_marker_path(segments@)
}

/// Whether `sub` stands in `ty`: it is `ty` itself, or it stands in a type
/// nested in `ty`.
pub open spec fn occurs_in(sub: TypeExpr, ty: TypeExpr) -> bool
    decreases ty,
{
    sub == ty || match ty {
        TypeExpr::Path { segments, .. } => exists|i: int, j: int|
            0 <= i < segments@.len() && 0 <= j < segments@[i].args@.len() && occurs_in(
                sub,
                #[trigger] segments@[i].args@[j],
            ),
        TypeExpr::Other { nested, .. } => exists|j: int|
            0 <= j < nested@.len() && occurs_in(sub, #[trigger] nested@[j]),
    }
}

/// A type parameter that the fields mention only inside marker wrappers gets
/// no bound.
pub proof fn law_marker_only_parameter_is_exempt(item: Item, p: GenericParam)
    requires
        named_fields(item) is Some,
        forall|k: int|
            0 <= k < named_fields(item).unwrap().len() ==> is_marker(
                (#[trigger] named_fields(item).unwrap()[k]).ty,
            ) || !mentions(named_fields(item).unwrap()[k].ty, p.name@),
    ensures
        !needs_bound(item, p),
        !gets_bound(item, p),
{
    lemma_not_mentioned(named_fields(item).unwrap(), 0, p.name@);
}

proof fn lemma_not_mentioned(fields: Seq<Field>, i: int, name: Seq<char>)
    requires
        0 <= i <= fields.len(),
        forall|k: int| 0 <= k < fields.len() ==> !mentions((#[trigger] fields[k]).ty, name),
    ensures
        !mentioned_in_fields(fields, i, name),
    decreases fields.len() - i,
{
    if i < fields.len() {
        lemma_not_mentioned(fields, i + 1, name);
    }
}

/// A type parameter that the fields use only through an associated type
/// gets no bound itself: the bound goes on the associated type, as a
/// predicate of the `where` clause.
pub proof fn law_projected_parameter_bounds_the_path(
    item: Item,
    p: int,
    f: int,
    path: TypeExpr,
)
    requires
        named_fields(item) is Some,
        bound_override(item) is None,
        0 <= p < item.generics.params@.len(),
        item.generics.params@[p].kind == ParamKind::Type,
        0 <= f < named_fields(item).unwrap().len(),
        occurs_in(path, named_fields(item).unwrap()[f].ty),
        path matches TypeExpr::Path { segments, .. } && segments@.len() >= 2 && segments@[0].ident@
            == item.generics.params@[p].name@,
        !mentioned_in_fields(named_fields(item).unwrap(), 0, item.generics.params@[p].name@),
    ensures
        !gets_bound(item, item.generics.params@[p]),
        added_predicates(item).contains(type_text(path) + ": std::fmt::Debug"@),
{
    let fields = named_fields(item).unwrap();
    let params = item.generics.params@;
    let names = type_params(params, params.len());
    lemma_type_param_named(params, params.len(), p);
    lemma_projection_found(path, fields[f].ty, names);
    lemma_found_in_fields(fields, 0, f, names, path);
    let found = projections_in_fields(fields, 0, names);
    let at = choose|at: int| 0 <= at < found.len() && found[at] == path;
    assert(debug_predicates(found)[at] == type_text(path) + ": std::fmt::Debug"@);
}

/// The name of a type parameter is among the names of the type parameters.
proof fn lemma_type_param_named(params: Seq<GenericParam>, n: nat, p: int)
    requires
        0 <= p < n <= params.len(),
        params[p].kind == ParamKind::Type,
    ensures
        names_hold(type_params(params, n), params[p].name@),
    decreases n,
{
    let names = type_params(params, n);
    if p == n - 1 {
        assert(names[names.len() - 1] == params[p].name@);
    } else {
        lemma_type_param_named(params, (n - 1) as nat, p);
        let head = type_params(params, (n - 1) as nat);
        let k = choose|k: int| 0 <= k < head.len() && #[trigger] head[k] == params[p].name@;
        assert(names[k] == params[p].name@);
    }
}

/// An associated type that stands in a type is among those found in it.
proof fn lemma_projection_found(sub: TypeExpr, ty: TypeExpr, names: Seq<Seq<char>>)
    requires
        occurs_in(sub, ty),
        is_projection(sub, names),
    ensures
        projections(ty, names).contains(sub),
    decreases ty,
{
    let own = if is_projection(ty, names) {
        seq![ty]
    } else {
        Seq::empty()
    };
    if sub == ty {
        assert(projections(ty, names)[0] == sub);
    } else {
        match ty {
            TypeExpr::Path { segments, .. } => {
                let (i, j) = choose|i: int, j: int|
                    0 <= i < segments@.len() && 0 <= j < segments@[i].args@.len() && occurs_in(
                        sub,
                        #[trigger] segments@[i].args@[j],
                    );
                lemma_projection_found(sub, segments@[i].args@[j], names);
                lemma_found_in_types(segments@[i].args@, 0, j, names, sub);
                lemma_found_in_segments(segments@, 0, i, names, sub);
                let inner = projections_in_segments(
                    segments@,
                    0,
                    names,
                );
                lemma_contains_right(own, inner, sub);
            },
            TypeExpr::Other { nested, .. } => {
                let j = choose|j: int|
                    0 <= j < nested@.len() && occurs_in(sub, #[trigger] nested@[j]);
                lemma_projection_found(sub, nested@[j], names);
                lemma_found_in_types(nested@, 0, j, names, sub);
                let inner = projections_in_types(nested@, 0, names);
                lemma_contains_right(own, inner, sub);
            },
        }
    }
}

proof fn lemma_contains_left<A>(a: Seq<A>, b: Seq<A>, x: A)
    requires
        a.contains(x),
    ensures
        (a + b).contains(x),
{
    let k = choose|k: int| 0 <= k < a.len() && a[k] == x;
    assert((a + b)[k] == x);
}

proof fn lemma_contains_right<A>(a: Seq<A>, b: Seq<A>, x: A)
    requires
        b.contains(x),
    ensures
        (a + b).contains(x),
{
    let k = choose|k: int| 0 <= k < b.len() && b[k] == x;
    assert((a + b)[a.len() + k] == x);
}

proof fn lemma_found_in_types(
    types: Seq<TypeExpr>,
    i: int,
    j: int,
    names: Seq<Seq<char>>,
    sub: TypeExpr,
)
    requires
        0 <= i <= j < types.len(),
        projections(types[j], names).contains(sub),
    ensures
        projections_in_types(types, i, names).contains(sub),
    decreases j - i,
{
    let head = projections(types[i], names);
    let rest = projections_in_types(types, i + 1, names);
    if i == j {
        lemma_contains_left(head, rest, sub);
    } else {
        lemma_found_in_types(types, i + 1, j, names, sub);
        lemma_contains_right(head, rest, sub);
    }
}

proof fn lemma_found_in_segments(
    segments: Seq<PathSegment>,
    i: int,
    j: int,
    names: Seq<Seq<char>>,
    sub: TypeExpr,
)
    requires
        0 <= i <= j < segments.len(),
        projections_in_types(segments[j].args@, 0, names).contains(sub),
    ensures
        projections_in_segments(segments, i, names).contains(sub),
    decreases j - i,
{
    let head = projections_in_types(segments[i].args@, 0, names);
    let rest = projections_in_segments(segments, i + 1, names);
    if i == j {
        lemma_contains_left(head, rest, sub);
    } else {
        lemma_found_in_segments(segments, i + 1, j, names, sub);
        lemma_contains_right(head, rest, sub);
    }
}

proof fn lemma_found_in_fields(
    fields: Seq<Field>,
    i: int,
    j: int,
    names: Seq<Seq<char>>,
    sub: TypeExpr,
)
    requires
        0 <= i <= j < fields.len(),
        projections(fields[j].ty, names).contains(sub),
    ensures
        projections_in_fields(fields, i, names).contains(sub),
    decreases j - i,
{
    let head = projections(fields[i].ty, names);
    let rest = projections_in_fields(fields, i + 1, names);
    if i == j {
        lemma_contains_left(head, rest, sub);
    } else {
        lemma_found_in_fields(fields, i + 1, j, names, sub);
        lemma_contains_right(head, rest, sub);
    }
}

} // verus!
