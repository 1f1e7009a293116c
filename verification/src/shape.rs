//! The struct-shape analyzer: which fields a struct has, what shape the type
//! of each has, and what its configuration attributes say.

use vstd::prelude::*;

use crate::lit::{lit_str_value, string_value};
use crate::syntax::{
    type_text, AttrArgs, Attribute, Field, Item, ItemBody, PathSegment, TypeExpr,
};
use crate::text::same_text;
use crate::token::{Tok, TokenTree};

verus! {

/// The shape of a field's type.
#[derive(Clone, Copy, Debug, PartialEq, Eq, Structural)]
pub enum Shape {
    /// Any type but the two wrappers.
    Plain,
    /// `Option<..>`: zero or one.
    Optional,
    /// `Vec<..>`: zero or more.
    Repeated,
}

/// What the analyzer knows of one field.
#[derive(Debug)]
pub struct FieldDescriptor<'a> {
    /// The field as declared.
    pub field: &'a Field,
    /// The shape of its type.
    pub shape: Shape,
    /// The element type: what the wrapper holds where the shape is not
    /// plain, the declared type where it is.
    pub elem: &'a TypeExpr,
    /// The name of the method that appends one element, where the field asks
    /// for one.
    pub accumulator: Option<String>,
    /// The template by which the field is formatted, as the string literal
    /// that was written, where the field has one.
    pub format: Option<String>,
}

/// The mathematical value of a descriptor: what the synthesizers go by.
pub ghost struct FieldPlan {
    /// The name of the field.
    pub name: Seq<char>,
    /// The shape of its type.
    pub shape: Shape,
    /// The source text of its element type.
    pub elem: Seq<char>,
    /// The name of its accumulator, where it asks for one.
    pub accumulator: Option<Seq<char>>,
    /// Its format template, as written, where it has one.
    pub format: Option<Seq<char>>,
}

impl<'a> DeepView for FieldDescriptor<'a> {
    type V = FieldPlan;

    open spec fn deep_view(&self) -> FieldPlan {
        FieldPlan {
            name: self.field.name@,
            shape: self.shape,
            elem: type_text(*self.elem),
            accumulator: self.accumulator.deep_view(),
            format: self.format.deep_view(),
        }
    }
}

/// The texts that `part` gives for the first `n` descriptors, one after the
/// other.
pub open spec fn each_of(
    ds: Seq<FieldPlan>,
    n: nat,
    part: spec_fn(FieldPlan) -> Seq<char>,
) -> Seq<char>
    decreases n,
{
    if n == 0 || n > ds.len() {
        Seq::empty()
    } else {
        each_of(ds, (n - 1) as nat, part) + part(ds[n - 1])
    }
}

/// The last segment of a path type.
pub open spec fn last_segment(ty: TypeExpr) -> Option<PathSegment> {
    match ty {
        TypeExpr::Path { segments, .. } => if segments@.len() > 0 {
            Some(segments@.last())
        } else {
            None
        },
        TypeExpr::Other { .. } => None,
    }
}

/// The shape of a type: decided by the name of the last segment of its path.
pub open spec fn shape_of(ty: TypeExpr) -> Shape {
    match last_segment(ty) {
        Some(segment) => if segment.ident@ == "Option"@ {
            Shape::Optional
        } else if segment.ident@ == "Vec"@ {
            Shape::Repeated
        } else {
            Shape::Plain
        },
        None => Shape::Plain,
    }
}

/// The element type of a type: the first generic argument of a wrapper, the
/// type itself where it is no wrapper or has no argument.
pub open spec fn element_of(ty: TypeExpr) -> TypeExpr {
    if shape_of(ty) != Shape::Plain && last_segment(ty).unwrap().args@.len() > 0 {
        last_segment(ty).unwrap().args@[0]
    } else {
        ty
    }
}

impl<'a> FieldDescriptor<'a> {
    /// A descriptor is well formed where its shape and its element type are
    /// those of the declared type of its field: the shape is optional or
    /// repeated only for the wrapper of that name, and the element type is
    /// what the wrapper holds.
    pub open spec fn wf(&self) -> bool {
        &&& self.shape == shape_of(self.field.ty)
        &&& *self.elem == element_of(self.field.ty)
    }
}

/// Classifies a type: its shape and its element type.
pub fn classify(ty: &TypeExpr) -> (r: (Shape, &TypeExpr))
    ensures
        r.0 == shape_of(*ty),
        *r.1 == element_of(*ty),
{
    match ty {
        TypeExpr::Path { segments, .. } => {
            if segments.len() == 0 {
                return (Shape::Plain, ty);
            }
            let last = &segments[segments.len() - 1];
            let shape = if same_text(last.ident.as_str(), "Option") {
                Shape::Optional
            } else if same_text(last.ident.as_str(), "Vec") {
                Shape::Repeated
            } else {
                Shape::Plain
            };
            match shape {
                Shape::Plain => (shape, ty),
                _ => if last.args.len() > 0 {
                    (shape, &last.args[0])
                } else {
                    (shape, ty)
                },
            }
        },
        TypeExpr::Other { .. } => (Shape::Plain, ty),
    }
}

/// The named fields of an item; `None` where the item is no struct with
/// named fields.
pub open spec fn named_fields(item: Item) -> Option<Seq<Field>> {
    match item.body {
        ItemBody::NamedStruct(fields) => Some(fields@),
        _ => None,
    }
}

/// Whether an attribute belongs to the configuration namespace `config`.
pub open spec fn is_config(attr: Attribute) -> bool {
    attr.path@.len() == 1 && attr.path@[0]@ == "config"@
}

/// Whether an attribute belongs to the configuration namespace `config`.
pub fn in_config(attr: &Attribute) -> (r: bool)
    ensures
        r == is_config(*attr),
{
    attr.path.len() == 1 && same_text(attr.path[0].as_str(), "config")
}

/// One `key = literal` pair of a directive list: the key and the source text
/// of the literal.
pub type Pair = (Seq<char>, Seq<char>);

/// The pairs of the directive list that starts at index `i`: `key = literal`
/// items separated by commas, with or without a comma after the last.
/// `None` where the tokens are no such list.
pub open spec fn pairs_from(ts: Seq<Tok>, i: int) -> Option<Seq<Pair>>
    decreases ts.len() - i,
{
    if i < 0 {
        None
    } else if i >= ts.len() {
        Some(Seq::empty())
    } else if i + 2 < ts.len() && ts[i] is Ident && ts[i + 1].is_punct('=') && ts[i + 2] is Literal {
        let head = (ts[i]->Ident_name, ts[i + 2]->Literal_text);
        if i + 3 == ts.len() {
            Some(seq![head])
        } else if ts[i + 3].is_punct(',') {
            match pairs_from(ts, i + 4) {
                Some(rest) => Some(seq![head] + rest),
                None => None,
            }
        } else {
            None
        }
    } else {
        None
    }
}

/// The pairs of an attribute's directive list; `None` where the attribute
/// has no list in parentheses or the list is malformed.
pub open spec fn attr_pairs(attr: Attribute) -> Option<Seq<Pair>> {
    match attr.args {
        AttrArgs::List(tokens) => pairs_from(tokens.deep_view(), 0),
        _ => None,
    }
}

/// The view of the pairs that `directive_pairs` hands out.
pub open spec fn pairs_view(pairs: Seq<(&String, &String)>) -> Seq<Pair> {
    Seq::new(pairs.len(), |k: int| (pairs[k].0@, pairs[k].1@))
}

/// Reads the directive list of an attribute.
pub fn directive_pairs(attr: &Attribute) -> (r: Option<Vec<(&String, &String)>>)
    ensures
        r is Some <==> attr_pairs(*attr) is Some,
        r is Some ==> pairs_view(r.unwrap()@) == attr_pairs(*attr).unwrap(),
{
    let tokens = match &attr.args {
        AttrArgs::List(tokens) => tokens,
        _ => {
            return None;
        },
    };
    let ghost tv = tokens.deep_view();
    let mut pairs: Vec<(&String, &String)> = Vec::new();
    let mut i: usize = 0;
    assert(pairs_view(pairs@) =~= Seq::<Pair>::empty());
    while i < tokens.len()
        invariant
            i <= tokens.len(),
            attr.args matches AttrArgs::List(t) && t == tokens,
            tv == tokens.deep_view(),
            pairs_from(tv, 0) == (match pairs_from(tv, i as int) {
                Some(rest) => Some(pairs_view(pairs@) + rest),
                None => None,
            }),
        decreases tokens.len() - i,
    {
        if tokens.len() - i < 3 {
            return None;
        }
        let ghost before = pairs_view(pairs@);
        match (&tokens[i], &tokens[i + 1], &tokens[i + 2]) {
            (
                TokenTree::Ident { name, .. },
                TokenTree::Punct { ch, .. },
                TokenTree::Literal { text, .. },
            ) => {
                if *ch != '=' {
                    return None;
                }
                pairs.push((name, text));
                assert(pairs_view(pairs@) =~= before + seq![(name@, text@)]);
                if tokens.len() - i == 3 {
                    assert(before + seq![(name@, text@)] + Seq::<Pair>::empty() =~= before
                        + seq![(name@, text@)]);
                    i += 3;
                } else {
                    match &tokens[i + 3] {
                        TokenTree::Punct { ch: comma, .. } => {
                            if *comma != ',' {
                                return None;
                            }
                        },
                        _ => {
                            return None;
                        },
                    }
                    proof {
                        match pairs_from(tv, i + 4) {
                            Some(rest) => {
                                assert(before + (seq![(name@, text@)] + rest) =~= before
                                    + seq![(name@, text@)] + rest);
                            },
                            None => {},
                        }
                    }
                    i += 4;
                }
            },
            _ => {
                return None;
            },
        }
    }
    assert(pairs_view(pairs@) + Seq::<Pair>::empty() =~= pairs_view(pairs@));
    Some(pairs)
}


/// The literal of the last pair, among the first `n`, that has the key
/// `key` and a string literal for its value.
pub open spec fn last_value(pairs: Seq<Pair>, key: Seq<char>, n: nat) -> Option<Seq<char>>
    decreases n,
{
    if n == 0 || n > pairs.len() {
        None
    } else if pairs[n - 1].0 == key && lit_str_value(pairs[n - 1].1) is Some {
        Some(pairs[n - 1].1)
    } else {
        last_value(pairs, key, (n - 1) as nat)
    }
}

/// The literal that an attribute gives for `key`: that of the last such pair
/// of its directive list, where the attribute belongs to the namespace
/// `config` and its list is well formed.
pub open spec fn attr_value(attr: Attribute, key: Seq<char>) -> Option<Seq<char>> {
    if is_config(attr) && attr_pairs(attr) is Some {
        last_value(attr_pairs(attr).unwrap(), key, attr_pairs(attr).unwrap().len())
    } else {
        None
    }
}

/// The literal that the first `n` attributes give for `key`: the last one
/// given wins; attributes that give none are passed over.
pub open spec fn directive_upto(attrs: Seq<Attribute>, key: Seq<char>, n: nat) -> Option<Seq<char>>
    decreases n,
{
    if n == 0 || n > attrs.len() {
        None
    } else if attr_value(attrs[n - 1], key) is Some {
        attr_value(attrs[n - 1], key)
    } else {
        directive_upto(attrs, key, (n - 1) as nat)
    }
}

/// Finds the string literal that the attributes give for `key`, as written.
pub fn find_directive<'a>(attrs: &'a Vec<Attribute>, key: &str) -> (r: Option<&'a String>)
    ensures
        r.deep_view() == directive_upto(attrs@, key@, attrs@.len()),
        r is Some ==> lit_str_value(r.unwrap()@) is Some,
{
    let mut found: Option<&'a String> = None;
    let mut i: usize = 0;
    while i < attrs.len()
        invariant
            i <= attrs.len(),
            found.deep_view() == directive_upto(attrs@, key@, i as nat),
            found is Some ==> lit_str_value(found.unwrap()@) is Some,
        decreases attrs.len() - i,
    {
        let attr = &attrs[i];
        if in_config(attr) {
            match directive_pairs(attr) {
                Some(pairs) => {
                    let ghost all = attr_pairs(*attr).unwrap();
                    let mut inner: Option<&'a String> = None;
                    let mut k: usize = 0;
                    while k < pairs.len()
                        invariant
                            k <= pairs.len(),
                            all == pairs_view(pairs@),
                            inner.deep_view() == last_value(all, key@, k as nat),
                            inner is Some ==> lit_str_value(inner.unwrap()@) is Some,
                        decreases pairs.len() - k,
                    {
                        let (name, literal) = pairs[k];
                        if same_text(name.as_str(), key) {
                            if string_value(literal.as_str()).is_some() {
                                inner = Some(literal);
                            }
                        }
                        k += 1;
                    }
                    if inner.is_some() {
                        found = inner;
                    }
                },
                None => {},
            }
        }
        i += 1;
    }
    found
}

} // verus!
