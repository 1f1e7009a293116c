//! The typed syntax that the engines read: types, attributes, fields,
//! generics and items.

use vstd::prelude::*;

use crate::token::{Span, TokenTree};

verus! {

broadcast use {
    vstd::std_specs::vec::axiom_vec_index_decreases,
    vstd::std_specs::vec::axiom_vec_decreases_to_view,
    vstd::seq::axiom_seq_index_decreases,
};

/// A type, as far as the engines look into it.
#[derive(Debug)]
pub enum TypeExpr {
    /// A path such as `Option<T>`, `std::vec::Vec<u8>` or `T::Value`.
    Path { leading_colon: bool, segments: Vec<PathSegment> },
    /// Any other type. `text` is the type as written; `nested` lists the
    /// types that occur directly inside it, in source order.
    Other { text: String, nested: Vec<TypeExpr> },
}

/// One segment of a path, with its generic arguments in angle brackets. An
/// argument that is not a path type is held as `TypeExpr::Other`.
#[derive(Debug)]
pub struct PathSegment {
    pub ident: String,
    pub args: Vec<TypeExpr>,
}

/// What follows the path of an attribute.
#[derive(Debug)]
pub enum AttrArgs {
    /// Nothing: `#[name]`.
    Empty,
    /// Tokens in parentheses: `#[name(..)]`.
    List(Vec<TokenTree>),
    /// A value after an equals sign: `#[name = ..]`.
    Value(Vec<TokenTree>),
}

/// An attribute: its path, its arguments, and where it stands.
#[derive(Debug)]
pub struct Attribute {
    pub path: Vec<String>,
    pub args: AttrArgs,
    pub span: Span,
}

/// A named field of a struct.
#[derive(Debug)]
pub struct Field {
    pub name: String,
    pub ty: TypeExpr,
    pub attrs: Vec<Attribute>,
    pub span: Span,
}

/// A variant of an enum.
#[derive(Debug)]
pub struct Variant {
    pub name: String,
    pub span: Span,
}

/// The kind of a generic parameter.
#[derive(Clone, Copy, Debug, PartialEq, Eq, Structural)]
pub enum ParamKind {
    Lifetime,
    Type,
    Const,
}

/// A generic parameter. `bounds` is what follows the colon in its
/// declaration: the bounds of a lifetime or of a type (empty where it has
/// none), the type of a constant.
#[derive(Debug)]
pub struct GenericParam {
    pub kind: ParamKind,
    pub name: String,
    pub bounds: String,
}

/// The generics of an item: its parameters and the predicates of its
/// `where` clause, each as written.
#[derive(Debug)]
pub struct Generics {
    pub params: Vec<GenericParam>,
    pub predicates: Vec<String>,
}

/// What an item is made of.
#[derive(Debug)]
pub enum ItemBody {
    /// A struct with named fields.
    NamedStruct(Vec<Field>),
    /// A struct with positional fields.
    TupleStruct,
    /// A struct without fields.
    UnitStruct,
    /// An enum.
    Enum(Vec<Variant>),
    /// A union.
    Union,
    /// An item of another kind: a function, a module, a trait.
    Other,
}

/// An item: its name, its attributes, its generics and its body.
#[derive(Debug)]
pub struct Item {
    pub name: String,
    pub attrs: Vec<Attribute>,
    pub generics: Generics,
    pub body: ItemBody,
    pub span: Span,
}

/// The kind of a pattern, as far as the order checker tells patterns apart.
#[derive(Clone, Copy, Debug, PartialEq, Eq, Structural)]
pub enum PatKind {
    /// A plain identifier: `x`.
    Ident,
    /// A path to a unit-like value: `Error::Fmt`.
    Path,
    /// A path with fields in parentheses: `Error::Io(e)`.
    TupleStruct,
    /// A path with fields in braces: `Error::Parse { .. }`.
    Struct,
    /// The wildcard `_`.
    Wild,
    /// Any other pattern: a reference, a literal, alternatives.
    Other,
}

/// The pattern of a match arm: its kind, the segments of its identifier or
/// path (none for a wildcard or another pattern), and where it stands.
#[derive(Debug)]
pub struct Pat {
    pub kind: PatKind,
    pub path: Vec<String>,
    pub span: Span,
}

/// An expression, as far as the order checker looks into it: a `match` with
/// its attributes and the patterns of its arms, or anything else; either
/// with the expressions nested inside it, in source order.
#[derive(Debug)]
pub enum Expr {
    Match { attrs: Vec<Attribute>, pats: Vec<Pat>, children: Vec<Expr> },
    Other { children: Vec<Expr> },
}

/// The source text of a type.
pub open spec fn type_text(ty: TypeExpr) -> Seq<char>
    decreases ty,
{
    match ty {
        TypeExpr::Path { leading_colon, segments } => (if leading_colon {
            "::"@
        } else {
            Seq::empty()
        }) + segments_text(segments@, segments@.len()),
        TypeExpr::Other { text, .. } => text@,
    }
}

/// The source text of the first `n` segments of a path, joined by `::`.
pub open spec fn segments_text(segments: Seq<PathSegment>, n: nat) -> Seq<char>
    decreases segments, n,
{
    if n == 0 || n > segments.len() {
        Seq::empty()
    } else if n == 1 {
        segment_text(segments[0])
    } else {
        segments_text(segments, (n - 1) as nat) + "::"@ + segment_text(segments[n - 1])
    }
}

/// The source text of one segment: its name, then its arguments in angle
/// brackets where it has any.
pub open spec fn segment_text(segment: PathSegment) -> Seq<char>
    decreases segment,
{
    if segment.args@.len() == 0 {
        segment.ident@
    } else {
        segment.ident@ + "<"@ + types_text(segment.args@, segment.args@.len()) + ">"@
    }
}

/// The source text of the first `n` types of a list, joined by `, `.
pub open spec fn types_text(types: Seq<TypeExpr>, n: nat) -> Seq<char>
    decreases types, n,
{
    if n == 0 || n > types.len() {
        Seq::empty()
    } else if n == 1 {
        type_text(types[0])
    } else {
        types_text(types, (n - 1) as nat) + ", "@ + type_text(types[n - 1])
    }
}

/// Appends the source text of a type to `out`.
pub fn write_type(ty: &TypeExpr, out: &mut String)
    ensures
        final(out)@ == old(out)@ + type_text(*ty),
    decreases ty,
{
    match ty {
        TypeExpr::Path { leading_colon, segments } => {
            if *leading_colon {
                out.append("::");
            }
            let ghost start = out@;
            let mut i: usize = 0;
            assert(start + segments_text(segments@, 0) =~= start);
            while i < segments.len()
                invariant
                    i <= segments.len(),
                    ty matches TypeExpr::Path { segments: s, .. } && s == segments,
                    out@ == start + segments_text(segments@, i as nat),
                decreases segments.len() - i,
            {
                let ghost before = out@;
                if i > 0 {
                    out.append("::");
                }
                write_segment(&segments[i], out);
                i += 1;
                assert(out@ =~= start + segments_text(segments@, i as nat));
            }
            assert(out@ =~= old(out)@ + type_text(*ty));
        },
        TypeExpr::Other { text, .. } => {
            out.append(text.as_str());
        },
    }
}

/// Appends the source text of a path segment to `out`.
pub fn write_segment(segment: &PathSegment, out: &mut String)
    ensures
        final(out)@ == old(out)@ + segment_text(*segment),
    decreases segment,
{
    out.append(segment.ident.as_str());
    if segment.args.len() > 0 {
        out.append("<");
        let ghost start = out@;
        let mut i: usize = 0;
        assert(start + types_text(segment.args@, 0) =~= start);
        while i < segment.args.len()
            invariant
                i <= segment.args.len(),
                out@ == start + types_text(segment.args@, i as nat),
            decreases segment.args.len() - i,
        {
            if i > 0 {
                out.append(", ");
            }
            write_type(&segment.args[i], out);
            i += 1;
            assert(out@ =~= start + types_text(segment.args@, i as nat));
        }
        out.append(">");
        assert(out@ =~= old(out)@ + segment_text(*segment));
    }
}

/// The source text of a type, as a fresh string.
pub fn render_type(ty: &TypeExpr) -> (r: String)
    ensures
        r@ == type_text(*ty),
{
    let mut out = String::new();
    write_type(ty, &mut out);
    assert(Seq::<char>::empty() + type_text(*ty) =~= type_text(*ty));
    out
}

} // verus!
