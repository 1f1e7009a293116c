//! The order checker: the variants of an enum, and the arms of a marked
//! `match`, must stand in the order of their names.

use vstd::prelude::*;

use crate::diag::{reported, Diagnostic, ErrorKind, Report};
use crate::syntax::{Expr, Item, ItemBody, Variant};
use crate::token::Span;
use self::match_visitor::{first_report, rewritten, MatchVisitor};
use self::order::{check_order, entries, order_report, Entry};

pub mod match_visitor;
pub mod order;

verus! {

/// The variants of an enum as a list of names with their locations, in
/// declaration order.
pub open spec fn variant_list(variants: Seq<Variant>) -> Seq<Entry> {
    Seq::new(variants.len(), |k: int| (variants[k].name@, variants[k].span))
}

/// What the user is told where the input is no enum.
pub open spec fn not_an_enum() -> Seq<char> {
    "expected enum or match expression"@
}

/// What is wrong with the input of the check, if anything: it is no enum,
/// which is reported at the call site, or its variants are out of order.
pub open spec fn failure(item: Item) -> Option<Report> {
    match item.body {
        ItemBody::Enum(variants) => order_report(variant_list(variants@)),
        _ => Some(
            Report {
                kind: ErrorKind::StructuralMismatch,
                span: Span::call_site(),
                message: not_an_enum(),
            },
        ),
    }
}

/// Checks that the variants of an enum stand in the order of their names.
///
/// On an enum whose names are in order the check passes, and the item is
/// kept as it is. On an enum with a name out of order it fails at the first
/// such place: the diagnostic is anchored at the variant that stands too
/// late and names the variant before which it belongs. Any other item is
/// rejected, at the call site.
pub fn expand(ast: &Item) -> (r: Result<(), Diagnostic>)
    ensures
        reported(r.err(), failure(*ast)),
{
    match &ast.body {
        ItemBody::Enum(variants) => {
            let mut fields: Vec<(&str, Span)> = Vec::new();
            let mut k: usize = 0;
            while k < variants.len()
                invariant
                    k <= variants.len(),
                    fields@.len() == k,
                    forall|t: int|
                        0 <= t < k ==> (#[trigger] fields@[t]).0@ == variants@[t].name@
                            && fields@[t].1 == variants@[t].span,
                decreases variants.len() - k,
            {
                fields.push((variants[k].name.as_str(), variants[k].span));
                k += 1;
            }
            assert(entries(fields@) =~= variant_list(variants@));
            match check_order(&fields) {
                None => Ok(()),
                Some(e) => Err(e),
            }
        },
        _ => {
            let message = String::from_str("expected enum or match expression");
            Err(Diagnostic::new(ErrorKind::StructuralMismatch, Span::at_call_site(), message))
        },
    }
}

/// The entry of the order checker for enums; see `expand`.
pub fn sorted(input: &Item) -> (r: Result<(), Diagnostic>)
    ensures
        reported(r.err(), failure(*input)),
{
    expand(input)
}

/// Checks every marked `match` in the body of a function and takes the
/// markers off. The body is traversed as a whole, whatever is found; the
/// failure reported is the first one met, going through the body from the
/// outside in and from left to right.
pub fn check_expand(ast: &mut Expr) -> (r: Result<(), Diagnostic>)
    ensures
        rewritten(*old(ast), *final(ast)),
        reported(r.err(), first_report(*old(ast))),
{
    let mut visitor = MatchVisitor { err: None };
    visitor.visit_expr_mut(ast);
    match visitor.err {
        Some(e) => Err(e),
        None => Ok(()),
    }
}

/// The entry of the order checker for the marked `match` expressions of a
/// function; see `check_expand`.
pub fn check(input: &mut Expr) -> (r: Result<(), Diagnostic>)
    ensures
        rewritten(*old(input), *final(input)),
        reported(r.err(), first_report(*old(input))),
{
    check_expand(input)
}

} // verus!
