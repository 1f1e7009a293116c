//! The traversal that checks every marked `match` of a function body.

use vstd::prelude::*;

use crate::diag::{reported, Diagnostic, ErrorKind, Report};
use crate::syntax::{Attribute, Expr, Pat, PatKind};
use crate::text::same_text;
use crate::token::Span;
use super::order::{check_order, entries, order_report, Entry};

verus! {

broadcast use {
    vstd::std_specs::vec::axiom_vec_index_decreases,
    vstd::std_specs::vec::axiom_vec_decreases_to_view,
    vstd::seq::axiom_seq_index_decreases,
};

/// The visitor: it keeps the first failure that it meets.
#[derive(Debug)]
pub struct MatchVisitor {
    pub err: Option<Diagnostic>,
}

/// The first `n` segments of a path, joined by dots.
pub open spec fn path_string(segments: Seq<String>, n: nat) -> Seq<char>
    decreases n,
{
    if n == 0 || n > segments.len() {
        Seq::empty()
    } else if n == 1 {
        segments[0]@
    } else {
        path_string(segments, (n - 1) as nat) + "."@ + segments[n - 1]@
    }
}

/// The name by which an arm is ordered: the identifier, the segments of the
/// path joined by dots, `_` for the wildcard. A pattern of another kind has
/// none.
pub open spec fn pat_name(pat: Pat) -> Option<Seq<char>> {
    match pat.kind {
        PatKind::Wild => Some("_"@),
        PatKind::Other => None,
        _ => Some(path_string(pat.path@, pat.path@.len())),
    }
}

/// The arms as a list of names with their locations, where each has a name.
pub open spec fn arm_list(pats: Seq<Pat>) -> Seq<Entry> {
    Seq::new(pats.len(), |k: int| (pat_name(pats[k]).unwrap(), pats[k].span))
}

/// Whether an attribute is the marker `sorted`.
pub open spec fn is_marker(attr: Attribute) -> bool {
    path_string(attr.path@, attr.path@.len()) == "sorted"@
}

/// The index of the first marker among the attributes from `i` on; their
/// number where there is none.
pub open spec fn marker_index(attrs: Seq<Attribute>, i: int) -> int
    decreases attrs.len() - i,
{
    if i < 0 || i >= attrs.len() {
        attrs.len() as int
    } else if is_marker(attrs[i]) {
        i
    } else {
        marker_index(attrs, i + 1)
    }
}

/// The attributes without their first marker.
pub open spec fn stripped(attrs: Seq<Attribute>) -> Seq<Attribute> {
    if marker_index(attrs, 0) < attrs.len() {
        attrs.remove(marker_index(attrs, 0))
    } else {
        attrs
    }
}

/// The index of the first arm, from `i` on, whose pattern has no name; the
/// number of arms where each has one.
pub open spec fn first_unsupported(pats: Seq<Pat>, i: int) -> int
    decreases pats.len() - i,
{
    if i < 0 || i >= pats.len() {
        pats.len() as int
    } else if pat_name(pats[i]) is None {
        i
    } else {
        first_unsupported(pats, i + 1)
    }
}

/// What the check of one `match` reports: nothing where it bears no marker,
/// else what its arms give rise to.
pub open spec fn site_report(attrs: Seq<Attribute>, pats: Seq<Pat>) -> Option<Report> {
    if marker_index(attrs, 0) >= attrs.len() {
        None
    } else {
        arms_report(pats)
    }
}

/// What the arms of a marked `match` give rise to: the first pattern without
/// a name, whatever the order of the others; else what is wrong with the
/// order of the names of the arms, if anything.
pub open spec fn arms_report(pats: Seq<Pat>) -> Option<Report> {
    if first_unsupported(pats, 0) < pats.len() {
        Some(
            Report {
                kind: ErrorKind::UnsupportedConstruct,
                span: pats[first_unsupported(pats, 0)].span,
                message: "unsupported by sorted"@,
            },
        )
    } else {
        order_report(arm_list(pats))
    }
}

/// The first report in an expression: that of the expression itself where it
/// is a `match` that fails its check, else the first in the expressions
/// nested inside it.
pub open spec fn first_report(e: Expr) -> Option<Report>
    decreases e, 0nat,
{
    match e {
        Expr::Match { attrs, pats, children } => match site_report(attrs@, pats@) {
            Some(report) => Some(report),
            None => first_report_in(children@, 0),
        },
        Expr::Other { children } => first_report_in(children@, 0),
    }
}

/// The first report in the expressions from index `i` on.
pub open spec fn first_report_in(es: Seq<Expr>, i: int) -> Option<Report>
    decreases es, es.len() - i,
{
    if i < 0 || i >= es.len() {
        None
    } else {
        match first_report(es[i]) {
            Some(report) => Some(report),
            None => first_report_in(es, i + 1),
        }
    }
}

/// Whether `after` is `before` with the first marker taken off every
/// `match`, and nothing else changed.
pub open spec fn rewritten(before: Expr, after: Expr) -> bool
    decreases before,
{
    match before {
        Expr::Match { attrs, pats, children } => {
            &&& after is Match
            &&& (after->Match_attrs)@ == stripped(attrs@)
            &&& (after->Match_pats) == pats
            &&& (after->Match_children)@.len() == children@.len()
            &&& forall|k: int|
                0 <= k < children@.len() ==> rewritten(
                    children@[k],
                    #[trigger] (after->Match_children)@[k],
                )
        },
        Expr::Other { children } => {
            &&& after is Other
            &&& (after->Other_children)@.len() == children@.len()
            &&& forall|k: int|
                0 <= k < children@.len() ==> rewritten(
                    children@[k],
                    #[trigger] (after->Other_children)@[k],
                )
        },
    }
}

/// The segments of a path, joined by dots.
pub fn get_path_string(path: &Vec<String>) -> (r: String)
    ensures
        r@ == path_string(path@, path@.len()),
{
    let mut result = String::new();
    let mut i: usize = 0;
    while i < path.len()
        invariant
            i <= path.len(),
            result@ == path_string(path@, i as nat),
        decreases path.len() - i,
    {
        if i > 0 {
            result.append(".");
        }
        result.append(path[i].as_str());
        i += 1;
        assert(result@ =~= path_string(path@, i as nat));
    }
    result
}

/// The name by which an arm is ordered, where its pattern has one.
pub fn arm_name(pat: &Pat) -> (r: Option<String>)
    ensures
        r.deep_view() == pat_name(*pat),
{
    match pat.kind {
        PatKind::Wild => Some(String::from_str("_")),
        PatKind::Other => None,
        _ => Some(get_path_string(&pat.path)),
    }
}

/// The index of the first marker among the attributes; their number where
/// there is none.
pub fn find_marker(attrs: &Vec<Attribute>) -> (r: usize)
    ensures
        r == marker_index(attrs@, 0),
        r <= attrs.len(),
{
    let mut idx: usize = 0;
    while idx < attrs.len()
        invariant
            idx <= attrs.len(),
            marker_index(attrs@, 0) == marker_index(attrs@, idx as int),
        decreases attrs.len() - idx,
    {
        let path = get_path_string(&attrs[idx].path);
        if same_text(path.as_str(), "sorted") {
            return idx;
        }
        idx += 1;
    }
    idx
}

/// Holds the arms of a marked `match` to the order of their names.
pub fn check_arms(pats: &Vec<Pat>) -> (r: Option<Diagnostic>)
    ensures
        reported(r, arms_report(pats@)),
{
    let mut name_arr: Vec<String> = Vec::new();
    let mut k: usize = 0;
    while k < pats.len()
        invariant
            k <= pats.len(),
            name_arr@.len() == k,
            first_unsupported(pats@, 0) == first_unsupported(pats@, k as int),
            forall|t: int| 0 <= t < k ==> pat_name(pats@[t]) == Some((#[trigger] name_arr@[t])@),
        decreases pats.len() - k,
    {
        match arm_name(&pats[k]) {
            Some(name) => {
                name_arr.push(name);
            },
            None => {
                let message = String::from_str("unsupported by sorted");
                return Some(
                    Diagnostic::new(ErrorKind::UnsupportedConstruct, pats[k].span, message),
                );
            },
        }
        k += 1;
    }
    let mut list: Vec<(&str, Span)> = Vec::new();
    let mut t: usize = 0;
    while t < name_arr.len()
        invariant
            t <= name_arr.len(),
            name_arr@.len() == pats@.len(),
            list@.len() == t,
            forall|u: int|
                0 <= u < t ==> (#[trigger] list@[u]).0@ == name_arr@[u]@ && list@[u].1
                    == pats@[u].span,
        decreases name_arr.len() - t,
    {
        list.push((name_arr[t].as_str(), pats[t].span));
        t += 1;
    }
    assert(entries(list@) =~= arm_list(pats@));
    check_order(&list)
}

impl MatchVisitor {
    /// Checks one `match`: takes its first marker off and, where it bore
    /// one, holds its arms to the order of their names. A failure is kept
    /// unless an earlier one is.
    pub fn visit_expr_match_mut(&mut self, attrs: &mut Vec<Attribute>, pats: &Vec<Pat>)
        ensures
            final(attrs)@ == stripped(old(attrs)@),
            old(self).err is Some ==> final(self).err == old(self).err,
            old(self).err is None ==> reported(final(self).err, site_report(old(attrs)@, pats@)),
    {
        let at = find_marker(attrs);
        if at < attrs.len() {
            attrs.remove(at);
            if self.err.is_none() {
                self.err = check_arms(pats);
            }
        }
    }

    /// Visits an expression: checks it where it is a `match`, then visits
    /// the expressions nested inside it, from left to right.
    pub fn visit_expr_mut(&mut self, e: &mut Expr)
        ensures
            rewritten(*old(e), *final(e)),
            old(self).err is Some ==> final(self).err == old(self).err,
            old(self).err is None ==> reported(final(self).err, first_report(*old(e))),
        decreases *old(e), 0nat,
    {
        match e {
            Expr::Match { attrs, pats, children } => {
                self.visit_expr_match_mut(attrs, pats);
                self.visit_children(children);
            },
            Expr::Other { children } => {
                self.visit_children(children);
            },
        }
    }

    /// Visits each of `children`, from left to right.
    pub fn visit_children(&mut self, children: &mut Vec<Expr>)
        ensures
            final(children)@.len() == old(children)@.len(),
            forall|k: int|
                0 <= k < old(children)@.len() ==> rewritten(
                    old(children)@[k],
                    #[trigger] final(children)@[k],
                ),
            old(self).err is Some ==> final(self).err == old(self).err,
            old(self).err is None ==> reported(
                final(self).err,
                first_report_in(old(children)@, 0),
            ),
        decreases *old(children), 1nat,
    {
        let ghost before = *children;
        let mut i: usize = 0;
        while i < children.len()
            invariant
                before == *old(children),
                i <= children.len(),
                children@.len() == before@.len(),
                forall|k: int| 0 <= k < i ==> rewritten(before@[k], #[trigger] children@[k]),
                forall|k: int| i <= k < children@.len() ==> children@[k] == before@[k],
                old(self).err is Some ==> self.err == old(self).err,
                old(self).err is None && self.err is None ==> first_report_in(before@, 0)
                    == first_report_in(before@, i as int),
                old(self).err is None && self.err is Some ==> reported(
                    self.err,
                    first_report_in(before@, 0),
                ),
            decreases children.len() - i,
        {
            self.visit_expr_mut(&mut children[i]);
            i += 1;
        }
    }
}

} // verus!
