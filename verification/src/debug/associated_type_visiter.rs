//! The search for associated types of type parameters: paths such as
//! `T::Value`, whose first segment names a parameter of the struct.

use vstd::prelude::*;

use crate::syntax::{PathSegment, TypeExpr};
use crate::text::{same_text, views};

verus! {

broadcast use {
    vstd::std_specs::vec::axiom_vec_index_decreases,
    vstd::std_specs::vec::axiom_vec_decreases_to_view,
    vstd::seq::axiom_seq_index_decreases,
};

/// The visitor. `generic_type_arr` holds the names of the type parameters to
/// look for; `associated_type_map` collects the paths found, in the order in
/// which they are met, each under the parameter that its first segment
/// names.
#[derive(Debug)]
pub struct AssociatedTypeVisiter<'a> {
    pub generic_type_arr: Vec<String>,
    pub associated_type_map: Vec<&'a TypeExpr>,
}

/// Whether `name` is one of `names`.
pub open spec fn names_hold(names: Seq<Seq<char>>, name: Seq<char>) -> bool {
    exists|k: int| 0 <= k < names.len() && #[trigger] names[k] == name
}

/// Whether a type is an associated type of one of the parameters `names`: a
/// path of two or more segments whose first segment is one of them.
pub open spec fn is_projection(ty: TypeExpr, names: Seq<Seq<char>>) -> bool {
    ty matches TypeExpr::Path { segments, .. } && segments@.len() >= 2 && names_hold(
        names,
        segments@[0].ident@,
    )
}

/// The associated types of the parameters `names` in a type: the type itself
/// where it is one, then those in the types nested inside it, from left to
/// right.
pub open spec fn projections(ty: TypeExpr, names: Seq<Seq<char>>) -> Seq<TypeExpr>
    decreases ty, 0nat,
{
    (if is_projection(ty, names) {
        seq![ty]
    } else {
        Seq::empty()
    }) + (match ty {
        TypeExpr::Path { segments, .. } => projections_in_segments(segments@, 0, names),
        TypeExpr::Other { nested, .. } => projections_in_types(nested@, 0, names),
    })
}

/// The associated types in the generic arguments of the segments from index
/// `i` on.
pub open spec fn projections_in_segments(
    segments: Seq<PathSegment>,
    i: int,
    names: Seq<Seq<char>>,
) -> Seq<TypeExpr>
    decreases segments, segments.len() - i,
{
    if i < 0 || i >= segments.len() {
        Seq::empty()
    } else {
        projections_in_types(segments[i].args@, 0, names) + projections_in_segments(
            segments,
            i + 1,
            names,
        )
    }
}

/// The associated types in the types from index `i` on.
pub open spec fn projections_in_types(types: Seq<TypeExpr>, i: int, names: Seq<Seq<char>>) -> Seq<
    TypeExpr,
>
    decreases types, types.len() - i,
{
    if i < 0 || i >= types.len() {
        Seq::empty()
    } else {
        projections(types[i], names) + projections_in_types(types, i + 1, names)
    }
}

/// The types that a list of references points to.
pub open spec fn pointees(refs: Seq<&TypeExpr>) -> Seq<TypeExpr> {
    Seq::new(refs.len(), |k: int| *refs[k])
}

impl<'a> AssociatedTypeVisiter<'a> {
    /// Whether `name` is one of the parameters that the visitor looks for.
    pub fn knows(&self, name: &str) -> (r: bool)
        ensures
            r == names_hold(views(self.generic_type_arr@), name@),
    {
        let mut k: usize = 0;
        while k < self.generic_type_arr.len()
            invariant
                k <= self.generic_type_arr.len(),
                forall|t: int| 0 <= t < k ==> #[trigger] views(self.generic_type_arr@)[t] != name@,
            decreases self.generic_type_arr.len() - k,
        {
            if same_text(self.generic_type_arr[k].as_str(), name) {
                assert(views(self.generic_type_arr@)[k as int] == name@);
                return true;
            }
            k += 1;
        }
        false
    }

    /// Visits a type: records it where it is an associated type of one of
    /// the parameters, then visits the types nested inside it.
    pub fn visit_type_path(&mut self, i: &'a TypeExpr)
        ensures
            final(self).generic_type_arr == old(self).generic_type_arr,
            pointees(final(self).associated_type_map@) == pointees(old(self).associated_type_map@)
                + projections(*i, views(old(self).generic_type_arr@)),
        decreases i, 0nat,
    {
        let ghost names = views(self.generic_type_arr@);
        let ghost start = pointees(self.associated_type_map@);
        match i {
            TypeExpr::Path { segments, .. } => {
                if segments.len() >= 2 {
                    if self.knows(segments[0].ident.as_str()) {
                        self.associated_type_map.push(i);
                    }
                }
                let ghost head = pointees(self.associated_type_map@);
                assert(head =~= start + (if is_projection(*i, names) {
                    seq![*i]
                } else {
                    Seq::empty()
                }));
                let mut k: usize = 0;
                assert(head + Seq::<TypeExpr>::empty() =~= head);
                while k < segments.len()
                    invariant
                        k <= segments.len(),
                        i matches TypeExpr::Path { segments: s, .. } && s == segments,
                        views(self.generic_type_arr@) == names,
                        self.generic_type_arr == old(self).generic_type_arr,
                        pointees(self.associated_type_map@) + projections_in_segments(
                            segments@,
                            k as int,
                            names,
                        ) == head + projections_in_segments(segments@, 0, names),
                    decreases segments.len() - k,
                {
                    let ghost before = pointees(self.associated_type_map@);
                    self.visit_types(&segments[k].args);
                    proof {
                        let now = projections_in_types(segments@[k as int].args@, 0, names);
                        let rest = projections_in_segments(segments@, k + 1, names);
                        assert(before + now + rest =~= before + (now + rest));
                    }
                    k += 1;
                }
                assert(pointees(self.associated_type_map@) + Seq::<TypeExpr>::empty()
                    =~= pointees(self.associated_type_map@));
                assert(head + projections_in_segments(segments@, 0, names) =~= start + projections(
                    *i,
                    names,
                ));
            },
            TypeExpr::Other { nested, .. } => {
                assert(start + Seq::<TypeExpr>::empty() =~= start);
                self.visit_types(nested);
                assert(start + projections_in_types(nested@, 0, names) =~= start + projections(
                    *i,
                    names,
                ));
            },
        }
    }

    /// Visits each of `types`, from left to right.
    pub fn visit_types(&mut self, types: &'a Vec<TypeExpr>)
        ensures
            final(self).generic_type_arr == old(self).generic_type_arr,
            pointees(final(self).associated_type_map@) == pointees(old(self).associated_type_map@)
                + projections_in_types(types@, 0, views(old(self).generic_type_arr@)),
        decreases types, 1nat,
    {
        let ghost names = views(self.generic_type_arr@);
        let ghost start = pointees(self.associated_type_map@);
        let mut k: usize = 0;
        while k < types.len()
            invariant
                k <= types.len(),
                views(self.generic_type_arr@) == names,
                self.generic_type_arr == old(self).generic_type_arr,
                pointees(self.associated_type_map@) + projections_in_types(types@, k as int, names)
                    == start + projections_in_types(types@, 0, names),
            decreases types.len() - k,
        {
            let ghost before = pointees(self.associated_type_map@);
            self.visit_type_path(&types[k]);
            proof {
                let now = projections(types@[k as int], names);
                let rest = projections_in_types(types@, k + 1, names);
                assert(before + now + rest =~= before + (now + rest));
            }
            k += 1;
        }
        assert(pointees(self.associated_type_map@) + Seq::<TypeExpr>::empty() =~= pointees(
            self.associated_type_map@,
        ));
    }
}

} // verus!
