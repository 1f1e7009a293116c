//! The order that names are held to, and the search for the first name that
//! breaks it.

use vstd::prelude::*;
use vstd::utf8::encode_utf8;

use crate::diag::{reported, Diagnostic, ErrorKind, Report};
use crate::text::{join3, texts};
use crate::token::Span;

verus! {

/// Whether `a` sorts before or with `b` from index `i` on, where the two
/// agree before `i`: at the first index at which they differ the byte of `a`
/// is the smaller one, or `a` ends there.
pub open spec fn bytes_le_from(a: Seq<u8>, b: Seq<u8>, i: int) -> bool
    decreases a.len() - i,
{
    if i < 0 || i >= a.len() {
        true
    } else if i >= b.len() {
        false
    } else if a[i] != b[i] {
        a[i] < b[i]
    } else {
        bytes_le_from(a, b, i + 1)
    }
}

/// Whether the name `a` sorts before or with the name `b`: byte by byte, in
/// dictionary order.
pub open spec fn name_le(a: Seq<char>, b: Seq<char>) -> bool {
    bytes_le_from(encode_utf8(a), encode_utf8(b), 0)
}

/// Whether the names stand in order: none sorts strictly before one that
/// stands earlier.
pub open spec fn in_order(names: Seq<Seq<char>>) -> bool {
    forall|a: int, b: int| 0 <= a < b < names.len() ==> name_le(names[a], names[b])
}

/// Whether `(i, j)` is the first place where the names are out of order:
/// every name before index `i` is in its place, `names[j]` stands after
/// `names[i]` but sorts strictly before it, no name after `i` sorts strictly
/// before `names[j]`, and `names[j]` is the first of those equal to it.
pub open spec fn is_violation(names: Seq<Seq<char>>, i: int, j: int) -> bool {
    &&& 0 <= i < j < names.len()
    &&& forall|a: int, b: int| 0 <= a < i && a < b < names.len() ==> name_le(names[a], names[b])
    &&& !name_le(names[i], names[j])
    &&& forall|k: int| i < k < names.len() ==> name_le(names[j], #[trigger] names[k])
    &&& forall|k: int| i < k < j ==> !name_le(#[trigger] names[k], names[j])
}

/// The first place where the names are out of order, where there is one.
pub open spec fn violation_of(names: Seq<Seq<char>>) -> (int, int) {
    choose|i: int, j: int| is_violation(names, i, j)
}

/// What the user is told of a name that stands too late.
pub open spec fn order_message(earlier: Seq<char>, this: Seq<char>) -> Seq<char> {
    earlier + " should sort before "@ + this
}

/// A name with its location.
pub type Entry = (Seq<char>, Span);

/// The names of a list of names with their locations.
pub open spec fn names_of(list: Seq<Entry>) -> Seq<Seq<char>> {
    Seq::new(list.len(), |k: int| list[k].0)
}

/// The mathematical value of a list of names with their locations.
pub open spec fn entries(list: Seq<(&str, Span)>) -> Seq<Entry> {
    Seq::new(list.len(), |k: int| (list[k].0@, list[k].1))
}

/// What is wrong with the order of a list of names, if anything: at the
/// first place out of order, the name that stands too late is reported at
/// its own location, together with the name before which it belongs.
pub open spec fn order_report(list: Seq<Entry>) -> Option<Report> {
    let names = names_of(list);
    if in_order(names) {
        None
    } else {
        let (i, j) = violation_of(names);
        Some(
            Report {
                kind: ErrorKind::OrderingViolation,
                span: list[j].1,
                message: order_message(names[j], names[i]),
            },
        )
    }
}

/// Of two byte strings that agree before `i`, one sorts before or with the
/// other from `i` on: the order is total.
pub proof fn lemma_bytes_total(a: Seq<u8>, b: Seq<u8>, i: int)
    requires
        0 <= i,
    ensures
        bytes_le_from(a, b, i) || bytes_le_from(b, a, i),
    decreases a.len() - i,
{
    if i < a.len() && i < b.len() && a[i] == b[i] {
        lemma_bytes_total(a, b, i + 1);
    }
}

/// The order is transitive.
pub proof fn lemma_bytes_trans(a: Seq<u8>, b: Seq<u8>, c: Seq<u8>, i: int)
    requires
        0 <= i,
        bytes_le_from(a, b, i),
        bytes_le_from(b, c, i),
    ensures
        bytes_le_from(a, c, i),
    decreases a.len() - i,
{
    if i < a.len() && i < b.len() && i < c.len() && a[i] == b[i] && b[i] == c[i] {
        lemma_bytes_trans(a, b, c, i + 1);
    }
}

/// Of two names, one sorts before or with the other.
pub proof fn law_order_is_total(a: Seq<char>, b: Seq<char>)
    ensures
        name_le(a, b) || name_le(b, a),
{
    lemma_bytes_total(encode_utf8(a), encode_utf8(b), 0);
}

/// A name that sorts before or with a second, which sorts before or with a
/// third, sorts before or with the third.
pub proof fn law_order_is_transitive(a: Seq<char>, b: Seq<char>, c: Seq<char>)
    requires
        name_le(a, b),
        name_le(b, c),
    ensures
        name_le(a, c),
{
    lemma_bytes_trans(encode_utf8(a), encode_utf8(b), encode_utf8(c), 0);
}

/// Names in order hold no violation, and a violation shows that the names
/// are not in order.
pub proof fn law_violation_breaks_order(names: Seq<Seq<char>>, i: int, j: int)
    requires
        is_violation(names, i, j),
    ensures
        !in_order(names),
{
}

/// There is at most one first place where names are out of order.
pub proof fn law_violation_is_unique(names: Seq<Seq<char>>, i: int, j: int, i2: int, j2: int)
    requires
        is_violation(names, i, j),
        is_violation(names, i2, j2),
    ensures
        i == i2,
        j == j2,
{
    if i < i2 {
        assert(name_le(names[i], names[j]));
    }
    if i2 < i {
        assert(name_le(names[i2], names[j2]));
    }
    if j < j2 {
        assert(name_le(names[j], names[j2]));
        assert(!name_le(names[j], names[j2]));
    }
    if j2 < j {
        assert(name_le(names[j2], names[j]));
        assert(!name_le(names[j2], names[j]));
    }
}

/// Names are in order exactly when each sorts before or with the next.
pub proof fn law_in_order_by_neighbours(names: Seq<Seq<char>>)
    ensures
        in_order(names) <==> forall|k: int|
            0 <= k && k + 1 < names.len() ==> name_le(#[trigger] names[k], names[k + 1]),
{
    if forall|k: int| 0 <= k && k + 1 < names.len() ==> name_le(#[trigger] names[k], names[k + 1]) {
        assert forall|a: int, b: int| 0 <= a < b < names.len() implies name_le(
            names[a],
            names[b],
        ) by {
            lemma_chain(names, a, b);
        }
    }
}

/// Where each name sorts before or with the next, each sorts before or with
/// every later one.
proof fn lemma_chain(names: Seq<Seq<char>>, a: int, b: int)
    requires
        0 <= a < b < names.len(),
        forall|k: int| 0 <= k && k + 1 < names.len() ==> name_le(#[trigger] names[k], names[k + 1]),
    ensures
        name_le(names[a], names[b]),
    decreases b - a,
{
    if a + 1 < b {
        lemma_chain(names, a, b - 1);
        assert(name_le(names[b - 1], names[b - 1 + 1]));
        law_order_is_transitive(names[a], names[b - 1], names[b]);
    } else {
        assert(name_le(names[a], names[a + 1]));
    }
}

/// Whether the name `a` sorts before or with the name `b`.
pub fn sorts_before_or_with(a: &str, b: &str) -> (r: bool)
    ensures
        r == name_le(a@, b@),
{
    let x = a.as_bytes();
    let y = b.as_bytes();
    let mut i: usize = 0;
    while i < x.len()
        invariant
            i <= x.len(),
            x@ == encode_utf8(a@),
            y@ == encode_utf8(b@),
            name_le(a@, b@) == bytes_le_from(x@, y@, i as int),
        decreases x.len() - i,
    {
        if i >= y.len() {
            return false;
        }
        if x[i] != y[i] {
            return x[i] < y[i];
        }
        i += 1;
    }
    true
}

/// The index of the least of the names from `start` on, and of the first
/// among those equal to it.
fn least_from(names: &Vec<&str>, start: usize) -> (m: usize)
    requires
        start < names.len(),
    ensures
        start <= m < names.len(),
        forall|k: int| start <= k < names.len() ==> name_le(names@[m as int]@, #[trigger] names@[k]@),
        forall|k: int| start <= k < m ==> !name_le(#[trigger] names@[k]@, names@[m as int]@),
{
    let mut m: usize = start;
    let mut k: usize = start + 1;
    proof {
        law_order_is_total(names@[m as int]@, names@[m as int]@);
    }
    while k < names.len()
        invariant
            start <= m < k <= names.len(),
            forall|t: int| start <= t < k ==> name_le(names@[m as int]@, #[trigger] names@[t]@),
            forall|t: int| start <= t < m ==> !name_le(#[trigger] names@[t]@, names@[m as int]@),
        decreases names.len() - k,
    {
        if !sorts_before_or_with(names[m], names[k]) {
            proof {
                let least = names@[m as int]@;
                let next = names@[k as int]@;
                law_order_is_total(least, next);
                law_order_is_total(next, next);
                assert forall|t: int| start <= t < k + 1 implies name_le(
                    next,
                    #[trigger] names@[t]@,
                ) by {
                    if t < k {
                        law_order_is_transitive(next, least, names@[t]@);
                    }
                }
                assert forall|t: int| start <= t < k implies !name_le(
                    #[trigger] names@[t]@,
                    next,
                ) by {
                    if name_le(names@[t]@, next) {
                        law_order_is_transitive(least, names@[t]@, next);
                    }
                }
            }
            m = k;
        }
        k += 1;
    }
    m
}

/// Finds the first place where the names are out of order; `None` where
/// they are in order.
pub fn find_violation(names: &Vec<&str>) -> (r: Option<(usize, usize)>)
    ensures
        r is None <==> in_order(texts(names@)),
        r is Some ==> is_violation(texts(names@), r.unwrap().0 as int, r.unwrap().1 as int),
        r is Some ==> violation_of(texts(names@)) == (r.unwrap().0 as int, r.unwrap().1 as int),
{
    let ghost all = texts(names@);
    if names.len() == 0 {
        return None;
    }
    let mut i: usize = 0;
    while i < names.len() - 1
        invariant
            i < names.len(),
            all == texts(names@),
            forall|a: int, b: int| 0 <= a < i && a < b < all.len() ==> name_le(all[a], all[b]),
        decreases names.len() - i,
    {
        let m = least_from(names, i + 1);
        if !sorts_before_or_with(names[i], names[m]) {
            assert(is_violation(all, i as int, m as int));
            proof {
                let (i2, j2) = violation_of(all);
                law_violation_is_unique(all, i as int, m as int, i2, j2);
            }
            return Some((i, m));
        }
        proof {
            assert forall|a: int, b: int| 0 <= a < i + 1 && a < b < all.len() implies name_le(
                all[a],
                all[b],
            ) by {
                if a == i {
                    law_order_is_transitive(all[a], all[m as int], all[b]);
                }
            }
        }
        i += 1;
    }
    None
}

/// Holds a list of names with their locations to the order of the names.
pub fn check_order(list: &Vec<(&str, Span)>) -> (r: Option<Diagnostic>)
    ensures
        reported(r, order_report(entries(list@))),
{
    let mut names: Vec<&str> = Vec::new();
    let mut k: usize = 0;
    while k < list.len()
        invariant
            k <= list.len(),
            names@.len() == k,
            forall|t: int| 0 <= t < k ==> (#[trigger] names@[t])@ == list@[t].0@,
        decreases list.len() - k,
    {
        names.push(list[k].0);
        k += 1;
    }
    assert(texts(names@) =~= names_of(entries(list@)));
    match find_violation(&names) {
        None => None,
        Some((i, j)) => {
            let message = join3(names[j], " should sort before ", names[i]);
            Some(Diagnostic::new(ErrorKind::OrderingViolation, list[j].1, message))
        },
    }
}

/// Names that are not in order hold a violation.
pub proof fn law_disorder_has_violation(names: Seq<Seq<char>>)
    requires
        !in_order(names),
    ensures
        exists|i: int, j: int| is_violation(names, i, j),
{
    let i = first_misplaced(names, 0);
    lemma_first_misplaced(names, 0);
    let j = least_after(names, i + 1, names.len() as int);
    lemma_least_after(names, i + 1, names.len() as int);
    if name_le(names[i], names[j]) {
        assert forall|b: int| i < b < names.len() implies name_le(names[i], names[b]) by {
            law_order_is_transitive(names[i], names[j], names[b]);
        }
        assert(in_place(names, i));
    }
    assert forall|a: int, b: int| 0 <= a < i && a < b < names.len() implies name_le(
        names[a],
        names[b],
    ) by {
        assert(in_place(names, a));
    }
    assert(is_violation(names, i, j));
}

/// Whether the name at index `i` is in its place: it sorts before or with
/// every name after it.
pub open spec fn in_place(names: Seq<Seq<char>>, i: int) -> bool {
    forall|b: int| i < b < names.len() ==> name_le(names[i], #[trigger] names[b])
}

/// The first index, from `i` on, of a name that is not in its place; the
/// number of names where there is none.
pub open spec fn first_misplaced(names: Seq<Seq<char>>, i: int) -> int
    decreases names.len() - i,
{
    if i < 0 || i >= names.len() {
        names.len() as int
    } else if in_place(names, i) {
        first_misplaced(names, i + 1)
    } else {
        i
    }
}

/// The index of the first least name among those from `start` up to `end`.
pub open spec fn least_after(names: Seq<Seq<char>>, start: int, end: int) -> int
    decreases end - start,
{
    if end <= start + 1 {
        start
    } else {
        let m = least_after(names, start, end - 1);
        if name_le(names[m], names[end - 1]) {
            m
        } else {
            end - 1
        }
    }
}

proof fn lemma_first_misplaced(names: Seq<Seq<char>>, i: int)
    requires
        0 <= i <= names.len(),
        forall|a: int| 0 <= a < i ==> in_place(names, a),
        !in_order(names),
    ensures
        i <= first_misplaced(names, i) < names.len(),
        forall|a: int| 0 <= a < first_misplaced(names, i) ==> in_place(names, a),
        !in_place(names, first_misplaced(names, i)),
    decreases names.len() - i,
{
    if i < names.len() {
        if in_place(names, i) {
            lemma_first_misplaced(names, i + 1);
        }
    } else {
        assert forall|a: int, b: int| 0 <= a < b < names.len() implies name_le(
            names[a],
            names[b],
        ) by {
            assert(in_place(names, a));
        }
    }
}

proof fn lemma_least_after(names: Seq<Seq<char>>, start: int, end: int)
    requires
        0 <= start < end <= names.len(),
    ensures
        start <= least_after(names, start, end) < end,
        forall|k: int|
            start <= k < end ==> name_le(names[least_after(names, start, end)], #[trigger] names[k]),
        forall|k: int|
            start <= k < least_after(names, start, end) ==> !name_le(
                #[trigger] names[k],
                names[least_after(names, start, end)],
            ),
    decreases end - start,
{
    if end <= start + 1 {
        law_order_is_total(names[start], names[start]);
    } else {
        lemma_least_after(names, start, end - 1);
        let m = least_after(names, start, end - 1);
        let last = names[end - 1];
        if !name_le(names[m], last) {
            law_order_is_total(names[m], last);
            law_order_is_total(last, last);
            assert forall|k: int| start <= k < end implies name_le(last, #[trigger] names[k]) by {
                if k < end - 1 {
                    law_order_is_transitive(last, names[m], names[k]);
                }
            }
            assert forall|k: int| start <= k < end - 1 implies !name_le(
                #[trigger] names[k],
                last,
            ) by {
                if name_le(names[k], last) {
                    law_order_is_transitive(names[m], names[k], last);
                }
            }
        }
    }
}


/// Whether `perm` rearranges `names` into a sorted copy that keeps names
/// which sort alike in the order in which they stood: position `k` of the
/// copy holds `names[perm[k]]`, and `place` says where each name went.
pub open spec fn is_stable_sort(names: Seq<Seq<char>>, perm: Seq<int>, place: Seq<int>) -> bool {
    &&& perm.len() == names.len()
    &&& place.len() == names.len()
    &&& forall|k: int| 0 <= k < names.len() ==> 0 <= #[trigger] perm[k] < names.len()
    &&& forall|k: int| 0 <= k < names.len() ==> 0 <= #[trigger] place[k] < names.len()
    &&& forall|k: int| 0 <= k < names.len() ==> place[#[trigger] perm[k]] == k
    &&& forall|k: int| 0 <= k < names.len() ==> perm[#[trigger] place[k]] == k
    &&& forall|a: int, b: int|
        0 <= a < b < names.len() ==> name_le(names[#[trigger] perm[a]], names[#[trigger] perm[b]])
    &&& forall|a: int, b: int|
        0 <= a < b < names.len() && name_le(names[#[trigger] perm[b]], names[#[trigger] perm[a]])
            ==> perm[a] < perm[b]
}

/// The first place out of order is the first place at which the names differ
/// from their sorted copy: before index `i` the copy holds the names as they
/// stand, and at index `i` it holds `names[j]`.
pub proof fn law_violation_is_first_difference_from_sorted_copy(
    names: Seq<Seq<char>>,
    perm: Seq<int>,
    place: Seq<int>,
    i: int,
    j: int,
)
    requires
        is_stable_sort(names, perm, place),
        is_violation(names, i, j),
    ensures
        forall|k: int| 0 <= k < i ==> perm[k] == k,
        perm[i] == j,
{
    lemma_sorted_copy_keeps_prefix(names, perm, place, i, j, i);
    let m = perm[i];
    if m < i {
        assert(perm[m] == m);
        assert(place[perm[m]] == m);
        assert(place[perm[i]] == i);
    }
    if m == i {
        let p = place[j];
        assert(perm[p] == j);
        if p < i {
            assert(perm[p] == p);
        }
        assert(name_le(names[perm[i]], names[perm[p]]));
    }
    if m > i && m != j {
        let p = place[j];
        assert(perm[p] == j);
        if p < i {
            assert(perm[p] == p);
        }
        assert(place[perm[i]] == i);
        assert(name_le(names[perm[i]], names[perm[p]]));
        assert(name_le(names[j], names[m]));
        assert(perm[i] < perm[p]);
        assert(!name_le(names[m], names[j]));
    }
}

proof fn lemma_sorted_copy_keeps_prefix(
    names: Seq<Seq<char>>,
    perm: Seq<int>,
    place: Seq<int>,
    i: int,
    j: int,
    upto: int,
)
    requires
        is_stable_sort(names, perm, place),
        is_violation(names, i, j),
        0 <= upto <= i,
    ensures
        forall|k: int| 0 <= k < upto ==> perm[k] == k,
    decreases upto,
{
    if upto > 0 {
        lemma_sorted_copy_keeps_prefix(names, perm, place, i, j, upto - 1);
        let k = upto - 1;
        let m = perm[k];
        if m < k {
            assert(perm[m] == m);
            assert(place[perm[m]] == m);
            assert(place[perm[k]] == k);
        }
        if m > k {
            let p = place[k];
            assert(perm[p] == k);
            if p < k {
                assert(perm[p] == p);
            }
            assert(place[perm[k]] == k);
            assert(name_le(names[perm[k]], names[perm[p]]));
            assert(name_le(names[k], names[m]));
            assert(perm[k] < perm[p]);
        }
    }
}

} // verus!
