//! What the synthesized builder does when it runs: a model of its slots, of
//! its methods and of its finalizer, and the laws that they obey.

use vstd::prelude::*;

use crate::diag::{Diagnostic, ErrorKind};
use crate::shape::{FieldDescriptor, FieldPlan, Shape};
use crate::text::join2;
use super::{has_accumulator, has_setter};

verus! {

/// What a slot of the builder holds.
#[derive(Debug)]
pub enum Slot<V> {
    /// Nothing.
    Absent,
    /// One value: the slot of a plain or of an optional field, once set.
    One(V),
    /// A sequence of values: the slot of a repeated field.
    Many(Vec<V>),
}

/// The mathematical value of a slot.
pub ghost enum SlotState<V> {
    Absent,
    One(V),
    Many(Seq<V>),
}

impl<V> View for Slot<V> {
    type V = SlotState<V>;

    open spec fn view(&self) -> SlotState<V> {
        match self {
            Slot::Absent => SlotState::Absent,
            Slot::One(v) => SlotState::One(*v),
            Slot::Many(vs) => SlotState::Many(vs@),
        }
    }
}

/// The values of the slots of a builder.
pub open spec fn states<V>(slots: Seq<Slot<V>>) -> Seq<SlotState<V>> {
    Seq::new(slots.len(), |k: int| slots[k]@)
}

/// What the slot of a field holds in a fresh builder: an empty sequence for
/// a repeated field, nothing for any other.
pub open spec fn initial_slot<V>(d: FieldPlan) -> SlotState<V> {
    if d.shape == Shape::Repeated {
        SlotState::Many(Seq::empty())
    } else {
        SlotState::Absent
    }
}

/// The slots of a fresh builder.
pub open spec fn initial<V>(ds: Seq<FieldPlan>) -> Seq<SlotState<V>> {
    Seq::new(ds.len(), |k: int| initial_slot(ds[k]))
}

/// Whether the builder has a setter that takes one value for field `i`: the
/// field is plain or optional.
pub open spec fn can_store(ds: Seq<FieldPlan>, i: int) -> bool {
    0 <= i < ds.len() && ds[i].shape != Shape::Repeated
}

/// Whether the builder has a setter that takes a whole sequence for field
/// `i`: the field is repeated, and its accumulator did not take the
/// setter's name.
pub open spec fn can_replace(ds: Seq<FieldPlan>, i: int) -> bool {
    0 <= i < ds.len() && ds[i].shape == Shape::Repeated && has_setter(ds[i])
}

/// Whether the builder has an accumulator for field `i`.
pub open spec fn can_append(ds: Seq<FieldPlan>, i: int) -> bool {
    0 <= i < ds.len() && has_accumulator(ds[i])
}

/// The slots after the setter of field `i` was called with `v`.
pub open spec fn stored<V>(slots: Seq<SlotState<V>>, i: int, v: V) -> Seq<SlotState<V>> {
    slots.update(i, SlotState::One(v))
}

/// The slots after the setter of the repeated field `i` was called with
/// `vs`: the sequence takes the place of what the slot held.
pub open spec fn replaced<V>(slots: Seq<SlotState<V>>, i: int, vs: Seq<V>) -> Seq<SlotState<V>> {
    slots.update(i, SlotState::Many(vs))
}

/// The slots after the accumulator of field `i` was called with `v`: the
/// value is added at the end of the sequence, which starts anew where the
/// slot held none.
pub open spec fn appended<V>(slots: Seq<SlotState<V>>, i: int, v: V) -> Seq<SlotState<V>> {
    slots.update(
        i,
        match slots[i] {
            SlotState::Many(vs) => SlotState::Many(vs.push(v)),
            _ => SlotState::Many(seq![v]),
        },
    )
}

/// The index of the first field, from `i` on, that is not optional and whose
/// slot holds nothing; the number of fields where there is none.
pub open spec fn first_missing<V>(ds: Seq<FieldPlan>, slots: Seq<SlotState<V>>, i: int) -> int
    decreases ds.len() - i,
{
    if i < 0 || i >= ds.len() {
        ds.len() as int
    } else if ds[i].shape != Shape::Optional && slots[i] is Absent {
        i
    } else {
        first_missing(ds, slots, i + 1)
    }
}

/// The slots with those before index `upto` emptied.
pub open spec fn drained<V>(slots: Seq<SlotState<V>>, upto: int) -> Seq<SlotState<V>> {
    Seq::new(
        slots.len(),
        |k: int|
            if k < upto {
                SlotState::Absent
            } else {
                slots[k]
            },
    )
}

/// Whether the finalizer succeeds on these slots: no field that is not
/// optional has an empty slot.
pub open spec fn builds<V>(ds: Seq<FieldPlan>, slots: Seq<SlotState<V>>) -> bool {
    first_missing(ds, slots, 0) == ds.len()
}

/// The slots after the finalizer ran: all of them emptied where it
/// succeeded, those before the missing field emptied where it failed.
pub open spec fn after_build<V>(ds: Seq<FieldPlan>, slots: Seq<SlotState<V>>) -> Seq<
    SlotState<V>,
> {
    drained(slots, first_missing(ds, slots, 0))
}

/// What the user is told of a field that was never set.
pub open spec fn missing_message(name: Seq<char>) -> Seq<char> {
    name + " field is missing"@
}

/// A running model of the builder that is synthesized for `fields`.
#[derive(Debug)]
pub struct BuilderModel<'a, V> {
    pub fields: &'a Vec<FieldDescriptor<'a>>,
    pub slots: Vec<Slot<V>>,
}

impl<'a, V> BuilderModel<'a, V> {
    /// The model has one slot per field.
    pub open spec fn wf(&self) -> bool {
        self.slots@.len() == self.fields@.len()
    }

    /// What the builder goes by for each field.
    pub open spec fn plans(&self) -> Seq<FieldPlan> {
        self.fields.deep_view()
    }

    /// The values of the slots.
    pub open spec fn state(&self) -> Seq<SlotState<V>> {
        states(self.slots@)
    }

    /// A fresh builder: what the factory on the struct itself returns.
    pub fn new(fields: &'a Vec<FieldDescriptor<'a>>) -> (r: Self)
        ensures
            r.wf(),
            r.fields == fields,
            r.state() == initial::<V>(fields.deep_view()),
    {
        let mut slots: Vec<Slot<V>> = Vec::new();
        let mut k: usize = 0;
        while k < fields.len()
            invariant
                k <= fields.len(),
                slots@.len() == k,
                forall|t: int|
                    0 <= t < k ==> (#[trigger] slots@[t])@ == initial_slot::<V>(
                        fields@[t].deep_view(),
                    ),
            decreases fields.len() - k,
        {
            match fields[k].shape {
                Shape::Repeated => {
                    slots.push(Slot::Many(Vec::new()));
                },
                _ => {
                    slots.push(Slot::Absent);
                },
            }
            k += 1;
        }
        assert(states(slots@) =~= initial::<V>(fields.deep_view()));
        BuilderModel { fields, slots }
    }

    /// The setter of a plain or optional field. Returns whether the builder
    /// has such a method; where it has none, nothing changes.
    pub fn set(&mut self, field: usize, value: V) -> (r: bool)
        requires
            old(self).wf(),
        ensures
            final(self).wf(),
            final(self).fields == old(self).fields,
            r == can_store(old(self).plans(), field as int),
            r ==> final(self).state() == stored(old(self).state(), field as int, value),
            !r ==> final(self).state() == old(self).state(),
    {
        if field >= self.fields.len() {
            return false;
        }
        match self.fields[field].shape {
            Shape::Repeated => false,
            _ => {
                self.slots.set(field, Slot::One(value));
                assert(self.state() =~= stored(old(self).state(), field as int, value));
                true
            },
        }
    }

    /// The setter of a repeated field. Returns whether the builder has such
    /// a method; where it has none, nothing changes.
    pub fn set_all(&mut self, field: usize, values: Vec<V>) -> (r: bool)
        requires
            old(self).wf(),
        ensures
            final(self).wf(),
            final(self).fields == old(self).fields,
            r == can_replace(old(self).plans(), field as int),
            r ==> final(self).state() == replaced(old(self).state(), field as int, values@),
            !r ==> final(self).state() == old(self).state(),
    {
        if field >= self.fields.len() {
            return false;
        }
        let f = &self.fields[field];
        match (&f.shape, &f.accumulator) {
            (Shape::Repeated, Some(each)) => {
                if crate::text::same_text(each.as_str(), f.field.name.as_str()) {
                    return false;
                }
            },
            (Shape::Repeated, None) => {},
            _ => {
                return false;
            },
        }
        self.slots.set(field, Slot::Many(values));
        assert(self.state() =~= replaced(old(self).state(), field as int, values@));
        true
    }

    /// The accumulator of a repeated field. Returns whether the builder has
    /// such a method; where it has none, nothing changes.
    pub fn push(&mut self, field: usize, value: V) -> (r: bool)
        requires
            old(self).wf(),
        ensures
            final(self).wf(),
            final(self).fields == old(self).fields,
            r == can_append(old(self).plans(), field as int),
            r ==> final(self).state() == appended(old(self).state(), field as int, value),
            !r ==> final(self).state() == old(self).state(),
    {
        if field >= self.fields.len() {
            return false;
        }
        let f = &self.fields[field];
        match (&f.shape, &f.accumulator) {
            (Shape::Repeated, Some(_)) => {},
            _ => {
                return false;
            },
        }
        let mut slot: Slot<V> = Slot::Absent;
        self.slots.set_and_swap(field, &mut slot);
        let next = match slot {
            Slot::Many(mut arr) => {
                arr.push(value);
                Slot::Many(arr)
            },
            _ => {
                let mut arr: Vec<V> = Vec::new();
                arr.push(value);
                Slot::Many(arr)
            },
        };
        self.slots.set(field, next);
        assert(self.state() =~= appended(old(self).state(), field as int, value));
        true
    }

    /// The finalizer. Succeeds, with what the slots held, where no field
    /// that is not optional has an empty slot; fails at the first such field
    /// otherwise. Either way it empties the slots that it went through.
    pub fn build(&mut self) -> (r: Result<Vec<Slot<V>>, Diagnostic>)
        requires
            old(self).wf(),
        ensures
            final(self).wf(),
            final(self).fields == old(self).fields,
            r is Ok <==> builds(old(self).plans(), old(self).state()),
            r is Ok ==> states(r.unwrap()@) == old(self).state(),
            r is Err ==> {
                let missing = first_missing(old(self).plans(), old(self).state(), 0);
                &&& 0 <= missing < old(self).fields@.len()
                &&& (r->Err_0).says(
                    ErrorKind::MissingRequiredField,
                    old(self).fields@[missing].field.span,
                    missing_message(old(self).fields@[missing].field.name@),
                )
            },
            final(self).state() == after_build(old(self).plans(), old(self).state()),
    {
        let ghost ds = self.plans();
        let ghost before = self.state();
        let mut fresh: Vec<Slot<V>> = Vec::new();
        let mut k: usize = 0;
        while k < self.fields.len()
            invariant
                k <= self.fields.len(),
                self.wf(),
                self.fields == old(self).fields,
                ds == self.plans(),
                before == old(self).state(),
                before.len() == self.slots@.len(),
                fresh@.len() == k,
                forall|t: int| 0 <= t < k ==> (#[trigger] fresh@[t])@ == before[t],
                forall|t: int| 0 <= t < k ==> (#[trigger] self.slots@[t])@ is Absent,
                forall|t: int| k <= t < self.slots@.len() ==> (#[trigger] self.slots@[t])@ == before[t],
                first_missing(ds, before, 0) == first_missing(ds, before, k as int),
            decreases self.fields.len() - k,
        {
            let f = &self.fields[k];
            let mut slot: Slot<V> = Slot::Absent;
            self.slots.set_and_swap(k, &mut slot);
            match (&f.shape, &slot) {
                (Shape::Optional, _) => {},
                (_, Slot::Absent) => {
                    let message = join2(f.field.name.as_str(), " field is missing");
                    assert(before[k as int] is Absent);
                    assert(ds[k as int].shape == f.shape);
                    assert(first_missing(ds, before, k as int) == k);
                    assert(self.state() =~= after_build(ds, before));
                    return Err(
                        Diagnostic::new(ErrorKind::MissingRequiredField, f.field.span, message),
                    );
                },
                _ => {},
            }
            fresh.push(slot);
            k += 1;
        }
        assert(self.state() =~= after_build(ds, before));
        assert(states(fresh@) =~= before);
        Ok(fresh)
    }
}


/// The slots after a run of calls of setters of plain or optional fields,
/// each given by the index of its field and the value handed to it.
pub open spec fn after_stores<V>(slots: Seq<SlotState<V>>, calls: Seq<(int, V)>) -> Seq<
    SlotState<V>,
>
    decreases calls.len(),
{
    if calls.len() == 0 {
        slots
    } else {
        stored(after_stores(slots, calls.drop_last()), calls.last().0, calls.last().1)
    }
}

/// The slots after the accumulator of field `i` was called once for each of
/// `vs`, in order.
pub open spec fn after_appends<V>(slots: Seq<SlotState<V>>, i: int, vs: Seq<V>) -> Seq<
    SlotState<V>,
>
    decreases vs.len(),
{
    if vs.len() == 0 {
        slots
    } else {
        appended(after_appends(slots, i, vs.drop_last()), i, vs.last())
    }
}

/// Whether the setter of field `k` is called in `calls`.
pub open spec fn was_set<V>(calls: Seq<(int, V)>, k: int) -> bool {
    exists|c: int| 0 <= c < calls.len() && (#[trigger] calls[c]).0 == k
}

/// The finalizer succeeds exactly where no field that is not optional has an
/// empty slot.
pub proof fn lemma_builds<V>(ds: Seq<FieldPlan>, slots: Seq<SlotState<V>>, i: int)
    requires
        0 <= i <= ds.len(),
    ensures
        i <= first_missing(ds, slots, i) <= ds.len(),
        first_missing(ds, slots, i) == ds.len() <==> forall|k: int|
            i <= k < ds.len() ==> !(ds[k].shape != Shape::Optional && (#[trigger] slots[k]) is Absent),
        first_missing(ds, slots, i) < ds.len() ==> ds[first_missing(ds, slots, i)].shape
            != Shape::Optional && slots[first_missing(ds, slots, i)] is Absent,
    decreases ds.len() - i,
{
    if i < ds.len() {
        lemma_builds(ds, slots, i + 1);
    }
}

/// After a run of setter calls on a fresh builder, a slot of a plain field
/// is filled exactly where its setter was called.
proof fn lemma_after_stores<V>(ds: Seq<FieldPlan>, calls: Seq<(int, V)>, k: int)
    requires
        0 <= k < ds.len(),
        ds[k].shape != Shape::Repeated,
        forall|c: int| 0 <= c < calls.len() ==> 0 <= (#[trigger] calls[c]).0 < ds.len(),
    ensures
        after_stores(initial::<V>(ds), calls).len() == ds.len(),
        after_stores(initial::<V>(ds), calls)[k] is Absent <==> !was_set(calls, k),
    decreases calls.len(),
{
    if calls.len() > 0 {
        let head = calls.drop_last();
        lemma_after_stores(ds, head, k);
        if was_set(head, k) {
            let c = choose|c: int| 0 <= c < head.len() && (#[trigger] head[c]).0 == k;
            assert(calls[c].0 == k);
        }
        if calls.last().0 == k {
            assert(calls[calls.len() - 1].0 == k);
        }
        if was_set(calls, k) && calls.last().0 != k {
            let c = choose|c: int| 0 <= c < calls.len() && (#[trigger] calls[c]).0 == k;
            assert(head[c].0 == k);
        }
    }
}

/// For a struct whose fields are all plain, the finalizer of a fresh builder
/// succeeds after a run of setter calls exactly where the setter of every
/// field was called at least once.
pub proof fn law_plain_fields_build_iff_all_set<V>(ds: Seq<FieldPlan>, calls: Seq<(int, V)>)
    requires
        forall|k: int| 0 <= k < ds.len() ==> (#[trigger] ds[k]).shape == Shape::Plain,
        forall|c: int| 0 <= c < calls.len() ==> 0 <= (#[trigger] calls[c]).0 < ds.len(),
    ensures
        builds(ds, after_stores(initial::<V>(ds), calls)) <==> forall|k: int|
            0 <= k < ds.len() ==> was_set(calls, k),
{
    let slots = after_stores(initial::<V>(ds), calls);
    lemma_builds(ds, slots, 0);
    assert forall|k: int| 0 <= k < ds.len() implies (slots[k] is Absent <==> !was_set(
        calls,
        k,
    )) by {
        lemma_after_stores(ds, calls, k);
    }
    if forall|k: int| 0 <= k < ds.len() ==> was_set(calls, k) {
        assert forall|k: int| 0 <= k < ds.len() implies !(ds[k].shape != Shape::Optional && (
        #[trigger] slots[k]) is Absent) by {
            assert(was_set(calls, k));
        }
    }
    if builds(ds, slots) {
        assert forall|k: int| 0 <= k < ds.len() implies was_set(calls, k) by {
            assert(ds[k].shape == Shape::Plain);
            assert(!(slots[k] is Absent));
        }
    }
}

/// The finalizer is not idempotent: after it succeeded, a second call fails
/// at the first field that is not optional, where the struct has one.
pub proof fn law_second_build_fails<V>(ds: Seq<FieldPlan>, slots: Seq<SlotState<V>>, k: int)
    requires
        slots.len() == ds.len(),
        builds(ds, slots),
        0 <= k < ds.len(),
        ds[k].shape != Shape::Optional,
    ensures
        !builds(ds, after_build(ds, slots)),
        first_missing(ds, after_build(ds, slots), 0) <= k,
{
    let emptied = after_build(ds, slots);
    lemma_builds(ds, emptied, 0);
    assert(emptied[k] is Absent);
    if first_missing(ds, emptied, 0) > k {
        lemma_first_missing_stops(ds, emptied, 0, k);
    }
}

/// The search for a missing field does not pass a field that is not
/// optional and whose slot is empty.
proof fn lemma_first_missing_stops<V>(ds: Seq<FieldPlan>, slots: Seq<SlotState<V>>, i: int, k: int)
    requires
        0 <= i <= k < ds.len(),
        ds[k].shape != Shape::Optional,
        slots[k] is Absent,
    ensures
        first_missing(ds, slots, i) <= k,
    decreases k - i,
{
    if i < k {
        lemma_first_missing_stops(ds, slots, i + 1, k);
    }
}

/// An optional field never makes the finalizer fail: whether its slot is
/// empty or filled, the finalizer fails at the same field or succeeds alike.
pub proof fn law_optional_field_never_missing<V>(
    ds: Seq<FieldPlan>,
    slots: Seq<SlotState<V>>,
    k: int,
    held: SlotState<V>,
)
    requires
        slots.len() == ds.len(),
        0 <= k < ds.len(),
        ds[k].shape == Shape::Optional,
    ensures
        first_missing(ds, slots, 0) != k,
        first_missing(ds, slots.update(k, held), 0) == first_missing(ds, slots, 0),
{
    lemma_builds(ds, slots, 0);
    lemma_optional_skipped(ds, slots, 0, k, held);
}

proof fn lemma_optional_skipped<V>(
    ds: Seq<FieldPlan>,
    slots: Seq<SlotState<V>>,
    i: int,
    k: int,
    held: SlotState<V>,
)
    requires
        slots.len() == ds.len(),
        0 <= i <= ds.len(),
        0 <= k < ds.len(),
        ds[k].shape == Shape::Optional,
    ensures
        first_missing(ds, slots.update(k, held), i) == first_missing(ds, slots, i),
    decreases ds.len() - i,
{
    if i < ds.len() {
        lemma_optional_skipped(ds, slots, i + 1, k, held);
    }
}

/// Calling the accumulator of a field once for each of `vs` adds them at the
/// end of what the slot held, in call order, and leaves the other slots as
/// they were.
pub proof fn lemma_appends<V>(slots: Seq<SlotState<V>>, i: int, vs: Seq<V>)
    requires
        0 <= i < slots.len(),
    ensures
        after_appends(slots, i, vs) == slots.update(
            i,
            if vs.len() == 0 {
                slots[i]
            } else {
                match slots[i] {
                    SlotState::Many(held) => SlotState::Many(held + vs),
                    _ => SlotState::Many(vs),
                }
            },
        ),
    decreases vs.len(),
{
    if vs.len() == 0 {
        assert(slots.update(i, slots[i]) =~= slots);
    } else {
        let head = vs.drop_last();
        lemma_appends(slots, i, head);
        let mid = after_appends(slots, i, head);
        match slots[i] {
            SlotState::Many(held) => {
                assert((held + head).push(vs.last()) =~= held + vs);
                if head.len() == 0 {
                    assert(held.push(vs.last()) =~= held + vs);
                }
            },
            _ => {
                assert(head.push(vs.last()) =~= vs);
                if head.len() == 0 {
                    assert(seq![vs.last()] =~= vs);
                }
            },
        }
        assert(after_appends(slots, i, vs) =~= slots.update(
            i,
            match slots[i] {
                SlotState::Many(held) => SlotState::Many(held + vs),
                _ => SlotState::Many(vs),
            },
        ));
    }
}

/// On a fresh builder, calling the accumulator of a repeated field once for
/// each of `vs` leaves exactly `vs` in its slot, in call order.
pub proof fn law_accumulator_keeps_call_order<V>(ds: Seq<FieldPlan>, i: int, vs: Seq<V>)
    requires
        can_append(ds, i),
    ensures
        after_appends(initial::<V>(ds), i, vs)[i] == SlotState::Many(vs),
        after_appends(initial::<V>(ds), i, vs) == initial::<V>(ds).update(i, SlotState::Many(vs)),
{
    lemma_appends(initial::<V>(ds), i, vs);
    assert(Seq::<V>::empty() + vs =~= vs);
    if vs.len() == 0 {
        assert(vs =~= Seq::<V>::empty());
    }
}

/// The setter of a repeated field replaces what the accumulator gathered: it
/// does not add to it.
pub proof fn law_setter_replaces_accumulated<V>(
    slots: Seq<SlotState<V>>,
    i: int,
    vs: Seq<V>,
    ws: Seq<V>,
)
    requires
        0 <= i < slots.len(),
    ensures
        replaced(after_appends(slots, i, vs), i, ws)[i] == SlotState::Many(ws),
        replaced(after_appends(slots, i, vs), i, ws) == replaced(slots, i, ws),
{
    lemma_appends(slots, i, vs);
    assert(replaced(after_appends(slots, i, vs), i, ws) =~= replaced(slots, i, ws));
}

} // verus!
