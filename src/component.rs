//! The component store: for each runtime type identity, the sequence of
//! values that were added under it, in insertion order.
use std::any::TypeId;
use vstd::prelude::*;

verus! {

#[verifier::external_type_specification]
#[verifier::external_body]
pub struct ExTypeId(std::any::TypeId);

/// Relies on `TypeId`'s `==`: two identities compare equal exactly when they
/// are the same identity, that is when they name the same type.
#[verifier::external_body]
fn same_type(a: &TypeId, b: &TypeId) -> (r: bool)
    ensures
        r == (*a == *b),
{
    *a == *b
}

/// The values stored under one type identity.
struct ComponentSlot<V> {
    type_id: TypeId,
    values: Vec<V>,
}

/// Component values grouped by type identity. Each identity has at most one
/// slot; values under an identity keep the order in which they were added.
pub struct ComponentStore<V> {
    slots: Vec<ComponentSlot<V>>,
}

impl<V> ComponentStore<V> {
    /// Whether some slot is keyed by `k`.
    pub closed spec fn has_slot(&self, k: TypeId) -> bool {
        exists|i: int| 0 <= i < self.slots@.len() && #[trigger] self.slots@[i].type_id == k
    }

    /// No two slots share a type identity.
    pub closed spec fn wf(&self) -> bool {
        forall|i: int, j: int|
            0 <= i < self.slots@.len() && 0 <= j < self.slots@.len() && i != j
                ==> #[trigger] self.slots@[i].type_id != #[trigger] self.slots@[j].type_id
    }

    /// Every value added under `k`, oldest first; empty when none was.
    pub closed spec fn values(&self, k: TypeId) -> Seq<V> {
        if self.has_slot(k) {
            let i = choose|i: int| 0 <= i < self.slots@.len() && #[trigger] self.slots@[i].type_id == k;
            self.slots@[i].values@
        } else {
            Seq::empty()
        }
    }

    /// What retrieval by `k` yields: the first value added under `k`.
    pub open spec fn first(&self, k: TypeId) -> Option<V> {
        if self.values(k).len() > 0 {
            Some(self.values(k)[0])
        } else {
            None
        }
    }

    proof fn lemma_values_at(&self, i: int)
        requires
            self.wf(),
            0 <= i < self.slots@.len(),
        ensures
            self.values(self.slots@[i].type_id) == self.slots@[i].values@,
    {
        let k = self.slots@[i].type_id;
        assert(self.has_slot(k));
    }

    proof fn lemma_values_absent(&self, k: TypeId)
        requires
            forall|i: int| 0 <= i < self.slots@.len() ==> #[trigger] self.slots@[i].type_id != k,
        ensures
            self.values(k) == Seq::<V>::empty(),
    {
    }

    /// `after` keeps the slots of `before` in place, changes values only
    /// under `type_id`, and any slot it adds is keyed by `type_id`: then
    /// every other identity has the same values in both.
    proof fn lemma_other_identities_kept(before: Self, after: Self, type_id: TypeId)
        requires
            before.wf(),
            after.wf(),
            after.slots@.len() >= before.slots@.len(),
            forall|j: int| 0 <= j < before.slots@.len() ==> #[trigger] after.slots@[j].type_id == before.slots@[j].type_id,
            forall|j: int| 0 <= j < before.slots@.len() && before.slots@[j].type_id != type_id
                ==> #[trigger] after.slots@[j].values@ == before.slots@[j].values@,
            forall|j: int| before.slots@.len() <= j < after.slots@.len() ==> #[trigger] after.slots@[j].type_id == type_id,
        ensures
            forall|k: TypeId| k != type_id ==> #[trigger] after.values(k) == before.values(k),
    {
        assert forall|k: TypeId| k != type_id implies #[trigger] after.values(k) == before.values(k) by {
            if before.has_slot(k) {
                let j = choose|j: int| 0 <= j < before.slots@.len() && #[trigger] before.slots@[j].type_id == k;
                before.lemma_values_at(j);
                after.lemma_values_at(j);
            } else {
                assert forall|j: int| 0 <= j < after.slots@.len() implies #[trigger] after.slots@[j].type_id != k by {
                    if j < before.slots@.len() {
                        assert(before.slots@[j].type_id != k);
                    }
                }
                after.lemma_values_absent(k);
            }
        }
    }

    /// Slot `i` of `after` is slot `i` of `before` with its first value
    /// replaced by `x`; all other slots are the same.
    spec fn first_replaced(before: Self, after: Self, i: int, x: V) -> bool {
        &&& after.slots@.len() == before.slots@.len()
        &&& after.slots@[i].type_id == before.slots@[i].type_id
        &&& after.slots@[i].values@ == before.slots@[i].values@.update(0, x)
        &&& forall|j: int| 0 <= j < before.slots@.len() && j != i ==> after.slots@[j] == before.slots@[j]
    }

    proof fn lemma_first_replaced(before: Self, i: int)
        requires
            before.wf(),
            0 <= i < before.slots@.len(),
        ensures
            forall|after: Self, x: V| #[trigger] Self::first_replaced(before, after, i, x) ==> {
                &&& after.wf()
                &&& after.values(before.slots@[i].type_id) == before.values(before.slots@[i].type_id).update(0, x)
                &&& forall|k: TypeId| k != before.slots@[i].type_id ==> #[trigger] after.values(k) == before.values(k)
            },
    {
        assert forall|after: Self, x: V| #[trigger] Self::first_replaced(before, after, i, x) implies {
            &&& after.wf()
            &&& after.values(before.slots@[i].type_id) == before.values(before.slots@[i].type_id).update(0, x)
            &&& forall|k: TypeId| k != before.slots@[i].type_id ==> #[trigger] after.values(k) == before.values(k)
        } by {
            let type_id = before.slots@[i].type_id;
            assert(forall|j: int| 0 <= j < after.slots@.len() ==> #[trigger] after.slots@[j].type_id == before.slots@[j].type_id);
            assert(after.wf());
            before.lemma_values_at(i);
            after.lemma_values_at(i);
            Self::lemma_other_identities_kept(before, after, type_id);
        }
    }

    /// An empty store.
    pub fn new() -> (r: Self)
        ensures
            r.wf(),
            forall|k: TypeId| #[trigger] r.values(k) == Seq::<V>::empty(),
    {
        ComponentStore { slots: Vec::new() }
    }

    fn find(&self, k: &TypeId) -> (r: Option<usize>)
        ensures
            match r {
                Some(i) => i < self.slots@.len() && self.slots@[i as int].type_id == *k,
                None => forall|i: int|
                    0 <= i < self.slots@.len() ==> #[trigger] self.slots@[i].type_id != *k,
            },
    {
        let mut i: usize = 0;
        while i < self.slots.len()
            invariant
                i <= self.slots@.len(),
                forall|j: int| 0 <= j < i ==> #[trigger] self.slots@[j].type_id != *k,
            decreases self.slots@.len() - i,
        {
            if same_type(&self.slots[i].type_id, k) {
                return Some(i);
            }
            i += 1;
        }
        None
    }

    /// Appends `value` to the values stored under `type_id`, creating the slot
    /// when the identity is new. Values under other identities are untouched.
    pub fn insert(&mut self, type_id: TypeId, value: V)
        requires
            old(self).wf(),
        ensures
            final(self).wf(),
            final(self).values(type_id) == old(self).values(type_id).push(value),
            forall|k: TypeId| k != type_id ==> #[trigger] final(self).values(k) == old(self).values(k),
    {
        match self.find(&type_id) {
            Some(i) => {
                proof {
                    self.lemma_values_at(i as int);
                }
                let ghost before = *self;
                self.slots[i].values.push(value);
                proof {
                    assert(self.slots@[i as int].type_id == type_id);
                    assert(forall|j: int| 0 <= j < self.slots@.len() && j != i ==> self.slots@[j] == before.slots@[j]);
                    assert(self.wf());
                    self.lemma_values_at(i as int);
                    Self::lemma_other_identities_kept(before, *self, type_id);
                }
            },
            None => {
                proof {
                    self.lemma_values_absent(type_id);
                }
                let ghost before = *self;
                let mut values = Vec::new();
                values.push(value);
                self.slots.push(ComponentSlot { type_id, values });
                proof {
                    let n = before.slots@.len() as int;
                    assert(self.wf());
                    self.lemma_values_at(n);
                    assert(values@ =~= seq![value]);
                    assert(Seq::<V>::empty().push(value) =~= seq![value]);
                    Self::lemma_other_identities_kept(before, *self, type_id);
                }
            },
        }
    }

    fn first_in_slot(&mut self, i: usize) -> (r: &mut V)
        requires
            i < old(self).slots@.len(),
            old(self).slots@[i as int].values@.len() > 0,
        ensures
            *r == old(self).slots@[i as int].values@[0],
            Self::first_replaced(*old(self), *final(self), i as int, *final(r)),
    {
        let slot = &mut self.slots[i];
        &mut slot.values[0]
    }

    /// The first value stored under `type_id`, or `None` when none was added.
    pub fn get(&self, type_id: &TypeId) -> (r: Option<&V>)
        requires
            self.wf(),
        ensures
            match r {
                Some(v) => self.first(*type_id) == Some(*v),
                None => self.first(*type_id).is_none(),
            },
    {
        match self.find(type_id) {
            Some(i) => {
                proof {
                    self.lemma_values_at(i as int);
                }
                let slot = &self.slots[i];
                if slot.values.len() == 0 {
                    None
                } else {
                    Some(&slot.values[0])
                }
            },
            None => {
                proof {
                    self.lemma_values_absent(*type_id);
                }
                None
            },
        }
    }

    /// Mutable access to the first value stored under `type_id`, or `None`
    /// when none was added. Whatever is written through the reference becomes
    /// that first value; nothing else changes.
    pub fn get_mut(&mut self, type_id: &TypeId) -> (r: Option<&mut V>)
        requires
            old(self).wf(),
        ensures
            final(self).wf(),
            match r {
                Some(v) => {
                    &&& old(self).first(*type_id) == Some(*v)
                    &&& final(self).values(*type_id) == old(self).values(*type_id).update(0, *final(v))
                },
                None => old(self).first(*type_id).is_none() && *final(self) == *old(self),
            },
            forall|k: TypeId| k != *type_id ==> #[trigger] final(self).values(k) == old(self).values(k),
    {
        match self.find(type_id) {
            Some(i) => {
                proof {
                    self.lemma_values_at(i as int);
                }
                if self.slots[i].values.len() == 0 {
                    None
                } else {
                    proof {
                        Self::lemma_first_replaced(*self, i as int);
                    }
                    Some(self.first_in_slot(i))
                }
            },
            None => {
                proof {
                    self.lemma_values_absent(*type_id);
                }
                None
            },
        }
    }
}

} // verus!
