//! Scenes: an ordered collection of entities plus a camera, propagating the
//! lifecycle to every entity in the order in which the entities were added.
use crate::entity::{CoreEntity, Entity, EntityCallbacks};
use vstd::prelude::*;

verus! {

/// Entities in insertion order and one camera of the caller's type `Cam`.
pub struct CoreScene<E, Cam> {
    entities: Vec<E>,
    camera: Cam,
}

impl<E, Cam> CoreScene<E, Cam> {
    /// The entities, in the order they were added.
    pub closed spec fn spec_entities(&self) -> Seq<E> {
        self.entities@
    }

    pub closed spec fn spec_camera(&self) -> Cam {
        self.camera
    }

    /// A scene with no entities.
    pub fn create(camera: Cam) -> (r: Self)
        ensures
            r.spec_entities() == Seq::<E>::empty(),
            r.spec_camera() == camera,
    {
        CoreScene { entities: Vec::new(), camera }
    }

    /// Appends `entity`; no check is made that an equal entity is already there.
    pub fn add_entity(&mut self, entity: E)
        ensures
            final(self).spec_entities() == old(self).spec_entities().push(entity),
            final(self).spec_camera() == old(self).spec_camera(),
    {
        self.entities.push(entity);
    }

    /// The number of entities.
    pub fn len(&self) -> (r: usize)
        ensures
            r == self.spec_entities().len(),
    {
        self.entities.len()
    }

    /// The entity added `i`-th.
    pub fn entity(&self, i: usize) -> (r: &E)
        requires
            i < self.spec_entities().len(),
        ensures
            *r == self.spec_entities()[i as int],
    {
        &self.entities[i]
    }

    /// Mutable access to the entity added `i`-th.
    pub fn entity_mut(&mut self, i: usize) -> (r: &mut E)
        requires
            i < old(self).spec_entities().len(),
        ensures
            *r == old(self).spec_entities()[i as int],
            final(self).spec_entities() == old(self).spec_entities().update(i as int, *final(r)),
            final(self).spec_camera() == old(self).spec_camera(),
    {
        &mut self.entities[i]
    }

    /// The camera.
    pub fn camera(&self) -> (r: &Cam)
        ensures
            *r == self.spec_camera(),
    {
        &self.camera
    }

    /// Mutable access to the camera; the entities do not change.
    pub fn camera_mut(&mut self) -> (r: &mut Cam)
        ensures
            *r == old(self).spec_camera(),
            final(self).spec_camera() == *final(r),
            final(self).spec_entities() == old(self).spec_entities(),
    {
        &mut self.camera
    }
}

impl<E, Cam> CoreScene<E, Cam> {
    /// Every entity satisfies its invariant.
    pub open spec fn wf<D, P, V>(&self) -> bool
        where E: Entity<D, P, V>
    {
        forall|i: int| 0 <= i < self.spec_entities().len() ==> #[trigger] self.spec_entities()[i].wf()
    }

    /// Loads every entity once, in insertion order.
    pub fn load<D, P, V>(&mut self)
        where E: Entity<D, P, V>
        requires
            old(self).wf::<D, P, V>(),
        ensures
            final(self).wf::<D, P, V>(),
            final(self).spec_camera() == old(self).spec_camera(),
            final(self).spec_entities().len() == old(self).spec_entities().len(),
            forall|i: int| 0 <= i < old(self).spec_entities().len()
                ==> #[trigger] old(self).spec_entities()[i].loaded(&final(self).spec_entities()[i]),
    {
        let n = self.entities.len();
        let mut i: usize = 0;
        while i < n
            invariant
                0 <= i <= n,
                n == old(self).spec_entities().len(),
                self.spec_entities().len() == n,
                self.spec_camera() == old(self).spec_camera(),
                forall|j: int| 0 <= j < n ==> #[trigger] self.spec_entities()[j].wf(),
                forall|j: int| 0 <= j < i ==> #[trigger] old(self).spec_entities()[j].loaded(&self.spec_entities()[j]),
                forall|j: int| i <= j < n ==> #[trigger] self.spec_entities()[j] == old(self).spec_entities()[j],
            decreases n - i,
        {
            self.entities[i].load();
            i += 1;
        }
    }

    /// Updates every entity once, in insertion order, all with the same
    /// `delta_sec`.
    pub fn update<D: Copy, P, V>(&mut self, delta_sec: D)
        where E: Entity<D, P, V>
        requires
            old(self).wf::<D, P, V>(),
        ensures
            final(self).wf::<D, P, V>(),
            final(self).spec_camera() == old(self).spec_camera(),
            final(self).spec_entities().len() == old(self).spec_entities().len(),
            forall|i: int| 0 <= i < old(self).spec_entities().len()
                ==> #[trigger] old(self).spec_entities()[i].updated(&final(self).spec_entities()[i], delta_sec),
    {
        let n = self.entities.len();
        let mut i: usize = 0;
        while i < n
            invariant
                0 <= i <= n,
                n == old(self).spec_entities().len(),
                self.spec_entities().len() == n,
                self.spec_camera() == old(self).spec_camera(),
                forall|j: int| 0 <= j < n ==> #[trigger] self.spec_entities()[j].wf(),
                forall|j: int| 0 <= j < i ==> #[trigger] old(self).spec_entities()[j].updated(&self.spec_entities()[j], delta_sec),
                forall|j: int| i <= j < n ==> #[trigger] self.spec_entities()[j] == old(self).spec_entities()[j],
            decreases n - i,
        {
            self.entities[i].update(delta_sec);
            i += 1;
        }
    }
}

/// A scene update over core entities runs each entity's updating hook once,
/// all with the same time step, and leaves every other part of each entity
/// as it was.
pub proof fn lemma_update_runs_each_hook_once<C, P, V, D, Cam>(
    before: CoreScene<CoreEntity<C, P, V>, Cam>,
    after: CoreScene<CoreEntity<C, P, V>, Cam>,
    delta_sec: D,
)
    where C: EntityCallbacks<D>
    requires
        after.spec_entities().len() == before.spec_entities().len(),
        forall|i: int| 0 <= i < before.spec_entities().len()
            ==> #[trigger] before.spec_entities()[i].updated(&after.spec_entities()[i], delta_sec),
    ensures
        forall|i: int| 0 <= i < before.spec_entities().len() ==> {
            let (b, a) = (before.spec_entities()[i], #[trigger] after.spec_entities()[i]);
            &&& C::updates(b.spec_callbacks(), a.spec_callbacks(), delta_sec)
            &&& a.spec_transform() == b.spec_transform()
            &&& a.spec_components() == b.spec_components()
            &&& a.spec_visible() == b.spec_visible()
            &&& a.spec_name() == b.spec_name()
        },
{
    assert forall|i: int| 0 <= i < before.spec_entities().len() implies {
        let (b, a) = (before.spec_entities()[i], #[trigger] after.spec_entities()[i]);
        &&& C::updates(b.spec_callbacks(), a.spec_callbacks(), delta_sec)
        &&& a.spec_transform() == b.spec_transform()
        &&& a.spec_components() == b.spec_components()
        &&& a.spec_visible() == b.spec_visible()
        &&& a.spec_name() == b.spec_name()
    } by {
        assert(before.spec_entities()[i].updated(&after.spec_entities()[i], delta_sec));
    }
}

} // verus!
