//! Entities: a pose, a component store and an injected set of lifecycle
//! hooks, driven through a uniform load / update lifecycle.
//!
//! The time step `D` handed to `update` and the pose `P` are chosen by the
//! caller; the library only carries them.
use crate::component::ComponentStore;
use std::any::TypeId;
use vstd::prelude::*;

verus! {

/// The behaviour injected into an entity: what happens when it is loaded and
/// on each update. `loads` and `updates` describe how a hook changes the
/// callback set; an implementation that leaves them as they are promises
/// nothing about its hooks.
///
/// Both hooks must be written: a provided body could not be proved against
/// the `loads` / `updates` that an implementation chooses. A set that wants
/// neither behaviour can use `NoCallbacks`, or write the two hooks empty.
pub trait EntityCallbacks<D>: Sized {
    /// `after` is a possible state of the callbacks once `on_loading` ran on `before`.
    open spec fn loads(before: Self, after: Self) -> bool {
        true
    }

    /// `after` is a possible state of the callbacks once `on_updating(delta_sec)` ran on `before`.
    open spec fn updates(before: Self, after: Self, delta_sec: D) -> bool {
        true
    }

    fn on_loading(&mut self)
        ensures
            Self::loads(*old(self), *final(self)),
    ;

    fn on_updating(&mut self, delta_sec: D)
        ensures
            Self::updates(*old(self), *final(self), delta_sec),
    ;
}

/// A callback set with no behaviour: both hooks leave it as it was.
pub struct NoCallbacks;

impl<D> EntityCallbacks<D> for NoCallbacks {
    open spec fn loads(before: Self, after: Self) -> bool {
        after == before
    }

    open spec fn updates(before: Self, after: Self, delta_sec: D) -> bool {
        after == before
    }

    fn on_loading(&mut self) {
    }

    fn on_updating(&mut self, delta_sec: D) {
    }
}

/// The abstract entity capability: lifecycle, pose and type-keyed components.
pub trait Entity<D, P, V>: Sized {
    /// The entity's internal invariant.
    spec fn wf(&self) -> bool;

    /// The entity's pose.
    spec fn pose(&self) -> P;

    /// Whether the entity is shown.
    spec fn is_visible(&self) -> bool;

    /// Every component value added under `type_id`, oldest first.
    spec fn component_values(&self, type_id: TypeId) -> Seq<V>;

    /// `after` is a possible state once `load` ran on `self`.
    spec fn loaded(&self, after: &Self) -> bool;

    /// `after` is a possible state once `update(delta_sec)` ran on `self`.
    spec fn updated(&self, after: &Self, delta_sec: D) -> bool;

    /// `after` is `self` once `set_visible(visible)` ran on it.
    spec fn visibility_set(&self, after: &Self, visible: bool) -> bool;

    /// `after` is `self` once `add_component(type_id, component)` ran on it.
    spec fn component_added(&self, after: &Self, type_id: TypeId, component: V) -> bool;

    fn load(&mut self)
        requires
            old(self).wf(),
        ensures
            final(self).wf(),
            old(self).loaded(final(self)),
    ;

    fn update(&mut self, delta_sec: D)
        requires
            old(self).wf(),
        ensures
            final(self).wf(),
            old(self).updated(final(self), delta_sec),
    ;

    fn set_visible(&mut self, visible: bool)
        requires
            old(self).wf(),
        ensures
            final(self).wf(),
            old(self).visibility_set(final(self), visible),
            final(self).is_visible() == visible,
            final(self).pose() == old(self).pose(),
            forall|k: TypeId| #[trigger] final(self).component_values(k) == old(self).component_values(k),
    ;

    fn transform(&self) -> (r: &P)
        ensures
            *r == self.pose(),
    ;

    fn transform_mut(&mut self) -> (r: &mut P)
        requires
            old(self).wf(),
        ensures
            *r == old(self).pose(),
            final(self).wf(),
            final(self).pose() == *final(r),
            final(self).is_visible() == old(self).is_visible(),
            forall|k: TypeId| #[trigger] final(self).component_values(k) == old(self).component_values(k),
    ;

    fn add_component(&mut self, type_id: TypeId, component: V)
        requires
            old(self).wf(),
        ensures
            final(self).wf(),
            old(self).component_added(final(self), type_id, component),
            final(self).pose() == old(self).pose(),
            final(self).is_visible() == old(self).is_visible(),
            final(self).component_values(type_id) == old(self).component_values(type_id).push(component),
            forall|k: TypeId| k != type_id ==> #[trigger] final(self).component_values(k) == old(self).component_values(k),
    ;

    fn get_component(&self, type_id: TypeId) -> (r: Option<&V>)
        requires
            self.wf(),
        ensures
            match r {
                Some(v) => self.component_values(type_id).len() > 0 && *v == self.component_values(type_id)[0],
                None => self.component_values(type_id).len() == 0,
            },
    ;

    fn get_component_mut(&mut self, type_id: TypeId) -> (r: Option<&mut V>)
        requires
            old(self).wf(),
        ensures
            final(self).wf(),
            final(self).pose() == old(self).pose(),
            final(self).is_visible() == old(self).is_visible(),
            match r {
                Some(v) => {
                    &&& old(self).component_values(type_id).len() > 0
                    &&& *v == old(self).component_values(type_id)[0]
                    &&& final(self).component_values(type_id) == old(self).component_values(type_id).update(0, *final(v))
                },
                None => {
                    &&& old(self).component_values(type_id).len() == 0
                    &&& final(self).component_values(type_id) == old(self).component_values(type_id)
                },
            },
            forall|k: TypeId| k != type_id ==> #[trigger] final(self).component_values(k) == old(self).component_values(k),
    ;
}

/// The one generic entity: a name, a visibility flag, a pose, a component
/// store and a callback set `C` that gives the entity its behaviour.
pub struct CoreEntity<C, P, V> {
    name: String,
    visible: bool,
    transform: P,
    components: ComponentStore<V>,
    callbacks: C,
}

impl<C, P, V> CoreEntity<C, P, V> {
    pub closed spec fn spec_name(&self) -> Seq<char> {
        self.name@
    }

    pub closed spec fn spec_visible(&self) -> bool {
        self.visible
    }

    pub closed spec fn spec_transform(&self) -> P {
        self.transform
    }

    pub closed spec fn spec_callbacks(&self) -> C {
        self.callbacks
    }

    pub closed spec fn spec_components(&self) -> ComponentStore<V> {
        self.components
    }

    /// What retrieval by `type_id` yields: the first value added under it.
    pub open spec fn component(&self, type_id: TypeId) -> Option<V> {
        self.spec_components().first(type_id)
    }

    /// `after` differs from `self` in its components alone.
    pub open spec fn same_but_components(&self, after: &Self) -> bool {
        &&& after.spec_name() == self.spec_name()
        &&& after.spec_visible() == self.spec_visible()
        &&& after.spec_transform() == self.spec_transform()
        &&& after.spec_callbacks() == self.spec_callbacks()
    }

    /// `after` is `self` with `component` appended to the values under
    /// `type_id`; values under other identities are the same.
    pub open spec fn adds_component(&self, after: &Self, type_id: TypeId, component: V) -> bool {
        &&& after.inv()
        &&& self.same_but_components(after)
        &&& after.spec_components().values(type_id) == self.spec_components().values(type_id).push(component)
        &&& forall|k: TypeId| k != type_id ==> #[trigger] after.spec_components().values(k) == self.spec_components().values(k)
    }

    /// `self` has a value under `type_id`, and `after` is `self` with that
    /// first value replaced by `value`.
    pub open spec fn sets_first_component(&self, after: &Self, type_id: TypeId, value: V) -> bool {
        &&& after.inv()
        &&& self.same_but_components(after)
        &&& self.spec_components().values(type_id).len() > 0
        &&& after.spec_components().values(type_id) == self.spec_components().values(type_id).update(0, value)
        &&& forall|k: TypeId| k != type_id ==> #[trigger] after.spec_components().values(k) == self.spec_components().values(k)
    }

    /// The invariant: the component store is well formed.
    pub open spec fn inv(&self) -> bool {
        self.spec_components().wf()
    }

    /// An unnamed, visible entity with no components.
    pub fn new(callbacks: C, transform: P) -> (r: Self)
        ensures
            r.inv(),
            r.spec_name() == Seq::<char>::empty(),
            r.spec_visible(),
            r.spec_transform() == transform,
            r.spec_callbacks() == callbacks,
            forall|k: TypeId| #[trigger] r.spec_components().values(k) == Seq::<V>::empty(),
    {
        CoreEntity::create(String::new(), true, callbacks, transform)
    }

    /// An entity with the given name and visibility, and no components.
    pub fn create(name: String, visible: bool, callbacks: C, transform: P) -> (r: Self)
        ensures
            r.inv(),
            r.spec_name() == name@,
            r.spec_visible() == visible,
            r.spec_transform() == transform,
            r.spec_callbacks() == callbacks,
            forall|k: TypeId| #[trigger] r.spec_components().values(k) == Seq::<V>::empty(),
    {
        CoreEntity { name, visible, transform, components: ComponentStore::new(), callbacks }
    }

    /// The entity's name.
    pub fn name(&self) -> (r: &String)
        ensures
            r@ == self.spec_name(),
    {
        &self.name
    }

    /// Whether the entity is visible.
    pub fn visible(&self) -> (r: bool)
        ensures
            r == self.spec_visible(),
    {
        self.visible
    }

    /// Shows or hides the entity; nothing else changes.
    pub fn set_visible(&mut self, visible: bool)
        ensures
            final(self).spec_visible() == visible,
            final(self).spec_name() == old(self).spec_name(),
            final(self).spec_transform() == old(self).spec_transform(),
            final(self).spec_callbacks() == old(self).spec_callbacks(),
            final(self).spec_components() == old(self).spec_components(),
    {
        self.visible = visible;
    }

    /// The pose.
    pub fn transform(&self) -> (r: &P)
        ensures
            *r == self.spec_transform(),
    {
        &self.transform
    }

    /// Mutable access to the pose; nothing else changes.
    pub fn transform_mut(&mut self) -> (r: &mut P)
        ensures
            *r == old(self).spec_transform(),
            final(self).spec_transform() == *final(r),
            final(self).spec_name() == old(self).spec_name(),
            final(self).spec_visible() == old(self).spec_visible(),
            final(self).spec_callbacks() == old(self).spec_callbacks(),
            final(self).spec_components() == old(self).spec_components(),
    {
        &mut self.transform
    }

    /// The callback set, for reading its private state.
    pub fn callbacks(&self) -> (r: &C)
        ensures
            *r == self.spec_callbacks(),
    {
        &self.callbacks
    }

    /// The callback set, for changing its private state directly.
    pub fn callbacks_mut(&mut self) -> (r: &mut C)
        ensures
            *r == old(self).spec_callbacks(),
            final(self).spec_callbacks() == *final(r),
            final(self).spec_name() == old(self).spec_name(),
            final(self).spec_visible() == old(self).spec_visible(),
            final(self).spec_transform() == old(self).spec_transform(),
            final(self).spec_components() == old(self).spec_components(),
    {
        &mut self.callbacks
    }

    /// Appends `component` to the values stored under `type_id`.
    pub fn add_component(&mut self, type_id: TypeId, component: V)
        requires
            old(self).inv(),
        ensures
            old(self).adds_component(final(self), type_id, component),
    {
        self.components.insert(type_id, component);
    }

    /// The first value added under `type_id`, or `None` when none was.
    pub fn get_component(&self, type_id: TypeId) -> (r: Option<&V>)
        requires
            self.inv(),
        ensures
            match r {
                Some(v) => self.component(type_id) == Some(*v),
                None => self.component(type_id).is_none(),
            },
    {
        self.components.get(&type_id)
    }

    /// Mutable access to the first value added under `type_id`, or `None`
    /// when none was.
    pub fn get_component_mut(&mut self, type_id: TypeId) -> (r: Option<&mut V>)
        requires
            old(self).inv(),
        ensures
            match r {
                Some(v) => {
                    &&& old(self).component(type_id) == Some(*v)
                    &&& old(self).sets_first_component(final(self), type_id, *final(v))
                },
                None => old(self).component(type_id).is_none() && *final(self) == *old(self),
            },
    {
        self.components.get_mut(&type_id)
    }
}

impl<C: EntityCallbacks<D>, P, V, D> Entity<D, P, V> for CoreEntity<C, P, V> {
    open spec fn wf(&self) -> bool {
        self.inv()
    }

    open spec fn pose(&self) -> P {
        self.spec_transform()
    }

    open spec fn is_visible(&self) -> bool {
        self.spec_visible()
    }

    open spec fn component_values(&self, type_id: TypeId) -> Seq<V> {
        self.spec_components().values(type_id)
    }

    /// Loading runs the callbacks' loading hook and changes nothing else.
    open spec fn loaded(&self, after: &Self) -> bool {
        &&& C::loads(self.spec_callbacks(), after.spec_callbacks())
        &&& after.spec_name() == self.spec_name()
        &&& after.spec_visible() == self.spec_visible()
        &&& after.spec_transform() == self.spec_transform()
        &&& after.spec_components() == self.spec_components()
    }

    /// Updating runs the callbacks' updating hook once, with the same time
    /// step, and changes nothing else.
    open spec fn updated(&self, after: &Self, delta_sec: D) -> bool {
        &&& C::updates(self.spec_callbacks(), after.spec_callbacks(), delta_sec)
        &&& after.spec_name() == self.spec_name()
        &&& after.spec_visible() == self.spec_visible()
        &&& after.spec_transform() == self.spec_transform()
        &&& after.spec_components() == self.spec_components()
    }

    /// Every part but the visibility flag stays as it was.
    open spec fn visibility_set(&self, after: &Self, visible: bool) -> bool {
        &&& after.inv()
        &&& after.spec_visible() == visible
        &&& after.spec_name() == self.spec_name()
        &&& after.spec_transform() == self.spec_transform()
        &&& after.spec_callbacks() == self.spec_callbacks()
        &&& after.spec_components() == self.spec_components()
    }

    open spec fn component_added(&self, after: &Self, type_id: TypeId, component: V) -> bool {
        self.adds_component(after, type_id, component)
    }

    fn load(&mut self) {
        self.callbacks.on_loading();
    }

    fn update(&mut self, delta_sec: D) {
        self.callbacks.on_updating(delta_sec);
    }

    fn set_visible(&mut self, visible: bool) {
        CoreEntity::set_visible(self, visible);
    }

    fn transform(&self) -> (r: &P) {
        CoreEntity::transform(self)
    }

    fn transform_mut(&mut self) -> (r: &mut P) {
        CoreEntity::transform_mut(self)
    }

    fn add_component(&mut self, type_id: TypeId, component: V) {
        CoreEntity::add_component(self, type_id, component);
    }

    fn get_component(&self, type_id: TypeId) -> (r: Option<&V>) {
        CoreEntity::get_component(self, type_id)
    }

    fn get_component_mut(&mut self, type_id: TypeId) -> (r: Option<&mut V>) {
        CoreEntity::get_component_mut(self, type_id)
    }
}

/// Adding a component under one type identity never changes what retrieval
/// under another identity yields.
pub proof fn lemma_add_keeps_other_types<C, P, V>(
    before: CoreEntity<C, P, V>,
    after: CoreEntity<C, P, V>,
    type_id: TypeId,
    component: V,
    other: TypeId,
)
    requires
        before.inv(),
        before.adds_component(&after, type_id, component),
        other != type_id,
    ensures
        after.component(other) == before.component(other),
{
}

/// With nothing stored under a type identity, adding `first` and then
/// `second` under it makes retrieval yield `first`, never `second`.
pub proof fn lemma_first_added_wins<C, P, V>(
    e0: CoreEntity<C, P, V>,
    e1: CoreEntity<C, P, V>,
    e2: CoreEntity<C, P, V>,
    type_id: TypeId,
    first: V,
    second: V,
)
    requires
        e0.inv(),
        e0.component(type_id).is_none(),
        e0.adds_component(&e1, type_id, first),
        e1.adds_component(&e2, type_id, second),
    ensures
        e2.component(type_id) == Some(first),
{
    assert(e0.spec_components().values(type_id).len() == 0);
}

/// Once a value is stored under a type identity, adding more values under it
/// leaves retrieval unchanged.
pub proof fn lemma_add_keeps_first<C, P, V>(
    before: CoreEntity<C, P, V>,
    after: CoreEntity<C, P, V>,
    type_id: TypeId,
    component: V,
)
    requires
        before.inv(),
        before.component(type_id).is_some(),
        before.adds_component(&after, type_id, component),
    ensures
        after.component(type_id) == before.component(type_id),
{
}

/// An entity to which nothing was ever added yields nothing for any type
/// identity, and adding values under other identities keeps it so.
pub proof fn lemma_absent_until_added<C, P, V>(
    fresh: CoreEntity<C, P, V>,
    after: CoreEntity<C, P, V>,
    type_id: TypeId,
    other: TypeId,
    component: V,
)
    requires
        fresh.inv(),
        forall|k: TypeId| #[trigger] fresh.spec_components().values(k) == Seq::<V>::empty(),
        fresh.adds_component(&after, other, component),
        other != type_id,
    ensures
        fresh.component(type_id).is_none(),
        after.component(type_id).is_none(),
{
    assert(fresh.spec_components().values(type_id) == Seq::<V>::empty());
}

/// A value written through mutable retrieval is what the next retrieval
/// under the same type identity yields.
pub proof fn lemma_mutation_visible<C, P, V>(
    before: CoreEntity<C, P, V>,
    after: CoreEntity<C, P, V>,
    type_id: TypeId,
    value: V,
)
    requires
        before.inv(),
        before.sets_first_component(&after, type_id, value),
    ensures
        after.component(type_id) == Some(value),
{
}

/// With the callback set that implements no behaviour, loading and updating
/// leave every part of the entity as it was.
pub proof fn lemma_no_callbacks_no_effect<P, V, D>(
    before: CoreEntity<NoCallbacks, P, V>,
    loaded: CoreEntity<NoCallbacks, P, V>,
    updated: CoreEntity<NoCallbacks, P, V>,
    delta_sec: D,
)
    requires
        before.inv(),
        <CoreEntity<NoCallbacks, P, V> as Entity<D, P, V>>::loaded(&before, &loaded),
        before.updated(&updated, delta_sec),
    ensures
        loaded.same_but_components(&before),
        loaded.spec_components() == before.spec_components(),
        updated.same_but_components(&before),
        updated.spec_components() == before.spec_components(),
{
}

} // verus!
