use radiance::component::ComponentStore;
use radiance::entity::{CoreEntity, Entity, NoCallbacks};
use std::any::{Any, TypeId};

#[derive(Debug, PartialEq, Clone, Copy)]
struct Health {
    hp: i32,
}

#[derive(Debug, PartialEq, Clone, Copy)]
struct Mana {
    mp: i32,
}

#[derive(Debug, PartialEq, Clone, Copy, Default)]
struct Pose {
    x: f32,
    y: f32,
    z: f32,
}

type AnyEntity = CoreEntity<NoCallbacks, Pose, Box<dyn Any>>;

fn blank() -> AnyEntity {
    CoreEntity::new(NoCallbacks, Pose::default())
}

fn add<T: 'static>(e: &mut AnyEntity, value: T) {
    e.add_component(TypeId::of::<T>(), Box::new(value));
}

fn get<T: 'static>(e: &AnyEntity) -> Option<&T> {
    e.get_component(TypeId::of::<T>()).and_then(|c| c.downcast_ref::<T>())
}

#[test]
fn later_value_of_same_type_is_shadowed() {
    let mut e = blank();
    add(&mut e, Health { hp: 10 });
    add(&mut e, Health { hp: 99 });
    assert_eq!(get::<Health>(&e).map(|h| h.hp), Some(10));
}

#[test]
fn first_insert_wins_in_store() {
    let mut store: ComponentStore<i32> = ComponentStore::new();
    let k = TypeId::of::<Health>();
    store.insert(k, 1);
    store.insert(k, 2);
    assert_eq!(store.get(&k), Some(&1));
}

#[test]
fn adding_one_type_leaves_another_absent() {
    let mut e = blank();
    add(&mut e, Health { hp: 10 });
    assert!(get::<Mana>(&e).is_none());
    add(&mut e, Mana { mp: 3 });
    assert_eq!(get::<Health>(&e), Some(&Health { hp: 10 }));
    assert_eq!(get::<Mana>(&e), Some(&Mana { mp: 3 }));
}

#[test]
fn fresh_entity_has_no_components() {
    let e = blank();
    assert!(get::<Health>(&e).is_none());
    assert!(e.get_component(TypeId::of::<Mana>()).is_none());
}

#[test]
fn empty_store_yields_nothing() {
    let mut store: ComponentStore<u8> = ComponentStore::new();
    assert!(store.get(&TypeId::of::<u8>()).is_none());
    assert!(store.get_mut(&TypeId::of::<u8>()).is_none());
}

#[test]
fn mutation_through_get_component_mut_is_visible() {
    let mut e = blank();
    add(&mut e, Health { hp: 10 });
    add(&mut e, Health { hp: 20 });
    {
        let h = e
            .get_component_mut(TypeId::of::<Health>())
            .and_then(|c| c.downcast_mut::<Health>())
            .unwrap();
        h.hp = 42;
    }
    assert_eq!(get::<Health>(&e).map(|h| h.hp), Some(42));
}

#[test]
fn store_get_mut_changes_first_value_only() {
    let mut store: ComponentStore<i32> = ComponentStore::new();
    let k = TypeId::of::<Health>();
    let other = TypeId::of::<Mana>();
    store.insert(k, 5);
    store.insert(other, 7);
    *store.get_mut(&k).unwrap() = 6;
    assert_eq!(store.get(&k), Some(&6));
    assert_eq!(store.get(&other), Some(&7));
    assert!(store.get_mut(&TypeId::of::<Pose>()).is_none());
}

#[test]
fn wrong_type_downcast_yields_nothing() {
    let mut e = blank();
    e.add_component(TypeId::of::<Health>(), Box::new(Mana { mp: 1 }));
    assert!(get::<Health>(&e).is_none());
    assert!(e.get_component(TypeId::of::<Health>()).is_some());
}

#[test]
fn name_and_visibility() {
    let mut e: AnyEntity = CoreEntity::create("npc".to_string(), false, NoCallbacks, Pose::default());
    assert_eq!(e.name(), "npc");
    assert!(!e.visible());
    e.set_visible(true);
    assert!(e.visible());
    let blank = blank();
    assert_eq!(blank.name(), "");
    assert!(blank.visible());
}

#[test]
fn transform_is_owned_and_mutable() {
    let mut e: AnyEntity = CoreEntity::new(NoCallbacks, Pose { x: 1.0, y: 2.0, z: 3.0 });
    assert_eq!(e.transform().y, 2.0);
    e.transform_mut().x = 9.0;
    assert_eq!(*e.transform(), Pose { x: 9.0, y: 2.0, z: 3.0 });
}

#[test]
fn no_callbacks_load_and_update_have_no_effect() {
    let mut e = blank();
    add(&mut e, Health { hp: 4 });
    Entity::<f32, _, _>::load(&mut e);
    e.update(0.5f32);
    e.update(-1.0f32);
    assert_eq!(get::<Health>(&e), Some(&Health { hp: 4 }));
    assert_eq!(*e.transform(), Pose::default());
    assert!(e.visible());
    assert_eq!(e.name(), "");
}
