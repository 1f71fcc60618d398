use radiance::entity::{CoreEntity, Entity, EntityCallbacks};
use radiance::scene::CoreScene;
use std::cell::RefCell;
use std::rc::Rc;

struct Counter {
    total: f32,
    loads: u32,
}

impl EntityCallbacks<f32> for Counter {
    fn on_loading(&mut self) {
        self.loads += 1;
    }

    fn on_updating(&mut self, delta_sec: f32) {
        self.total += delta_sec;
    }
}

struct Logger {
    id: usize,
    log: Rc<RefCell<Vec<(usize, &'static str, f32)>>>,
}

impl EntityCallbacks<f32> for Logger {
    fn on_loading(&mut self) {
        self.log.borrow_mut().push((self.id, "load", 0.0));
    }

    fn on_updating(&mut self, delta_sec: f32) {
        self.log.borrow_mut().push((self.id, "update", delta_sec));
    }
}

#[test]
fn counter_accumulates_update_steps() {
    let mut e: CoreEntity<Counter, (), ()> = CoreEntity::new(Counter { total: 0.0, loads: 0 }, ());
    e.update(1.5);
    e.update(2.5);
    assert_eq!(e.callbacks().total, 4.0);
    assert_eq!(e.callbacks().loads, 0);
}

#[test]
fn load_runs_loading_hook_each_time() {
    let mut e: CoreEntity<Counter, (), ()> = CoreEntity::new(Counter { total: 0.0, loads: 0 }, ());
    e.load();
    e.load();
    assert_eq!(e.callbacks().loads, 2);
    assert_eq!(e.callbacks().total, 0.0);
}

#[test]
fn callbacks_state_can_be_changed_directly() {
    let mut e: CoreEntity<Counter, (), ()> = CoreEntity::new(Counter { total: 0.0, loads: 0 }, ());
    e.callbacks_mut().total = 10.0;
    e.update(0.5);
    assert_eq!(e.callbacks().total, 10.5);
}

#[test]
fn scene_update_reaches_each_entity_once_in_order() {
    let log = Rc::new(RefCell::new(Vec::new()));
    let mut scene: CoreScene<CoreEntity<Logger, (), ()>, u32> = CoreScene::create(45);
    for id in 1..=3 {
        scene.add_entity(CoreEntity::new(Logger { id, log: log.clone() }, ()));
    }
    assert_eq!(scene.len(), 3);
    scene.update(0.25f32);
    assert_eq!(
        *log.borrow(),
        vec![(1, "update", 0.25), (2, "update", 0.25), (3, "update", 0.25)]
    );
}

#[test]
fn scene_load_reaches_each_entity_in_order() {
    let log = Rc::new(RefCell::new(Vec::new()));
    let mut scene: CoreScene<CoreEntity<Logger, (), ()>, ()> = CoreScene::create(());
    scene.add_entity(CoreEntity::new(Logger { id: 7, log: log.clone() }, ()));
    scene.add_entity(CoreEntity::new(Logger { id: 8, log: log.clone() }, ()));
    scene.load::<f32, (), ()>();
    assert_eq!(*log.borrow(), vec![(7, "load", 0.0), (8, "load", 0.0)]);
}

#[test]
fn empty_scene_and_camera() {
    let mut scene: CoreScene<CoreEntity<Counter, (), ()>, u32> = CoreScene::create(60);
    scene.update(1.0f32);
    assert_eq!(scene.len(), 0);
    assert_eq!(*scene.camera(), 60);
    *scene.camera_mut() = 45;
    assert_eq!(*scene.camera(), 45);
}

#[test]
fn scene_entities_are_reachable_by_position() {
    let mut scene: CoreScene<CoreEntity<Counter, (), ()>, ()> = CoreScene::create(());
    scene.add_entity(CoreEntity::new(Counter { total: 1.0, loads: 0 }, ()));
    scene.add_entity(CoreEntity::new(Counter { total: 2.0, loads: 0 }, ()));
    scene.update(0.5f32);
    assert_eq!(scene.entity(0).callbacks().total, 1.5);
    assert_eq!(scene.entity(1).callbacks().total, 2.5);
    scene.entity_mut(1).callbacks_mut().total = 0.0;
    assert_eq!(scene.entity(1).callbacks().total, 0.0);
}
