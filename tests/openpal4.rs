use radiance::entity::{CoreEntity, Entity, NoCallbacks};
use radiance::openpal4::{Pal4Scene, Player};
use radiance::scene::CoreScene;
use std::any::TypeId;

type Actor = CoreEntity<NoCallbacks, (i32, i32, i32), u32>;

struct Controller;

fn actor(name: &str, x: i32) -> Actor {
    CoreEntity::create(name.to_string(), true, NoCallbacks, (x, 0, 0))
}

fn players() -> Vec<Actor> {
    vec![actor("101", 1), actor("103", 2), actor("106", 3), actor("105", 4)]
}

#[test]
fn player_names() {
    assert_eq!(Player::YunTianhe.name(), "YunTianhe");
    assert_eq!(Player::HanLingsha.name(), "HanLingsha");
    assert_eq!(Player::LiuMengli.name(), "LiuMengli");
    assert_eq!(Player::MurongZiying.name(), "MurongZiying");
}

#[test]
fn player_actor_names() {
    assert_eq!(Player::YunTianhe.actor_name(), "101");
    assert_eq!(Player::HanLingsha.actor_name(), "103");
    assert_eq!(Player::LiuMengli.actor_name(), "106");
    assert_eq!(Player::MurongZiying.actor_name(), "105");
}

#[test]
fn player_metadata_by_slot() {
    let s: Pal4Scene<Actor, u8> = Pal4Scene::new_empty(0, players());
    assert_eq!(s.get_player_metadata(0), Player::YunTianhe);
    assert_eq!(s.get_player_metadata(1), Player::HanLingsha);
    assert_eq!(s.get_player_metadata(2), Player::LiuMengli);
    assert_eq!(s.get_player_metadata(3), Player::MurongZiying);
}

#[test]
fn new_empty_keeps_players_apart_from_an_empty_scene() {
    let blanks: Vec<Actor> = (0..4)
        .map(|_| CoreEntity::create(String::new(), false, NoCallbacks, (0, 0, 0)))
        .collect();
    let s: Pal4Scene<Actor, u8> = Pal4Scene::new_empty(7, blanks);
    assert_eq!(s.scene().len(), 0);
    assert_eq!(*s.scene().camera(), 7);
    for i in 0..4 {
        assert_eq!(s.get_player(i).name(), "");
        assert!(!s.get_player(i).visible());
    }
}

#[test]
fn new_empty_players_in_slot_order() {
    let s: Pal4Scene<Actor, u8> = Pal4Scene::new_empty(7, players());
    assert_eq!(s.scene().len(), 0);
    assert_eq!(s.get_player(0).name(), "101");
    assert_eq!(s.get_player(3).name(), "105");
}

#[test]
fn load_orders_block_entities_players_and_npcs() {
    let mut base: CoreScene<Actor, u8> = CoreScene::create(1);
    base.add_entity(actor("block", 0));
    let npcs = vec![actor("npc1", 10), actor("npc2", 20)];
    let controller = TypeId::of::<Controller>();
    let s = Pal4Scene::load::<f32, (i32, i32, i32), u32>(
        base,
        Some(actor("clip", 0)),
        None,
        players(),
        controller,
        77,
        npcs,
    );
    let scene = s.scene();
    assert_eq!(scene.len(), 8);
    let names: Vec<&str> = (0..8).map(|i| scene.entity(i).name().as_str()).collect();
    assert_eq!(names, vec!["block", "clip", "101", "103", "106", "105", "npc1", "npc2"]);
    assert_eq!(s.get_player(0).name(), "101");
    assert_eq!(s.get_player(2).name(), "106");
    assert_eq!(*s.get_player(1).transform(), (2, 0, 0));
    for i in 0..4 {
        assert!(!s.get_player(i).visible());
    }
    assert!(scene.entity(6).visible());
    assert_eq!(*s.get_player_controller::<f32, (i32, i32, i32), u32>(0, controller), 77);
    assert!(s.get_player(1).get_component(controller).is_none());
    assert_eq!(s.get_player(1).name(), "103");
    assert_eq!(s.get_player(3).name(), "105");
}

#[test]
fn load_with_clip_and_sky() {
    let base: CoreScene<Actor, u8> = CoreScene::create(1);
    let s = Pal4Scene::load::<f32, (i32, i32, i32), u32>(
        base,
        Some(actor("clip", 0)),
        Some(actor("sky", 0)),
        players(),
        TypeId::of::<Controller>(),
        5,
        Vec::new(),
    );
    assert_eq!(s.scene().len(), 6);
    assert_eq!(s.scene().entity(1).name(), "sky");
    assert_eq!(s.get_player(0).name(), "101");
    assert_eq!(s.get_player(3).name(), "105");
}
