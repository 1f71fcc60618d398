//! The scene of one map block in the game: the block's own entities, the four
//! playable characters and the NPCs, assembled on top of the core scene.
use crate::entity::Entity;
use crate::scene::CoreScene;
use std::any::TypeId;
use vstd::prelude::*;

verus! {

/// The playable characters.
#[derive(PartialEq, Eq, Structural, Clone, Copy, Debug)]
pub enum Player {
    YunTianhe,
    HanLingsha,
    LiuMengli,
    MurongZiying,
}

/// The display name of each character.
pub open spec fn player_name(p: Player) -> Seq<char> {
    match p {
        Player::YunTianhe => "YunTianhe"@,
        Player::HanLingsha => "HanLingsha"@,
        Player::LiuMengli => "LiuMengli"@,
        Player::MurongZiying => "MurongZiying"@,
    }
}

/// The name of the actor asset of each character.
pub open spec fn player_actor_name(p: Player) -> Seq<char> {
    match p {
        Player::YunTianhe => "101"@,
        Player::HanLingsha => "103"@,
        Player::LiuMengli => "106"@,
        Player::MurongZiying => "105"@,
    }
}

/// Which character each player slot holds.
pub open spec fn player_of_slot(player_id: int) -> Player {
    if player_id == 0 {
        Player::YunTianhe
    } else if player_id == 1 {
        Player::HanLingsha
    } else if player_id == 2 {
        Player::LiuMengli
    } else {
        Player::MurongZiying
    }
}

impl Player {
    pub fn name(&self) -> (r: &'static str)
        ensures
            r@ == player_name(*self),
    {
        match self {
            Player::YunTianhe => "YunTianhe",
            Player::HanLingsha => "HanLingsha",
            Player::LiuMengli => "LiuMengli",
            Player::MurongZiying => "MurongZiying",
        }
    }

    pub fn actor_name(&self) -> (r: &'static str)
        ensures
            r@ == player_actor_name(*self),
    {
        match self {
            Player::YunTianhe => "101",
            Player::HanLingsha => "103",
            Player::LiuMengli => "106",
            Player::MurongZiying => "105",
        }
    }
}

const ID_YUN_TIANHE: usize = 0;
const ID_HAN_LINGSHA: usize = 1;
const ID_LIU_MENGLI: usize = 2;
const ID_MURONG_ZIYING: usize = 3;

/// The entities of an optional value, as a sequence of zero or one.
pub open spec fn optional<E>(o: Option<E>) -> Seq<E> {
    match o {
        Some(e) => seq![e],
        None => Seq::empty(),
    }
}

/// Where a player character's entity is held: apart from the scene, or in
/// the scene at a position.
pub enum PlayerSlot<E> {
    Detached(E),
    InScene(usize),
}

/// A block scene and the four player characters.
pub struct Pal4Scene<E, Cam> {
    scene: CoreScene<E, Cam>,
    players: Vec<PlayerSlot<E>>,
}

/// Appends every entity of `entities` to `scene`, in order.
fn add_all<E, Cam>(scene: &mut CoreScene<E, Cam>, entities: Vec<E>)
    ensures
        final(scene).spec_entities() == old(scene).spec_entities() + entities@,
        final(scene).spec_camera() == old(scene).spec_camera(),
{
    let mut rest = entities;
    let ghost all = rest@;
    let ghost start = scene.spec_entities();
    while rest.len() > 0
        invariant
            scene.spec_camera() == old(scene).spec_camera(),
            start == old(scene).spec_entities(),
            0 <= rest@.len() <= all.len(),
            rest@ == all.subrange(all.len() - rest@.len(), all.len() as int),
            scene.spec_entities() == start + all.subrange(0, all.len() - rest@.len()),
        decreases rest@.len(),
    {
        let ghost k = all.len() - rest@.len();
        let e = rest.remove(0);
        scene.add_entity(e);
        proof {
            assert(all.subrange(0, k + 1) =~= all.subrange(0, k).push(e));
            assert(rest@ =~= all.subrange(all.len() - rest@.len(), all.len() as int));
        }
    }
    proof {
        assert(all.subrange(0, all.len() as int) =~= all);
    }
}

impl<E, Cam> Pal4Scene<E, Cam> {
    pub closed spec fn spec_scene(&self) -> CoreScene<E, Cam> {
        self.scene
    }

    /// How each player slot holds its entity.
    pub closed spec fn spec_players(&self) -> Seq<PlayerSlot<E>> {
        self.players@
    }

    /// The entity of player slot `i`.
    pub open spec fn player(&self, i: int) -> E {
        match self.spec_players()[i] {
            PlayerSlot::Detached(e) => e,
            PlayerSlot::InScene(k) => self.spec_scene().spec_entities()[k as int],
        }
    }

    /// Four player slots, each in the scene at a position it has.
    pub open spec fn wf(&self) -> bool {
        &&& self.spec_players().len() == 4
        &&& forall|i: int| 0 <= i < 4 ==> match #[trigger] self.spec_players()[i] {
            PlayerSlot::Detached(_) => true,
            PlayerSlot::InScene(k) => k < self.spec_scene().spec_entities().len(),
        }
    }

    /// An empty scene, with the four given players held apart from it in
    /// slot order.
    pub fn new_empty(camera: Cam, players: Vec<E>) -> (r: Self)
        requires
            players@.len() == 4,
        ensures
            r.wf(),
            r.spec_scene().spec_entities() == Seq::<E>::empty(),
            r.spec_scene().spec_camera() == camera,
            forall|i: int| 0 <= i < 4 ==> #[trigger] r.spec_players()[i] == PlayerSlot::Detached(players@[i]),
    {
        let ghost given = players@;
        let mut rest = players;
        let mut slots: Vec<PlayerSlot<E>> = Vec::new();
        while rest.len() > 0
            invariant
                given.len() == 4,
                rest@.len() + slots@.len() == 4,
                rest@ == given.subrange(slots@.len() as int, 4),
                forall|j: int| 0 <= j < slots@.len() ==> #[trigger] slots@[j] == PlayerSlot::Detached(given[j]),
            decreases rest@.len(),
        {
            let e = rest.remove(0);
            slots.push(PlayerSlot::Detached(e));
            proof {
                assert(rest@ =~= given.subrange(slots@.len() as int, 4));
            }
        }
        Pal4Scene { scene: CoreScene::create(camera), players: slots }
    }

    /// The block scene as a whole.
    pub fn scene(&self) -> (r: &CoreScene<E, Cam>)
        ensures
            *r == self.spec_scene(),
    {
        &self.scene
    }

    /// The entity of player slot `player_id`.
    pub fn get_player(&self, player_id: usize) -> (r: &E)
        requires
            self.wf(),
            player_id < 4,
        ensures
            *r == self.player(player_id as int),
    {
        match &self.players[player_id] {
            PlayerSlot::Detached(e) => e,
            PlayerSlot::InScene(k) => self.scene.entity(*k),
        }
    }

    /// The character of player slot `player_id`.
    pub fn get_player_metadata(&self, player_id: usize) -> (r: Player)
        requires
            player_id < 4,
        ensures
            r == player_of_slot(player_id as int),
    {
        if player_id == ID_YUN_TIANHE {
            Player::YunTianhe
        } else if player_id == ID_HAN_LINGSHA {
            Player::HanLingsha
        } else if player_id == ID_LIU_MENGLI {
            Player::LiuMengli
        } else {
            Player::MurongZiying
        }
    }
}

impl<E, Cam> Pal4Scene<E, Cam> {
    /// Assembles a block scene from its loaded parts: first `scene`'s own
    /// entities, then the clip and the sky box when there are any, then the
    /// four players in slot order, each hidden, the first with the
    /// controller added under `controller_type`, then the NPCs.
    pub fn load<D, P, V>(
        scene: CoreScene<E, Cam>,
        clip: Option<E>,
        skybox: Option<E>,
        players: Vec<E>,
        controller_type: TypeId,
        controller: V,
        npcs: Vec<E>,
    ) -> (r: Self)
        where E: Entity<D, P, V>
        requires
            players@.len() == 4,
            forall|i: int| 0 <= i < 4 ==> #[trigger] players@[i].wf(),
        ensures
            ({
                let base = scene.spec_entities() + optional(clip) + optional(skybox);
                let all = r.spec_scene().spec_entities();
                &&& r.wf()
                &&& r.spec_scene().spec_camera() == scene.spec_camera()
                &&& all.len() == base.len() + 4 + npcs@.len()
                &&& all.subrange(0, base.len() as int) == base
                &&& all.subrange(base.len() + 4int, all.len() as int) == npcs@
                &&& forall|i: int| 0 <= i < 4 ==> #[trigger] r.spec_players()[i] == PlayerSlot::<E>::InScene((base.len() + i) as usize)
                &&& exists|hidden: E| #[trigger] players@[0].visibility_set(&hidden, false)
                    && hidden.component_added(&all[base.len() as int], controller_type, controller)
                &&& forall|i: int| 1 <= i < 4 ==> #[trigger] players@[i].visibility_set(&all[base.len() + i], false)
                &&& forall|i: int| 0 <= i < 4 ==> {
                    let e = #[trigger] all[base.len() + i];
                    &&& e.wf()
                    &&& !e.is_visible()
                    &&& e.pose() == players@[i].pose()
                }
                &&& all[base.len() as int].component_values(controller_type)
                    == players@[0].component_values(controller_type).push(controller)
                &&& forall|k: TypeId| k != controller_type ==>
                    #[trigger] all[base.len() as int].component_values(k) == players@[0].component_values(k)
                &&& forall|i: int, k: TypeId| 1 <= i < 4 ==>
                    #[trigger] all[base.len() + i].component_values(k) == players@[i].component_values(k)
            }),
    {
        let mut scene = scene;
        match clip {
            Some(c) => scene.add_entity(c),
            None => {},
        }
        match skybox {
            Some(s) => scene.add_entity(s),
            None => {},
        }
        let ghost camera = scene.spec_camera();
        let ghost base = scene.spec_entities();
        let ghost given = players@;
        let base_len = scene.len();
        let mut rest = players;
        let mut first = rest.remove(0);
        first.set_visible(false);
        let ghost hidden = first;
        first.add_component(controller_type, controller);
        let ghost placed = first;
        scene.add_entity(first);
        proof {
            assert(scene.spec_entities()[base.len() + 0int] == placed);
            assert(given[0].visibility_set(&hidden, false) && hidden.component_added(&placed, controller_type, controller));
            assert(rest@ =~= given.subrange(1, 4));
            assert(scene.spec_entities().subrange(0, base.len() as int) =~= base);
        }
        let mut i: usize = 1;
        while i < 4
            invariant
                given.len() == 4,
                forall|j: int| 0 <= j < 4 ==> #[trigger] given[j].wf(),
                1 <= i <= 4,
                base_len == base.len(),
                rest@ == given.subrange(i as int, 4),
                scene.spec_camera() == camera,
                scene.spec_entities().len() == base.len() + i,
                scene.spec_entities().subrange(0, base.len() as int) == base,
                scene.spec_entities()[base.len() as int] == placed,
                forall|j: int| 1 <= j < i ==> #[trigger] given[j].visibility_set(&scene.spec_entities()[base.len() + j], false),
                forall|j: int| 0 <= j < i ==> {
                    let e = #[trigger] scene.spec_entities()[base.len() + j];
                    &&& e.wf()
                    &&& !e.is_visible()
                    &&& e.pose() == given[j].pose()
                },
                scene.spec_entities()[base.len() as int].component_values(controller_type)
                    == given[0].component_values(controller_type).push(controller),
                forall|k: TypeId| k != controller_type ==>
                    #[trigger] scene.spec_entities()[base.len() as int].component_values(k) == given[0].component_values(k),
                forall|j: int, k: TypeId| 1 <= j < i ==>
                    #[trigger] scene.spec_entities()[base.len() + j].component_values(k) == given[j].component_values(k),
            decreases 4 - i,
        {
            let mut p = rest.remove(0);
            assert(p == given[i as int]);
            p.set_visible(false);
            scene.add_entity(p);
            proof {
                assert(rest@ =~= given.subrange(i + 1, 4));
                assert(scene.spec_entities().subrange(0, base.len() as int) =~= base);
            }
            i += 1;
        }
        let after_players = scene.len();
        add_all(&mut scene, npcs);
        let slots = vec![
            PlayerSlot::InScene(base_len),
            PlayerSlot::InScene(base_len + 1),
            PlayerSlot::InScene(base_len + 2),
            PlayerSlot::InScene(base_len + 3),
        ];
        let r = Pal4Scene { scene, players: slots };
        proof {
            let all = r.spec_scene().spec_entities();
            assert(all.subrange(0, base.len() as int) =~= base);
            assert(all.subrange(base.len() + 4int, all.len() as int) =~= npcs@);
            assert(all[base.len() as int] == placed);
        }
        r
    }

    /// The first component stored under `type_id` on the entity of player
    /// slot `player_id`; that entity must have one.
    pub fn get_player_controller<D, P, V>(&self, player_id: usize, type_id: TypeId) -> (r: &V)
        where E: Entity<D, P, V>
        requires
            self.wf(),
            player_id < 4,
            self.player(player_id as int).wf(),
            self.player(player_id as int).component_values(type_id).len() > 0,
        ensures
            *r == self.player(player_id as int).component_values(type_id)[0],
    {
        self.get_player(player_id).get_component(type_id).unwrap()
    }
}

} // verus!
