//! The game state: catalogs, the master roster with its two partitions, the
//! live rosters of players and enemies, and who is active on each side.

use crate::entity::{
    clone_items, clone_skills, entity_text, entity_views, equip_outcome, equipped, Entity,
    EntityView, EquipOutcome,
};
use crate::item::{find_by_id, first_with_id, item_views, Item, ItemView};
use crate::stats::Stats;
use crate::skills::{
    find_skill_by_id, first_skill_with_id, skill_text, skill_views, Skill, SkillView,
};
use crate::text::{decimal_nat, u64_to_decimal};
use crate::views::opt_view;
use vstd::prelude::*;
use vstd::string::*;

verus! {

/// How many enemies the live roster is kept at.
pub const SPAWN_LIMIT: usize = 10;

/// The chance, in percent, that a spawned enemy carries a bonus item.
pub const ITEM_DROP_PERCENT: u64 = 50;

/// Ids from this value on belong to enemies; lower ids belong to players.
pub const FIRST_ENEMY_ID: u32 = 1000;

/// What a game state is, every collection as a sequence of views.
pub struct GameStateView {
    pub entities: Seq<EntityView>,
    pub pc_ents: Seq<EntityView>,
    pub npc_ents: Seq<EntityView>,
    pub items: Seq<ItemView>,
    pub skills: Seq<SkillView>,
    pub players: Seq<EntityView>,
    pub enemies: Seq<EntityView>,
    pub player_index: usize,
    pub enemy_index: usize,
}

/// The aggregate root. `entities` is the master roster as it was loaded,
/// `pc_ents` and `npc_ents` are its player and enemy partitions, `players`
/// and `enemies` are the entities in play, and the two indices select the
/// active combatant on each side.
#[derive(Debug, PartialEq)]
pub struct GameState {
    pub entities: Vec<Entity>,
    pub pc_ents: Vec<Entity>,
    pub npc_ents: Vec<Entity>,
    pub items: Vec<Item>,
    pub skills: Vec<Skill>,
    pub players: Vec<Entity>,
    pub enemies: Vec<Entity>,
    pub player_index: usize,
    pub enemy_index: usize,
}

impl View for GameState {
    type V = GameStateView;

    open spec fn view(&self) -> GameStateView {
        GameStateView {
            entities: entity_views(self.entities@),
            pc_ents: entity_views(self.pc_ents@),
            npc_ents: entity_views(self.npc_ents@),
            items: item_views(self.items@),
            skills: skill_views(self.skills@),
            players: entity_views(self.players@),
            enemies: entity_views(self.enemies@),
            player_index: self.player_index,
            enemy_index: self.enemy_index,
        }
    }
}

/// A copy of `entities`, entity by entity.
pub fn clone_entities(entities: &Vec<Entity>) -> (res: Vec<Entity>)
    ensures
        entity_views(res@) == entity_views(entities@),
{
    let res = entities.clone();
    assert(entity_views(res@) =~= entity_views(entities@));
    res
}

impl Clone for GameState {
    fn clone(&self) -> (res: Self)
        ensures
            res@ == self@,
    {
        GameState {
            entities: clone_entities(&self.entities),
            pc_ents: clone_entities(&self.pc_ents),
            npc_ents: clone_entities(&self.npc_ents),
            items: clone_items(&self.items),
            skills: clone_skills(&self.skills),
            players: clone_entities(&self.players),
            enemies: clone_entities(&self.enemies),
            player_index: self.player_index,
            enemy_index: self.enemy_index,
        }
    }
}

impl GameStateView {
    /// The state with nothing loaded and nobody in play.
    pub open spec fn empty() -> GameStateView {
        GameStateView {
            entities: Seq::empty(),
            pc_ents: Seq::empty(),
            npc_ents: Seq::empty(),
            items: Seq::empty(),
            skills: Seq::empty(),
            players: Seq::empty(),
            enemies: Seq::empty(),
            player_index: 0,
            enemy_index: 0,
        }
    }

    /// Whether the player index selects a player in play.
    pub open spec fn has_active_player(self) -> bool {
        self.player_index < self.players.len()
    }

    /// Whether the enemy index selects an enemy in play.
    pub open spec fn has_active_enemy(self) -> bool {
        self.enemy_index < self.enemies.len()
    }

    /// The active player; meaningful where there is one.
    pub open spec fn active_player(self) -> EntityView {
        self.players[self.player_index as int]
    }

    /// The active enemy; meaningful where there is one.
    pub open spec fn active_enemy(self) -> EntityView {
        self.enemies[self.enemy_index as int]
    }

    /// Each index selects a combatant wherever its roster is not empty.
    pub open spec fn indices_valid(self) -> bool {
        &&& self.players.len() > 0 ==> self.has_active_player()
        &&& self.enemies.len() > 0 ==> self.has_active_enemy()
    }

    /// The two partitions are what the master roster parts into.
    pub open spec fn partitions_derived(self) -> bool {
        &&& self.pc_ents == player_class(self.entities)
        &&& self.npc_ents == enemy_class(self.entities)
    }
}

/// The first entity of `entities` whose id is `id`, if there is one.
pub open spec fn first_entity_with_id(entities: Seq<EntityView>, id: int) -> Option<EntityView>
    decreases entities.len(),
{
    if entities.len() == 0 {
        None
    } else if entities[0].id == id {
        Some(entities[0])
    } else {
        first_entity_with_id(entities.drop_first(), id)
    }
}

/// The numbered listing of `players`: position counted from one, a full
/// stop, the entity's text, a line break.
pub open spec fn players_text(players: Seq<EntityView>) -> Seq<char>
    decreases players.len(),
{
    if players.len() == 0 {
        Seq::empty()
    } else {
        players_text(players.drop_last()) + decimal_nat(players.len()) + ". "@ + entity_text(
            players.last(),
        ) + "\n"@
    }
}

/// The numbered listing of `skills`: position counted from one, a full stop,
/// the skill's text, a line break.
pub open spec fn catalog_skills_text(skills: Seq<SkillView>) -> Seq<char>
    decreases skills.len(),
{
    if skills.len() == 0 {
        Seq::empty()
    } else {
        catalog_skills_text(skills.drop_last()) + decimal_nat(skills.len()) + ". "@ + skill_text(
            skills.last(),
        ) + "\n"@
    }
}

impl GameState {
    /// A game state with nothing loaded and nobody in play.
    pub fn new() -> (state: Self)
        ensures
            state@ == GameStateView::empty(),
            state@.indices_valid(),
            state@.partitions_derived(),
    {
        proof {
            reveal(Seq::filter);
            assert(player_class(Seq::empty()) =~= Seq::empty());
            assert(enemy_class(Seq::empty()) =~= Seq::empty());
        }
        let state = GameState {
            entities: Vec::new(),
            pc_ents: Vec::new(),
            npc_ents: Vec::new(),
            items: Vec::new(),
            skills: Vec::new(),
            players: Vec::new(),
            enemies: Vec::new(),
            player_index: 0,
            enemy_index: 0,
        };
        assert(state@.entities =~= Seq::empty());
        assert(state@.pc_ents =~= Seq::empty());
        assert(state@.npc_ents =~= Seq::empty());
        assert(state@.items =~= Seq::empty());
        assert(state@.skills =~= Seq::empty());
        assert(state@.players =~= Seq::empty());
        assert(state@.enemies =~= Seq::empty());
        state
    }

    /// Replaces the item catalog.
    pub fn load_items(&mut self, items: Vec<Item>)
        ensures
            final(self)@ == (GameStateView { items: item_views(items@), ..old(self)@ }),
    {
        self.items = items;
    }

    /// Replaces the skill catalog.
    pub fn load_skills(&mut self, skills: Vec<Skill>)
        ensures
            final(self)@ == (GameStateView { skills: skill_views(skills@), ..old(self)@ }),
    {
        self.skills = skills;
    }

    /// A copy of the first entity of the master roster with the id `id`.
    pub fn _get_entity_by_id(&self, id: u32) -> (found: Option<Entity>)
        ensures
            opt_view(found) == first_entity_with_id(self@.entities, id as int),
    {
        let ghost all = self@.entities;
        let mut i: usize = 0;
        assert(all.skip(0) =~= all);
        while i < self.entities.len()
            invariant
                i <= self.entities.len(),
                all == self@.entities,
                first_entity_with_id(all, id as int) == first_entity_with_id(
                    all.skip(i as int),
                    id as int,
                ),
            decreases self.entities.len() - i,
        {
            assert(all.skip(i as int)[0] == self.entities[i as int]@);
            assert(all.skip(i as int).drop_first() =~= all.skip(i + 1));
            if self.entities[i].id == id {
                return Some(self.entities[i].clone());
            }
            i = i + 1;
        }
        None
    }

    /// Puts `entity` at the end of the players in play.
    pub fn create_player(&mut self, entity: Entity)
        ensures
            final(self)@ == (GameStateView {
                players: old(self)@.players.push(entity@),
                ..old(self)@
            }),
    {
        self.players.push(entity);
        assert(entity_views(self.players@) =~= entity_views(old(self).players@).push(entity@));
    }

    /// Puts `entity` at the end of the enemies in play.
    pub fn create_enemy(&mut self, entity: Entity)
        ensures
            final(self)@ == (GameStateView {
                enemies: old(self)@.enemies.push(entity@),
                ..old(self)@
            }),
    {
        self.enemies.push(entity);
        assert(entity_views(self.enemies@) =~= entity_views(old(self).enemies@).push(entity@));
    }

    /// Takes the enemy at `index` out of play and hands it back; the enemies
    /// behind it move up by one. Where `index` selects no enemy nothing
    /// changes. The enemy index is left as it is: the caller selects the next
    /// active enemy.
    pub fn remove_enemy(&mut self, index: usize) -> (removed: Option<Entity>)
        ensures
            index < old(self)@.enemies.len() ==> opt_view(removed) == Some(
                old(self)@.enemies[index as int],
            ) && final(self)@ == (GameStateView {
                enemies: old(self)@.enemies.remove(index as int),
                ..old(self)@
            }),
            index >= old(self)@.enemies.len() ==> removed is None && final(self)@ == old(self)@,
    {
        if index < self.enemies.len() {
            let removed = self.enemies.remove(index);
            assert(entity_views(self.enemies@) =~= entity_views(old(self).enemies@).remove(
                index as int,
            ));
            Some(removed)
        } else {
            None
        }
    }

    /// Selects the active player.
    pub fn set_player(&mut self, index: usize)
        ensures
            final(self)@ == (GameStateView { player_index: index, ..old(self)@ }),
    {
        self.player_index = index;
    }

    /// Selects the active enemy.
    pub fn set_enemy(&mut self, index: usize)
        ensures
            final(self)@ == (GameStateView { enemy_index: index, ..old(self)@ }),
    {
        self.enemy_index = index;
    }

    /// Whether there is an active player whose `hp` is above zero.
    pub fn is_player_alive(&self) -> (alive: bool)
        ensures
            alive == (self@.has_active_player() && self@.active_player().stats.hp > 0),
    {
        if self.player_index < self.players.len() {
            assert(self@.players[self.player_index as int] == self.players[self.player_index as int]@);
            self.players[self.player_index].stats.hp > 0
        } else {
            false
        }
    }

    /// Whether there is an active enemy whose `hp` is above zero.
    pub fn is_enemy_alive(&self) -> (alive: bool)
        ensures
            alive == (self@.has_active_enemy() && self@.active_enemy().stats.hp > 0),
    {
        if self.enemy_index < self.enemies.len() {
            assert(self@.enemies[self.enemy_index as int] == self.enemies[self.enemy_index as int]@);
            self.enemies[self.enemy_index].stats.hp > 0
        } else {
            false
        }
    }

    /// Whether the item catalog has an item with the id `id`.
    pub fn _is_item(&self, id: u32) -> (b: bool)
        ensures
            b == first_with_id(self@.items, id as int) is Some,
    {
        find_by_id(&self.items, id as usize).is_some()
    }

    /// Whether the skill catalog has a skill with the id `id`.
    pub fn _is_skill(&self, id: u32) -> (b: bool)
        ensures
            b == first_skill_with_id(self@.skills, id as int) is Some,
    {
        find_skill_by_id(&self.skills, id).is_some()
    }

    /// A copy of the first catalog skill with the id `id`.
    pub fn get_skill_by_id(&self, id: u32) -> (found: Option<Skill>)
        ensures
            opt_view(found) == first_skill_with_id(self@.skills, id as int),
    {
        match find_skill_by_id(&self.skills, id) {
            Some(skill) => Some(skill.clone()),
            None => None,
        }
    }

    /// A copy of the first catalog item with the id `id`.
    pub fn get_item_by_id(&self, id: u32) -> (found: Option<Item>)
        ensures
            opt_view(found) == first_with_id(self@.items, id as int),
    {
        match find_by_id(&self.items, id as usize) {
            Some(item) => Some(item.clone()),
            None => None,
        }
    }

    /// A copy of the first entity of the master roster, the template for new
    /// characters; `None` while the roster is empty.
    pub fn get_default_player(&self) -> (found: Option<Entity>)
        ensures
            opt_view(found) == if self@.entities.len() > 0 {
                Some(self@.entities[0])
            } else {
                None
            },
    {
        if self.entities.len() > 0 {
            assert(self@.entities[0] == self.entities[0]@);
            Some(self.entities[0].clone())
        } else {
            None
        }
    }

    pub fn _get_skills_string(&self) -> (s: String)
        ensures
            s@ == catalog_skills_text(self@.skills),
    {
        let ghost all = self@.skills;
        let mut s = String::new();
        let mut i: usize = 0;
        assert(all.take(0) =~= Seq::empty());
        while i < self.skills.len()
            invariant
                i <= self.skills.len(),
                all == self@.skills,
                s@ == catalog_skills_text(all.take(i as int)),
            decreases self.skills.len() - i,
        {
            proof {
                assert(all.take(i + 1).drop_last() =~= all.take(i as int));
                assert(all.take(i + 1).last() == self.skills[i as int]@);
            }
            s.append(u64_to_decimal(i as u64 + 1).as_str());
            s.append(". ");
            s.append(self.skills[i]._get_skill_string().as_str());
            s.append("\n");
            i = i + 1;
        }
        assert(all.take(i as int) =~= all);
        s
    }

    pub fn get_players_string(&self) -> (s: String)
        ensures
            s@ == players_text(self@.players),
    {
        let ghost all = self@.players;
        let mut s = String::new();
        let mut i: usize = 0;
        assert(all.take(0) =~= Seq::empty());
        while i < self.players.len()
            invariant
                i <= self.players.len(),
                all == self@.players,
                s@ == players_text(all.take(i as int)),
            decreases self.players.len() - i,
        {
            proof {
                assert(all.take(i + 1).drop_last() =~= all.take(i as int));
                assert(all.take(i + 1).last() == self.players[i as int]@);
            }
            s.append(u64_to_decimal(i as u64 + 1).as_str());
            s.append(". ");
            s.append(self.players[i].get_entity_string().as_str());
            s.append("\n");
            i = i + 1;
        }
        assert(all.take(i as int) =~= all);
        s
    }
}

impl GameState {
    /// The active player, to read or change in place.
    pub fn _get_player(&mut self) -> (player: &mut Entity)
        requires
            old(self)@.has_active_player(),
        ensures
            player@ == old(self)@.active_player(),
            final(self)@ == (GameStateView {
                players: old(self)@.players.update(
                    old(self)@.player_index as int,
                    final(player)@,
                ),
                ..old(self)@
            }),
    {
        let ghost before = self.players@;
        let index = self.player_index;
        let player = &mut self.players[index];
        proof {
            assert(entity_views(before)[index as int] == before[index as int]@);
            assert(entity_views(before.update(index as int, *final(player))) =~= entity_views(
                before,
            ).update(index as int, final(player)@));
        }
        player
    }
}

impl GameState {
    /// The active enemy, to read or change in place.
    pub fn _get_enemy(&mut self) -> (enemy: &mut Entity)
        requires
            old(self)@.has_active_enemy(),
        ensures
            enemy@ == old(self)@.active_enemy(),
            final(self)@ == (GameStateView {
                enemies: old(self)@.enemies.update(old(self)@.enemy_index as int, final(enemy)@),
                ..old(self)@
            }),
    {
        let ghost before = self.enemies@;
        let index = self.enemy_index;
        let enemy = &mut self.enemies[index];
        proof {
            assert(entity_views(before)[index as int] == before[index as int]@);
            assert(entity_views(before.update(index as int, *final(enemy))) =~= entity_views(
                before,
            ).update(index as int, final(enemy)@));
        }
        enemy
    }
}

/// What an entity record is: like an entity, but with ids in place of its
/// items and skills.
pub struct RawEntityView {
    pub id: u32,
    pub name: Seq<char>,
    pub stats: Stats,
    pub inventory: Seq<u32>,
    pub equipment: Seq<u32>,
    pub skills: Seq<u32>,
}

/// An entity as the roster file records it: items and skills by id, to be
/// resolved against the catalogs.
#[derive(Debug, PartialEq)]
pub struct RawEntity {
    pub id: u32,
    pub name: String,
    pub stats: Stats,
    pub inventory: Vec<u32>,
    pub equipment: Vec<u32>,
    pub skills: Vec<u32>,
}

impl View for RawEntity {
    type V = RawEntityView;

    open spec fn view(&self) -> RawEntityView {
        RawEntityView {
            id: self.id,
            name: self.name@,
            stats: self.stats,
            inventory: self.inventory@,
            equipment: self.equipment@,
            skills: self.skills@,
        }
    }
}

/// The views of a run of records, in order.
pub open spec fn raw_views(records: Seq<RawEntity>) -> Seq<RawEntityView> {
    records.map_values(|r: RawEntity| r@)
}

/// Which catalog a reference points into.
#[derive(Clone, Copy, Debug, PartialEq, Eq, Structural)]
pub enum RefKind {
    Skill,
    Item,
}

/// A reference from an entity record to an id that its catalog lacks. Such
/// a reference is dropped, and reported, never fatal.
#[derive(Clone, Copy, Debug, PartialEq, Eq, Structural)]
pub struct MissingRef {
    pub entity_id: u32,
    pub kind: RefKind,
    pub id: u32,
}

/// The catalog skills that `ids` name, in the order of `ids`; ids that the
/// catalog lacks are left out.
pub open spec fn resolved_skills(ids: Seq<u32>, catalog: Seq<SkillView>) -> Seq<SkillView>
    decreases ids.len(),
{
    if ids.len() == 0 {
        Seq::empty()
    } else {
        let rest = resolved_skills(ids.drop_last(), catalog);
        match first_skill_with_id(catalog, ids.last() as int) {
            Some(skill) => rest.push(skill),
            None => rest,
        }
    }
}

/// The catalog items that `ids` name, in the order of `ids`; ids that the
/// catalog lacks are left out.
pub open spec fn resolved_items(ids: Seq<u32>, catalog: Seq<ItemView>) -> Seq<ItemView>
    decreases ids.len(),
{
    if ids.len() == 0 {
        Seq::empty()
    } else {
        let rest = resolved_items(ids.drop_last(), catalog);
        match first_with_id(catalog, ids.last() as int) {
            Some(item) => rest.push(item),
            None => rest,
        }
    }
}

/// The ids of `ids` that the skill catalog lacks, as reports, in order.
pub open spec fn missing_skills(entity_id: u32, ids: Seq<u32>, catalog: Seq<SkillView>) -> Seq<
    MissingRef,
>
    decreases ids.len(),
{
    if ids.len() == 0 {
        Seq::empty()
    } else {
        let rest = missing_skills(entity_id, ids.drop_last(), catalog);
        if first_skill_with_id(catalog, ids.last() as int) is Some {
            rest
        } else {
            rest.push(MissingRef { entity_id, kind: RefKind::Skill, id: ids.last() })
        }
    }
}

/// The ids of `ids` that the item catalog lacks, as reports, in order.
pub open spec fn missing_items(entity_id: u32, ids: Seq<u32>, catalog: Seq<ItemView>) -> Seq<
    MissingRef,
>
    decreases ids.len(),
{
    if ids.len() == 0 {
        Seq::empty()
    } else {
        let rest = missing_items(entity_id, ids.drop_last(), catalog);
        if first_with_id(catalog, ids.last() as int) is Some {
            rest
        } else {
            rest.push(MissingRef { entity_id, kind: RefKind::Item, id: ids.last() })
        }
    }
}

/// `e` with `item` at the end of its inventory.
pub open spec fn with_item(e: EntityView, item: ItemView) -> EntityView {
    EntityView { inventory: e.inventory.push(item), ..e }
}

/// `e` after an attempt to equip `item`: equipped where the attempt
/// succeeds, unchanged where it is refused.
pub open spec fn after_equip(e: EntityView, item: ItemView) -> EntityView {
    if equip_outcome(e, item) == EquipOutcome::Equipped {
        equipped(e, item)
    } else {
        e
    }
}

/// `e` after each catalog item that `ids` name was handed to it and put on,
/// one after another. An item whose category is taken stays in the
/// inventory; an id that the catalog lacks is passed over.
pub open spec fn wearing(e: EntityView, ids: Seq<u32>, catalog: Seq<ItemView>) -> EntityView
    decreases ids.len(),
{
    if ids.len() == 0 {
        e
    } else {
        let rest = wearing(e, ids.drop_last(), catalog);
        match first_with_id(catalog, ids.last() as int) {
            Some(item) => after_equip(with_item(rest, item), item),
            None => rest,
        }
    }
}

/// The entity that a record stands for, given the two catalogs: its skills
/// and carried items resolved by id, then its recorded equipment put on.
pub open spec fn resolved_entity(
    raw: RawEntityView,
    items: Seq<ItemView>,
    skills: Seq<SkillView>,
) -> EntityView {
    wearing(
        EntityView {
            id: raw.id,
            name: raw.name,
            stats: raw.stats,
            inventory: resolved_items(raw.inventory, items),
            equipment: Seq::empty(),
            skills: resolved_skills(raw.skills, skills),
        },
        raw.equipment,
        items,
    )
}

/// The reports for one record: its skills first, then its carried items,
/// then its equipment.
pub open spec fn missing_refs(
    raw: RawEntityView,
    items: Seq<ItemView>,
    skills: Seq<SkillView>,
) -> Seq<MissingRef> {
    missing_skills(raw.id, raw.skills, skills) + missing_items(raw.id, raw.inventory, items)
        + missing_items(raw.id, raw.equipment, items)
}

/// The entities that `records` stand for, in order.
pub open spec fn resolved_all(
    records: Seq<RawEntityView>,
    items: Seq<ItemView>,
    skills: Seq<SkillView>,
) -> Seq<EntityView> {
    records.map_values(|r: RawEntityView| resolved_entity(r, items, skills))
}

/// The reports for `records`, record by record.
pub open spec fn missing_all(
    records: Seq<RawEntityView>,
    items: Seq<ItemView>,
    skills: Seq<SkillView>,
) -> Seq<MissingRef>
    decreases records.len(),
{
    if records.len() == 0 {
        Seq::empty()
    } else {
        missing_all(records.drop_last(), items, skills) + missing_refs(
            records.last(),
            items,
            skills,
        )
    }
}

/// The player partition of a roster: the entities with an id below
/// `FIRST_ENEMY_ID`, in their order.
pub open spec fn player_class(entities: Seq<EntityView>) -> Seq<EntityView> {
    entities.filter(|e: EntityView| e.id < FIRST_ENEMY_ID)
}

/// The enemy partition of a roster: the entities with an id of
/// `FIRST_ENEMY_ID` or more, in their order.
pub open spec fn enemy_class(entities: Seq<EntityView>) -> Seq<EntityView> {
    entities.filter(|e: EntityView| e.id >= FIRST_ENEMY_ID)
}

fn select_class(entities: &Vec<Entity>, enemies: bool) -> (res: Vec<Entity>)
    ensures
        entity_views(res@) == if enemies {
            enemy_class(entity_views(entities@))
        } else {
            player_class(entity_views(entities@))
        },
{
    let ghost all = entity_views(entities@);
    let ghost keep = if enemies {
        |e: EntityView| e.id >= FIRST_ENEMY_ID
    } else {
        |e: EntityView| e.id < FIRST_ENEMY_ID
    };
    let mut res: Vec<Entity> = Vec::new();
    let mut i: usize = 0;
    assert(all.take(0) =~= Seq::empty());
    assert(entity_views(res@) =~= Seq::empty());
    proof {
        reveal(Seq::filter);
    }
    while i < entities.len()
        invariant
            i <= entities.len(),
            all == entity_views(entities@),
            forall|e: EntityView| #[trigger] keep(e) == ((e.id >= FIRST_ENEMY_ID) == enemies),
            entity_views(res@) == all.take(i as int).filter(keep),
        decreases entities.len() - i,
    {
        proof {
            assert(all.take(i + 1) =~= all.take(i as int).push(entities[i as int]@));
            all.take(i as int).lemma_filter_push(entities[i as int]@, keep);
        }
        if (entities[i].id >= FIRST_ENEMY_ID) == enemies {
            let ghost before = entity_views(res@);
            let entity = entities[i].clone();
            res.push(entity);
            assert(entity_views(res@) =~= before.push(entity@));
        }
        i = i + 1;
    }
    assert(all.take(i as int) =~= all);
    res
}

impl GameState {
    fn resolve_skills(&self, raw: &RawEntity, warnings: &mut Vec<MissingRef>) -> (res: Vec<Skill>)
        ensures
            skill_views(res@) == resolved_skills(raw@.skills, self@.skills),
            final(warnings)@ == old(warnings)@ + missing_skills(
                raw@.id,
                raw@.skills,
                self@.skills,
            ),
    {
        let ghost ids = raw@.skills;
        let mut res: Vec<Skill> = Vec::new();
        let mut i: usize = 0;
        assert(ids.take(0) =~= Seq::empty());
        assert(skill_views(res@) =~= Seq::empty());
        assert(warnings@ =~= old(warnings)@ + Seq::empty());
        while i < raw.skills.len()
            invariant
                i <= raw.skills.len(),
                ids == raw@.skills,
                skill_views(res@) == resolved_skills(ids.take(i as int), self@.skills),
                warnings@ == old(warnings)@ + missing_skills(
                    raw@.id,
                    ids.take(i as int),
                    self@.skills,
                ),
            decreases raw.skills.len() - i,
        {
            let id = raw.skills[i];
            proof {
                assert(ids.take(i + 1).drop_last() =~= ids.take(i as int));
                assert(ids.take(i + 1).last() == id);
            }
            match find_skill_by_id(&self.skills, id) {
                Some(skill) => {
                    let ghost before = skill_views(res@);
                    let skill = skill.clone();
                    res.push(skill);
                    assert(skill_views(res@) =~= before.push(skill@));
                },
                None => {
                    let ghost before = warnings@;
                    let report = MissingRef { entity_id: raw.id, kind: RefKind::Skill, id };
                    warnings.push(report);
                    assert(warnings@ =~= old(warnings)@ + missing_skills(
                        raw@.id,
                        ids.take(i as int),
                        self@.skills,
                    ).push(report));
                },
            }
            i = i + 1;
        }
        assert(ids.take(i as int) =~= ids);
        res
    }

    fn resolve_items(&self, raw: &RawEntity, warnings: &mut Vec<MissingRef>) -> (res: Vec<Item>)
        ensures
            item_views(res@) == resolved_items(raw@.inventory, self@.items),
            final(warnings)@ == old(warnings)@ + missing_items(
                raw@.id,
                raw@.inventory,
                self@.items,
            ),
    {
        let ghost ids = raw@.inventory;
        let mut res: Vec<Item> = Vec::new();
        let mut i: usize = 0;
        assert(ids.take(0) =~= Seq::empty());
        assert(item_views(res@) =~= Seq::empty());
        assert(warnings@ =~= old(warnings)@ + Seq::empty());
        while i < raw.inventory.len()
            invariant
                i <= raw.inventory.len(),
                ids == raw@.inventory,
                item_views(res@) == resolved_items(ids.take(i as int), self@.items),
                warnings@ == old(warnings)@ + missing_items(
                    raw@.id,
                    ids.take(i as int),
                    self@.items,
                ),
            decreases raw.inventory.len() - i,
        {
            let id = raw.inventory[i];
            proof {
                assert(ids.take(i + 1).drop_last() =~= ids.take(i as int));
                assert(ids.take(i + 1).last() == id);
            }
            match find_by_id(&self.items, id as usize) {
                Some(item) => {
                    let ghost before = item_views(res@);
                    let item = item.clone();
                    res.push(item);
                    assert(item_views(res@) =~= before.push(item@));
                },
                None => {
                    let report = MissingRef { entity_id: raw.id, kind: RefKind::Item, id };
                    warnings.push(report);
                    assert(warnings@ =~= old(warnings)@ + missing_items(
                        raw@.id,
                        ids.take(i as int),
                        self@.items,
                    ).push(report));
                },
            }
            i = i + 1;
        }
        assert(ids.take(i as int) =~= ids);
        res
    }

    fn wear_recorded(&self, entity: &mut Entity, raw: &RawEntity, warnings: &mut Vec<MissingRef>)
        ensures
            final(entity)@ == wearing(old(entity)@, raw@.equipment, self@.items),
            final(warnings)@ == old(warnings)@ + missing_items(
                raw@.id,
                raw@.equipment,
                self@.items,
            ),
    {
        let ghost ids = raw@.equipment;
        let mut i: usize = 0;
        assert(ids.take(0) =~= Seq::empty());
        assert(warnings@ =~= old(warnings)@ + Seq::empty());
        while i < raw.equipment.len()
            invariant
                i <= raw.equipment.len(),
                ids == raw@.equipment,
                entity@ == wearing(old(entity)@, ids.take(i as int), self@.items),
                warnings@ == old(warnings)@ + missing_items(
                    raw@.id,
                    ids.take(i as int),
                    self@.items,
                ),
            decreases raw.equipment.len() - i,
        {
            let id = raw.equipment[i];
            proof {
                assert(ids.take(i + 1).drop_last() =~= ids.take(i as int));
                assert(ids.take(i + 1).last() == id);
            }
            match find_by_id(&self.items, id as usize) {
                Some(item) => {
                    entity.add_item_to_inventory(item.clone());
                    entity.equip_item(item.clone());
                },
                None => {
                    let report = MissingRef { entity_id: raw.id, kind: RefKind::Item, id };
                    warnings.push(report);
                    assert(warnings@ =~= old(warnings)@ + missing_items(
                        raw@.id,
                        ids.take(i as int),
                        self@.items,
                    ).push(report));
                },
            }
            i = i + 1;
        }
        assert(ids.take(i as int) =~= ids);
    }

    fn resolve_entity(&self, raw: &RawEntity, warnings: &mut Vec<MissingRef>) -> (entity: Entity)
        ensures
            entity@ == resolved_entity(raw@, self@.items, self@.skills),
            final(warnings)@ == old(warnings)@ + missing_refs(raw@, self@.items, self@.skills),
    {
        let skills = self.resolve_skills(raw, warnings);
        let inventory = self.resolve_items(raw, warnings);
        let mut entity = Entity {
            id: raw.id,
            name: raw.name.clone(),
            stats: raw.stats,
            inventory,
            equipment: Vec::new(),
            skills,
        };
        assert(entity@.equipment =~= Seq::empty());
        self.wear_recorded(&mut entity, raw, warnings);
        assert(warnings@ =~= old(warnings)@ + missing_refs(raw@, self@.items, self@.skills));
        entity
    }

    /// Takes entity records into the master roster. Each record's skills,
    /// carried items and equipment are resolved against the catalogs as they
    /// stand; an id that its catalog lacks is dropped and reported. The new
    /// entities follow those already in the roster, and both partitions are
    /// derived afresh from the whole roster. Returns the reports, in the
    /// order in which the references were met.
    pub fn load_entities(&mut self, records: Vec<RawEntity>) -> (warnings: Vec<MissingRef>)
        ensures
            final(self)@.entities == old(self)@.entities + resolved_all(
                raw_views(records@),
                old(self)@.items,
                old(self)@.skills,
            ),
            final(self)@ == (GameStateView {
                entities: final(self)@.entities,
                pc_ents: player_class(final(self)@.entities),
                npc_ents: enemy_class(final(self)@.entities),
                ..old(self)@
            }),
            warnings@ == missing_all(raw_views(records@), old(self)@.items, old(self)@.skills),
            final(self)@.partitions_derived(),
            old(self)@.indices_valid() ==> final(self)@.indices_valid(),
    {
        let ghost raws = raw_views(records@);
        let ghost items = self@.items;
        let ghost skills = self@.skills;
        let mut warnings: Vec<MissingRef> = Vec::new();
        let mut i: usize = 0;
        assert(raws.take(0) =~= Seq::empty());
        assert(self@.entities =~= old(self)@.entities + resolved_all(
            raws.take(0),
            items,
            skills,
        ));
        while i < records.len()
            invariant
                i <= records.len(),
                raws == raw_views(records@),
                items == old(self)@.items,
                skills == old(self)@.skills,
                self@ == (GameStateView { entities: self@.entities, ..old(self)@ }),
                self@.entities == old(self)@.entities + resolved_all(
                    raws.take(i as int),
                    items,
                    skills,
                ),
                warnings@ == missing_all(raws.take(i as int), items, skills),
            decreases records.len() - i,
        {
            proof {
                assert(raws.take(i + 1).drop_last() =~= raws.take(i as int));
                assert(raws.take(i + 1).last() == records[i as int]@);
            }
            let ghost before = self@.entities;
            let entity = self.resolve_entity(&records[i], &mut warnings);
            self.entities.push(entity);
            assert(self@.entities =~= before.push(entity@));
            assert(self@.entities =~= old(self)@.entities + resolved_all(
                raws.take(i + 1),
                items,
                skills,
            ));
            i = i + 1;
        }
        assert(raws.take(i as int) =~= raws);
        self.pc_ents = select_class(&self.entities, false);
        self.npc_ents = select_class(&self.entities, true);
        warnings
    }
}

} // verus!
