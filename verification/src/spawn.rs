//! Enemy and character creation: keeping the live enemy roster at its
//! target size, and making a new player from the default template.

use crate::dice::draw_below;
use crate::entity::{Entity, EntityView};
use crate::item::{ItemType, ItemView};
use crate::state::{
    after_equip, with_item, GameState, GameStateView, MissingRef, RawEntity, ITEM_DROP_PERCENT,
    SPAWN_LIMIT,
};
use crate::text::{parse_index, unsigned_value};
use vstd::prelude::*;
use vstd::string::*;

verus! {

/// A copy of the enemy template, with the bonus item where there is one: a
/// consumable is put on at once, any other item is only carried.
pub open spec fn spawned(template: EntityView, bonus: Option<ItemView>) -> EntityView {
    match bonus {
        None => template,
        Some(item) => if item.item_type == ItemType::Consumable {
            after_equip(with_item(template, item), item)
        } else {
            with_item(template, item)
        },
    }
}

impl GameStateView {
    /// Whether `pick` selects an enemy template and `bonus`, where it names
    /// an item, selects a catalog item.
    pub open spec fn spawn_choice_valid(self, pick: int, bonus: Option<int>) -> bool {
        &&& 0 <= pick < self.npc_ents.len()
        &&& bonus matches Some(k) ==> 0 <= k < self.items.len()
    }

    /// The enemy that the choice `pick`, `bonus` spawns.
    pub open spec fn spawn_of(self, pick: int, bonus: Option<int>) -> EntityView {
        spawned(
            self.npc_ents[pick],
            match bonus {
                Some(k) => Some(self.items[k]),
                None => None,
            },
        )
    }

    /// Whether `enemy` is what some valid choice spawns.
    pub open spec fn can_spawn(self, enemy: EntityView) -> bool {
        exists|pick: int, bonus: Option<int>|
            self.spawn_choice_valid(pick, bonus) && enemy == #[trigger] self.spawn_of(pick, bonus)
    }

    /// Whether a spawn adds an enemy: the live roster is below the spawn
    /// limit and there is an enemy template to draw from.
    pub open spec fn spawn_due(self) -> bool {
        self.enemies.len() < SPAWN_LIMIT && self.npc_ents.len() > 0
    }
}

/// The index of a bonus choice as an integer.
pub open spec fn bonus_index(bonus: Option<usize>) -> Option<int> {
    match bonus {
        Some(k) => Some(k as int),
        None => None,
    }
}

impl GameState {
    /// Spawns the enemy that a given choice selects: a copy of the enemy
    /// template at `pick`, with the catalog item at `bonus` where one is
    /// named. Does nothing, and says so, where the live roster has reached
    /// the spawn limit or the choice selects nothing.
    pub fn spawn_enemy_with(&mut self, pick: usize, bonus: Option<usize>) -> (done: bool)
        ensures
            done == (old(self)@.enemies.len() < SPAWN_LIMIT && old(self)@.spawn_choice_valid(
                pick as int,
                bonus_index(bonus),
            )),
            final(self)@ == if done {
                GameStateView {
                    enemies: old(self)@.enemies.push(
                        old(self)@.spawn_of(pick as int, bonus_index(bonus)),
                    ),
                    ..old(self)@
                }
            } else {
                old(self)@
            },
    {
        if self.enemies.len() >= SPAWN_LIMIT || pick >= self.npc_ents.len() {
            return false;
        }
        assert(self@.npc_ents[pick as int] == self.npc_ents[pick as int]@);
        match bonus {
            None => {
                let enemy = self.npc_ents[pick].clone();
                self.create_enemy(enemy);
                true
            },
            Some(k) => {
                if k >= self.items.len() {
                    return false;
                }
                assert(self@.items[k as int] == self.items[k as int]@);
                let mut enemy = self.npc_ents[pick].clone();
                let item = self.items[k].clone();
                if item.is_consumable() {
                    enemy.add_item_to_inventory(item.clone());
                    enemy.equip_item(item);
                } else {
                    enemy.add_item_to_inventory(item);
                }
                self.create_enemy(enemy);
                true
            },
        }
    }

    /// Spawns one enemy unless the live roster has reached the spawn limit:
    /// a copy of an enemy template drawn at random, with a chance of
    /// `ITEM_DROP_PERCENT` in a hundred to carry a catalog item drawn at
    /// random. Does nothing while there is no enemy template; spawns without
    /// an item while the item catalog is empty.
    pub fn spawn_enemy(&mut self)
        ensures
            !old(self)@.spawn_due() ==> final(self)@ == old(self)@,
            old(self)@.spawn_due() ==> final(self)@ == (GameStateView {
                enemies: final(self)@.enemies,
                ..old(self)@
            }) && final(self)@.enemies.len() == old(self)@.enemies.len() + 1 && final(self)@.enemies.drop_last() == old(self)@.enemies && old(self)@.can_spawn(
                final(self)@.enemies.last(),
            ),
    {
        if self.enemies.len() >= SPAWN_LIMIT || self.npc_ents.len() == 0 {
            return ;
        }
        let pick = draw_below(self.npc_ents.len() as u64) as usize;
        let drops = draw_below(100) < ITEM_DROP_PERCENT;
        let bonus: Option<usize> = if drops && self.items.len() > 0 {
            Some(draw_below(self.items.len() as u64) as usize)
        } else {
            None
        };
        self.spawn_enemy_with(pick, bonus);
        proof {
            let added = old(self)@.spawn_of(pick as int, bonus_index(bonus));
            assert(self@.enemies == old(self)@.enemies.push(added));
            assert(self@.enemies.drop_last() =~= old(self)@.enemies);
            assert(old(self)@.spawn_choice_valid(pick as int, bonus_index(bonus)));
        }
    }

    /// Spawns until the live roster has reached the spawn limit. Does nothing
    /// while there is no enemy template. The enemies already in play stay in
    /// front, and each one added is what some valid choice spawns.
    pub fn populate_enemies(&mut self)
        ensures
            final(self)@ == (GameStateView { enemies: final(self)@.enemies, ..old(self)@ }),
            !old(self)@.spawn_due() ==> final(self)@ == old(self)@,
            old(self)@.spawn_due() ==> final(self)@.enemies.len() == SPAWN_LIMIT,
            final(self)@.enemies.take(old(self)@.enemies.len() as int) == old(self)@.enemies,
            forall|k: int|
                old(self)@.enemies.len() <= k < final(self)@.enemies.len() ==> old(self)@.can_spawn(
                    #[trigger] final(self)@.enemies[k],
                ),
    {
        assert(self@.enemies.take(self@.enemies.len() as int) =~= self@.enemies);
        if self.npc_ents.len() == 0 {
            return ;
        }
        while self.enemies.len() < SPAWN_LIMIT
            invariant
                self@ == (GameStateView { enemies: self@.enemies, ..old(self)@ }),
                self@.npc_ents.len() > 0,
                old(self)@.enemies.len() <= self@.enemies.len(),
                old(self)@.spawn_due() ==> self@.enemies.len() <= SPAWN_LIMIT,
                !old(self)@.spawn_due() ==> self@ == old(self)@,
                self@.enemies.take(old(self)@.enemies.len() as int) == old(self)@.enemies,
                forall|k: int|
                    old(self)@.enemies.len() <= k < self@.enemies.len() ==> old(self)@.can_spawn(
                        #[trigger] self@.enemies[k],
                    ),
            decreases SPAWN_LIMIT - self.enemies.len(),
        {
            let ghost before = self@;
            self.spawn_enemy();
            proof {
                assert(before.spawn_due());
                let now = self@.enemies;
                assert(now.drop_last() == before.enemies);
                assert(now.take(old(self)@.enemies.len() as int) =~= before.enemies.take(
                    old(self)@.enemies.len() as int,
                ));
                assert forall|k: int|
                    old(self)@.enemies.len() <= k < now.len() implies old(self)@.can_spawn(
                    #[trigger] now[k],
                ) by {
                    if k < before.enemies.len() {
                        assert(now[k] == now.drop_last()[k]);
                    } else {
                        assert(now[k] == now.last());
                        let (pick, bonus) = choose|pick: int, bonus: Option<int>|
                            before.spawn_choice_valid(pick, bonus) && now.last()
                                == #[trigger] before.spawn_of(pick, bonus);
                        assert(old(self)@.spawn_choice_valid(pick, bonus));
                        assert(now.last() == old(self)@.spawn_of(pick, bonus));
                    }
                }
            }
        }
    }

    /// Loads the skill catalog, the item catalog and the entity records, in
    /// that order, and then fills the live enemy roster. Returns the reports
    /// on references that could not be resolved.
    pub fn reload(
        &mut self,
        entities: Vec<RawEntity>,
        items: Vec<crate::item::Item>,
        skills: Vec<crate::skills::Skill>,
    ) -> (warnings: Vec<MissingRef>)
        ensures
            final(self)@.skills == crate::skills::skill_views(skills@),
            final(self)@.items == crate::item::item_views(items@),
            final(self)@.entities == old(self)@.entities + crate::state::resolved_all(
                crate::state::raw_views(entities@),
                final(self)@.items,
                final(self)@.skills,
            ),
            final(self)@.pc_ents == crate::state::player_class(final(self)@.entities),
            final(self)@.npc_ents == crate::state::enemy_class(final(self)@.entities),
            final(self)@.players == old(self)@.players,
            final(self)@.player_index == old(self)@.player_index,
            final(self)@.enemy_index == old(self)@.enemy_index,
            warnings@ == crate::state::missing_all(
                crate::state::raw_views(entities@),
                final(self)@.items,
                final(self)@.skills,
            ),
            final(self)@.enemies.take(old(self)@.enemies.len() as int) == old(self)@.enemies,
            final(self)@.npc_ents.len() > 0 && old(self)@.enemies.len() < SPAWN_LIMIT ==> final(self)@.enemies.len() == SPAWN_LIMIT,
            final(self)@.npc_ents.len() == 0 || old(self)@.enemies.len() >= SPAWN_LIMIT ==> final(self)@.enemies == old(self)@.enemies,
            forall|k: int|
                old(self)@.enemies.len() <= k < final(self)@.enemies.len() ==> final(self)@.can_spawn(#[trigger] final(self)@.enemies[k]),
    {
        self.load_skills(skills);
        self.load_items(items);
        let warnings = self.load_entities(entities);
        let ghost loaded = self@;
        self.populate_enemies();
        proof {
            assert forall|k: int|
                old(self)@.enemies.len() <= k < self@.enemies.len() implies self@.can_spawn(
                #[trigger] self@.enemies[k],
            ) by {
                assert(loaded.can_spawn(self@.enemies[k]));
                let (pick, bonus) = choose|pick: int, bonus: Option<int>|
                    loaded.spawn_choice_valid(pick, bonus) && self@.enemies[k]
                        == #[trigger] loaded.spawn_of(pick, bonus);
                assert(self@.spawn_choice_valid(pick, bonus));
                assert(self@.enemies[k] == self@.spawn_of(pick, bonus));
            }
        }
        warnings
    }

    /// Makes a new player named `name` from the default template, the first
    /// entity of the master roster: it gets the template's stats, skills,
    /// inventory and equipment, and the number of players then in play as
    /// its id. The new player joins the players in play and becomes the
    /// active one. Does nothing, and says so, while the master roster is
    /// empty or the id would not fit in 32 bits.
    pub fn create_player_from_default(&mut self, name: &str) -> (done: bool)
        ensures
            done == (old(self)@.entities.len() > 0 && old(self)@.players.len() < u32::MAX),
            final(self)@ == if done {
                GameStateView {
                    players: old(self)@.players.push(
                        EntityView {
                            id: (old(self)@.players.len() + 1) as u32,
                            name: name@,
                            ..old(self)@.entities[0]
                        },
                    ),
                    player_index: old(self)@.players.len() as usize,
                    ..old(self)@
                }
            } else {
                old(self)@
            },
    {
        if self.players.len() >= u32::MAX as usize {
            return false;
        }
        match self.get_default_player() {
            None => false,
            Some(template) => {
                let id: u32 = self.players.len() as u32 + 1;
                let mut player = Entity::new(id, name);
                player.stats = template.stats;
                player.skills = template.skills;
                player.inventory = template.inventory;
                player.equipment = template.equipment;
                let index = self.players.len();
                self.create_player(player);
                self.set_player(index);
                true
            },
        }
    }
}

/// The player that a typed number selects: numbers count the players in
/// play from one, as the listing of players shows them.
pub open spec fn selected_player(text: Seq<char>, players: nat) -> Option<usize> {
    match unsigned_value(text) {
        Some(number) => if 1 <= number <= players && number <= usize::MAX {
            Some((number - 1) as usize)
        } else {
            None
        },
        None => None,
    }
}

impl GameState {
    /// Makes the player with the typed number the active one. Does nothing,
    /// and says so, where the text is no number of a player in play.
    pub fn select_player(&mut self, text: &str) -> (done: bool)
        ensures
            done == selected_player(text@, old(self)@.players.len()) is Some,
            final(self)@ == if done {
                GameStateView {
                    player_index: selected_player(text@, old(self)@.players.len())->0,
                    ..old(self)@
                }
            } else {
                old(self)@
            },
            done ==> final(self)@.has_active_player(),
    {
        match parse_index(text) {
            Some(number) => {
                if number >= 1 && number <= self.players.len() {
                    self.set_player(number - 1);
                    true
                } else {
                    false
                }
            },
            None => false,
        }
    }
}

} // verus!
