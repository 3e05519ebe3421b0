//! A combatant: stats, inventory, worn equipment and known skills.

use crate::dice::draw_below;
use crate::item::{find_by_id, first_with_id, item_views, Item, ItemType, ItemView};
use crate::skills::{skill_views, Skill, SkillView};
use crate::stats::{stats_text, Stats};
use crate::text::{decimal_nat, u64_to_decimal};
use crate::views::opt_view;
use vstd::prelude::*;
use vstd::string::*;

verus! {

/// What an entity is: its texts as sequences of characters, its three
/// collections as sequences of views.
pub struct EntityView {
    pub id: u32,
    pub name: Seq<char>,
    pub stats: Stats,
    pub inventory: Seq<ItemView>,
    pub equipment: Seq<ItemView>,
    pub skills: Seq<SkillView>,
}

/// A combatant. `stats` already includes the modifiers of everything in
/// `equipment`; `inventory` holds the items that are carried but not worn.
#[derive(Debug, PartialEq)]
pub struct Entity {
    pub id: u32,
    pub name: String,
    pub stats: Stats,
    pub inventory: Vec<Item>,
    pub equipment: Vec<Item>,
    pub skills: Vec<Skill>,
}

impl View for Entity {
    type V = EntityView;

    open spec fn view(&self) -> EntityView {
        EntityView {
            id: self.id,
            name: self.name@,
            stats: self.stats,
            inventory: item_views(self.inventory@),
            equipment: item_views(self.equipment@),
            skills: skill_views(self.skills@),
        }
    }
}

/// A copy of `items`, item by item.
pub fn clone_items(items: &Vec<Item>) -> (res: Vec<Item>)
    ensures
        item_views(res@) == item_views(items@),
{
    let res = items.clone();
    assert(item_views(res@) =~= item_views(items@));
    res
}

/// A copy of `skills`, skill by skill.
pub fn clone_skills(skills: &Vec<Skill>) -> (res: Vec<Skill>)
    ensures
        skill_views(res@) == skill_views(skills@),
{
    let res = skills.clone();
    assert(skill_views(res@) =~= skill_views(skills@));
    res
}

impl Clone for Entity {
    fn clone(&self) -> (res: Self)
        ensures
            res@ == self@,
    {
        Entity {
            id: self.id,
            name: self.name.clone(),
            stats: self.stats,
            inventory: clone_items(&self.inventory),
            equipment: clone_items(&self.equipment),
            skills: clone_skills(&self.skills),
        }
    }
}

/// The views of a run of entities, in order.
pub open spec fn entity_views(entities: Seq<Entity>) -> Seq<EntityView> {
    entities.map_values(|e: Entity| e@)
}

/// Whether some item of `items` has the id `id`.
pub open spec fn has_id(items: Seq<ItemView>, id: u32) -> bool {
    exists|i: int| 0 <= i < items.len() && (#[trigger] items[i]).id == id
}

/// Whether some item of `items` is of the category `category`.
pub open spec fn has_type(items: Seq<ItemView>, category: ItemType) -> bool {
    exists|i: int| 0 <= i < items.len() && (#[trigger] items[i]).item_type == category
}

/// `items` without every item whose id is `id`, the others in their order.
pub open spec fn without_id(items: Seq<ItemView>, id: u32) -> Seq<ItemView> {
    items.filter(|v: ItemView| v.id != id)
}

/// What a lookup by id finds has that id and is among the items.
pub proof fn lemma_found_has_id(items: Seq<ItemView>, id: int)
    ensures
        first_with_id(items, id) matches Some(v) ==> v.id == id && has_id(items, v.id),
    decreases items.len(),
{
    if items.len() > 0 {
        if items[0].id == id {
        } else {
            let rest = items.drop_first();
            lemma_found_has_id(rest, id);
            if first_with_id(rest, id) is Some {
                let v = first_with_id(rest, id)->0;
                let i = choose|i: int| 0 <= i < rest.len() && (#[trigger] rest[i]).id == v.id;
                assert(items[i + 1].id == v.id);
            }
        }
    }
}

/// No two worn items share a category.
pub open spec fn slots_distinct(equipment: Seq<ItemView>) -> bool {
    forall|i: int, j: int|
        0 <= i < j < equipment.len() ==> (#[trigger] equipment[i]).item_type != (
        #[trigger] equipment[j]).item_type
}

fn contains_id(items: &Vec<Item>, id: u32) -> (b: bool)
    ensures
        b == has_id(item_views(items@), id),
{
    let mut i: usize = 0;
    while i < items.len()
        invariant
            i <= items.len(),
            forall|j: int| 0 <= j < i ==> (#[trigger] item_views(items@)[j]).id != id,
        decreases items.len() - i,
    {
        assert(item_views(items@)[i as int] == items[i as int]@);
        if items[i].id == id {
            return true;
        }
        i = i + 1;
    }
    false
}

impl Entity {
    /// A new entity with zero stats that carries, wears and knows nothing.
    pub fn new(id: u32, name: &str) -> (e: Self)
        ensures
            e@ == (EntityView {
                id,
                name: name@,
                stats: Stats::zero(),
                inventory: Seq::empty(),
                equipment: Seq::empty(),
                skills: Seq::empty(),
            }),
    {
        let e = Entity {
            id,
            name: String::from_str(name),
            stats: Stats::new(),
            inventory: Vec::new(),
            equipment: Vec::new(),
            skills: Vec::new(),
        };
        assert(e@.inventory =~= Seq::empty());
        assert(e@.equipment =~= Seq::empty());
        assert(e@.skills =~= Seq::empty());
        e
    }

    /// Puts `item` at the end of the inventory.
    pub fn add_item_to_inventory(&mut self, item: Item)
        ensures
            final(self)@ == (EntityView {
                inventory: old(self)@.inventory.push(item@),
                ..old(self)@
            }),
    {
        self.inventory.push(item);
        assert(item_views(self.inventory@) =~= item_views(old(self).inventory@).push(item@));
    }

    /// Whether the inventory holds an item with the id of `item`.
    pub fn is_item_in_inventory(&self, item: &Item) -> (b: bool)
        ensures
            b == has_id(self@.inventory, item@.id),
    {
        contains_id(&self.inventory, item.id)
    }

    /// Whether an item with the id of `item` is worn.
    pub fn is_item_equipped(&self, item: &Item) -> (b: bool)
        ensures
            b == has_id(self@.equipment, item@.id),
    {
        contains_id(&self.equipment, item.id)
    }

    /// Whether an item of the category of `item` is worn.
    pub fn is_equipment_slot_taken(&self, item: &Item) -> (b: bool)
        ensures
            b == has_type(self@.equipment, item@.item_type),
    {
        let mut i: usize = 0;
        while i < self.equipment.len()
            invariant
                i <= self.equipment.len(),
                forall|j: int|
                    0 <= j < i ==> (#[trigger] self@.equipment[j]).item_type != item@.item_type,
            decreases self.equipment.len() - i,
        {
            assert(self@.equipment[i as int] == self.equipment[i as int]@);
            if self.equipment[i].item_type == item.item_type {
                return true;
            }
            i = i + 1;
        }
        false
    }

    /// Whether anything is carried.
    pub fn _is_inventory(&self) -> (b: bool)
        ensures
            b == (self@.inventory.len() > 0),
    {
        !self.inventory.is_empty()
    }

    /// The skill at position `index`, counted from zero.
    pub fn get_skill(&self, index: usize) -> (found: Option<&Skill>)
        ensures
            match found {
                Some(skill) => index < self@.skills.len() && skill@ == self@.skills[index as int],
                None => index >= self@.skills.len(),
            },
    {
        if index < self.skills.len() {
            Some(&self.skills[index])
        } else {
            None
        }
    }

    /// The first worn item with the id `item_id`.
    pub fn get_equipment(&self, item_id: usize) -> (found: Option<&Item>)
        ensures
            opt_view(found) == first_with_id(self@.equipment, item_id as int),
    {
        find_by_id(&self.equipment, item_id)
    }

    /// The first carried item with the id `item_id`.
    pub fn get_item(&self, item_id: usize) -> (found: Option<&Item>)
        ensures
            opt_view(found) == first_with_id(self@.inventory, item_id as int),
    {
        find_by_id(&self.inventory, item_id)
    }
}

/// `s` after the modifier of every item of `items` was taken off.
pub open spec fn minus_all(s: Stats, items: Seq<ItemView>) -> Stats
    decreases items.len(),
{
    if items.len() == 0 {
        s
    } else {
        minus_all(s, items.drop_last()).minus(items.last().stat_modifier)
    }
}

/// `s` after the modifier of every item of `items` was put on.
pub open spec fn plus_all(s: Stats, items: Seq<ItemView>) -> Stats
    decreases items.len(),
{
    if items.len() == 0 {
        s
    } else {
        plus_all(s, items.drop_last()).plus(items.last().stat_modifier)
    }
}

proof fn lemma_plus_all_after_minus(s: Stats, m: Stats, items: Seq<ItemView>)
    ensures
        plus_all(s.minus(m), items) == plus_all(s, items).minus(m),
    decreases items.len(),
{
    if items.len() > 0 {
        lemma_plus_all_after_minus(s, m, items.drop_last());
        crate::stats::lemma_plus_commutes(
            plus_all(s, items.drop_last()),
            items.last().stat_modifier,
            m,
        );
    }
}

/// Putting back on what was taken off restores the stats.
pub proof fn lemma_reconcile(s: Stats, items: Seq<ItemView>)
    ensures
        plus_all(minus_all(s, items), items) == s,
    decreases items.len(),
{
    if items.len() > 0 {
        let rest = items.drop_last();
        let m = items.last().stat_modifier;
        lemma_plus_all_after_minus(minus_all(s, rest), m, rest);
        lemma_reconcile(s, rest);
        crate::stats::lemma_plus_minus_inverse(s, m);
    }
}

/// How an attempt to equip an item ends.
#[derive(Clone, Copy, Debug, PartialEq, Eq, Structural)]
pub enum EquipOutcome {
    /// The item moved from the inventory into the equipment.
    Equipped,
    /// No item with that id is carried; nothing changed.
    NotInInventory,
    /// An item with that id is already worn; nothing changed.
    AlreadyEquipped,
    /// An item of that category is already worn; nothing changed.
    SlotTaken,
}

/// How an attempt to equip `item` on `e` ends. The three conditions are
/// tested in this order: carried, not yet worn, category free.
pub open spec fn equip_outcome(e: EntityView, item: ItemView) -> EquipOutcome {
    if !has_id(e.inventory, item.id) {
        EquipOutcome::NotInInventory
    } else if has_id(e.equipment, item.id) {
        EquipOutcome::AlreadyEquipped
    } else if has_type(e.equipment, item.item_type) {
        EquipOutcome::SlotTaken
    } else {
        EquipOutcome::Equipped
    }
}

/// `e` after `item` was equipped: out of the inventory, at the end of the
/// equipment, its modifier on the stats.
pub open spec fn equipped(e: EntityView, item: ItemView) -> EntityView {
    EntityView {
        stats: e.stats.plus(item.stat_modifier),
        inventory: without_id(e.inventory, item.id),
        equipment: e.equipment.push(item),
        ..e
    }
}

/// `e` after `item` was unequipped: out of the equipment, at the end of the
/// inventory, its modifier off the stats.
pub open spec fn unequipped(e: EntityView, item: ItemView) -> EntityView {
    EntityView {
        stats: e.stats.minus(item.stat_modifier),
        inventory: e.inventory.push(item),
        equipment: without_id(e.equipment, item.id),
        ..e
    }
}

/// How many items of `items` have the id `id`.
pub open spec fn count_id(items: Seq<ItemView>, id: u32) -> nat {
    items.filter(|v: ItemView| v.id == id).len()
}

proof fn lemma_without_absent_id(items: Seq<ItemView>, id: u32)
    requires
        !has_id(items, id),
    ensures
        without_id(items, id) == items,
        count_id(items, id) == 0,
    decreases items.len(),
{
    reveal(Seq::filter);
    if items.len() > 0 {
        let rest = items.drop_last();
        assert(forall|i: int| 0 <= i < rest.len() ==> rest[i] == items[i]);
        assert(items.last() == items[items.len() - 1]);
        lemma_without_absent_id(rest, id);
        assert(rest.push(items.last()) =~= items);
    }
}

proof fn lemma_without_removes_id(items: Seq<ItemView>, id: u32)
    ensures
        !has_id(without_id(items, id), id),
        count_id(without_id(items, id), id) == 0,
        slots_distinct(items) ==> slots_distinct(without_id(items, id)),
        forall|t: ItemType| has_type(without_id(items, id), t) ==> has_type(items, t),
{
    let kept = without_id(items, id);
    let keep = |v: ItemView| v.id != id;
    assert forall|i: int| 0 <= i < kept.len() implies (#[trigger] kept[i]).id != id by {
        items.lemma_filter_pred(keep, i);
    }
    lemma_without_absent_id(kept, id);
    assert forall|t: ItemType| has_type(kept, t) implies has_type(items, t) by {
        let i = choose|i: int| 0 <= i < kept.len() && (#[trigger] kept[i]).item_type == t;
        assert(kept.contains(kept[i]));
        items.lemma_filter_contains_rev(keep, kept[i]);
        let j = choose|j: int| 0 <= j < items.len() && items[j] == kept[i];
        assert(items[j].item_type == t);
    }
    if slots_distinct(items) {
        lemma_filter_keeps_slots_distinct(items, id);
    }
}

proof fn lemma_filter_keeps_slots_distinct(items: Seq<ItemView>, id: u32)
    requires
        slots_distinct(items),
    ensures
        slots_distinct(without_id(items, id)),
    decreases items.len(),
{
    reveal(Seq::filter);
    if items.len() > 0 {
        let rest = items.drop_last();
        let last = items.last();
        assert(forall|i: int| 0 <= i < rest.len() ==> rest[i] == items[i]);
        lemma_filter_keeps_slots_distinct(rest, id);
        let kept_rest = without_id(rest, id);
        let keep = |v: ItemView| v.id != id;
        if last.id != id {
            let kept = kept_rest.push(last);
            assert forall|i: int, j: int| 0 <= i < j < kept.len() implies (#[trigger] kept[i]).item_type
                != (#[trigger] kept[j]).item_type by {
                if j == kept_rest.len() {
                    assert(kept_rest.contains(kept_rest[i]));
                    rest.lemma_filter_contains_rev(keep, kept_rest[i]);
                    let k = choose|k: int| 0 <= k < rest.len() && rest[k] == kept_rest[i];
                    assert(items[k].item_type != items[items.len() - 1].item_type);
                } else {
                    assert(kept[i] == kept_rest[i]);
                    assert(kept[j] == kept_rest[j]);
                }
            }
        }
    }
}

/// Equipping and then unequipping an item restores the stats and the
/// equipment, and leaves the item in the inventory exactly once, at its end.
pub proof fn lemma_equip_unequip_round_trip(e: EntityView, item: ItemView)
    requires
        equip_outcome(e, item) == EquipOutcome::Equipped,
    ensures
        has_id(equipped(e, item).equipment, item.id),
        unequipped(equipped(e, item), item).stats == e.stats,
        unequipped(equipped(e, item), item).equipment == e.equipment,
        unequipped(equipped(e, item), item).inventory == without_id(e.inventory, item.id).push(
            item,
        ),
        count_id(unequipped(equipped(e, item), item).inventory, item.id) == 1,
{
    let worn = e.equipment.push(item);
    assert(worn[e.equipment.len() as int].id == item.id);
    crate::stats::lemma_plus_minus_inverse(e.stats, item.stat_modifier);
    lemma_without_absent_id(e.equipment, item.id);
    e.equipment.lemma_filter_push(item, |v: ItemView| v.id != item.id);
    lemma_without_removes_id(e.inventory, item.id);
    without_id(e.inventory, item.id).lemma_filter_push(item, |v: ItemView| v.id == item.id);
}

/// Once an item is equipped, equipping it again, or equipping any item of
/// the same category, is refused.
pub proof fn lemma_equip_again_refused(e: EntityView, item: ItemView, other: ItemView)
    requires
        equip_outcome(e, item) == EquipOutcome::Equipped,
        other.id == item.id || other.item_type == item.item_type,
    ensures
        equip_outcome(equipped(e, item), other) != EquipOutcome::Equipped,
{
    let worn = e.equipment.push(item);
    assert(worn[e.equipment.len() as int] == item);
}

/// What is worn is not carried: once an item is equipped, the inventory
/// holds no item with its id.
pub proof fn lemma_equipped_not_carried(e: EntityView, item: ItemView)
    ensures
        !has_id(equipped(e, item).inventory, item.id),
        has_id(equipped(e, item).equipment, item.id),
{
    lemma_without_removes_id(e.inventory, item.id);
    let worn = e.equipment.push(item);
    assert(worn[e.equipment.len() as int].id == item.id);
}

/// Equipping keeps the worn categories distinct.
pub proof fn lemma_equip_keeps_slots_distinct(e: EntityView, item: ItemView)
    requires
        slots_distinct(e.equipment),
        equip_outcome(e, item) == EquipOutcome::Equipped,
    ensures
        slots_distinct(equipped(e, item).equipment),
{
    let worn = e.equipment.push(item);
    assert forall|i: int, j: int| 0 <= i < j < worn.len() implies (#[trigger] worn[i]).item_type != (
    #[trigger] worn[j]).item_type by {
        if j == e.equipment.len() {
            assert(e.equipment[i].item_type != item.item_type);
        }
    }
}

/// Unequipping keeps the worn categories distinct.
pub proof fn lemma_unequip_keeps_slots_distinct(e: EntityView, item: ItemView)
    requires
        slots_distinct(e.equipment),
    ensures
        slots_distinct(unequipped(e, item).equipment),
{
    lemma_without_removes_id(e.equipment, item.id);
}

fn remove_by_id(items: &mut Vec<Item>, id: u32)
    ensures
        item_views(final(items)@) == without_id(item_views(old(items)@), id),
{
    let ghost all = item_views(items@);
    let ghost keep = |v: ItemView| v.id != id;
    let mut kept: Vec<Item> = Vec::new();
    let mut i: usize = 0;
    assert(all.take(0) =~= Seq::empty());
    assert(item_views(kept@) =~= Seq::empty());
    proof {
        reveal(Seq::filter);
    }
    while i < items.len()
        invariant
            i <= items.len(),
            all == item_views(items@),
            keep == (|v: ItemView| v.id != id),
            item_views(kept@) == all.take(i as int).filter(keep),
        decreases items.len() - i,
    {
        proof {
            assert(all.take(i + 1) =~= all.take(i as int).push(items[i as int]@));
            all.take(i as int).lemma_filter_push(items[i as int]@, keep);
        }
        if items[i].id != id {
            let ghost before = item_views(kept@);
            let item = items[i].clone();
            kept.push(item);
            assert(item_views(kept@) =~= before.push(item@));
        }
        i = i + 1;
    }
    assert(all.take(i as int) =~= all);
    *items = kept;
}

impl Entity {
    /// Puts the modifier of `item` on the stats, whether or not it is worn.
    pub fn _apply_item(&mut self, item: &Item)
        ensures
            final(self)@ == (EntityView {
                stats: old(self)@.stats.plus(item@.stat_modifier),
                ..old(self)@
            }),
    {
        self.stats.apply_modifier(item.stat_modifier);
    }

    fn apply_equipment(&mut self)
        ensures
            final(self)@ == (EntityView {
                stats: plus_all(old(self)@.stats, old(self)@.equipment),
                ..old(self)@
            }),
    {
        let ghost worn = self@.equipment;
        let mut i: usize = 0;
        assert(worn.take(0) =~= Seq::empty());
        while i < self.equipment.len()
            invariant
                i <= self.equipment.len(),
                self@ == (EntityView { stats: self.stats, ..old(self)@ }),
                worn == self@.equipment,
                self.stats == plus_all(old(self)@.stats, worn.take(i as int)),
            decreases self.equipment.len() - i,
        {
            let modifier = self.equipment[i].stat_modifier;
            proof {
                assert(worn.take(i + 1).drop_last() =~= worn.take(i as int));
                assert(worn.take(i + 1).last() == self.equipment[i as int]@);
            }
            self.stats.apply_modifier(modifier);
            i = i + 1;
        }
        assert(worn.take(i as int) =~= worn);
    }

    fn un_apply_equipment(&mut self)
        ensures
            final(self)@ == (EntityView {
                stats: minus_all(old(self)@.stats, old(self)@.equipment),
                ..old(self)@
            }),
    {
        let ghost worn = self@.equipment;
        let mut i: usize = 0;
        assert(worn.take(0) =~= Seq::empty());
        while i < self.equipment.len()
            invariant
                i <= self.equipment.len(),
                self@ == (EntityView { stats: self.stats, ..old(self)@ }),
                worn == self@.equipment,
                self.stats == minus_all(old(self)@.stats, worn.take(i as int)),
            decreases self.equipment.len() - i,
        {
            let modifier = self.equipment[i].stat_modifier;
            proof {
                assert(worn.take(i + 1).drop_last() =~= worn.take(i as int));
                assert(worn.take(i + 1).last() == self.equipment[i as int]@);
            }
            self.stats.remove_modifier(modifier);
            i = i + 1;
        }
        assert(worn.take(i as int) =~= worn);
    }

    /// Takes every item with the id of `item` out of the inventory.
    pub fn remove_item_from_inventory(&mut self, item: &Item)
        ensures
            final(self)@ == (EntityView {
                inventory: without_id(old(self)@.inventory, item@.id),
                ..old(self)@
            }),
    {
        remove_by_id(&mut self.inventory, item.id);
    }

    /// Moves `item` from the inventory into the equipment, where it is
    /// carried, not yet worn, and no item of its category is worn. The stats
    /// are then reconciled: every worn modifier is taken off and, with the
    /// new item among them, put on again. In any other case nothing changes
    /// and the outcome says why.
    pub fn equip_item(&mut self, item: Item) -> (outcome: EquipOutcome)
        ensures
            outcome == equip_outcome(old(self)@, item@),
            final(self)@ == if outcome == EquipOutcome::Equipped {
                equipped(old(self)@, item@)
            } else {
                old(self)@
            },
            slots_distinct(old(self)@.equipment) ==> slots_distinct(final(self)@.equipment),
    {
        if !self.is_item_in_inventory(&item) {
            return EquipOutcome::NotInInventory;
        }
        if self.is_item_equipped(&item) {
            return EquipOutcome::AlreadyEquipped;
        }
        if self.is_equipment_slot_taken(&item) {
            return EquipOutcome::SlotTaken;
        }
        proof {
            lemma_reconcile(self@.stats, self@.equipment);
            if slots_distinct(self@.equipment) {
                lemma_equip_keeps_slots_distinct(self@, item@);
            }
            assert(self@.equipment.push(item@).drop_last() =~= self@.equipment);
        }
        self.un_apply_equipment();
        self.remove_item_from_inventory(&item);
        self.equipment.push(item);
        assert(self@.equipment =~= old(self)@.equipment.push(item@));
        self.apply_equipment();
        EquipOutcome::Equipped
    }

    /// Moves `item` from the equipment back into the inventory, where an
    /// item with its id is worn, and takes its modifier off the stats.
    /// Returns whether it did; where no such item is worn nothing changes.
    pub fn unequip_item(&mut self, item: Item) -> (done: bool)
        ensures
            done == has_id(old(self)@.equipment, item@.id),
            final(self)@ == if done {
                unequipped(old(self)@, item@)
            } else {
                old(self)@
            },
            slots_distinct(old(self)@.equipment) ==> slots_distinct(final(self)@.equipment),
    {
        if !self.is_item_equipped(&item) {
            return false;
        }
        proof {
            if slots_distinct(self@.equipment) {
                lemma_unequip_keeps_slots_distinct(self@, item@);
            }
        }
        remove_by_id(&mut self.equipment, item.id);
        self.stats.remove_modifier(item.stat_modifier);
        self.add_item_to_inventory(item);
        true
    }
}

/// The damage of an attack: the attacker's `attack` stat plus the roll, kept
/// in 32 unsigned bits. Where the exact sum lies in `[0, 2^32)` it is the
/// damage; a sum outside wraps around.
pub open spec fn damage_value(attack: int, roll: int) -> int {
    let sum = attack + roll;
    if sum > u32::MAX {
        sum - 0x1_0000_0000
    } else if sum < 0 {
        sum + 0x1_0000_0000
    } else {
        sum
    }
}

/// Whether `roll` can come up for a skill of the given power: any value
/// below the power, and zero alone for a skill without power.
pub open spec fn roll_allowed(power: u32, roll: u32) -> bool {
    if power == 0 {
        roll == 0
    } else {
        roll < power
    }
}

/// The one-line listing of `items`: for each, its id and name, with nothing
/// in between.
pub open spec fn items_text(items: Seq<ItemView>) -> Seq<char>
    decreases items.len(),
{
    if items.len() == 0 {
        Seq::empty()
    } else {
        items_text(items.drop_last()) + "ID: "@ + decimal_nat(items.last().id as nat) + ", Name: "@
            + items.last().name
    }
}

/// The one-line listing of `skills`: for each, its position counted from
/// one and its name, with nothing in between.
pub open spec fn skills_text(skills: Seq<SkillView>) -> Seq<char>
    decreases skills.len(),
{
    if skills.len() == 0 {
        Seq::empty()
    } else {
        skills_text(skills.drop_last()) + "ID: "@ + decimal_nat(skills.len()) + ", Name: "@
            + skills.last().name
    }
}

/// The name of an entity above its stats.
pub open spec fn entity_text(e: EntityView) -> Seq<char> {
    "Name: "@ + e.name + "\n\tStats:\n"@ + stats_text(e.stats)
}

fn list_items(items: &Vec<Item>) -> (s: String)
    ensures
        s@ == items_text(item_views(items@)),
{
    let ghost all = item_views(items@);
    let mut s = String::new();
    let mut i: usize = 0;
    assert(all.take(0) =~= Seq::empty());
    while i < items.len()
        invariant
            i <= items.len(),
            all == item_views(items@),
            s@ == items_text(all.take(i as int)),
        decreases items.len() - i,
    {
        proof {
            assert(all.take(i + 1).drop_last() =~= all.take(i as int));
            assert(all.take(i + 1).last() == items[i as int]@);
        }
        s.append("ID: ");
        s.append(u64_to_decimal(items[i].id as u64).as_str());
        s.append(", Name: ");
        s.append(items[i].name.as_str());
        i = i + 1;
    }
    assert(all.take(i as int) =~= all);
    s
}

impl Entity {
    /// The damage that this entity deals with the given roll.
    pub fn damage_with_roll(&self, roll: u32) -> (damage: u32)
        ensures
            damage == damage_value(self@.stats.attack as int, roll as int),
            0 <= self@.stats.attack + roll <= u32::MAX ==> damage == self@.stats.attack + roll,
    {
        roll.wrapping_add_signed(self.stats.attack)
    }

    /// Rolls for damage with `skill`: draws a roll below the skill's power
    /// (zero for a skill without power) and adds the `attack` stat. For an
    /// attacker with a non-negative `attack` whose highest sum fits in 32
    /// bits, the damage lies in `[attack, attack + power)`.
    pub fn damage_roll(&self, skill: &Skill) -> (damage: u32)
        ensures
            exists|roll: u32|
                roll_allowed(skill@.power, roll) && damage == #[trigger] damage_value(
                    self@.stats.attack as int,
                    roll as int,
                ),
            skill@.power == 0 && self@.stats.attack >= 0 ==> damage == self@.stats.attack,
            skill@.power > 0 && self@.stats.attack >= 0 && self@.stats.attack + skill@.power
                <= u32::MAX + 1 ==> self@.stats.attack <= damage < self@.stats.attack
                + skill@.power,
    {
        let roll = draw_roll(skill.power);
        self.damage_with_roll(roll)
    }

    pub fn get_entity_string(&self) -> (s: String)
        ensures
            s@ == entity_text(self@),
    {
        let mut s = String::from_str("Name: ");
        s.append(self.name.as_str());
        s.append("\n\tStats:\n");
        s.append(self.stats.get_stats_string().as_str());
        s
    }

    pub fn get_inventory_string(&self) -> (s: String)
        ensures
            s@ == items_text(self@.inventory),
    {
        list_items(&self.inventory)
    }

    pub fn get_equipment_string(&self) -> (s: String)
        ensures
            s@ == items_text(self@.equipment),
    {
        list_items(&self.equipment)
    }

    pub fn get_skills_string(&self) -> (s: String)
        ensures
            s@ == skills_text(self@.skills),
    {
        let ghost all = self@.skills;
        let mut s = String::new();
        let mut i: usize = 0;
        assert(all.take(0) =~= Seq::empty());
        while i < self.skills.len()
            invariant
                i <= self.skills.len(),
                all == self@.skills,
                s@ == skills_text(all.take(i as int)),
            decreases self.skills.len() - i,
        {
            proof {
                assert(all.take(i + 1).drop_last() =~= all.take(i as int));
                assert(all.take(i + 1).last() == self.skills[i as int]@);
            }
            s.append("ID: ");
            s.append(u64_to_decimal(i as u64 + 1).as_str());
            s.append(", Name: ");
            s.append(self.skills[i].name.as_str());
            i = i + 1;
        }
        assert(all.take(i as int) =~= all);
        s
    }
}

/// Draws the roll for a skill of the given power: below the power, and zero
/// where the power is zero.
pub fn draw_roll(power: u32) -> (roll: u32)
    ensures
        roll_allowed(power, roll),
{
    if power == 0 {
        0
    } else {
        draw_below(power as u64) as u32
    }
}

} // verus!
