//! Catalog items: a category and a stat modifier under a unique id.

use crate::stats::Stats;
use crate::views::opt_view;
use vstd::prelude::*;
use vstd::string::*;

verus! {

/// The category of an item. An entity wears at most one item of each.
#[derive(Clone, Copy, Debug, PartialEq, Eq, Structural)]
pub enum ItemType {
    Weapon,
    Armour,
    Consumable,
}

impl ItemType {
    /// The category's name as text.
    pub open spec fn label_text(self) -> Seq<char> {
        match self {
            ItemType::Weapon => "Weapon"@,
            ItemType::Armour => "Armour"@,
            ItemType::Consumable => "Consumable"@,
        }
    }

    pub fn label(&self) -> (s: &'static str)
        ensures
            s@ == self.label_text(),
    {
        match self {
            ItemType::Weapon => "Weapon",
            ItemType::Armour => "Armour",
            ItemType::Consumable => "Consumable",
        }
    }
}

/// What an item is, with its texts as sequences of characters.
pub struct ItemView {
    pub id: u32,
    pub name: Seq<char>,
    pub description: Seq<char>,
    pub item_type: ItemType,
    pub stat_modifier: Stats,
}

/// An item definition. Entities hold copies of catalog items; two items
/// are the same item when their ids are equal.
#[derive(Debug, PartialEq)]
pub struct Item {
    pub id: u32,
    pub name: String,
    pub description: String,
    pub item_type: ItemType,
    /// Added to the wearer's stats while the item is equipped.
    pub stat_modifier: Stats,
}

impl View for Item {
    type V = ItemView;

    open spec fn view(&self) -> ItemView {
        ItemView {
            id: self.id,
            name: self.name@,
            description: self.description@,
            item_type: self.item_type,
            stat_modifier: self.stat_modifier,
        }
    }
}

impl Clone for Item {
    fn clone(&self) -> (res: Self)
        ensures
            res@ == self@,
    {
        Item {
            id: self.id,
            name: self.name.clone(),
            description: self.description.clone(),
            item_type: self.item_type,
            stat_modifier: self.stat_modifier,
        }
    }
}

/// The views of a run of items, in order.
pub open spec fn item_views(items: Seq<Item>) -> Seq<ItemView> {
    items.map_values(|i: Item| i@)
}

/// The first item of `items` whose id is `id`, if there is one.
pub open spec fn first_with_id(items: Seq<ItemView>, id: int) -> Option<ItemView>
    decreases items.len(),
{
    if items.len() == 0 {
        None
    } else if items[0].id == id {
        Some(items[0])
    } else {
        first_with_id(items.drop_first(), id)
    }
}

/// The first item of `items` with the id `id`.
pub fn find_by_id(items: &Vec<Item>, id: usize) -> (found: Option<&Item>)
    ensures
        opt_view(found) == first_with_id(item_views(items@), id as int),
{
    let ghost all = item_views(items@);
    let mut i: usize = 0;
    assert(all.skip(0) =~= all);
    while i < items.len()
        invariant
            i <= items.len(),
            all == item_views(items@),
            first_with_id(all, id as int) == first_with_id(all.skip(i as int), id as int),
        decreases items.len() - i,
    {
        assert(all.skip(i as int)[0] == items[i as int]@);
        assert(all.skip(i as int).drop_first() =~= all.skip(i + 1));
        if items[i].id as usize == id {
            return Some(&items[i]);
        }
        i = i + 1;
    }
    None
}

/// The multi-line description of an item.
pub open spec fn item_text(v: ItemView) -> Seq<char> {
    "Name: "@ + v.name + "\nDescription: "@ + v.description + "\nType: "@
        + v.item_type.label_text() + "\nStats:\n"@ + crate::stats::stats_text(v.stat_modifier)
}

impl Item {
    pub fn _new(
        id: u32,
        name: &str,
        description: &str,
        item_type: ItemType,
        stat_modifier: Stats,
    ) -> (item: Self)
        ensures
            item@ == (ItemView {
                id,
                name: name@,
                description: description@,
                item_type,
                stat_modifier,
            }),
    {
        Item {
            id,
            name: String::from_str(name),
            description: String::from_str(description),
            item_type,
            stat_modifier,
        }
    }

    pub fn _id(&self) -> (id: u32)
        ensures
            id == self@.id,
    {
        self.id
    }

    pub fn _name(&self) -> (name: &str)
        ensures
            name@ == self@.name,
    {
        self.name.as_str()
    }

    pub fn _description(&self) -> (description: &str)
        ensures
            description@ == self@.description,
    {
        self.description.as_str()
    }

    pub fn _item_type(&self) -> (item_type: &ItemType)
        ensures
            *item_type == self@.item_type,
    {
        &self.item_type
    }

    pub fn _stat_modifier(&self) -> (modifier: &Stats)
        ensures
            *modifier == self@.stat_modifier,
    {
        &self.stat_modifier
    }

    pub fn _get_item_string(&self) -> (s: String)
        ensures
            s@ == item_text(self@),
    {
        let mut s = String::from_str("Name: ");
        s.append(self.name.as_str());
        s.append("\nDescription: ");
        s.append(self.description.as_str());
        s.append("\nType: ");
        s.append(self.item_type.label());
        s.append("\nStats:\n");
        let stats = self.stat_modifier.get_stats_string();
        s.append(stats.as_str());
        s
    }

    pub fn is_consumable(&self) -> (b: bool)
        ensures
            b == (self@.item_type == ItemType::Consumable),
    {
        self.item_type == ItemType::Consumable
    }
}

} // verus!
