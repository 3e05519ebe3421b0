use text_combat::entity::{clone_items, clone_skills, draw_roll, Entity, EquipOutcome};
use text_combat::item::{Item, ItemType};
use text_combat::skills::{Skill, SkillClass, SkillTarget, SkillType};
use text_combat::stats::Stats;

fn stats(hp: i32, attack: i32, defense: i32, agility: i32) -> Stats {
    Stats { hp, attack, defense, agility }
}

fn item(id: u32, name: &str, item_type: ItemType, modifier: Stats) -> Item {
    Item::_new(id, name, "", item_type, modifier)
}

fn sword() -> Item {
    item(1, "Sword", ItemType::Weapon, stats(0, 5, 0, -1))
}

fn axe() -> Item {
    item(2, "Axe", ItemType::Weapon, stats(0, 8, 0, -3))
}

fn shield() -> Item {
    item(3, "Shield", ItemType::Armour, stats(2, 0, 4, 0))
}

fn skill(id: u32, name: &str, power: u32) -> Skill {
    Skill::_new(
        id,
        name,
        "",
        SkillType::Active,
        SkillTarget::SingleTarget,
        SkillClass::Physical,
        power,
        0,
    )
}

fn hero() -> Entity {
    let mut e = Entity::new(1, "Hero");
    e.stats = stats(30, 10, 4, 2);
    e
}

#[test]
fn new_entity_is_bare() {
    let e = Entity::new(9, "Nobody");
    assert_eq!(e.id, 9);
    assert_eq!(e.name, "Nobody");
    assert_eq!(e.stats, stats(0, 0, 0, 0));
    assert!(e.inventory.is_empty());
    assert!(e.equipment.is_empty());
    assert!(e.skills.is_empty());
    assert!(!e._is_inventory());
}

#[test]
fn add_item_appends_to_the_inventory() {
    let mut e = hero();
    e.add_item_to_inventory(sword());
    e.add_item_to_inventory(shield());
    assert_eq!(e.inventory, vec![sword(), shield()]);
    assert!(e._is_inventory());
    assert_eq!(e.stats, stats(30, 10, 4, 2));
    assert!(e.equipment.is_empty());
}

#[test]
fn membership_goes_by_id() {
    let mut e = hero();
    e.add_item_to_inventory(sword());
    let mut renamed = sword();
    renamed.name = String::from("Rusty sword");
    renamed.stat_modifier = stats(0, 1, 0, 0);
    assert!(e.is_item_in_inventory(&sword()));
    assert!(e.is_item_in_inventory(&renamed));
    assert!(!e.is_item_in_inventory(&axe()));
    assert!(!e.is_item_equipped(&sword()));
    assert!(!e.is_equipment_slot_taken(&sword()));
}

#[test]
fn equip_moves_the_item_and_adds_its_modifier() {
    let mut e = hero();
    e.add_item_to_inventory(sword());
    e.add_item_to_inventory(shield());
    assert_eq!(e.equip_item(sword()), EquipOutcome::Equipped);
    assert_eq!(e.inventory, vec![shield()]);
    assert_eq!(e.equipment, vec![sword()]);
    assert_eq!(e.stats, stats(30, 15, 4, 1));
    assert!(e.is_item_equipped(&sword()));
    assert!(e.is_equipment_slot_taken(&axe()));
    assert!(!e.is_equipment_slot_taken(&shield()));
}

#[test]
fn equipping_a_second_category_reconciles_all_modifiers() {
    let mut e = hero();
    e.add_item_to_inventory(sword());
    e.add_item_to_inventory(shield());
    assert_eq!(e.equip_item(sword()), EquipOutcome::Equipped);
    assert_eq!(e.equip_item(shield()), EquipOutcome::Equipped);
    assert_eq!(e.equipment, vec![sword(), shield()]);
    assert!(e.inventory.is_empty());
    assert_eq!(e.stats, stats(32, 15, 8, 1));
}

#[test]
fn equip_refuses_an_item_that_is_not_carried() {
    let mut e = hero();
    e.add_item_to_inventory(shield());
    let before = e.clone();
    assert_eq!(e.equip_item(sword()), EquipOutcome::NotInInventory);
    assert_eq!(e, before);
}

#[test]
fn equip_refuses_an_item_that_is_already_worn() {
    let mut e = hero();
    e.add_item_to_inventory(sword());
    assert_eq!(e.equip_item(sword()), EquipOutcome::Equipped);
    e.add_item_to_inventory(sword());
    let before = e.clone();
    assert_eq!(e.equip_item(sword()), EquipOutcome::AlreadyEquipped);
    assert_eq!(e, before);
    assert_eq!(e.equipment, vec![sword()]);
    assert_eq!(e.stats, stats(30, 15, 4, 1));
}

#[test]
fn equip_refuses_a_second_item_of_a_taken_category() {
    let mut e = hero();
    e.add_item_to_inventory(sword());
    e.add_item_to_inventory(axe());
    assert_eq!(e.equip_item(sword()), EquipOutcome::Equipped);
    let before = e.clone();
    assert_eq!(e.equip_item(axe()), EquipOutcome::SlotTaken);
    assert_eq!(e, before);
    assert_eq!(e.equipment, vec![sword()]);
    assert_eq!(e.inventory, vec![axe()]);
    assert_eq!(e.stats, stats(30, 15, 4, 1));
}

#[test]
fn equip_again_right_after_equipping_changes_nothing() {
    let mut e = hero();
    e.add_item_to_inventory(sword());
    assert_eq!(e.equip_item(sword()), EquipOutcome::Equipped);
    let before = e.clone();
    assert_eq!(e.equip_item(sword()), EquipOutcome::NotInInventory);
    assert_eq!(e, before);
}

#[test]
fn the_checks_of_equip_come_in_order() {
    let mut e = hero();
    e.add_item_to_inventory(sword());
    assert_eq!(e.equip_item(sword()), EquipOutcome::Equipped);
    // Worn but no longer carried: the missing inventory entry is named first.
    assert_eq!(e.equip_item(sword()), EquipOutcome::NotInInventory);
    // Not carried and of a taken category: still the inventory comes first.
    assert_eq!(e.equip_item(axe()), EquipOutcome::NotInInventory);
}

#[test]
fn equip_then_unequip_restores_the_entity() {
    let mut e = hero();
    e.add_item_to_inventory(shield());
    e.add_item_to_inventory(sword());
    let before = e.clone();
    assert_eq!(e.equip_item(shield()), EquipOutcome::Equipped);
    assert!(e.unequip_item(shield()));
    assert_eq!(e.stats, before.stats);
    assert_eq!(e.equipment, before.equipment);
    assert_eq!(e.inventory, vec![sword(), shield()]);
    assert_eq!(e.inventory.iter().filter(|i| i.id == 3).count(), 1);
}

#[test]
fn the_round_trip_leaves_one_copy_of_a_doubled_item() {
    let mut e = hero();
    e.add_item_to_inventory(sword());
    e.add_item_to_inventory(shield());
    e.add_item_to_inventory(sword());
    assert_eq!(e.equip_item(sword()), EquipOutcome::Equipped);
    assert_eq!(e.inventory, vec![shield()]);
    assert!(e.unequip_item(sword()));
    assert_eq!(e.inventory, vec![shield(), sword()]);
    assert_eq!(e.stats, stats(30, 10, 4, 2));
}

#[test]
fn the_round_trip_restores_stats_across_a_wrap() {
    let mut e = hero();
    e.stats = stats(i32::MAX, i32::MIN, 0, 0);
    let charm = item(4, "Charm", ItemType::Consumable, stats(10, -10, 1, 1));
    e.add_item_to_inventory(charm.clone());
    assert_eq!(e.equip_item(charm.clone()), EquipOutcome::Equipped);
    assert_eq!(e.stats, stats(i32::MIN + 9, i32::MAX - 9, 1, 1));
    assert!(e.unequip_item(charm));
    assert_eq!(e.stats, stats(i32::MAX, i32::MIN, 0, 0));
}

#[test]
fn unequip_refuses_an_item_that_is_not_worn() {
    let mut e = hero();
    e.add_item_to_inventory(sword());
    let before = e.clone();
    assert!(!e.unequip_item(sword()));
    assert_eq!(e, before);
}

#[test]
fn unequip_takes_the_modifier_off_and_returns_the_item() {
    let mut e = hero();
    e.add_item_to_inventory(sword());
    e.add_item_to_inventory(shield());
    e.equip_item(sword());
    e.equip_item(shield());
    assert!(e.unequip_item(sword()));
    assert_eq!(e.equipment, vec![shield()]);
    assert_eq!(e.inventory, vec![sword()]);
    assert_eq!(e.stats, stats(32, 10, 8, 2));
}

#[test]
fn remove_item_takes_every_copy_out() {
    let mut e = hero();
    e.add_item_to_inventory(sword());
    e.add_item_to_inventory(shield());
    e.add_item_to_inventory(sword());
    e.add_item_to_inventory(axe());
    e.remove_item_from_inventory(&sword());
    assert_eq!(e.inventory, vec![shield(), axe()]);
    e.remove_item_from_inventory(&sword());
    assert_eq!(e.inventory, vec![shield(), axe()]);
}

#[test]
fn apply_item_adds_the_modifier_only() {
    let mut e = hero();
    e._apply_item(&shield());
    assert_eq!(e.stats, stats(32, 10, 8, 2));
    assert!(e.inventory.is_empty());
    assert!(e.equipment.is_empty());
}

#[test]
fn get_skill_goes_by_position() {
    let mut e = hero();
    e.skills.push(skill(10, "Slash", 3));
    e.skills.push(skill(11, "Stab", 6));
    assert_eq!(e.get_skill(0).map(|s| s.id), Some(10));
    assert_eq!(e.get_skill(1).map(|s| s.id), Some(11));
    assert_eq!(e.get_skill(2), None);
    assert_eq!(hero().get_skill(0), None);
}

#[test]
fn get_item_and_get_equipment_go_by_id() {
    let mut e = hero();
    e.add_item_to_inventory(sword());
    e.add_item_to_inventory(shield());
    e.equip_item(shield());
    assert_eq!(e.get_item(1), Some(&sword()));
    assert_eq!(e.get_item(3), None);
    assert_eq!(e.get_item(99), None);
    assert_eq!(e.get_equipment(3), Some(&shield()));
    assert_eq!(e.get_equipment(1), None);
}

#[test]
fn damage_with_roll_adds_attack_and_roll() {
    let e = hero();
    assert_eq!(e.damage_with_roll(0), 10);
    assert_eq!(e.damage_with_roll(5), 15);
    assert_eq!(e.damage_with_roll(u32::MAX - 10), u32::MAX);
}

#[test]
fn damage_with_roll_wraps_outside_the_range() {
    let mut e = hero();
    assert_eq!(e.damage_with_roll(u32::MAX - 9), 0);
    e.stats.attack = -1;
    assert_eq!(e.damage_with_roll(0), u32::MAX);
    assert_eq!(e.damage_with_roll(1), 0);
    assert_eq!(e.damage_with_roll(7), 6);
}

#[test]
fn damage_roll_stays_within_attack_and_power() {
    let e = hero();
    let s = skill(10, "Slash", 5);
    let mut seen = [false; 5];
    for _ in 0..400 {
        let damage = e.damage_roll(&s);
        assert!((10..15).contains(&damage), "damage {}", damage);
        seen[(damage - 10) as usize] = true;
    }
    assert!(seen.iter().any(|&b| b));
}

#[test]
fn damage_roll_without_power_is_the_attack() {
    let e = hero();
    let s = skill(10, "Poke", 0);
    for _ in 0..50 {
        assert_eq!(e.damage_roll(&s), 10);
    }
    let one = skill(11, "Tap", 1);
    for _ in 0..50 {
        assert_eq!(e.damage_roll(&one), 10);
    }
}

#[test]
fn damage_roll_leaves_entity_and_skill_alone() {
    let e = hero();
    let s = skill(10, "Slash", 5);
    let before = e.clone();
    e.damage_roll(&s);
    assert_eq!(e, before);
    assert_eq!(s, skill(10, "Slash", 5));
}

#[test]
fn draw_roll_stays_below_the_power() {
    for _ in 0..200 {
        assert!(draw_roll(3) < 3);
        assert_eq!(draw_roll(1), 0);
        assert_eq!(draw_roll(0), 0);
    }
    assert!(draw_roll(u32::MAX) < u32::MAX);
}

#[test]
fn entity_string_shows_name_and_stats() {
    assert_eq!(
        hero().get_entity_string(),
        "Name: Hero\n\tStats:\n\t\tHP: 30\n\t\tAttack: 10\n\t\tDefense: 4\n\t\tAgility: 2"
    );
}

#[test]
fn inventory_and_equipment_strings_list_id_and_name() {
    let mut e = hero();
    assert_eq!(e.get_inventory_string(), "");
    assert_eq!(e.get_equipment_string(), "");
    e.add_item_to_inventory(sword());
    e.add_item_to_inventory(shield());
    e.add_item_to_inventory(axe());
    e.equip_item(shield());
    assert_eq!(e.get_inventory_string(), "ID: 1, Name: SwordID: 2, Name: Axe");
    assert_eq!(e.get_equipment_string(), "ID: 3, Name: Shield");
}

#[test]
fn skills_string_numbers_from_one() {
    let mut e = hero();
    assert_eq!(e.get_skills_string(), "");
    e.skills.push(skill(10, "Slash", 3));
    e.skills.push(skill(11, "Stab", 6));
    assert_eq!(e.get_skills_string(), "ID: 1, Name: SlashID: 2, Name: Stab");
}

#[test]
fn clones_are_equal() {
    let mut e = hero();
    e.add_item_to_inventory(sword());
    e.add_item_to_inventory(shield());
    e.equip_item(shield());
    e.skills.push(skill(10, "Slash", 3));
    assert_eq!(e.clone(), e);
    assert_eq!(clone_items(&e.inventory), e.inventory);
    assert_eq!(clone_skills(&e.skills), e.skills);
}
