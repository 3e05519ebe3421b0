use text_combat::item::{find_by_id, Item, ItemType};
use text_combat::skills::{find_skill_by_id, Skill, SkillClass, SkillTarget, SkillType};
use text_combat::stats::Stats;

fn sword() -> Item {
    Item::_new(
        1,
        "Sword",
        "A sharp blade",
        ItemType::Weapon,
        Stats { hp: 0, attack: 5, defense: 0, agility: -1 },
    )
}

fn fireball() -> Skill {
    Skill::_new(
        7,
        "Fireball",
        "Burns",
        SkillType::Active,
        SkillTarget::SingleTarget,
        SkillClass::Magical,
        12,
        3,
    )
}

#[test]
fn item_new_keeps_every_field() {
    let item = sword();
    assert_eq!(item.id, 1);
    assert_eq!(item.name, "Sword");
    assert_eq!(item.description, "A sharp blade");
    assert_eq!(item.item_type, ItemType::Weapon);
    assert_eq!(item.stat_modifier, Stats { hp: 0, attack: 5, defense: 0, agility: -1 });
}

#[test]
fn item_getters_read_the_fields() {
    let item = sword();
    assert_eq!(item._id(), 1);
    assert_eq!(item._name(), "Sword");
    assert_eq!(item._description(), "A sharp blade");
    assert_eq!(*item._item_type(), ItemType::Weapon);
    assert_eq!(*item._stat_modifier(), Stats { hp: 0, attack: 5, defense: 0, agility: -1 });
}

#[test]
fn item_clone_is_equal() {
    let item = sword();
    assert_eq!(item.clone(), item);
}

#[test]
fn only_consumables_are_consumable() {
    let mut item = sword();
    assert!(!item.is_consumable());
    item.item_type = ItemType::Armour;
    assert!(!item.is_consumable());
    item.item_type = ItemType::Consumable;
    assert!(item.is_consumable());
}

#[test]
fn item_type_labels() {
    assert_eq!(ItemType::Weapon.label(), "Weapon");
    assert_eq!(ItemType::Armour.label(), "Armour");
    assert_eq!(ItemType::Consumable.label(), "Consumable");
    assert_eq!(ItemType::Armour.label(), format!("{:?}", ItemType::Armour));
}

#[test]
fn item_string_describes_the_item() {
    assert_eq!(
        sword()._get_item_string(),
        "Name: Sword\nDescription: A sharp blade\nType: Weapon\nStats:\n\t\tHP: 0\n\t\tAttack: 5\n\t\tDefense: 0\n\t\tAgility: -1"
    );
}

#[test]
fn find_by_id_gives_the_first_match() {
    let mut second = sword();
    second.name = String::from("Other sword");
    let mut shield = sword();
    shield.id = 2;
    let items = vec![shield, sword(), second];
    assert_eq!(find_by_id(&items, 1).map(|i| i.name.as_str()), Some("Sword"));
    assert_eq!(find_by_id(&items, 2).map(|i| i.id), Some(2));
    assert_eq!(find_by_id(&items, 3), None);
    assert_eq!(find_by_id(&Vec::new(), 1), None);
}

#[test]
fn find_by_id_does_not_truncate_large_ids() {
    let items = vec![sword()];
    if usize::BITS > 32 {
        assert_eq!(find_by_id(&items, (1usize << 32) + 1), None);
    }
    assert_eq!(find_by_id(&items, usize::MAX), None);
}

#[test]
fn skill_new_keeps_every_field() {
    let skill = fireball();
    assert_eq!(skill.id, 7);
    assert_eq!(skill.name, "Fireball");
    assert_eq!(skill.description, "Burns");
    assert_eq!(skill.skill_type, SkillType::Active);
    assert_eq!(skill.skill_target, SkillTarget::SingleTarget);
    assert_eq!(skill.skill_class, SkillClass::Magical);
    assert_eq!(skill.power, 12);
    assert_eq!(skill.cost, 3);
}

#[test]
fn skill_clone_is_equal() {
    let skill = fireball();
    assert_eq!(skill.clone(), skill);
}

#[test]
fn skill_labels() {
    assert_eq!(SkillType::Passive.label(), "Passive");
    assert_eq!(SkillType::Active.label(), "Active");
    assert_eq!(SkillTarget::SelfTarget.label(), "SelfTarget");
    assert_eq!(SkillTarget::SingleTarget.label(), "SingleTarget");
    assert_eq!(SkillTarget::MultiTarget.label(), "MultiTarget");
    assert_eq!(SkillClass::Physical.label(), "Physical");
    assert_eq!(SkillClass::Magical.label(), "Magical");
}

#[test]
fn skill_string_describes_the_skill() {
    assert_eq!(
        fireball()._get_skill_string(),
        "ID, 7\nSkill: Fireball\nDescription: Burns\nType: Active\nTarget: SingleTarget\nClass: Magical\nPower: 12\nCost: 3\n"
    );
}

#[test]
fn find_skill_by_id_gives_the_first_match() {
    let mut second = fireball();
    second.name = String::from("Bigger fireball");
    let mut slash = fireball();
    slash.id = 1;
    let skills = vec![slash, fireball(), second];
    assert_eq!(find_skill_by_id(&skills, 7).map(|s| s.name.as_str()), Some("Fireball"));
    assert_eq!(find_skill_by_id(&skills, 1).map(|s| s.id), Some(1));
    assert_eq!(find_skill_by_id(&skills, 2), None);
}
