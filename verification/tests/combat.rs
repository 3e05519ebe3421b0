use text_combat::combat::{apply_damage, attack_entity, attack_with_roll, combat_round, AttackEvent};
use text_combat::entity::Entity;
use text_combat::skills::{Skill, SkillClass, SkillTarget, SkillType};
use text_combat::state::GameState;
use text_combat::stats::Stats;

fn fighter(id: u32, name: &str, hp: i32, attack: i32, defense: i32) -> Entity {
    let mut e = Entity::new(id, name);
    e.stats = Stats { hp, attack, defense, agility: 0 };
    e
}

fn skill(power: u32) -> Skill {
    Skill::_new(
        1,
        "Slash",
        "",
        SkillType::Active,
        SkillTarget::SingleTarget,
        SkillClass::Physical,
        power,
        0,
    )
}

#[test]
fn combat_round_deals_attack_minus_defense() {
    let player = fighter(1, "Hero", 30, 10, 0);
    let mut enemy = fighter(1000, "Goblin", 6, 3, 4);
    let event = combat_round(&player, &mut enemy);
    assert_eq!(event.damage, 6);
    assert_eq!(enemy.stats.hp, 0);
    assert_eq!(enemy.stats, Stats { hp: 0, attack: 3, defense: 4, agility: 0 });
}

#[test]
fn a_defeated_enemy_is_reported_and_removed() {
    let mut state = GameState::new();
    state.create_player(fighter(1, "Hero", 30, 10, 0));
    state.create_enemy(fighter(1000, "Goblin", 6, 3, 4));
    assert!(state.is_enemy_alive());
    let player = state.players[0].clone();
    let event = combat_round(&player, state._get_enemy());
    assert_eq!(event.damage, 6);
    assert_eq!(state.enemies[0].stats.hp, 0);
    assert!(!state.is_enemy_alive());
    let removed = state.remove_enemy(state.enemy_index);
    assert_eq!(removed.map(|e| e.name), Some(String::from("Goblin")));
    assert!(state.enemies.is_empty());
}

#[test]
fn combat_round_never_deals_negative_damage() {
    let attacker = fighter(1, "Weak", 30, 3, 0);
    let mut defender = fighter(2, "Tough", 20, 0, 10);
    let event = combat_round(&attacker, &mut defender);
    assert_eq!(event.damage, 0);
    assert_eq!(defender.stats.hp, 20);
    let mut equal = fighter(3, "Even", 20, 0, 3);
    assert_eq!(combat_round(&attacker, &mut equal).damage, 0);
    assert_eq!(equal.stats.hp, 20);
}

#[test]
fn combat_round_takes_the_widest_difference() {
    let attacker = fighter(1, "Max", 1, i32::MAX, 0);
    let mut defender = fighter(2, "Min", 0, 0, i32::MIN);
    let event = combat_round(&attacker, &mut defender);
    assert_eq!(event.damage, u32::MAX);
    assert_eq!(defender.stats.hp, 1);
}

#[test]
fn combat_round_names_both_sides() {
    let attacker = fighter(1, "Hero", 30, 10, 0);
    let mut defender = fighter(1000, "Goblin", 6, 3, 4);
    let event = combat_round(&attacker, &mut defender);
    assert_eq!(
        event,
        AttackEvent {
            attacker_name: String::from("Hero"),
            defender_name: String::from("Goblin"),
            damage: 6,
        }
    );
    assert_eq!(event.message(), "Hero attacks Goblin for 6 damage!");
    assert_eq!(attacker, fighter(1, "Hero", 30, 10, 0));
}

#[test]
fn hp_may_go_below_zero() {
    let mut defender = fighter(2, "Frail", 5, 0, 0);
    apply_damage(&mut defender, 12);
    assert_eq!(defender.stats.hp, -7);
    apply_damage(&mut defender, 0);
    assert_eq!(defender.stats.hp, -7);
}

#[test]
fn hp_wraps_below_the_range() {
    let mut defender = fighter(2, "Void", i32::MIN, 0, 0);
    apply_damage(&mut defender, 1);
    assert_eq!(defender.stats.hp, i32::MAX);
    let mut other = fighter(3, "Zero", 0, 0, 0);
    apply_damage(&mut other, u32::MAX);
    assert_eq!(other.stats.hp, 1);
}

#[test]
fn attack_with_roll_deals_attack_plus_roll() {
    let attacker = fighter(1, "Hero", 30, 10, 0);
    let mut defender = fighter(1000, "Goblin", 20, 3, 50);
    let event = attack_with_roll(&attacker, &mut defender, 4);
    assert_eq!(event.damage, 14);
    assert_eq!(defender.stats.hp, 6);
    assert_eq!(event.attacker_name, "Hero");
    assert_eq!(event.defender_name, "Goblin");
}

#[test]
fn a_negative_attack_heals_through_the_wrap() {
    let attacker = fighter(1, "Cursed", 30, -5, 0);
    let mut defender = fighter(1000, "Goblin", 20, 3, 0);
    let event = attack_with_roll(&attacker, &mut defender, 2);
    assert_eq!(event.damage, u32::MAX - 2);
    assert_eq!(defender.stats.hp, 23);
}

#[test]
fn attack_entity_rolls_within_the_power() {
    let attacker = fighter(1, "Hero", 30, 10, 0);
    let s = skill(4);
    for _ in 0..200 {
        let mut defender = fighter(1000, "Goblin", 100, 3, 0);
        let event = attack_entity(&attacker, &mut defender, &s);
        assert!((10..14).contains(&event.damage));
        assert_eq!(defender.stats.hp, 100 - event.damage as i32);
    }
}

#[test]
fn attack_entity_without_power_deals_the_attack() {
    let attacker = fighter(1, "Hero", 30, 10, 0);
    let mut defender = fighter(1000, "Goblin", 100, 3, 0);
    let event = attack_entity(&attacker, &mut defender, &skill(0));
    assert_eq!(event.damage, 10);
    assert_eq!(defender.stats.hp, 90);
}
