//! Attack resolution: how much damage a blow deals and what it leaves of
//! the defender.

use crate::entity::{damage_value, roll_allowed, Entity, EntityView};
use crate::skills::Skill;
use crate::stats::{wrap_i32, Stats};
use crate::text::{decimal_nat, u64_to_decimal};
use vstd::prelude::*;
use vstd::string::*;

verus! {

/// What a narration event says, with its names as sequences of characters.
pub struct AttackEventView {
    pub attacker_name: Seq<char>,
    pub defender_name: Seq<char>,
    pub damage: u32,
}

/// The record of one blow, for whoever narrates the fight.
#[derive(Debug, PartialEq)]
pub struct AttackEvent {
    pub attacker_name: String,
    pub defender_name: String,
    pub damage: u32,
}

impl View for AttackEvent {
    type V = AttackEventView;

    open spec fn view(&self) -> AttackEventView {
        AttackEventView {
            attacker_name: self.attacker_name@,
            defender_name: self.defender_name@,
            damage: self.damage,
        }
    }
}

/// The sentence that narrates a blow.
pub open spec fn event_text(e: AttackEventView) -> Seq<char> {
    e.attacker_name + " attacks "@ + e.defender_name + " for "@ + decimal_nat(e.damage as nat)
        + " damage!"@
}

impl AttackEvent {
    pub fn message(&self) -> (s: String)
        ensures
            s@ == event_text(self@),
    {
        let mut s = self.attacker_name.clone();
        s.append(" attacks ");
        s.append(self.defender_name.as_str());
        s.append(" for ");
        s.append(u64_to_decimal(self.damage as u64).as_str());
        s.append(" damage!");
        s
    }
}

/// The damage of a round without a skill: by how much the attacker's
/// `attack` exceeds the defender's `defense`, and zero where it does not.
pub open spec fn round_damage(attack: i32, defense: i32) -> u32 {
    if attack > defense {
        (attack - defense) as u32
    } else {
        0
    }
}

/// The defender's `hp` after a blow. Damage is not capped, so the result may
/// be negative; below the 32-bit range it wraps around.
pub open spec fn hp_after(hp: i32, damage: u32) -> i32 {
    wrap_i32(hp - damage) as i32
}

/// The defender after a blow: `hp` lowered by the damage, all else as before.
pub open spec fn struck(defender: EntityView, damage: u32) -> EntityView {
    EntityView {
        stats: Stats { hp: hp_after(defender.stats.hp, damage), ..defender.stats },
        ..defender
    }
}

/// Takes `damage` off the defender's `hp`.
pub fn apply_damage(defender: &mut Entity, damage: u32)
    ensures
        final(defender)@ == struck(old(defender)@, damage),
        old(defender)@.stats.hp - damage >= i32::MIN ==> final(defender)@.stats.hp == old(
            defender,
        )@.stats.hp - damage,
{
    let exact: i64 = defender.stats.hp as i64 - damage as i64;
    let hp: i32 = if exact < i32::MIN as i64 {
        (exact + 0x1_0000_0000) as i32
    } else {
        exact as i32
    };
    defender.stats.hp = hp;
}

fn record(attacker: &Entity, defender: &Entity, damage: u32) -> (event: AttackEvent)
    ensures
        event@ == (AttackEventView {
            attacker_name: attacker@.name,
            defender_name: defender@.name,
            damage,
        }),
{
    AttackEvent {
        attacker_name: attacker.name.clone(),
        defender_name: defender.name.clone(),
        damage,
    }
}

/// One blow with the roll already drawn: the damage is the attacker's
/// `attack` plus `roll`, and comes off the defender's `hp`.
pub fn attack_with_roll(attacker: &Entity, defender: &mut Entity, roll: u32) -> (event:
    AttackEvent)
    ensures
        event@ == (AttackEventView {
            attacker_name: attacker@.name,
            defender_name: old(defender)@.name,
            damage: damage_value(attacker@.stats.attack as int, roll as int) as u32,
        }),
        final(defender)@ == struck(old(defender)@, event@.damage),
{
    let damage = attacker.damage_with_roll(roll);
    apply_damage(defender, damage);
    record(attacker, defender, damage)
}

/// One blow with a skill: rolls for damage and takes it off the defender's
/// `hp`. The attacker and the skill are left as they are.
pub fn attack_entity(attacker: &Entity, defender: &mut Entity, skill: &Skill) -> (event:
    AttackEvent)
    ensures
        exists|roll: u32|
            roll_allowed(skill@.power, roll) && event@.damage == #[trigger] damage_value(
                attacker@.stats.attack as int,
                roll as int,
            ),
        event@.attacker_name == attacker@.name,
        event@.defender_name == old(defender)@.name,
        final(defender)@ == struck(old(defender)@, event@.damage),
{
    let roll = crate::entity::draw_roll(skill.power);
    attack_with_roll(attacker, defender, roll)
}

/// One blow without a skill: the damage is `max(0, attack - defense)` and
/// comes off the defender's `hp`.
pub fn combat_round(attacker: &Entity, defender: &mut Entity) -> (event: AttackEvent)
    ensures
        event@ == (AttackEventView {
            attacker_name: attacker@.name,
            defender_name: old(defender)@.name,
            damage: round_damage(attacker@.stats.attack, old(defender)@.stats.defense),
        }),
        event@.damage >= 0,
        final(defender)@ == struck(old(defender)@, event@.damage),
{
    let diff: i64 = attacker.stats.attack as i64 - defender.stats.defense as i64;
    let damage: u32 = if diff > 0 {
        diff as u32
    } else {
        0
    };
    apply_damage(defender, damage);
    record(attacker, defender, damage)
}

} // verus!
