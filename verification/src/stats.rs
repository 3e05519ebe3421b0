//! The stat block shared by every combatant and every item modifier.

use crate::text::{decimal_int, i64_to_decimal};
use vstd::prelude::*;
use vstd::string::*;

verus! {

/// What two's-complement 32-bit arithmetic keeps of the sum or difference
/// `x` of two 32-bit values: `x` itself where it fits, else `x` moved by
/// `2^32` back into `[-2^31, 2^31)`.
pub open spec fn wrap_i32(x: int) -> int {
    if x > i32::MAX {
        x - 0x1_0000_0000
    } else if x < i32::MIN {
        x + 0x1_0000_0000
    } else {
        x
    }
}

/// The four lines that show a stat block, each indented by two tabs.
pub open spec fn stats_text(s: Stats) -> Seq<char> {
    "\t\tHP: "@ + decimal_int(s.hp as int) + "\n\t\tAttack: "@ + decimal_int(s.attack as int)
        + "\n\t\tDefense: "@ + decimal_int(s.defense as int) + "\n\t\tAgility: "@
        + decimal_int(s.agility as int)
}

/// Four additive attributes. Values may be negative: a modifier can lower
/// an attribute, and `hp` at or below zero means defeat.
#[derive(Clone, Copy, Debug, PartialEq, Eq, Structural)]
pub struct Stats {
    pub hp: i32,
    pub attack: i32,
    pub defense: i32,
    pub agility: i32,
}

impl Stats {
    /// The stat block with every attribute at zero.
    pub open spec fn zero() -> Stats {
        Stats { hp: 0, attack: 0, defense: 0, agility: 0 }
    }

    /// Element-wise sum, each attribute kept in 32 bits.
    pub open spec fn plus(self, m: Stats) -> Stats {
        Stats {
            hp: wrap_i32(self.hp + m.hp) as i32,
            attack: wrap_i32(self.attack + m.attack) as i32,
            defense: wrap_i32(self.defense + m.defense) as i32,
            agility: wrap_i32(self.agility + m.agility) as i32,
        }
    }

    /// Element-wise difference, each attribute kept in 32 bits.
    pub open spec fn minus(self, m: Stats) -> Stats {
        Stats {
            hp: wrap_i32(self.hp - m.hp) as i32,
            attack: wrap_i32(self.attack - m.attack) as i32,
            defense: wrap_i32(self.defense - m.defense) as i32,
            agility: wrap_i32(self.agility - m.agility) as i32,
        }
    }

    /// Whether every attribute of the exact sum still fits in 32 bits.
    pub open spec fn sum_fits(self, m: Stats) -> bool {
        &&& i32::MIN <= self.hp + m.hp <= i32::MAX
        &&& i32::MIN <= self.attack + m.attack <= i32::MAX
        &&& i32::MIN <= self.defense + m.defense <= i32::MAX
        &&& i32::MIN <= self.agility + m.agility <= i32::MAX
    }

    pub fn new() -> (s: Stats)
        ensures
            s == Stats::zero(),
    {
        Stats { hp: 0, attack: 0, defense: 0, agility: 0 }
    }

    /// Adds `modifier` onto `self`, attribute by attribute, without clamping.
    /// Where an exact sum leaves the 32-bit range it wraps around.
    pub fn apply_modifier(&mut self, modifier: Stats)
        ensures
            *final(self) == old(self).plus(modifier),
            old(self).sum_fits(modifier) ==> {
                &&& final(self).hp == old(self).hp + modifier.hp
                &&& final(self).attack == old(self).attack + modifier.attack
                &&& final(self).defense == old(self).defense + modifier.defense
                &&& final(self).agility == old(self).agility + modifier.agility
            },
    {
        self.hp = self.hp.wrapping_add(modifier.hp);
        self.attack = self.attack.wrapping_add(modifier.attack);
        self.defense = self.defense.wrapping_add(modifier.defense);
        self.agility = self.agility.wrapping_add(modifier.agility);
    }

    pub fn get_stats_string(&self) -> (s: String)
        ensures
            s@ == stats_text(*self),
    {
        let mut s = String::from_str("\t\tHP: ");
        s.append(i64_to_decimal(self.hp as i64).as_str());
        s.append("\n\t\tAttack: ");
        s.append(i64_to_decimal(self.attack as i64).as_str());
        s.append("\n\t\tDefense: ");
        s.append(i64_to_decimal(self.defense as i64).as_str());
        s.append("\n\t\tAgility: ");
        s.append(i64_to_decimal(self.agility as i64).as_str());
        s
    }

    /// Takes `modifier` back off `self`: the inverse of `apply_modifier`.
    pub fn remove_modifier(&mut self, modifier: Stats)
        ensures
            *final(self) == old(self).minus(modifier),
    {
        self.hp = self.hp.wrapping_sub(modifier.hp);
        self.attack = self.attack.wrapping_sub(modifier.attack);
        self.defense = self.defense.wrapping_sub(modifier.defense);
        self.agility = self.agility.wrapping_sub(modifier.agility);
    }
}

/// Additivity: applying `m` and then `n` gives what applying their
/// element-wise sum gives in one step.
pub proof fn lemma_apply_additive(a: Stats, m: Stats, n: Stats)
    ensures
        a.plus(m).plus(n) == a.plus(m.plus(n)),
{
}

/// Taking a modifier off undoes putting it on, and the other way round.
pub proof fn lemma_plus_minus_inverse(a: Stats, m: Stats)
    ensures
        a.plus(m).minus(m) == a,
        a.minus(m).plus(m) == a,
{
}

/// The order in which two modifiers are applied does not matter.
pub proof fn lemma_plus_commutes(a: Stats, m: Stats, n: Stats)
    ensures
        a.plus(m).plus(n) == a.plus(n).plus(m),
        a.plus(m).minus(n) == a.minus(n).plus(m),
{
}

} // verus!
