//! Catalog skills: power and cost with targeting metadata.

use crate::text::{decimal_nat, u64_to_decimal};
use crate::views::opt_view;
use vstd::prelude::*;
use vstd::string::*;

verus! {

#[derive(Clone, Copy, Debug, PartialEq, Eq, Structural)]
pub enum SkillType {
    Passive,
    Active,
}

#[derive(Clone, Copy, Debug, PartialEq, Eq, Structural)]
pub enum SkillTarget {
    SelfTarget,
    SingleTarget,
    MultiTarget,
}

#[derive(Clone, Copy, Debug, PartialEq, Eq, Structural)]
pub enum SkillClass {
    Physical,
    Magical,
}

impl SkillType {
    pub open spec fn label_text(self) -> Seq<char> {
        match self {
            SkillType::Passive => "Passive"@,
            SkillType::Active => "Active"@,
        }
    }

    pub fn label(&self) -> (s: &'static str)
        ensures
            s@ == self.label_text(),
    {
        match self {
            SkillType::Passive => "Passive",
            SkillType::Active => "Active",
        }
    }
}

impl SkillTarget {
    pub open spec fn label_text(self) -> Seq<char> {
        match self {
            SkillTarget::SelfTarget => "SelfTarget"@,
            SkillTarget::SingleTarget => "SingleTarget"@,
            SkillTarget::MultiTarget => "MultiTarget"@,
        }
    }

    pub fn label(&self) -> (s: &'static str)
        ensures
            s@ == self.label_text(),
    {
        match self {
            SkillTarget::SelfTarget => "SelfTarget",
            SkillTarget::SingleTarget => "SingleTarget",
            SkillTarget::MultiTarget => "MultiTarget",
        }
    }
}

impl SkillClass {
    pub open spec fn label_text(self) -> Seq<char> {
        match self {
            SkillClass::Physical => "Physical"@,
            SkillClass::Magical => "Magical"@,
        }
    }

    pub fn label(&self) -> (s: &'static str)
        ensures
            s@ == self.label_text(),
    {
        match self {
            SkillClass::Physical => "Physical",
            SkillClass::Magical => "Magical",
        }
    }
}

/// What a skill is, with its texts as sequences of characters.
pub struct SkillView {
    pub id: u32,
    pub name: Seq<char>,
    pub description: Seq<char>,
    pub skill_type: SkillType,
    pub skill_target: SkillTarget,
    pub skill_class: SkillClass,
    pub power: u32,
    pub cost: u32,
}

/// A skill definition. Entities hold copies of catalog skills.
#[derive(Debug, PartialEq)]
pub struct Skill {
    pub id: u32,
    pub name: String,
    pub description: String,
    pub skill_type: SkillType,
    pub skill_target: SkillTarget,
    pub skill_class: SkillClass,
    /// Damage rolls with this skill are drawn below `power`.
    pub power: u32,
    pub cost: u32,
}

impl View for Skill {
    type V = SkillView;

    open spec fn view(&self) -> SkillView {
        SkillView {
            id: self.id,
            name: self.name@,
            description: self.description@,
            skill_type: self.skill_type,
            skill_target: self.skill_target,
            skill_class: self.skill_class,
            power: self.power,
            cost: self.cost,
        }
    }
}

impl Clone for Skill {
    fn clone(&self) -> (res: Self)
        ensures
            res@ == self@,
    {
        Skill {
            id: self.id,
            name: self.name.clone(),
            description: self.description.clone(),
            skill_type: self.skill_type,
            skill_target: self.skill_target,
            skill_class: self.skill_class,
            power: self.power,
            cost: self.cost,
        }
    }
}

/// The views of a run of skills, in order.
pub open spec fn skill_views(skills: Seq<Skill>) -> Seq<SkillView> {
    skills.map_values(|s: Skill| s@)
}

/// The first skill of `skills` whose id is `id`, if there is one.
pub open spec fn first_skill_with_id(skills: Seq<SkillView>, id: int) -> Option<SkillView>
    decreases skills.len(),
{
    if skills.len() == 0 {
        None
    } else if skills[0].id == id {
        Some(skills[0])
    } else {
        first_skill_with_id(skills.drop_first(), id)
    }
}

/// The first skill of `skills` with the id `id`.
pub fn find_skill_by_id(skills: &Vec<Skill>, id: u32) -> (found: Option<&Skill>)
    ensures
        opt_view(found) == first_skill_with_id(skill_views(skills@), id as int),
{
    let ghost all = skill_views(skills@);
    let mut i: usize = 0;
    assert(all.skip(0) =~= all);
    while i < skills.len()
        invariant
            i <= skills.len(),
            all == skill_views(skills@),
            first_skill_with_id(all, id as int) == first_skill_with_id(
                all.skip(i as int),
                id as int,
            ),
        decreases skills.len() - i,
    {
        assert(all.skip(i as int)[0] == skills[i as int]@);
        assert(all.skip(i as int).drop_first() =~= all.skip(i + 1));
        if skills[i].id == id {
            return Some(&skills[i]);
        }
        i = i + 1;
    }
    None
}

/// The multi-line description of a skill, ending in a line break.
pub open spec fn skill_text(v: SkillView) -> Seq<char> {
    "ID, "@ + decimal_nat(v.id as nat) + "\nSkill: "@ + v.name + "\nDescription: "@
        + v.description + "\nType: "@ + v.skill_type.label_text() + "\nTarget: "@
        + v.skill_target.label_text() + "\nClass: "@ + v.skill_class.label_text() + "\nPower: "@
        + decimal_nat(v.power as nat) + "\nCost: "@ + decimal_nat(v.cost as nat) + "\n"@
}

impl Skill {
    pub fn _new(
        id: u32,
        name: &str,
        description: &str,
        skill_type: SkillType,
        skill_target: SkillTarget,
        skill_class: SkillClass,
        power: u32,
        cost: u32,
    ) -> (skill: Self)
        ensures
            skill@ == (SkillView {
                id,
                name: name@,
                description: description@,
                skill_type,
                skill_target,
                skill_class,
                power,
                cost,
            }),
    {
        Skill {
            id,
            name: String::from_str(name),
            description: String::from_str(description),
            skill_type,
            skill_target,
            skill_class,
            power,
            cost,
        }
    }

    pub fn _get_skill_string(&self) -> (s: String)
        ensures
            s@ == skill_text(self@),
    {
        let mut s = String::from_str("ID, ");
        s.append(u64_to_decimal(self.id as u64).as_str());
        s.append("\nSkill: ");
        s.append(self.name.as_str());
        s.append("\nDescription: ");
        s.append(self.description.as_str());
        s.append("\nType: ");
        s.append(self.skill_type.label());
        s.append("\nTarget: ");
        s.append(self.skill_target.label());
        s.append("\nClass: ");
        s.append(self.skill_class.label());
        s.append("\nPower: ");
        s.append(u64_to_decimal(self.power as u64).as_str());
        s.append("\nCost: ");
        s.append(u64_to_decimal(self.cost as u64).as_str());
        s.append("\n");
        s
    }
}

} // verus!
