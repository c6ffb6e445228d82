//! Read-only reference data: the classes players can have and the skills of
//! each class, and which of those skills may be given to a player.

use crate::models::{ClassId, Skill, SkillId};
use vstd::prelude::*;
use vstd::string::StringExecFns;

verus! {

#[derive(Clone, Debug, PartialEq)]
pub struct Class {
    pub id: ClassId,
    pub name: String,
    pub is_generic: bool,
    pub is_support: bool,
}

impl Class {
    /// An independent copy of this class.
    pub fn duplicate(&self) -> (r: Class)
        ensures
            r == *self,
    {
        Class {
            id: self.id,
            name: self.name.clone(),
            is_generic: self.is_generic,
            is_support: self.is_support,
        }
    }
}

#[derive(Clone, Copy, Debug, PartialEq, Eq, Structural)]
pub enum SkillGrade {
    Unknown,
    Normal,
    Super,
    Awakening,
}

#[derive(Clone, Debug, PartialEq)]
pub struct RawSkill {
    pub id: SkillId,
    pub name: Option<String>,
    pub desc: Option<String>,
    pub class_id: Option<ClassId>,
    pub icon: Option<String>,
    pub grade: SkillGrade,
}

/// Names of entries that stand for basic actions rather than skills.
pub open spec fn is_placeholder_name(name: Seq<char>) -> bool {
    ||| name == "Weapon Attack"@
    ||| name == "Hand Attack"@
    ||| name == "Stand Up"@
}

/// A catalog entry that can be given to a player: a normal-grade skill with a
/// class, an icon and a name that is not a placeholder.
pub open spec fn is_usable(s: RawSkill) -> bool {
    &&& s.grade == SkillGrade::Normal
    &&& s.class_id is Some
    &&& s.icon is Some
    &&& s.name is Some
    &&& !is_placeholder_name(s.name->0@)
}

/// The player-facing skill of a usable catalog entry.
pub open spec fn skill_of(s: RawSkill) -> Skill {
    Skill { id: s.id, name: s.name->0, icon: s.icon->0 }
}

/// Whether a name is one of the placeholder names.
pub fn placeholder_name(name: &String) -> (r: bool)
    ensures
        r == is_placeholder_name(name@),
{
    let weapon = String::from_str("Weapon Attack");
    let hand = String::from_str("Hand Attack");
    let stand = String::from_str("Stand Up");
    *name == weapon || *name == hand || *name == stand
}

impl RawSkill {
    /// Whether this entry can be given to a player.
    pub fn usable(&self) -> (r: bool)
        ensures
            r == is_usable(*self),
    {
        if self.grade != SkillGrade::Normal || self.class_id.is_none() || self.icon.is_none() {
            return false;
        }
        match &self.name {
            Some(name) => !placeholder_name(name),
            None => false,
        }
    }

    /// The player-facing skill of a usable entry.
    pub fn to_skill(&self) -> (r: Skill)
        requires
            is_usable(*self),
        ensures
            r == skill_of(*self),
    {
        let name = match &self.name {
            Some(n) => n.clone(),
            None => String::new(),
        };
        let icon = match &self.icon {
            Some(i) => i.clone(),
            None => String::new(),
        };
        Skill { id: self.id, name, icon }
    }

    /// An independent copy of this entry.
    pub fn duplicate(&self) -> (r: RawSkill)
        ensures
            r == *self,
    {
        RawSkill {
            id: self.id,
            name: match &self.name {
                Some(n) => Some(n.clone()),
                None => None,
            },
            desc: match &self.desc {
                Some(d) => Some(d.clone()),
                None => None,
            },
            class_id: self.class_id,
            icon: match &self.icon {
                Some(i) => Some(i.clone()),
                None => None,
            },
            grade: self.grade,
        }
    }
}

} // verus!
