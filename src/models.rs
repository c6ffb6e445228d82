//! The data model of an encounter: players, boss, auxiliary abilities, their
//! reported counters, and the snapshot handed to consumers.
//!
//! Instants are milliseconds since the Unix epoch; durations are
//! milliseconds. Ratios are fixed point, in millionths of the whole
//! (`RATIO_SCALE` is 1.0).

use crate::format::{
    abbreviate_number, bracket_of, ratio_of, NO_SUFFIX, RATIO_SCALE,
};
use vstd::prelude::*;

verus! {

pub type EntityId = u64;

pub type ClassId = u32;

pub type SkillId = u32;

pub type NpcId = u32;

pub type Timestamp = i64;

#[derive(Clone, Copy, Debug, PartialEq, Eq, Structural)]
pub enum HitFlag {
    Normal,
    Critical,
    Miss,
    Invincible,
    DamageOverTime,
    Immune,
    ImmuneSilenced,
    FontSilenced,
    DamageOverTimeCritical,
    Dodge,
    Reflect,
    DamageShare,
    DodgeHit,
    Max,
}

#[derive(Clone, Copy, Debug, PartialEq, Eq, Structural)]
pub enum HitOption {
    NonPositional,
    BackAttack,
    FrontalAttack,
    FlankAttack,
    Max,
}

/// A payload that is delivered under a stable event name.
pub trait AppEvent {
    fn event_name(&self) -> &'static str;
}

/// `a / b` rounded down, zero when `b` is zero.
pub open spec fn quotient_or_zero(a: int, b: int) -> int {
    if b == 0 {
        0
    } else {
        a / b
    }
}

#[derive(Clone, Debug, PartialEq)]
pub struct Skill {
    pub id: SkillId,
    pub name: String,
    pub icon: String,
}

impl Skill {
    /// An independent copy of this skill.
    pub fn duplicate(&self) -> (r: Skill)
        ensures
            r == *self,
    {
        Skill { id: self.id, name: self.name.clone(), icon: self.icon.clone() }
    }
}

/// Damage per second: `raw` per second, shown as `raw / scale` followed by
/// `unit`.
#[derive(Clone, Copy, Debug, PartialEq, Eq, Structural)]
pub struct Dps {
    pub raw: i64,
    pub scale: i64,
    pub unit: char,
}

/// The value of `Dps` when nothing can be measured.
pub open spec fn zero_dps() -> Dps {
    Dps { raw: 0, scale: 1, unit: NO_SUFFIX }
}

/// `total_damage / duration_seconds` rounded down, with its abbreviation;
/// the zero value for a zero duration.
pub open spec fn dps_of(total_damage: int, duration_seconds: int) -> Dps {
    if duration_seconds == 0 {
        zero_dps()
    } else {
        let raw = total_damage / duration_seconds;
        Dps { raw: raw as i64, scale: bracket_of(raw).0 as i64, unit: bracket_of(raw).1 }
    }
}

impl Dps {
    pub fn new(total_damage: i64, duration_seconds: i64) -> (r: Dps)
        requires
            total_damage >= 0,
            duration_seconds >= 0,
        ensures
            r == dps_of(total_damage as int, duration_seconds as int),
    {
        if duration_seconds == 0 {
            return Dps::default();
        }
        let raw: i64 = total_damage / duration_seconds;
        let a = abbreviate_number(raw);
        Dps { raw, scale: a.scale, unit: a.unit }
    }
}

impl Default for Dps {
    fn default() -> (r: Dps)
        ensures
            r == zero_dps(),
    {
        Dps { raw: 0, scale: 1, unit: NO_SUFFIX }
    }
}

#[derive(Clone, Debug, PartialEq)]
pub struct PlayerSkillStats {
    pub id: SkillId,
    pub name: String,
    pub icon: String,
    pub hit_count: u32,
    pub crit_count: u32,
    pub crit_damage: i64,
    pub total_damage: i64,
}

impl PlayerSkillStats {
    pub open spec fn wf(&self) -> bool {
        &&& self.crit_count <= self.hit_count
        &&& 0 <= self.crit_damage <= self.total_damage
    }

    /// An independent copy of these counters.
    pub fn duplicate(&self) -> (r: PlayerSkillStats)
        ensures
            r == *self,
    {
        PlayerSkillStats {
            id: self.id,
            name: self.name.clone(),
            icon: self.icon.clone(),
            hit_count: self.hit_count,
            crit_count: self.crit_count,
            crit_damage: self.crit_damage,
            total_damage: self.total_damage,
        }
    }
}

/// The sum of `f` over a sequence of per-skill counters.
pub open spec fn skill_sum(s: Seq<PlayerSkillStats>, f: spec_fn(PlayerSkillStats) -> int) -> int
    decreases s.len(),
{
    if s.len() == 0 {
        0
    } else {
        skill_sum(s.drop_last(), f) + f(s.last())
    }
}

pub open spec fn hits_of() -> spec_fn(PlayerSkillStats) -> int {
    |e: PlayerSkillStats| e.hit_count as int
}

pub open spec fn crits_of() -> spec_fn(PlayerSkillStats) -> int {
    |e: PlayerSkillStats| e.crit_count as int
}

pub open spec fn damage_of() -> spec_fn(PlayerSkillStats) -> int {
    |e: PlayerSkillStats| e.total_damage as int
}

pub open spec fn crit_damage_of() -> spec_fn(PlayerSkillStats) -> int {
    |e: PlayerSkillStats| e.crit_damage as int
}

/// Appending an entry adds its value to the sum.
pub proof fn lemma_skill_sum_push(
    s: Seq<PlayerSkillStats>,
    x: PlayerSkillStats,
    f: spec_fn(PlayerSkillStats) -> int,
)
    ensures
        skill_sum(s.push(x), f) == skill_sum(s, f) + f(x),
{
    assert(s.push(x).drop_last() =~= s);
}

/// Replacing one entry changes the sum by the difference of the two values.
pub proof fn lemma_skill_sum_update(
    s: Seq<PlayerSkillStats>,
    i: int,
    x: PlayerSkillStats,
    f: spec_fn(PlayerSkillStats) -> int,
)
    requires
        0 <= i < s.len(),
    ensures
        skill_sum(s.update(i, x), f) == skill_sum(s, f) - f(s[i]) + f(x),
    decreases s.len(),
{
    let t = s.update(i, x);
    if i == s.len() - 1 {
        assert(t.drop_last() =~= s.drop_last());
    } else {
        assert(t.drop_last() =~= s.drop_last().update(i, x));
        lemma_skill_sum_update(s.drop_last(), i, x, f);
    }
}

#[derive(Clone, Debug, PartialEq)]
pub struct PlayerSkillsStats {
    pub counter_count: i64,
    pub hit_count: u32,
    pub crit_count: u32,
    /// One entry per skill id.
    pub skill: Vec<PlayerSkillStats>,
}

impl PlayerSkillsStats {
    /// Equal counters and equal entries.
    pub open spec fn same_as(&self, o: PlayerSkillsStats) -> bool {
        &&& self.counter_count == o.counter_count
        &&& self.hit_count == o.hit_count
        &&& self.crit_count == o.crit_count
        &&& self.skill@ == o.skill@
    }

    /// An independent copy of these counters.
    pub fn duplicate(&self) -> (r: PlayerSkillsStats)
        ensures
            r.same_as(*self),
    {
        let mut skill: Vec<PlayerSkillStats> = Vec::new();
        let mut i: usize = 0;
        while i < self.skill.len()
            invariant
                i <= self.skill@.len(),
                skill@ == self.skill@.take(i as int),
            decreases self.skill@.len() - i,
        {
            skill.push(self.skill[i].duplicate());
            proof {
                assert(skill@ =~= self.skill@.take(i as int + 1));
            }
            i = i + 1;
        }
        proof {
            assert(skill@ =~= self.skill@);
        }
        PlayerSkillsStats {
            counter_count: self.counter_count,
            hit_count: self.hit_count,
            crit_count: self.crit_count,
            skill,
        }
    }

    /// Entries have distinct ids and are each consistent, and the totals are
    /// the sums over the entries.
    pub open spec fn wf(&self) -> bool {
        let s = self.skill@;
        &&& forall|i: int, j: int| 0 <= i < j < s.len() ==> s[i].id != s[j].id
        &&& forall|i: int| 0 <= i < s.len() ==> (#[trigger] s[i]).wf()
        &&& forall|i: int| 0 <= i < s.len() ==> (#[trigger] s[i]).hit_count <= self.hit_count
        &&& self.crit_count <= self.hit_count
        &&& self.hit_count == skill_sum(s, hits_of())
        &&& self.crit_count == skill_sum(s, crits_of())
    }
}

#[derive(Clone, Debug, PartialEq)]
pub struct SkillCastLog {
    pub first_recorded_on: i64,
    pub last_recorded_on: i64,
    pub hits: Vec<SkillHit>,
}

#[derive(Clone, Copy, Debug, PartialEq, Eq, Structural)]
pub struct SkillHit {
    pub recorded_on: i64,
    pub damage: i64,
    pub is_critical: bool,
}

#[derive(Clone, Debug, PartialEq)]
pub struct PlayerStats {
    /// `crit_count / hit_count`, a ratio.
    pub crit_rate: i64,
    pub crit_damage: i64,
    pub top_damage: i64,
    pub total_damage: i64,
    /// Share of the encounter's player damage, a ratio.
    pub damage_percentage: i64,
    pub dps: Dps,
    pub back_attacks_total_damage: i64,
    pub front_attacks_total_damage: i64,
    pub non_positional_attacks_total_damage: i64,
    pub back_attacks_damage_percentage: i64,
    pub front_attacks_damage_percentage: i64,
    pub non_positional_attacks_damage_percentage: i64,
    pub hyper_awakening_damage: i64,
    pub updated_on: Timestamp,
    pub damage_taken: i64,
    /// Share of the damage the party has taken, a ratio.
    pub damage_taken_percentage: i64,
    pub skills: PlayerSkillsStats,
}

impl PlayerStats {
    /// The counters that do not depend on the rest of the encounter agree
    /// with one another.
    pub open spec fn wf(&self) -> bool {
        let s = self.skills.skill@;
        &&& self.back_attacks_total_damage >= 0
        &&& self.front_attacks_total_damage >= 0
        &&& self.non_positional_attacks_total_damage >= 0
        &&& self.back_attacks_total_damage + self.front_attacks_total_damage
            + self.non_positional_attacks_total_damage == self.total_damage
        &&& 0 <= self.top_damage <= self.total_damage
        &&& 0 <= self.crit_damage <= self.total_damage
        &&& self.damage_taken >= 0
        &&& self.skills.wf()
        &&& self.total_damage == skill_sum(s, damage_of())
        &&& self.crit_damage == skill_sum(s, crit_damage_of())
        &&& forall|i: int| 0 <= i < s.len() ==> (#[trigger] s[i]).total_damage <= self.total_damage
        &&& self.crit_rate == ratio_of(
            self.skills.crit_count as int,
            self.skills.hit_count as int,
        )
        &&& self.back_attacks_damage_percentage == ratio_of(
            self.back_attacks_total_damage as int,
            self.total_damage as int,
        )
        &&& self.front_attacks_damage_percentage == ratio_of(
            self.front_attacks_total_damage as int,
            self.total_damage as int,
        )
        &&& self.non_positional_attacks_damage_percentage == ratio_of(
            self.non_positional_attacks_total_damage as int,
            self.total_damage as int,
        )
    }

    /// Equal counters, per-skill entries included.
    pub open spec fn same_as(&self, o: PlayerStats) -> bool {
        &&& *self == (PlayerStats { skills: self.skills, ..o })
        &&& self.skills.same_as(o.skills)
    }

    /// An independent copy of these counters.
    pub fn duplicate(&self) -> (r: PlayerStats)
        ensures
            r.same_as(*self),
    {
        PlayerStats { skills: self.skills.duplicate(), ..*self }
    }

    /// Counters of a player who has not acted yet.
    pub fn empty() -> (r: PlayerStats)
        ensures
            r.wf(),
            r.total_damage == 0,
            r.damage_taken == 0,
            r.skills.hit_count == 0,
            r.skills.crit_count == 0,
            r.skills.skill@.len() == 0,
            r.dps == zero_dps(),
            r.damage_percentage == 0,
            r.damage_taken_percentage == 0,
            r.updated_on == 0,
    {
        let r = PlayerStats {
            crit_rate: 0,
            crit_damage: 0,
            top_damage: 0,
            total_damage: 0,
            damage_percentage: 0,
            dps: Dps::default(),
            back_attacks_total_damage: 0,
            front_attacks_total_damage: 0,
            non_positional_attacks_total_damage: 0,
            back_attacks_damage_percentage: 0,
            front_attacks_damage_percentage: 0,
            non_positional_attacks_damage_percentage: 0,
            hyper_awakening_damage: 0,
            updated_on: 0,
            damage_taken: 0,
            damage_taken_percentage: 0,
            skills: PlayerSkillsStats {
                counter_count: 0,
                hit_count: 0,
                crit_count: 0,
                skill: Vec::new(),
            },
        };
        assert(r.skills.skill@.len() == 0);
        r
    }
}

/// The three positional buckets of consistent counters add up to the total
/// damage.
pub proof fn lemma_positional_buckets_sum(s: PlayerStats)
    requires
        s.wf(),
    ensures
        s.back_attacks_total_damage + s.front_attacks_total_damage
            + s.non_positional_attacks_total_damage == s.total_damage,
{
}

/// The stored critical rate of consistent counters is the one recomputed from
/// the critical and total hit counts.
pub proof fn lemma_crit_rate_matches_counts(s: PlayerStats)
    requires
        s.wf(),
    ensures
        s.crit_rate == ratio_of(s.skills.crit_count as int, s.skills.hit_count as int),
        0 <= s.crit_rate <= RATIO_SCALE,
{
    crate::format::lemma_ratio_bounds(s.skills.crit_count as int, s.skills.hit_count as int);
}

#[derive(Clone, Debug, PartialEq)]
pub struct DeathLog {
    pub is_dead: bool,
    pub death_count: u32,
    pub recorded_on: Option<Timestamp>,
    /// How long the player has been dead, in milliseconds.
    pub duration: Option<i64>,
}

#[derive(Clone, Debug, PartialEq)]
pub struct Player {
    pub id: EntityId,
    pub name: String,
    pub class_color: String,
    pub class_name: String,
    pub class_id: ClassId,
    pub created_on: Timestamp,
    pub stats: PlayerStats,
    pub death_log: DeathLog,
}

impl Player {
    /// Equal in every field, per-skill entries included.
    pub open spec fn same_as(&self, o: Player) -> bool {
        &&& *self == (Player { stats: self.stats, ..o })
        &&& self.stats.same_as(o.stats)
    }

    /// An independent copy of this player.
    pub fn duplicate(&self) -> (r: Player)
        ensures
            r.same_as(*self),
    {
        Player {
            id: self.id,
            name: self.name.clone(),
            class_color: self.class_color.clone(),
            class_name: self.class_name.clone(),
            class_id: self.class_id,
            created_on: self.created_on,
            stats: self.stats.duplicate(),
            death_log: DeathLog {
                is_dead: self.death_log.is_dead,
                death_count: self.death_log.death_count,
                recorded_on: self.death_log.recorded_on,
                duration: self.death_log.duration,
            },
        }
    }
}

#[derive(Clone, Debug, PartialEq)]
pub struct BossStats {
    pub max_hp: i64,
    pub hp: i64,
    pub shield_hp: i64,
    pub max_hp_bars: i64,
    pub hp_bars: i64,
    pub hp_per_bar: i64,
    /// `hp / max_hp`, a ratio (one millionth is a ten-thousandth of a percent).
    pub hp_percentage: i64,
    /// Damage of the most recent hit.
    pub damage_taken: i64,
    pub total_damage_dealt: i64,
    pub updated_on: Timestamp,
}

impl BossStats {
    pub open spec fn wf(&self) -> bool {
        &&& 0 <= self.hp <= self.max_hp
        &&& self.max_hp_bars >= 0
        &&& self.hp_per_bar == quotient_or_zero(self.max_hp as int, self.max_hp_bars as int)
        &&& self.hp_bars == quotient_or_zero(self.hp as int, self.hp_per_bar as int)
        &&& self.hp_percentage == ratio_of(self.hp as int, self.max_hp as int)
        &&& self.damage_taken >= 0
        &&& self.total_damage_dealt >= 0
    }
}

/// Consistent boss counters show as many bars as whole `hp_per_bar` fit in
/// the remaining health.
pub proof fn lemma_hp_bars_match_health(b: BossStats)
    requires
        b.wf(),
    ensures
        b.hp_bars == quotient_or_zero(b.hp as int, b.hp_per_bar as int),
        b.hp_per_bar == quotient_or_zero(b.max_hp as int, b.max_hp_bars as int),
{
}

#[derive(Clone, Debug, PartialEq)]
pub struct Boss {
    pub id: EntityId,
    pub npc_id: NpcId,
    pub name: String,
    pub stats: BossStats,
    pub created_on: Timestamp,
}

impl Boss {
    /// An independent copy of this boss.
    pub fn duplicate(&self) -> (r: Boss)
        ensures
            r == *self,
    {
        Boss {
            id: self.id,
            npc_id: self.npc_id,
            name: self.name.clone(),
            stats: BossStats { ..self.stats },
            created_on: self.created_on,
        }
    }
}

#[derive(Clone, Copy, Debug, PartialEq, Eq, Structural)]
pub struct EstherStats {
    pub total_damage: i64,
    /// Share of the encounter's esther damage, a ratio.
    pub damage_percentage: i64,
}

#[derive(Clone, Debug, PartialEq)]
pub struct Esther {
    pub id: EntityId,
    pub name: String,
    pub icon: String,
    pub stats: EstherStats,
}

impl Esther {
    /// An independent copy of this esther.
    pub fn duplicate(&self) -> (r: Esther)
        ensures
            r == *self,
    {
        Esther { id: self.id, name: self.name.clone(), icon: self.icon.clone(), stats: self.stats }
    }
}

#[derive(Clone, Debug, PartialEq)]
pub struct EncounterStats {
    pub duration_mmss: String,
    pub time_to_kill_mmss: String,
    pub party_dps: Dps,
    pub top_damage: i64,
    pub total_player_damage: i64,
    pub total_esther_damage: i64,
    pub total_taken_damage: i64,
}

impl EncounterStats {
    /// An independent copy of these totals.
    pub fn duplicate(&self) -> (r: EncounterStats)
        ensures
            r == *self,
    {
        EncounterStats {
            duration_mmss: self.duration_mmss.clone(),
            time_to_kill_mmss: self.time_to_kill_mmss.clone(),
            ..*self
        }
    }
}

/// The snapshot of an encounter that is handed to consumers.
#[derive(Clone, Debug, PartialEq)]
pub struct FightUpdate {
    pub stats: EncounterStats,
    /// In configuration order.
    pub esthers: Vec<Esther>,
    /// Sorted by total damage, ascending.
    pub players: Vec<Player>,
    pub boss: Boss,
}

impl AppEvent for FightUpdate {
    fn event_name(&self) -> (r: &'static str)
        ensures
            r@ == "fight-update"@,
    {
        "fight-update"
    }
}

} // verus!
