//! Attack resolution and the updates an attack makes to a player and to the
//! boss.

use crate::format::{add_capped, capped_sum, ratio, ratio_of, RATIO_SCALE};
use crate::models::{
    crit_damage_of, crits_of, damage_of, hits_of, lemma_skill_sum_push, lemma_skill_sum_update,
    quotient_or_zero, BossStats, HitFlag, HitOption, Player, PlayerSkillStats, PlayerStats, Skill, Timestamp,
};
use crate::simulator::{BOSS_MAX_DAMAGE, BOSS_MIN_DAMAGE};
use crate::sources::random_between;
use vstd::prelude::*;

verus! {

/// The private generation parameters of a player: the skills its hits are
/// attributed to, its critical-hit rate (a ratio) and its damage range.
#[derive(Clone, Debug, PartialEq)]
pub struct PlayerTemplate {
    pub skills: Vec<Skill>,
    pub crit_rate: i64,
    pub min_dmg: i64,
    pub max_dmg: i64,
}

impl PlayerTemplate {
    pub open spec fn wf(&self) -> bool {
        &&& 0 < self.skills@.len() <= i64::MAX
        &&& 0 <= self.crit_rate <= RATIO_SCALE
        &&& 0 <= self.min_dmg <= self.max_dmg
    }
}

#[derive(Clone, Debug, PartialEq)]
pub struct PlayerWithTemplate {
    pub entity: Player,
    pub template: PlayerTemplate,
}

/// The outcome of one attack of a player on the boss.
#[derive(Clone, Debug, PartialEq)]
pub struct AttackResult {
    pub skill: Skill,
    pub has_fight_ended: bool,
    pub hit_flag: HitFlag,
    pub hit_option: HitOption,
    pub damage: i64,
}

/// The random draws one attack consumes: a damage in the template's range, a
/// critical roll in `0..=RATIO_SCALE`, a position among three and a skill
/// index.
#[derive(Clone, Copy, Debug, PartialEq, Eq, Structural)]
pub struct AttackRolls {
    pub damage: i64,
    pub crit: i64,
    pub hit_option: i64,
    pub skill: i64,
}

pub open spec fn rolls_fit(t: PlayerTemplate, rolls: AttackRolls) -> bool {
    &&& t.min_dmg <= rolls.damage <= t.max_dmg
    &&& 0 <= rolls.crit <= RATIO_SCALE
    &&& 0 <= rolls.hit_option < 3
    &&& 0 <= rolls.skill < t.skills@.len()
}

/// The positions an attack can land from, in draw order.
pub open spec fn hit_option_of(i: int) -> HitOption {
    if i == 0 {
        HitOption::BackAttack
    } else if i == 1 {
        HitOption::FlankAttack
    } else {
        HitOption::FrontalAttack
    }
}

/// The damage before the critical roll: the drawn damage, or everything the
/// boss has left when that is below the template's maximum.
pub open spec fn base_damage(hp: int, t: PlayerTemplate, rolls: AttackRolls) -> int {
    if hp < t.max_dmg {
        hp
    } else {
        rolls.damage as int
    }
}

pub open spec fn is_crit(t: PlayerTemplate, rolls: AttackRolls) -> bool {
    rolls.crit <= t.crit_rate
}

/// The damage after the critical roll, before the final clamp.
pub open spec fn swing_damage(hp: int, t: PlayerTemplate, rolls: AttackRolls) -> int {
    if is_crit(t, rolls) {
        2 * base_damage(hp, t, rolls)
    } else {
        base_damage(hp, t, rolls)
    }
}

/// The attack that the given draws produce against a boss with `hp` left.
pub open spec fn resolved(hp: int, t: PlayerTemplate, rolls: AttackRolls) -> AttackResult {
    let swing = swing_damage(hp, t, rolls);
    AttackResult {
        skill: t.skills@[rolls.skill as int],
        has_fight_ended: hp < t.max_dmg || hp < swing,
        hit_flag: if is_crit(t, rolls) {
            HitFlag::Critical
        } else {
            HitFlag::Normal
        },
        hit_option: hit_option_of(rolls.hit_option as int),
        damage: if hp < swing {
            hp as i64
        } else {
            swing as i64
        },
    }
}

/// No attack takes more than the boss has left: for every draw the damage
/// lies between zero and the health before the attack, so health never goes
/// negative, and a lethal attack takes exactly what was left.
pub proof fn lemma_attack_within_health(hp: int, t: PlayerTemplate, rolls: AttackRolls)
    requires
        0 <= hp <= i64::MAX,
        t.wf(),
        rolls_fit(t, rolls),
    ensures
        0 <= resolved(hp, t, rolls).damage <= hp,
        resolved(hp, t, rolls).has_fight_ended ==> resolved(hp, t, rolls).damage == hp,
{
}

fn hit_option_at(i: i64) -> (r: HitOption)
    requires
        0 <= i < 3,
    ensures
        r == hit_option_of(i as int),
{
    if i == 0 {
        HitOption::BackAttack
    } else if i == 1 {
        HitOption::FlankAttack
    } else {
        HitOption::FrontalAttack
    }
}

/// Draws a position uniformly among back, flank and frontal.
pub fn random_hit_option() -> (r: HitOption)
    ensures
        r == HitOption::BackAttack || r == HitOption::FlankAttack || r
            == HitOption::FrontalAttack,
{
    hit_option_at(random_between(0, 2))
}

/// Resolves one attack from its draws. A boss with less health than the
/// template's maximum takes a lethal hit of everything it has left; a
/// critical roll doubles the damage; the damage never exceeds the boss's
/// health, and a hit clamped to it ends the fight.
pub fn resolve_attack(current_boss_hp: i64, template: &PlayerTemplate, rolls: AttackRolls) -> (r:
    AttackResult)
    requires
        current_boss_hp >= 0,
        template.wf(),
        rolls_fit(*template, rolls),
    ensures
        r == resolved(current_boss_hp as int, *template, rolls),
        0 <= r.damage <= current_boss_hp,
        r.has_fight_ended ==> r.damage == current_boss_hp,
{
    let mut has_fight_ended = false;
    let mut damage: i64 = if current_boss_hp < template.max_dmg {
        has_fight_ended = true;
        current_boss_hp
    } else {
        rolls.damage
    };
    let count: usize = template.skills.len();
    assert(rolls.skill < count);
    let idx: usize = rolls.skill as usize;
    let skill = template.skills[idx].duplicate();
    let hit_option = hit_option_at(rolls.hit_option);
    let mut hit_flag = HitFlag::Normal;
    if rolls.crit <= template.crit_rate {
        hit_flag = HitFlag::Critical;
        // The doubled damage is compared without being formed, as it may not fit.
        if current_boss_hp - damage < damage {
            has_fight_ended = true;
            damage = current_boss_hp;
        } else {
            damage = damage * 2;
        }
    }
    AttackResult { skill, has_fight_ended, hit_flag, hit_option, damage }
}

/// Draws the rolls of one attack and resolves it.
pub fn perform_attack(current_boss_hp: i64, template: &PlayerTemplate) -> (r: AttackResult)
    requires
        current_boss_hp >= 0,
        template.wf(),
    ensures
        exists|rolls: AttackRolls|
            rolls_fit(*template, rolls) && r == resolved(current_boss_hp as int, *template, rolls),
        0 <= r.damage <= current_boss_hp,
        r.has_fight_ended ==> r.damage == current_boss_hp,
{
    let rolls = AttackRolls {
        damage: random_between(template.min_dmg, template.max_dmg),
        crit: random_between(0, RATIO_SCALE),
        hit_option: random_between(0, 2),
        skill: random_between(0, template.skills.len() as i64 - 1),
    };
    resolve_attack(current_boss_hp, template, rolls)
}

/// Counters of a skill that has not hit yet.
pub open spec fn fresh_skill_stats(skill: Skill) -> PlayerSkillStats {
    PlayerSkillStats {
        id: skill.id,
        name: skill.name,
        icon: skill.icon,
        hit_count: 0,
        crit_count: 0,
        crit_damage: 0,
        total_damage: 0,
    }
}

pub open spec fn crit_increment(a: AttackResult) -> int {
    if a.hit_flag == HitFlag::Critical {
        1
    } else {
        0
    }
}

pub open spec fn crit_damage_increment(a: AttackResult) -> int {
    if a.hit_flag == HitFlag::Critical {
        a.damage as int
    } else {
        0
    }
}

/// The counters of a skill after it landed `a`.
pub open spec fn skill_after_hit(e: PlayerSkillStats, a: AttackResult) -> PlayerSkillStats {
    PlayerSkillStats {
        hit_count: (e.hit_count + 1) as u32,
        crit_count: (e.crit_count + crit_increment(a)) as u32,
        crit_damage: (e.crit_damage + crit_damage_increment(a)) as i64,
        total_damage: (e.total_damage + a.damage) as i64,
        ..e
    }
}

/// The damage `a` adds to the back, front and non-positional buckets. Flank
/// hits count as non-positional.
pub open spec fn back_increment(a: AttackResult) -> int {
    if a.hit_option == HitOption::BackAttack {
        a.damage as int
    } else {
        0
    }
}

pub open spec fn front_increment(a: AttackResult) -> int {
    if a.hit_option == HitOption::FrontalAttack {
        a.damage as int
    } else {
        0
    }
}

pub open spec fn non_positional_increment(a: AttackResult) -> int {
    if a.hit_option == HitOption::BackAttack || a.hit_option == HitOption::FrontalAttack {
        0
    } else {
        a.damage as int
    }
}

/// Finds the entry of a skill id among a player's per-skill counters.
fn find_skill(skills: &Vec<PlayerSkillStats>, id: u32) -> (r: Option<usize>)
    ensures
        match r {
            Some(i) => i < skills@.len() && skills@[i as int].id == id,
            None => forall|j: int| 0 <= j < skills@.len() ==> skills@[j].id != id,
        },
{
    let mut i: usize = 0;
    while i < skills.len()
        invariant
            i <= skills@.len(),
            forall|j: int| 0 <= j < i ==> skills@[j].id != id,
        decreases skills@.len() - i,
    {
        if skills[i].id == id {
            return Some(i);
        }
        i = i + 1;
    }
    None
}

/// Credits a non-lethal attack to the attacking player: totals, top hit,
/// counters, positional buckets and the entry of the skill, with every ratio
/// recomputed from the new totals. `total_damage` is the encounter's player
/// damage including this attack.
pub fn update_player(
    player: &mut Player,
    attack: &AttackResult,
    total_damage: i64,
    updated_on: Timestamp,
)
    requires
        old(player).stats.wf(),
        attack.damage >= 0,
        old(player).stats.total_damage + attack.damage <= total_damage,
        old(player).stats.skills.hit_count < u32::MAX,
    ensures
        final(player).stats.wf(),
        final(player).id == old(player).id,
        final(player).name == old(player).name,
        final(player).class_color == old(player).class_color,
        final(player).class_name == old(player).class_name,
        final(player).class_id == old(player).class_id,
        final(player).created_on == old(player).created_on,
        final(player).death_log == old(player).death_log,
        final(player).stats.total_damage == old(player).stats.total_damage + attack.damage,
        final(player).stats.top_damage == if attack.damage > old(player).stats.top_damage {
            attack.damage
        } else {
            old(player).stats.top_damage
        },
        final(player).stats.skills.hit_count == old(player).stats.skills.hit_count + 1,
        final(player).stats.skills.crit_count == old(player).stats.skills.crit_count
            + crit_increment(*attack),
        final(player).stats.crit_damage == old(player).stats.crit_damage + crit_damage_increment(
            *attack,
        ),
        final(player).stats.back_attacks_total_damage == old(player).stats.back_attacks_total_damage
            + back_increment(*attack),
        final(player).stats.front_attacks_total_damage
            == old(player).stats.front_attacks_total_damage + front_increment(*attack),
        final(player).stats.non_positional_attacks_total_damage
            == old(player).stats.non_positional_attacks_total_damage + non_positional_increment(
            *attack,
        ),
        final(player).stats.damage_percentage == ratio_of(
            final(player).stats.total_damage as int,
            total_damage as int,
        ),
        final(player).stats.updated_on == updated_on,
        final(player).stats.dps == old(player).stats.dps,
        final(player).stats.damage_taken == old(player).stats.damage_taken,
        final(player).stats.damage_taken_percentage == old(player).stats.damage_taken_percentage,
        final(player).stats.hyper_awakening_damage == old(player).stats.hyper_awakening_damage,
        final(player).stats.skills.counter_count == old(player).stats.skills.counter_count,
        match find_skill_spec(old(player).stats.skills.skill@, attack.skill.id) {
            Some(i) => final(player).stats.skills.skill@ == old(player).stats.skills.skill@.update(
                i,
                skill_after_hit(old(player).stats.skills.skill@[i], *attack),
            ),
            None => final(player).stats.skills.skill@ == old(player).stats.skills.skill@.push(
                skill_after_hit(fresh_skill_stats(attack.skill), *attack),
            ),
        },
{
    let ghost s0 = old(player).stats.skills.skill@;
    let damage = attack.damage;
    let is_crit = attack.hit_flag == HitFlag::Critical;
    let stats = &mut player.stats;
    if damage > stats.top_damage {
        stats.top_damage = damage;
    }
    stats.total_damage = stats.total_damage + damage;
    stats.skills.hit_count = stats.skills.hit_count + 1;
    if is_crit {
        stats.crit_damage = stats.crit_damage + damage;
        stats.skills.crit_count = stats.skills.crit_count + 1;
    }
    match find_skill(&stats.skills.skill, attack.skill.id) {
        Some(i) => {
            let e = &stats.skills.skill[i];
            let updated = PlayerSkillStats {
                id: e.id,
                name: e.name.clone(),
                icon: e.icon.clone(),
                hit_count: e.hit_count + 1,
                crit_count: if is_crit {
                    e.crit_count + 1
                } else {
                    e.crit_count
                },
                crit_damage: if is_crit {
                    e.crit_damage + damage
                } else {
                    e.crit_damage
                },
                total_damage: e.total_damage + damage,
            };
            proof {
                lemma_find_skill_spec(s0, attack.skill.id, i as int);
                lemma_skill_sum_update(s0, i as int, updated, hits_of());
                lemma_skill_sum_update(s0, i as int, updated, crits_of());
                lemma_skill_sum_update(s0, i as int, updated, damage_of());
                lemma_skill_sum_update(s0, i as int, updated, crit_damage_of());
            }
            stats.skills.skill[i] = updated;
        },
        None => {
            let fresh = PlayerSkillStats {
                id: attack.skill.id,
                name: attack.skill.name.clone(),
                icon: attack.skill.icon.clone(),
                hit_count: 1,
                crit_count: if is_crit {
                    1
                } else {
                    0
                },
                crit_damage: if is_crit {
                    damage
                } else {
                    0
                },
                total_damage: damage,
            };
            proof {
                lemma_find_skill_spec_none(s0, attack.skill.id);
                lemma_skill_sum_push(s0, fresh, hits_of());
                lemma_skill_sum_push(s0, fresh, crits_of());
                lemma_skill_sum_push(s0, fresh, damage_of());
                lemma_skill_sum_push(s0, fresh, crit_damage_of());
            }
            stats.skills.skill.push(fresh);
        },
    }
    match attack.hit_option {
        HitOption::BackAttack => {
            stats.back_attacks_total_damage = stats.back_attacks_total_damage + damage;
        },
        HitOption::FrontalAttack => {
            stats.front_attacks_total_damage = stats.front_attacks_total_damage + damage;
        },
        _ => {
            stats.non_positional_attacks_total_damage = stats.non_positional_attacks_total_damage
                + damage;
        },
    }
    stats.crit_rate = ratio(stats.skills.crit_count as i64, stats.skills.hit_count as i64);
    stats.damage_percentage = ratio(stats.total_damage, total_damage);
    stats.back_attacks_damage_percentage = ratio(
        stats.back_attacks_total_damage,
        stats.total_damage,
    );
    stats.front_attacks_damage_percentage = ratio(
        stats.front_attacks_total_damage,
        stats.total_damage,
    );
    stats.non_positional_attacks_damage_percentage = ratio(
        stats.non_positional_attacks_total_damage,
        stats.total_damage,
    );
    stats.updated_on = updated_on;
}

/// Boss counters at creation: full health, split into bars of
/// `max_hp / hp_bars` each.
pub fn new_boss_stats(max_hp: i64, hp_bars: i64, updated_on: Timestamp) -> (r: BossStats)
    requires
        max_hp >= 0,
        hp_bars >= 0,
    ensures
        r.wf(),
        r.max_hp == max_hp,
        r.hp == max_hp,
        r.max_hp_bars == hp_bars,
        r.shield_hp == 0,
        r.damage_taken == 0,
        r.total_damage_dealt == 0,
        r.updated_on == updated_on,
{
    let hp_per_bar: i64 = if hp_bars == 0 {
        0
    } else {
        max_hp / hp_bars
    };
    let bars: i64 = if hp_per_bar == 0 {
        0
    } else {
        max_hp / hp_per_bar
    };
    BossStats {
        max_hp,
        hp: max_hp,
        shield_hp: 0,
        max_hp_bars: hp_bars,
        hp_bars: bars,
        hp_per_bar,
        hp_percentage: ratio(max_hp, max_hp),
        damage_taken: 0,
        total_damage_dealt: 0,
        updated_on,
    }
}

/// Applies a hit to the boss: its health drops by the damage, and the bars,
/// the health ratio and the last hit taken follow.
pub fn update_boss(stats: &mut BossStats, attack: &AttackResult, updated_on: Timestamp)
    requires
        old(stats).wf(),
        0 <= attack.damage <= old(stats).hp,
    ensures
        final(stats).wf(),
        final(stats).hp == old(stats).hp - attack.damage,
        final(stats).damage_taken == attack.damage,
        final(stats).updated_on == updated_on,
        final(stats).max_hp == old(stats).max_hp,
        final(stats).max_hp_bars == old(stats).max_hp_bars,
        final(stats).hp_per_bar == old(stats).hp_per_bar,
        final(stats).shield_hp == old(stats).shield_hp,
        final(stats).total_damage_dealt == old(stats).total_damage_dealt,
{
    stats.hp = stats.hp - attack.damage;
    stats.hp_percentage = ratio(stats.hp, stats.max_hp);
    stats.hp_bars = if stats.hp_per_bar == 0 {
        0
    } else {
        stats.hp / stats.hp_per_bar
    };
    stats.damage_taken = attack.damage;
    stats.updated_on = updated_on;
}

/// The boss's counter-attack: a damage drawn from
/// `BOSS_MIN_DAMAGE..=BOSS_MAX_DAMAGE`, added to what the boss has dealt.
pub fn perform_boss_attack(stats: &mut BossStats) -> (r: i64)
    requires
        old(stats).wf(),
    ensures
        BOSS_MIN_DAMAGE <= r <= BOSS_MAX_DAMAGE,
        *final(stats) == (BossStats {
            total_damage_dealt: capped_sum(old(stats).total_damage_dealt as int, r as int) as i64,
            ..*old(stats)
        }),
        final(stats).wf(),
{
    let boss_damage = random_between(BOSS_MIN_DAMAGE, BOSS_MAX_DAMAGE);
    stats.total_damage_dealt = add_capped(stats.total_damage_dealt, boss_damage);
    boss_damage
}

/// Adds a counter-attack's damage to what the player has taken and
/// recomputes the player's share of `total_taken_damage`, the party's taken
/// damage including this hit.
pub fn update_damage_taken(player: &mut Player, boss_damage: i64, total_taken_damage: i64)
    requires
        old(player).stats.wf(),
        boss_damage >= 0,
        capped_sum(old(player).stats.damage_taken as int, boss_damage as int)
            <= total_taken_damage,
    ensures
        *final(player) == (Player {
            stats: PlayerStats {
                damage_taken: capped_sum(
                    old(player).stats.damage_taken as int,
                    boss_damage as int,
                ) as i64,
                damage_taken_percentage: ratio_of(
                    capped_sum(old(player).stats.damage_taken as int, boss_damage as int),
                    total_taken_damage as int,
                ) as i64,
                ..old(player).stats
            },
            ..*old(player)
        }),
        final(player).stats.wf(),
{
    player.stats.damage_taken = add_capped(player.stats.damage_taken, boss_damage);
    player.stats.damage_taken_percentage = ratio(player.stats.damage_taken, total_taken_damage);
}

/// The index of the first entry with the given skill id, if any.
pub open spec fn find_skill_spec(s: Seq<PlayerSkillStats>, id: u32) -> Option<int>
    decreases s.len(),
{
    if s.len() == 0 {
        None
    } else {
        match find_skill_spec(s.drop_last(), id) {
            Some(i) => Some(i),
            None => if s.last().id == id {
                Some(s.len() - 1)
            } else {
                None
            },
        }
    }
}

proof fn lemma_find_skill_spec(s: Seq<PlayerSkillStats>, id: u32, i: int)
    requires
        0 <= i < s.len(),
        s[i].id == id,
        forall|a: int, b: int| 0 <= a < b < s.len() ==> s[a].id != s[b].id,
    ensures
        find_skill_spec(s, id) == Some(i),
    decreases s.len(),
{
    let t = s.drop_last();
    if i == s.len() - 1 {
        lemma_find_skill_spec_none(t, id);
    } else {
        lemma_find_skill_spec(t, id, i);
    }
}

proof fn lemma_find_skill_spec_none(s: Seq<PlayerSkillStats>, id: u32)
    requires
        forall|j: int| 0 <= j < s.len() ==> s[j].id != id,
    ensures
        find_skill_spec(s, id) is None,
    decreases s.len(),
{
    if s.len() > 0 {
        lemma_find_skill_spec_none(s.drop_last(), id);
    }
}

} // verus!
