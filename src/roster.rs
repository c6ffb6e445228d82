//! Setup before the fight: entity ids, nicknames, the roster with its
//! classes and skills, the boss and the auxiliary abilities.

use crate::catalog::{is_usable, skill_of, Class, RawSkill};
use crate::combat::{new_boss_stats, PlayerTemplate, PlayerWithTemplate};
use crate::format::{ratio_of, string_from_chars, RATIO_SCALE};
use crate::models::{
    quotient_or_zero, Boss, ClassId, DeathLog, EntityId, Esther, EstherStats, NpcId, Player, PlayerStats, Skill, Timestamp,
};
use crate::sources::{random_between, random_index, shuffle};
use crate::simulator::{
    esther_ok, player_ok, shares_ok, DPS_MIN_CRIT_RATE, EstherTemplate,
    EstherWithTemplate, FightSimulator, MAX_ENTITY_ID, MIN_ENTITY_ID, RANDOM_DRAWS,
    SKILLS_PER_PLAYER, SUPPORT_CRIT_RATE, SUPPORT_MAX_DAMAGE, SUPPORT_MIN_DAMAGE, SetupError,
};
use std::collections::HashSet;
use vstd::prelude::*;
use vstd::string::StringExecFns;

verus! {

broadcast use {vstd::std_specs::hash::group_hash_axioms, vstd::seq_lib::group_to_multiset_ensures};

pub open spec fn is_upper_letter(c: char) -> bool {
    'A' <= c <= 'Z'
}

pub open spec fn is_lower_letter(c: char) -> bool {
    'a' <= c <= 'z'
}

/// A nickname: an upper-case letter followed by lower-case letters.
pub open spec fn is_nickname(s: Seq<char>, length: int) -> bool {
    &&& s.len() == length
    &&& length > 0 ==> is_upper_letter(s[0])
    &&& forall|i: int| 1 <= i < length ==> is_lower_letter(#[trigger] s[i])
}

/// Draws a letter between `first` and `last`.
fn random_letter(first: u8, last: u8) -> (c: char)
    requires
        first <= last,
    ensures
        first as char <= c <= last as char,
{
    let k = random_between(first as i64, last as i64) as u8;
    k as char
}

/// A random nickname of the given length: an upper-case first letter, then
/// lower-case letters.
pub fn get_random_nickname(length: usize) -> (r: String)
    ensures
        is_nickname(r@, length as int),
{
    let mut cs: Vec<char> = Vec::new();
    if length > 0 {
        cs.push(random_letter(65, 90));
        let mut i: usize = 1;
        while i < length
            invariant
                1 <= i <= length,
                cs@.len() == i,
                is_upper_letter(cs@[0]),
                forall|j: int| 1 <= j < i ==> is_lower_letter(#[trigger] cs@[j]),
            decreases length - i,
        {
            cs.push(random_letter(97, 122));
            i = i + 1;
        }
    }
    string_from_chars(&cs)
}

/// The catalog skills of a class: usable entries with that class id.
pub open spec fn of_class(id: ClassId) -> spec_fn(RawSkill) -> bool {
    |s: RawSkill| s.class_id == Some(id)
}

/// How many ids in `MIN_ENTITY_ID..hi` are not issued yet.
pub open spec fn free_ids_below(reg: Set<EntityId>, hi: int) -> nat
    decreases hi - MIN_ENTITY_ID,
{
    if hi <= MIN_ENTITY_ID {
        0
    } else {
        free_ids_below(reg, hi - 1) + if reg.contains((hi - 1) as u64) {
            0nat
        } else {
            1nat
        }
    }
}

/// How many entity ids are still free.
pub open spec fn free_id_count(reg: Set<EntityId>) -> nat {
    free_ids_below(reg, MAX_ENTITY_ID + 1)
}

/// Issuing a free id below `hi` leaves one free id fewer below `hi`.
proof fn lemma_free_ids_insert(reg: Set<EntityId>, hi: int, id: EntityId)
    requires
        MIN_ENTITY_ID <= id < hi,
        hi <= MAX_ENTITY_ID + 1,
        !reg.contains(id),
    ensures
        free_ids_below(reg.insert(id), hi) + 1 == free_ids_below(reg, hi),
    decreases hi - MIN_ENTITY_ID,
{
    if id < hi - 1 {
        lemma_free_ids_insert(reg, hi - 1, id);
    } else {
        lemma_free_ids_unchanged(reg, hi - 1, id);
    }
}

/// Issuing an id at or above `hi` changes nothing below `hi`.
proof fn lemma_free_ids_unchanged(reg: Set<EntityId>, hi: int, id: EntityId)
    requires
        id >= hi,
        hi <= MAX_ENTITY_ID + 1,
    ensures
        free_ids_below(reg.insert(id), hi) == free_ids_below(reg, hi),
    decreases hi - MIN_ENTITY_ID,
{
    if hi > MIN_ENTITY_ID {
        lemma_free_ids_unchanged(reg, hi - 1, id);
    }
}

/// When every id below `hi` is issued, none is free there.
proof fn lemma_no_free_ids(reg: Set<EntityId>, hi: int)
    requires
        hi <= MAX_ENTITY_ID + 1,
        forall|id: EntityId| MIN_ENTITY_ID <= id < hi ==> reg.contains(id),
    ensures
        free_ids_below(reg, hi) == 0,
    decreases hi - MIN_ENTITY_ID,
{
    if hi > MIN_ENTITY_ID {
        assert(reg.contains((hi - 1) as u64));
        lemma_no_free_ids(reg, hi - 1);
    }
}

/// Whether some class of `pool` has the id `c`.
pub open spec fn has_class_id(pool: Seq<Class>, c: ClassId) -> bool {
    exists|i: int| 0 <= i < pool.len() && #[trigger] pool[i].id == c
}

/// How many distinct class ids of `pool` are not given to anyone yet.
pub open spec fn free_class_count(pool: Seq<Class>, reg: Set<ClassId>) -> nat
    decreases pool.len(),
{
    if pool.len() == 0 {
        0
    } else {
        free_class_count(pool.drop_last(), reg.insert(pool.last().id)) + if reg.contains(
            pool.last().id,
        ) {
            0nat
        } else {
            1nat
        }
    }
}

/// Giving out a class id lowers the count of a pool by one when the pool
/// has that id and it was free, and leaves it as it was otherwise.
proof fn lemma_free_classes_insert(pool: Seq<Class>, reg: Set<ClassId>, c: ClassId)
    ensures
        free_class_count(pool, reg.insert(c)) as int == free_class_count(pool, reg) as int - if !reg.contains(c)
            && has_class_id(pool, c) {
            1int
        } else {
            0int
        },
    decreases pool.len(),
{
    if pool.len() > 0 {
        let p2 = pool.drop_last();
        let d = pool.last().id;
        if d == c {
            assert(reg.insert(c).insert(c) =~= reg.insert(c));
            assert(pool[pool.len() - 1].id == c);
        } else {
            assert(reg.insert(c).insert(d) =~= reg.insert(d).insert(c));
            lemma_free_classes_insert(p2, reg.insert(d), c);
            if has_class_id(pool, c) {
                let i = choose|i: int| 0 <= i < pool.len() && #[trigger] pool[i].id == c;
                assert(i < pool.len() - 1);
                assert(p2[i].id == c);
            }
            if has_class_id(p2, c) {
                let i = choose|i: int| 0 <= i < p2.len() && #[trigger] p2[i].id == c;
                assert(pool[i].id == c);
            }
        }
    }
}

/// A pool with a free class count above zero holds a class not given out.
proof fn lemma_free_class_exists(pool: Seq<Class>, reg: Set<ClassId>)
    requires
        free_class_count(pool, reg) > 0,
    ensures
        exists|i: int| 0 <= i < pool.len() && !reg.contains(#[trigger] pool[i].id),
    decreases pool.len(),
{
    let p2 = pool.drop_last();
    let d = pool.last().id;
    if reg.contains(d) {
        lemma_free_class_exists(p2, reg.insert(d));
        let i = choose|i: int| 0 <= i < p2.len() && !reg.insert(d).contains(#[trigger] p2[i].id);
        assert(pool[i] == p2[i]);
    } else {
        assert(!reg.contains(pool[pool.len() - 1].id));
    }
}

/// A roster of `count` can be built whatever is drawn: enough entity ids
/// and enough damage-dealer and support classes are free, the two kinds of
/// class have distinct ids, and every class has a usable skill.
pub open spec fn roster_feasible(sim: FightSimulator, count: int) -> bool {
    let dps = sim.dps_classes@;
    let sup = sim.sup_classes@;
    &&& free_id_count(sim.registered_ids@) >= count
    &&& free_class_count(dps, sim.registered_class_ids@) >= count - count / 4
    &&& free_class_count(sup, sim.registered_class_ids@) >= count / 4
    &&& forall|i: int, j: int|
        0 <= i < dps.len() && 0 <= j < sup.len() ==> #[trigger] dps[i].id != #[trigger] sup[j].id
    &&& forall|i: int|
        0 <= i < dps.len() ==> sim.skills@.filter(of_class(#[trigger] dps[i].id)).len() > 0
    &&& forall|i: int|
        0 <= i < sup.len() ==> sim.skills@.filter(of_class(#[trigger] sup[i].id)).len() > 0
}

/// Slot `index` (0-based) is a support slot when `index + 1` is a multiple of
/// four; the first `n` slots hold `n / 4` supports.
proof fn lemma_slot_counts(index: int, count: int)
    requires
        0 <= index < count,
    ensures
        (index + 1) % 4 == 0 ==> (index + 1) / 4 == index / 4 + 1 && (index + 1) / 4 <= count / 4,
        (index + 1) % 4 != 0 ==> (index + 1) / 4 == index / 4 && (index + 1) - (index + 1) / 4
            <= count - count / 4,
{
    assert((index + 1) % 4 == 0 ==> (index + 1) / 4 == index / 4 + 1) by (nonlinear_arith)
        requires
            0 <= index,
    ;
    assert((index + 1) % 4 != 0 ==> (index + 1) / 4 == index / 4) by (nonlinear_arith)
        requires
            0 <= index,
    ;
    assert((index + 1) / 4 <= count / 4) by (nonlinear_arith)
        requires
            0 <= index < count,
    ;
    assert((index + 1) - (index + 1) / 4 <= count - count / 4) by (nonlinear_arith)
        requires
            0 <= index < count,
    ;
}

/// A pick of up to `SKILLS_PER_PLAYER` skills from `pool` without
/// replacement: the first ones of some permutation of the pool.
pub open spec fn is_skill_pick(r: Seq<Skill>, pool: Seq<RawSkill>) -> bool {
    exists|p: Seq<RawSkill>|
        {
            &&& p.to_multiset() == pool.to_multiset()
            &&& p.len() == pool.len()
            &&& r.len() == if pool.len() < SKILLS_PER_PLAYER {
                pool.len()
            } else {
                SKILLS_PER_PLAYER as nat
            }
            &&& forall|i: int| 0 <= i < r.len() ==> #[trigger] r[i] == skill_of(p[i])
        }
}

/// Picks up to `SKILLS_PER_PLAYER` skills of a pool of usable entries, in a
/// random order and without replacement.
pub fn get_random_skills_for_class(class_skills: &mut Vec<RawSkill>) -> (r: Vec<Skill>)
    requires
        forall|i: int| 0 <= i < old(class_skills)@.len() ==> is_usable(#[trigger] old(class_skills)@[i]),
    ensures
        is_skill_pick(r@, old(class_skills)@),
        r@.len() <= SKILLS_PER_PLAYER,
        final(class_skills)@.len() == old(class_skills)@.len(),
        final(class_skills)@.to_multiset() == old(class_skills)@.to_multiset(),
{
    let ghost pool = class_skills@;
    shuffle(class_skills);
    let count: usize = if class_skills.len() < SKILLS_PER_PLAYER {
        class_skills.len()
    } else {
        SKILLS_PER_PLAYER
    };
    let mut skills: Vec<Skill> = Vec::new();
    let mut i: usize = 0;
    while i < count
        invariant
            count <= class_skills@.len(),
            class_skills@.to_multiset() == pool.to_multiset(),
            forall|j: int| 0 <= j < pool.len() ==> is_usable(#[trigger] pool[j]),
            i <= count,
            skills@.len() == i,
            forall|j: int| 0 <= j < i ==> #[trigger] skills@[j] == skill_of(class_skills@[j]),
        decreases count - i,
    {
        assert(class_skills@.contains(class_skills@[i as int]));
        assert(pool.to_multiset().count(class_skills@[i as int]) > 0);
        assert(pool.contains(class_skills@[i as int]));
        skills.push(class_skills[i].to_skill());
        i = i + 1;
    }
    skills
}

/// `classes` holds a class with the player's class id and name.
pub open spec fn has_class_of(classes: Seq<Class>, p: Player) -> bool {
    exists|j: int|
        0 <= j < classes.len() && #[trigger] classes[j].id == p.class_id && classes[j].name
            == p.class_name
}

/// A freshly created roster member at 0-based `index`: every fourth slot is a
/// support with the fixed template, the others deal damage in the given
/// range; the skills are a pick from the class's usable skills.
pub open spec fn is_new_member(
    p: PlayerWithTemplate,
    index: int,
    min_dmg: i64,
    max_dmg: i64,
    sim: FightSimulator,
) -> bool {
    &&& p.entity.stats.total_damage == 0
    &&& p.entity.stats.damage_taken == 0
    &&& p.entity.stats.skills.hit_count == 0
    &&& p.entity.stats.skills.skill@.len() == 0
    &&& !p.entity.death_log.is_dead
    &&& is_nickname(p.entity.name@, 10)
    &&& is_skill_pick(p.template.skills@, sim.skills@.filter(of_class(p.entity.class_id)))
    &&& if (index + 1) % 4 == 0 {
        &&& has_class_of(sim.sup_classes@, p.entity)
        &&& p.template.crit_rate == SUPPORT_CRIT_RATE
        &&& p.template.min_dmg == SUPPORT_MIN_DAMAGE
        &&& p.template.max_dmg == SUPPORT_MAX_DAMAGE
    } else {
        &&& has_class_of(sim.dps_classes@, p.entity)
        &&& DPS_MIN_CRIT_RATE <= p.template.crit_rate <= RATIO_SCALE
        &&& p.template.min_dmg == min_dmg
        &&& p.template.max_dmg == max_dmg
    }
}

/// Players have distinct entity ids and distinct classes.
pub open spec fn roster_distinct(players: Seq<PlayerWithTemplate>) -> bool {
    forall|i: int, j: int|
        0 <= i < j < players.len() ==> {
            &&& players[i].entity.id != players[j].entity.id
            &&& players[i].entity.class_id != players[j].entity.class_id
        }
}

impl FightSimulator {
    /// Whether `id` is in the range entity ids are drawn from.
    pub open spec fn id_in_range(id: EntityId) -> bool {
        MIN_ENTITY_ID <= id <= MAX_ENTITY_ID
    }

    /// Everything but the registries of issued ids and classes is the same.
    pub open spec fn same_fight(&self, other: Self) -> bool {
        &&& self.players == other.players
        &&& self.esthers == other.esthers
        &&& self.boss == other.boss
        &&& self.stats == other.stats
        &&& self.has_fight_ended == other.has_fight_ended
        &&& self.current_time == other.current_time
        &&& self.fight_started_on == other.fight_started_on
        &&& self.updated_esther_gauge_on == other.updated_esther_gauge_on
        &&& self.last_used_esther_on == other.last_used_esther_on
        &&& self.duration == other.duration
        &&& self.esther_gauge == other.esther_gauge
        &&& self.skills == other.skills
        &&& self.dps_classes == other.dps_classes
        &&& self.sup_classes == other.sup_classes
    }

    /// Draws an entity id that has not been issued yet and records it. Draws
    /// are retried on collision; after `RANDOM_DRAWS` collisions the range is
    /// searched in order, and an exhausted range is an error.
    pub fn get_random_unique_entity_id(&mut self) -> (r: Result<EntityId, SetupError>)
        ensures
            match r {
                Ok(id) => {
                    &&& Self::id_in_range(id)
                    &&& !old(self).registered_ids@.contains(id)
                    &&& final(self).registered_ids@ == old(self).registered_ids@.insert(id)
                },
                Err(e) => {
                    &&& e == SetupError::IdsExhausted
                    &&& final(self).registered_ids@ == old(self).registered_ids@
                },
            },
            r is Err <==> forall|id: EntityId|
                Self::id_in_range(id) ==> old(self).registered_ids@.contains(id),
            final(self).same_fight(*old(self)),
            final(self).registered_class_ids@ == old(self).registered_class_ids@,
    {
        let mut draws: u32 = 0;
        while draws < RANDOM_DRAWS
            invariant
                self.registered_ids@ == old(self).registered_ids@,
                self.same_fight(*old(self)),
                self.registered_class_ids@ == old(self).registered_class_ids@,
            decreases RANDOM_DRAWS - draws,
        {
            let value = random_between(MIN_ENTITY_ID as i64, MAX_ENTITY_ID as i64) as u64;
            if !self.registered_ids.contains(&value) {
                self.registered_ids.insert(value);
                return Ok(value);
            }
            draws = draws + 1;
        }
        let mut value: u64 = MIN_ENTITY_ID;
        while value <= MAX_ENTITY_ID
            invariant
                MIN_ENTITY_ID <= value <= MAX_ENTITY_ID + 1,
                forall|id: EntityId|
                    MIN_ENTITY_ID <= id < value ==> self.registered_ids@.contains(id),
                self.registered_ids@ == old(self).registered_ids@,
                self.same_fight(*old(self)),
                self.registered_class_ids@ == old(self).registered_class_ids@,
            decreases MAX_ENTITY_ID + 1 - value,
        {
            if !self.registered_ids.contains(&value) {
                self.registered_ids.insert(value);
                return Ok(value);
            }
            value = value + 1;
        }
        Err(SetupError::IdsExhausted)
    }

    /// A class of `pool` not given to anyone yet, recorded as given. Draws
    /// are retried on collision; after `RANDOM_DRAWS` collisions the pool is
    /// searched in order, and a pool with no free class is an error.
    fn take_class(pool: &Vec<Class>, registered: &mut HashSet<ClassId>) -> (r: Result<
        Class,
        SetupError,
    >)
        ensures
            match r {
                Ok(c) => {
                    &&& pool@.contains(c)
                    &&& !old(registered)@.contains(c.id)
                    &&& final(registered)@ == old(registered)@.insert(c.id)
                },
                Err(e) => {
                    &&& e == SetupError::ClassesExhausted
                    &&& final(registered)@ == old(registered)@
                },
            },
            r is Err <==> forall|i: int|
                0 <= i < pool@.len() ==> old(registered)@.contains(#[trigger] pool@[i].id),
    {
        if pool.len() > 0 {
            let mut draws: u32 = 0;
            while draws < RANDOM_DRAWS
                invariant
                    pool@.len() > 0,
                    registered@ == old(registered)@,
                decreases RANDOM_DRAWS - draws,
            {
                let k = random_index(pool.len());
                let id = pool[k].id;
                if !registered.contains(&id) {
                    registered.insert(id);
                    return Ok(pool[k].duplicate());
                }
                draws = draws + 1;
            }
        }
        let mut i: usize = 0;
        while i < pool.len()
            invariant
                i <= pool@.len(),
                registered@ == old(registered)@,
                forall|j: int| 0 <= j < i ==> registered@.contains(#[trigger] pool@[j].id),
            decreases pool@.len() - i,
        {
            let id = pool[i].id;
            if !registered.contains(&id) {
                registered.insert(id);
                return Ok(pool[i].duplicate());
            }
            i = i + 1;
        }
        Err(SetupError::ClassesExhausted)
    }

    /// The catalog's usable skills of a class, in catalog order.
    pub fn class_skills(&self, class_id: ClassId) -> (r: Vec<RawSkill>)
        requires
            forall|i: int| 0 <= i < self.skills@.len() ==> is_usable(#[trigger] self.skills@[i]),
        ensures
            r@ == self.skills@.filter(of_class(class_id)),
            forall|i: int| 0 <= i < r@.len() ==> is_usable(#[trigger] r@[i]),
    {
        let mut out: Vec<RawSkill> = Vec::new();
        let mut i: usize = 0;
        while i < self.skills.len()
            invariant
                i <= self.skills@.len(),
                out@ == self.skills@.take(i as int).filter(of_class(class_id)),
                forall|j: int| 0 <= j < self.skills@.len() ==> is_usable(#[trigger] self.skills@[j]),
                forall|j: int| 0 <= j < out@.len() ==> is_usable(#[trigger] out@[j]),
            decreases self.skills@.len() - i,
        {
            proof {
                reveal(Seq::filter);
                assert(self.skills@.take(i as int + 1).drop_last() =~= self.skills@.take(i as int));
            }
            let matches_class = match self.skills[i].class_id {
                Some(c) => c == class_id,
                None => false,
            };
            if matches_class {
                out.push(self.skills[i].duplicate());
            }
            i = i + 1;
        }
        proof {
            assert(self.skills@.take(i as int) =~= self.skills@);
        }
        out
    }

    /// Everything but the roster and the registries is the same.
    pub open spec fn same_setup(&self, other: Self) -> bool {
        &&& self.esthers == other.esthers
        &&& self.boss == other.boss
        &&& self.stats == other.stats
        &&& self.has_fight_ended == other.has_fight_ended
        &&& self.current_time == other.current_time
        &&& self.fight_started_on == other.fight_started_on
        &&& self.updated_esther_gauge_on == other.updated_esther_gauge_on
        &&& self.last_used_esther_on == other.last_used_esther_on
        &&& self.duration == other.duration
        &&& self.esther_gauge == other.esther_gauge
        &&& self.skills == other.skills
        &&& self.dps_classes == other.dps_classes
        &&& self.sup_classes == other.sup_classes
    }

    /// Builds a roster of `count` players, replacing any earlier one. Every
    /// fourth slot gets a support class, the others a damage-dealer class,
    /// each class given once; each player gets up to `SKILLS_PER_PLAYER`
    /// skills of its class and is created at the instant `now`. It succeeds
    /// whenever `roster_feasible` holds; otherwise the draws decide which
    /// error comes first. On error the roster is left as it was.
    pub fn create_players(
        &mut self,
        count: usize,
        min_dmg: i64,
        max_dmg: i64,
        now: Timestamp,
    ) -> (r: Result<
        (),
        SetupError,
    >)
        requires
            old(self).wf(),
            0 <= min_dmg <= max_dmg,
        ensures
            final(self).wf(),
            final(self).same_setup(*old(self)),
            r is Ok ==> {
                &&& final(self).players@.len() == count
                &&& roster_distinct(final(self).players@)
                &&& forall|i: int|
                    0 <= i < count ==> is_new_member(
                        #[trigger] final(self).players@[i],
                        i,
                        min_dmg,
                        max_dmg,
                        *final(self),
                    )
            },
            r is Err ==> final(self).players == old(self).players,
            roster_feasible(*old(self), count as int) ==> r is Ok,
            r == Err::<(), SetupError>(SetupError::IdsExhausted) ==> forall|id: EntityId|
                Self::id_in_range(id) ==> final(self).registered_ids@.contains(id),
            r == Err::<(), SetupError>(SetupError::ClassesExhausted) ==> {
                ||| forall|i: int|
                    0 <= i < old(self).dps_classes@.len() ==> final(self).registered_class_ids@.contains(
                        #[trigger] old(self).dps_classes@[i].id,
                    )
                ||| forall|i: int|
                    0 <= i < old(self).sup_classes@.len() ==> final(self).registered_class_ids@.contains(
                        #[trigger] old(self).sup_classes@[i].id,
                    )
            },
            match r {
                Err(SetupError::NoUsableSkills { class_id, class_name: _ }) => {
                    &&& old(self).skills@.filter(of_class(class_id)).len() == 0
                    &&& has_class_id(old(self).dps_classes@, class_id) || has_class_id(
                        old(self).sup_classes@,
                        class_id,
                    )
                },
                _ => true,
            },
    {
        let ghost feasible = roster_feasible(*old(self), count as int);
        let mut players: Vec<PlayerWithTemplate> = Vec::new();
        let mut index: usize = 0;
        while index < count
            invariant
                self.wf(),
                self.same_setup(*old(self)),
                self.players == old(self).players,
                0 <= min_dmg <= max_dmg,
                index <= count,
                players@.len() == index,
                roster_distinct(players@),
                feasible == roster_feasible(*old(self), count as int),
                feasible ==> free_id_count(self.registered_ids@) >= count - index,
                feasible ==> free_class_count(self.dps_classes@, self.registered_class_ids@) >= (
                count - count / 4) - (index - index / 4),
                feasible ==> free_class_count(self.sup_classes@, self.registered_class_ids@)
                    >= count / 4 - index / 4,
                forall|i: int|
                    0 <= i < index ==> {
                        &&& self.registered_ids@.contains(#[trigger] players@[i].entity.id)
                        &&& self.registered_class_ids@.contains(players@[i].entity.class_id)
                        &&& player_ok(players@[i], self.stats)
                        &&& shares_ok(players@[i].entity, self.stats)
                        &&& is_new_member(players@[i], i, min_dmg, max_dmg, *self)
                    },
            decreases count - index,
        {
            proof {
                lemma_slot_counts(index as int, count as int);
                if feasible {
                    if forall|id: EntityId| Self::id_in_range(id) ==> self.registered_ids@.contains(id) {
                        assert forall|id: EntityId|
                            MIN_ENTITY_ID <= id < MAX_ENTITY_ID + 1 implies self.registered_ids@.contains(
                            id,
                        ) by {
                            assert(Self::id_in_range(id));
                        }
                        lemma_no_free_ids(self.registered_ids@, MAX_ENTITY_ID + 1);
                    }
                }
            }
            let ghost ids_before = self.registered_ids@;
            let id = match self.get_random_unique_entity_id() {
                Ok(id) => id,
                Err(e) => return Err(e),
            };
            proof {
                lemma_free_ids_insert(ids_before, MAX_ENTITY_ID + 1, id);
            }
            let name = get_random_nickname(10);
            let ghost classes_before = self.registered_class_ids@;
            proof {
                if feasible {
                    if (index + 1) % 4 == 0 {
                        lemma_free_class_exists(self.sup_classes@, classes_before);
                    } else {
                        lemma_free_class_exists(self.dps_classes@, classes_before);
                    }
                }
            }
            let is_support_slot = (index + 1) % 4 == 0;
            let picked = if is_support_slot {
                Self::take_class(&self.sup_classes, &mut self.registered_class_ids)
            } else {
                Self::take_class(&self.dps_classes, &mut self.registered_class_ids)
            };
            let class = match picked {
                Ok(c) => c,
                Err(e) => return Err(e),
            };
            proof {
                let own = if is_support_slot {
                    self.sup_classes@
                } else {
                    self.dps_classes@
                };
                let other = if is_support_slot {
                    self.dps_classes@
                } else {
                    self.sup_classes@
                };
                let k = choose|k: int| 0 <= k < own.len() && #[trigger] own[k] == class;
                assert(own[k].id == class.id);
                assert(has_class_id(own, class.id));
                lemma_free_classes_insert(own, classes_before, class.id);
                lemma_free_classes_insert(other, classes_before, class.id);
                if feasible {
                    if has_class_id(other, class.id) {
                        let j = choose|j: int| 0 <= j < other.len() && #[trigger] other[j].id == class.id;
                        if is_support_slot {
                            assert(self.dps_classes@[j].id != self.sup_classes@[k].id);
                        } else {
                            assert(self.dps_classes@[k].id != self.sup_classes@[j].id);
                        }
                    }
                    assert(self.skills@.filter(of_class(own[k].id)).len() > 0);
                }
            }
            let mut pool = self.class_skills(class.id);
            let skills = get_random_skills_for_class(&mut pool);
            if skills.len() == 0 {
                return Err(SetupError::NoUsableSkills { class_id: class.id, class_name: class.name });
            }
            let template = if is_support_slot {
                PlayerTemplate {
                    skills,
                    crit_rate: SUPPORT_CRIT_RATE,
                    min_dmg: SUPPORT_MIN_DAMAGE,
                    max_dmg: SUPPORT_MAX_DAMAGE,
                }
            } else {
                PlayerTemplate {
                    skills,
                    crit_rate: random_between(DPS_MIN_CRIT_RATE, RATIO_SCALE),
                    min_dmg,
                    max_dmg,
                }
            };
            let player = Player {
                id,
                name,
                class_color: String::from_str("#FFFFFF"),
                class_name: class.name,
                class_id: class.id,
                created_on: now,
                stats: PlayerStats::empty(),
                death_log: DeathLog { is_dead: false, death_count: 0, recorded_on: None, duration: None },
            };
            let member = PlayerWithTemplate { entity: player, template };
            proof {
                let classes = if is_support_slot {
                    self.sup_classes@
                } else {
                    self.dps_classes@
                };
                let k = choose|k: int| 0 <= k < classes.len() && #[trigger] classes[k] == class;
                assert(classes[k].id == member.entity.class_id);
                assert(is_new_member(member, index as int, min_dmg, max_dmg, *self));
                assert forall|i: int| 0 <= i < index implies {
                    &&& players@[i].entity.id != member.entity.id
                    &&& players@[i].entity.class_id != member.entity.class_id
                } by {
                    assert(self.registered_ids@.contains(players@[i].entity.id));
                }
            }
            players.push(member);
            index = index + 1;
        }
        self.players = players;
        assert forall|i: int| 0 <= i < self.players@.len() implies player_ok(
            #[trigger] self.players@[i],
            self.stats,
        ) && shares_ok(self.players@[i].entity, self.stats) by {
            assert(self.registered_ids@.contains(self.players@[i].entity.id));
        }
        assert forall|i: int| 0 <= i < count implies is_new_member(
            #[trigger] self.players@[i],
            i,
            min_dmg,
            max_dmg,
            *self,
        ) by {
            assert(self.registered_ids@.contains(self.players@[i].entity.id));
        }
        Ok(())
    }

    /// Builds the usual roster of eight players.
    pub fn create_8_players(&mut self, min_dmg: i64, max_dmg: i64, now: Timestamp) -> (r: Result<
        (),
        SetupError,
    >)
        requires
            old(self).wf(),
            0 <= min_dmg <= max_dmg,
        ensures
            final(self).wf(),
            final(self).same_setup(*old(self)),
            r is Ok ==> {
                &&& final(self).players@.len() == 8
                &&& roster_distinct(final(self).players@)
                &&& forall|i: int|
                    0 <= i < 8 ==> is_new_member(
                        #[trigger] final(self).players@[i],
                        i,
                        min_dmg,
                        max_dmg,
                        *final(self),
                    )
            },
            r is Err ==> final(self).players == old(self).players,
            roster_feasible(*old(self), 8) ==> r is Ok,
            r == Err::<(), SetupError>(SetupError::IdsExhausted) ==> forall|id: EntityId|
                Self::id_in_range(id) ==> final(self).registered_ids@.contains(id),
            r == Err::<(), SetupError>(SetupError::ClassesExhausted) ==> {
                ||| forall|i: int|
                    0 <= i < old(self).dps_classes@.len() ==> final(self).registered_class_ids@.contains(
                        #[trigger] old(self).dps_classes@[i].id,
                    )
                ||| forall|i: int|
                    0 <= i < old(self).sup_classes@.len() ==> final(self).registered_class_ids@.contains(
                        #[trigger] old(self).sup_classes@[i].id,
                    )
            },
            match r {
                Err(SetupError::NoUsableSkills { class_id, class_name: _ }) => {
                    &&& old(self).skills@.filter(of_class(class_id)).len() == 0
                    &&& has_class_id(old(self).dps_classes@, class_id) || has_class_id(
                        old(self).sup_classes@,
                        class_id,
                    )
                },
                _ => true,
            },
    {
        self.create_players(8, min_dmg, max_dmg, now)
    }

    /// Marks a roster member dead as of the instant `now`, with no time spent
    /// dead yet.
    pub fn set_player_dead(&mut self, index: usize, now: Timestamp)
        requires
            old(self).wf(),
            index < old(self).players@.len(),
            now >= 0,
        ensures
            final(self).wf(),
            final(self).players@.len() == old(self).players@.len(),
            final(self).players@[index as int].entity.death_log.is_dead,
            final(self).players@[index as int].entity.death_log.recorded_on == Some(now),
            final(self).players@[index as int].entity.death_log.duration == Some(0i64),
            final(self).players@[index as int].entity.death_log.death_count == old(
                self,
            ).players@[index as int].entity.death_log.death_count,
            final(self).players@[index as int].entity.stats == old(
                self,
            ).players@[index as int].entity.stats,
            forall|i: int|
                0 <= i < old(self).players@.len() && i != index ==> final(self).players@[i] == old(
                    self,
                ).players@[i],
            final(self).boss == old(self).boss,
            final(self).esthers == old(self).esthers,
            final(self).stats == old(self).stats,
    {
        let death_log = &mut self.players[index].entity.death_log;
        death_log.is_dead = true;
        death_log.recorded_on = Some(now);
        death_log.duration = Some(0);
    }

    /// Marks a randomly chosen roster member dead as of the instant `now`.
    pub fn set_random_player_dead(&mut self, now: Timestamp)
        requires
            old(self).wf(),
            old(self).players@.len() > 0,
            now >= 0,
        ensures
            final(self).wf(),
            final(self).players@.len() == old(self).players@.len(),
            exists|index: int|
                0 <= index < old(self).players@.len() && {
                    &&& #[trigger] final(self).players@[index].entity.death_log.is_dead
                    &&& final(self).players@[index].entity.death_log.recorded_on == Some(now)
                    &&& forall|i: int|
                        0 <= i < old(self).players@.len() && i != index
                            ==> final(self).players@[i] == old(self).players@[i]
                },
            final(self).boss == old(self).boss,
            final(self).esthers == old(self).esthers,
            final(self).stats == old(self).stats,
    {
        let index = random_index(self.players.len());
        self.set_player_dead(index, now);
    }

    /// Adds an auxiliary ability with its own entity id and zeroed counters.
    /// It fails exactly when every entity id is taken.
    pub fn configure_esther(&mut self, template: EstherTemplate) -> (r: Result<(), SetupError>)
        requires
            old(self).wf(),
            template.wf(),
        ensures
            final(self).wf(),
            r is Err <==> forall|id: EntityId|
                Self::id_in_range(id) ==> old(self).registered_ids@.contains(id),
            match r {
                Ok(()) => {
                    &&& final(self).esthers@.len() == old(self).esthers@.len() + 1
                    &&& final(self).esthers@.drop_last() == old(self).esthers@
                    &&& final(self).esthers@.last().template == template
                    &&& final(self).esthers@.last().entity.name == template.name
                    &&& final(self).esthers@.last().entity.icon == template.icon
                    &&& final(self).esthers@.last().entity.stats.total_damage == 0
                    &&& Self::id_in_range(final(self).esthers@.last().entity.id)
                    &&& !old(self).registered_ids@.contains(final(self).esthers@.last().entity.id)
                },
                Err(e) => {
                    &&& e == SetupError::IdsExhausted
                    &&& final(self).esthers == old(self).esthers
                },
            },
            final(self).players == old(self).players,
            final(self).boss == old(self).boss,
            final(self).stats == old(self).stats,
    {
        let id = match self.get_random_unique_entity_id() {
            Ok(id) => id,
            Err(e) => return Err(e),
        };
        let esther = Esther {
            id,
            name: template.name.clone(),
            icon: template.icon.clone(),
            stats: EstherStats { total_damage: 0, damage_percentage: 0 },
        };
        self.esthers.push(EstherWithTemplate { entity: esther, template });
        proof {
            assert(self.esthers@.drop_last() =~= old(self).esthers@);
            assert forall|i: int| 0 <= i < self.esthers@.len() implies esther_ok(
                #[trigger] self.esthers@[i],
                self.stats,
            ) by {
                if i < old(self).esthers@.len() {
                    assert(self.esthers@[i] == old(self).esthers@[i]);
                }
            }
        }
        Ok(())
    }

    /// Creates the boss at full health, created at the instant `now`, with
    /// bars of `max_hp / hp_bars` each. A boss is created once; creation fails
    /// exactly when every entity id is taken.
    pub fn create_boss(
        &mut self,
        npc_id: NpcId,
        name: &str,
        max_hp: i64,
        hp_bars: i64,
        now: Timestamp,
    ) -> (r: Result<(), SetupError>)
        requires
            old(self).wf(),
            old(self).boss is None,
            max_hp >= 0,
            hp_bars >= 0,
        ensures
            final(self).wf(),
            r is Err <==> forall|id: EntityId|
                Self::id_in_range(id) ==> old(self).registered_ids@.contains(id),
            match r {
                Ok(()) => {
                    let b = final(self).boss->0;
                    &&& final(self).boss is Some
                    &&& b.npc_id == npc_id
                    &&& b.name@ == name@
                    &&& b.created_on == now
                    &&& b.stats.max_hp == max_hp
                    &&& b.stats.hp == max_hp
                    &&& b.stats.max_hp_bars == hp_bars
                    &&& b.stats.hp_per_bar == quotient_or_zero(max_hp as int, hp_bars as int)
                    &&& b.stats.hp_bars == quotient_or_zero(max_hp as int, b.stats.hp_per_bar as int)
                    &&& b.stats.hp_percentage == ratio_of(max_hp as int, max_hp as int)
                    &&& b.stats.shield_hp == 0
                    &&& b.stats.damage_taken == 0
                    &&& b.stats.total_damage_dealt == 0
                    &&& b.stats.updated_on == now
                    &&& Self::id_in_range(b.id)
                    &&& !old(self).registered_ids@.contains(b.id)
                },
                Err(e) => {
                    &&& e == SetupError::IdsExhausted
                    &&& final(self).boss is None
                },
            },
            final(self).players == old(self).players,
            final(self).esthers == old(self).esthers,
            final(self).stats == old(self).stats,
    {
        let id = match self.get_random_unique_entity_id() {
            Ok(id) => id,
            Err(e) => return Err(e),
        };
        let boss = Boss {
            id,
            npc_id,
            name: String::from_str(name),
            stats: new_boss_stats(max_hp, hp_bars, now),
            created_on: now,
        };
        self.boss = Some(boss);
        Ok(())
    }
}

} // verus!
