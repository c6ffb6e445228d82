//! The encounter: its state and the invariant that every operation keeps,
//! construction over a catalog, the tick, and the snapshot it exports.

use crate::catalog::{is_usable, Class, RawSkill};
use crate::combat::PlayerWithTemplate;
use crate::format::ratio_of;
use crate::models::{
    zero_dps, Boss, ClassId, Dps, EncounterStats, EntityId, Esther, FightUpdate, Player,
    Timestamp,
};
use crate::format::capped_sum;
use crate::tick::{
    attacks_resolved, esther_fired, hit_counter_full, hits_record, player_grows, someone_alive,
    taken_record,
};
use std::collections::HashSet;
use vstd::prelude::*;

verus! {

broadcast use {vstd::std_specs::hash::group_hash_axioms, vstd::seq_lib::group_to_multiset_ensures};

/// Entity ids are drawn from `MIN_ENTITY_ID..=MAX_ENTITY_ID`.
pub const MIN_ENTITY_ID: u64 = 10_000;

pub const MAX_ENTITY_ID: u64 = 100_000;

/// How many random draws are tried before a free value is searched for in
/// order.
pub const RANDOM_DRAWS: u32 = 32;

/// The esther gauge counts charge units: one per millisecond of fight, so
/// that a bar (`GAUGE_UNITS_PER_BAR`) fills in eighty seconds.
pub const GAUGE_UNITS_PER_BAR: i64 = 80_000;

/// The gauge holds two bars when the fight starts.
pub const GAUGE_START: i64 = 2 * GAUGE_UNITS_PER_BAR;

/// What the first accrual adds, one second's worth of charge.
pub const GAUGE_FIRST_ACCRUAL: i64 = 1_000;

/// An activation spends three bars.
pub const GAUGE_COST: i64 = 3 * GAUGE_UNITS_PER_BAR;

/// Range of the boss's counter-attack damage.
pub const BOSS_MIN_DAMAGE: i64 = 10_000;

pub const BOSS_MAX_DAMAGE: i64 = 20_000;

/// Supports always use this critical rate and damage range.
pub const SUPPORT_CRIT_RATE: i64 = 100_000;

pub const SUPPORT_MIN_DAMAGE: i64 = 10_000;

pub const SUPPORT_MAX_DAMAGE: i64 = 100_000;

/// Damage dealers draw their critical rate from `DPS_MIN_CRIT_RATE..=RATIO_SCALE`.
pub const DPS_MIN_CRIT_RATE: i64 = 500_000;

/// The most skills a player is given.
pub const SKILLS_PER_PLAYER: usize = 8;

/// Errors of the configuration that precedes the fight.
#[derive(Clone, Debug, PartialEq)]
pub enum SetupError {
    /// Every entity id of the range is taken.
    IdsExhausted,
    /// Every class of the requested kind is taken.
    ClassesExhausted,
    /// The catalog has no usable skill for the class.
    NoUsableSkills { class_id: ClassId, class_name: String },
}

/// Errors of a tick.
#[derive(Clone, Copy, Debug, PartialEq, Eq, Structural)]
pub enum SimError {
    /// No boss has been created.
    BossUnset,
    /// A hit counter of a player is at its largest value.
    CounterLimit,
}

/// The auxiliary ability's private damage range, with its display name and
/// icon.
#[derive(Clone, Debug, PartialEq)]
pub struct EstherTemplate {
    pub name: String,
    pub icon: String,
    pub min_dmg: i64,
    pub max_dmg: i64,
}

impl EstherTemplate {
    pub open spec fn wf(&self) -> bool {
        0 <= self.min_dmg <= self.max_dmg
    }
}

#[derive(Clone, Debug, PartialEq)]
pub struct EstherWithTemplate {
    pub entity: Esther,
    pub template: EstherTemplate,
}

/// An encounter: the catalog it draws players from, the roster with each
/// player's template, the boss, the esthers, the clock and the encounter's
/// totals. Every operation keeps `wf`.
pub struct FightSimulator {
    /// Every entity id issued so far.
    pub registered_ids: HashSet<EntityId>,
    /// The usable skills of the catalog.
    pub skills: Vec<RawSkill>,
    /// Classes that are neither supports nor generic.
    pub dps_classes: Vec<Class>,
    pub sup_classes: Vec<Class>,
    /// Every class given to a player so far.
    pub registered_class_ids: HashSet<ClassId>,
    pub players: Vec<PlayerWithTemplate>,
    pub esthers: Vec<EstherWithTemplate>,
    /// In charge units, see `GAUGE_UNITS_PER_BAR`.
    pub esther_gauge: i64,
    pub updated_esther_gauge_on: Option<Timestamp>,
    pub last_used_esther_on: Option<Timestamp>,
    pub boss: Option<Boss>,
    pub has_fight_ended: bool,
    pub current_time: Timestamp,
    pub fight_started_on: Option<Timestamp>,
    /// Milliseconds since the fight started.
    pub duration: i64,
    pub stats: EncounterStats,
}

/// Encounter totals are never negative.
pub open spec fn encounter_ok(enc: EncounterStats) -> bool {
    &&& enc.total_player_damage >= 0
    &&& enc.total_esther_damage >= 0
    &&& enc.total_taken_damage >= 0
    &&& enc.top_damage >= 0
}

/// A roster member whose counters are consistent and bounded by the
/// encounter's totals.
pub open spec fn player_ok(p: PlayerWithTemplate, enc: EncounterStats) -> bool {
    &&& p.template.wf()
    &&& p.entity.stats.wf()
    &&& p.entity.stats.total_damage <= enc.total_player_damage
    &&& p.entity.stats.top_damage <= enc.top_damage
    &&& p.entity.stats.damage_taken <= enc.total_taken_damage
    &&& p.entity.death_log.recorded_on is Some ==> p.entity.death_log.recorded_on->0 >= 0
}

/// A player's shares of the encounter's dealt and taken damage.
pub open spec fn shares_ok(p: Player, enc: EncounterStats) -> bool {
    &&& p.stats.damage_percentage == ratio_of(
        p.stats.total_damage as int,
        enc.total_player_damage as int,
    )
    &&& p.stats.damage_taken_percentage == ratio_of(
        p.stats.damage_taken as int,
        enc.total_taken_damage as int,
    )
}

/// An esther with a valid damage range whose total and share agree with the
/// encounter's esther damage.
pub open spec fn esther_ok(e: EstherWithTemplate, enc: EncounterStats) -> bool {
    &&& e.template.wf()
    &&& 0 <= e.entity.stats.total_damage <= enc.total_esther_damage
    &&& e.entity.stats.damage_percentage == ratio_of(
        e.entity.stats.total_damage as int,
        enc.total_esther_damage as int,
    )
}

/// The boss's health accounts for all player damage, its dealt damage is the
/// damage the party took, and an ended fight has a dead boss.
pub open spec fn boss_ok(boss: Option<Boss>, enc: EncounterStats, ended: bool) -> bool {
    match boss {
        Some(b) => {
            &&& b.stats.wf()
            &&& enc.total_player_damage == b.stats.max_hp - b.stats.hp
            &&& b.stats.total_damage_dealt == enc.total_taken_damage
            &&& ended ==> b.stats.hp == 0
        },
        None => {
            &&& enc.total_player_damage == 0
            &&& enc.total_taken_damage == 0
            &&& !ended
        },
    }
}

/// Classes that deal damage: neither supports nor generic.
pub open spec fn is_dps_class() -> spec_fn(Class) -> bool {
    |c: Class| !c.is_support && !c.is_generic
}

pub open spec fn is_sup_class() -> spec_fn(Class) -> bool {
    |c: Class| c.is_support
}

pub open spec fn is_usable_skill() -> spec_fn(RawSkill) -> bool {
    |s: RawSkill| is_usable(s)
}

/// No counter that the encounter reports as growing has shrunk from `a` to
/// `b`: per player the dealt and taken damage, hits and critical hits; for
/// the encounter the player, esther and taken damage.
pub open spec fn grows(a: FightSimulator, b: FightSimulator) -> bool {
    &&& a.players@.len() == b.players@.len()
    &&& forall|i: int|
        0 <= i < a.players@.len() ==> player_grows(
            a.players@[i].entity,
            #[trigger] b.players@[i].entity,
        )
    &&& a.stats.total_player_damage <= b.stats.total_player_damage
    &&& a.stats.total_esther_damage <= b.stats.total_esther_damage
    &&& a.stats.total_taken_damage <= b.stats.total_taken_damage
}

/// Growth carries over a sequence of ticks: if no reported counter shrinks
/// from one state to the next, none shrinks from the first to the last.
pub proof fn lemma_grows_transitive(a: FightSimulator, b: FightSimulator, c: FightSimulator)
    requires
        grows(a, b),
        grows(b, c),
    ensures
        grows(a, c),
{
    assert forall|i: int| 0 <= i < a.players@.len() implies player_grows(
        a.players@[i].entity,
        #[trigger] c.players@[i].entity,
    ) by {
        assert(player_grows(a.players@[i].entity, b.players@[i].entity));
        assert(player_grows(b.players@[i].entity, c.players@[i].entity));
    }
}

/// `p` is a copy of some roster member.
pub open spec fn copied_from(p: Player, roster: Seq<PlayerWithTemplate>) -> bool {
    exists|j: int| 0 <= j < roster.len() && p.same_as(#[trigger] roster[j].entity)
}

/// The entity ids of a sequence of players, in order.
pub open spec fn player_ids(s: Seq<Player>) -> Seq<EntityId> {
    s.map_values(|p: Player| p.id)
}

/// The entity ids of a roster, in order.
pub open spec fn roster_ids(s: Seq<PlayerWithTemplate>) -> Seq<EntityId> {
    s.map_values(|p: PlayerWithTemplate| p.entity.id)
}

/// Reordering players reorders their ids: two sequences that hold the same
/// players, counted with repetition, hold the same ids.
pub proof fn lemma_reordered_players_same_ids(a: Seq<Player>, b: Seq<Player>)
    requires
        a.to_multiset() == b.to_multiset(),
    ensures
        player_ids(a).to_multiset() == player_ids(b).to_multiset(),
    decreases a.len(),
{
    if a.len() == 0 {
        assert(a.to_multiset().len() == 0);
        assert(b.to_multiset().len() == 0);
        assert(b.len() == 0);
        assert(player_ids(a) =~= player_ids(b));
    } else {
        let x = a.last();
        let a2 = a.drop_last();
        assert(a =~= a2.push(x));
        assert(a.to_multiset() =~= a2.to_multiset().insert(x));
        assert(b.to_multiset().count(x) > 0);
        assert(b.contains(x));
        let j = choose|j: int| 0 <= j < b.len() && b[j] == x;
        let b2 = b.remove(j);
        assert(b2.to_multiset() =~= b.to_multiset().remove(x));
        assert(a2.to_multiset() =~= b2.to_multiset());
        lemma_reordered_players_same_ids(a2, b2);
        assert(player_ids(a) =~= player_ids(a2).push(x.id));
        assert(player_ids(b2) =~= player_ids(b).remove(j));
        assert(player_ids(b)[j] == x.id);
        assert(player_ids(b2).to_multiset() =~= player_ids(b).to_multiset().remove(x.id));
        assert(player_ids(b).to_multiset().count(x.id) > 0) by {
            assert(player_ids(b).contains(x.id));
        }
        assert(player_ids(a).to_multiset() =~= player_ids(a2).to_multiset().insert(x.id));
    }
}

/// Relies on `slice::sort_unstable_by_key`: the players are reordered,
/// ascending by total damage.
#[verifier::external_body]
fn sort_by_total_damage(players: &mut Vec<Player>)
    ensures
        final(players)@.len() == old(players)@.len(),
        final(players)@.to_multiset() == old(players)@.to_multiset(),
        forall|i: int, j: int|
            0 <= i <= j < final(players)@.len() ==> final(players)@[i].stats.total_damage
                <= final(players)@[j].stats.total_damage,
{
    players.sort_unstable_by_key(|p| p.stats.total_damage)
}

impl FightSimulator {
    /// The encounter's invariant: the clock is never behind the instants it
    /// recorded, the catalog holds only usable skills, the boss's health
    /// accounts for all player damage, and every player and esther agrees
    /// with the encounter's totals.
    pub open spec fn wf(&self) -> bool {
        &&& self.current_time >= 0
        &&& self.fight_started_on is Some ==> 0 <= self.fight_started_on->0 <= self.current_time
        &&& self.updated_esther_gauge_on is Some ==> 0 <= self.updated_esther_gauge_on->0
            <= self.current_time
        &&& self.duration >= 0
        &&& self.esther_gauge >= 0
        &&& forall|i: int| 0 <= i < self.skills@.len() ==> is_usable(#[trigger] self.skills@[i])
        &&& encounter_ok(self.stats)
        &&& boss_ok(self.boss, self.stats, self.has_fight_ended)
        &&& forall|i: int|
            0 <= i < self.players@.len() ==> player_ok(#[trigger] self.players@[i], self.stats)
        &&& forall|i: int|
            0 <= i < self.players@.len() ==> shares_ok(
                (#[trigger] self.players@[i]).entity,
                self.stats,
            )
        &&& forall|i: int|
            0 <= i < self.esthers@.len() ==> esther_ok(#[trigger] self.esthers@[i], self.stats)
    }

    /// An encounter with no roster, boss or esther yet, over the given
    /// catalog: damage-dealer and support classes are sorted out and only
    /// usable skills are kept.
    pub fn new(classes: Vec<Class>, skills: Vec<RawSkill>) -> (r: FightSimulator)
        ensures
            r.wf(),
            r.dps_classes@ == classes@.filter(is_dps_class()),
            r.sup_classes@ == classes@.filter(is_sup_class()),
            r.skills@ == skills@.filter(is_usable_skill()),
            r.registered_ids@ == Set::<EntityId>::empty(),
            r.registered_class_ids@ == Set::<ClassId>::empty(),
            r.players@.len() == 0,
            r.esthers@.len() == 0,
            r.boss is None,
            !r.has_fight_ended,
            r.esther_gauge == GAUGE_START,
            r.updated_esther_gauge_on is None,
            r.last_used_esther_on is None,
            r.fight_started_on is None,
            r.current_time == 0,
            r.duration == 0,
            r.stats.total_player_damage == 0,
            r.stats.total_esther_damage == 0,
            r.stats.total_taken_damage == 0,
            r.stats.top_damage == 0,
            r.stats.party_dps == zero_dps(),
    {
        let mut dps_classes: Vec<Class> = Vec::new();
        let mut sup_classes: Vec<Class> = Vec::new();
        let mut i: usize = 0;
        while i < classes.len()
            invariant
                i <= classes@.len(),
                dps_classes@ == classes@.take(i as int).filter(is_dps_class()),
                sup_classes@ == classes@.take(i as int).filter(is_sup_class()),
            decreases classes@.len() - i,
        {
            proof {
                reveal(Seq::filter);
                assert(classes@.take(i as int + 1).drop_last() =~= classes@.take(i as int));
            }
            let c = &classes[i];
            if !c.is_support && !c.is_generic {
                dps_classes.push(c.duplicate());
            }
            if c.is_support {
                sup_classes.push(c.duplicate());
            }
            i = i + 1;
        }
        proof {
            assert(classes@.take(i as int) =~= classes@);
        }
        let mut usable: Vec<RawSkill> = Vec::new();
        let mut j: usize = 0;
        while j < skills.len()
            invariant
                j <= skills@.len(),
                usable@ == skills@.take(j as int).filter(is_usable_skill()),
                forall|k: int| 0 <= k < usable@.len() ==> is_usable(#[trigger] usable@[k]),
            decreases skills@.len() - j,
        {
            proof {
                reveal(Seq::filter);
                assert(skills@.take(j as int + 1).drop_last() =~= skills@.take(j as int));
            }
            if skills[j].usable() {
                usable.push(skills[j].duplicate());
            }
            j = j + 1;
        }
        proof {
            assert(skills@.take(j as int) =~= skills@);
        }
        FightSimulator {
            registered_ids: HashSet::new(),
            skills: usable,
            dps_classes,
            sup_classes,
            registered_class_ids: HashSet::new(),
            players: Vec::new(),
            esthers: Vec::new(),
            esther_gauge: GAUGE_START,
            updated_esther_gauge_on: None,
            last_used_esther_on: None,
            boss: None,
            has_fight_ended: false,
            current_time: 0,
            fight_started_on: None,
            duration: 0,
            stats: EncounterStats {
                duration_mmss: String::new(),
                time_to_kill_mmss: String::new(),
                party_dps: Dps::default(),
                top_damage: 0,
                total_player_damage: 0,
                total_esther_damage: 0,
                total_taken_damage: 0,
            },
        }
    }

    /// Whether the boss has been killed; no tick changes anything after that.
    pub fn has_ended(&self) -> (r: bool)
        ensures
            r == self.has_fight_ended,
    {
        self.has_fight_ended
    }

    /// The snapshot of the encounter: its totals, the esthers in
    /// configuration order, copies of the players sorted by total damage and
    /// the boss. There is none before the boss is created.
    pub fn to_fight_update_event(&self) -> (r: Result<FightUpdate, SimError>)
        requires
            self.wf(),
        ensures
            r is Err <==> self.boss is None,
            r is Err ==> r == Err::<FightUpdate, SimError>(SimError::BossUnset),
            r is Ok ==> {
                let u = r->Ok_0;
                &&& u.stats == self.stats
                &&& u.boss == self.boss->0
                &&& u.boss.stats.wf()
                &&& u.esthers@.len() == self.esthers@.len()
                &&& forall|i: int|
                    0 <= i < u.esthers@.len() ==> #[trigger] u.esthers@[i] == self.esthers@[i].entity
                &&& u.players@.len() == self.players@.len()
                &&& player_ids(u.players@).to_multiset() == roster_ids(self.players@).to_multiset()
                &&& forall|i: int, j: int|
                    0 <= i <= j < u.players@.len() ==> u.players@[i].stats.total_damage
                        <= u.players@[j].stats.total_damage
                &&& forall|i: int|
                    0 <= i < u.players@.len() ==> copied_from(#[trigger] u.players@[i], self.players@)
                &&& forall|i: int| 0 <= i < u.players@.len() ==> (#[trigger] u.players@[i]).stats.wf()
            },
    {
        if self.boss.is_none() {
            return Err(SimError::BossUnset);
        }
        let mut esthers: Vec<Esther> = Vec::new();
        let mut k: usize = 0;
        while k < self.esthers.len()
            invariant
                k <= self.esthers@.len(),
                esthers@.len() == k,
                forall|j: int| 0 <= j < k ==> #[trigger] esthers@[j] == self.esthers@[j].entity,
            decreases self.esthers@.len() - k,
        {
            esthers.push(self.esthers[k].entity.duplicate());
            k = k + 1;
        }
        let mut players: Vec<Player> = Vec::new();
        let mut i: usize = 0;
        while i < self.players.len()
            invariant
                self.wf(),
                esthers@.len() == self.esthers@.len(),
                forall|j: int| 0 <= j < esthers@.len() ==> #[trigger] esthers@[j] == self.esthers@[j].entity,
                i <= self.players@.len(),
                players@.len() == i,
                forall|j: int|
                    0 <= j < i ==> (#[trigger] players@[j]).same_as(self.players@[j].entity),
            decreases self.players@.len() - i,
        {
            players.push(self.players[i].entity.duplicate());
            i = i + 1;
        }
        let ghost copies = players@;
        sort_by_total_damage(&mut players);
        let boss = match &self.boss {
            Some(b) => b.duplicate(),
            None => return Err(SimError::BossUnset),
        };
        proof {
            assert(players@.len() == self.players@.len());
            assert(boss.stats.wf());
            assert forall|i: int| 0 <= i < players@.len() implies copied_from(
                #[trigger] players@[i],
                self.players@,
            ) && players@[i].stats.wf() by {
                assert(players@.contains(players@[i]));
                assert(copies.to_multiset().count(players@[i]) > 0);
                assert(copies.contains(players@[i]));
                let j = choose|j: int| 0 <= j < copies.len() && copies[j] == players@[i];
                assert(player_ok(self.players@[j], self.stats));
                assert(copies[j].same_as(self.players@[j].entity));
                assert(0 <= j < self.players@.len() && players@[i].same_as(self.players@[j].entity));
            }
            assert(player_ids(copies) =~= roster_ids(self.players@)) by {
                assert forall|j: int| 0 <= j < copies.len() implies copies[j].id == self.players@[j].entity.id by {
                    assert(copies[j].same_as(self.players@[j].entity));
                }
            }
            lemma_reordered_players_same_ids(players@, copies);
        }
        let u = FightUpdate { stats: self.stats.duplicate(), esthers, players, boss };
        Ok(u)
    }

    /// One tick at the instant `now`: the clock, the gauge and the elapsed
    /// time advance, a batch of attacks is resolved, and a full gauge fires an
    /// esther. A tick after the boss died changes nothing.
    pub fn tick_at(&mut self, now: Timestamp) -> (r: Result<(), SimError>)
        requires
            old(self).wf(),
            old(self).esthers@.len() > 0,
        ensures
            final(self).wf(),
            old(self).has_fight_ended ==> r is Ok && *final(self) == *old(self),
            grows(*old(self), *final(self)),
            final(self).esthers@.len() == old(self).esthers@.len(),
            !old(self).has_fight_ended ==> {
                let c = if now > old(self).current_time {
                    now
                } else {
                    old(self).current_time
                };
                let started = match old(self).fight_started_on {
                    Some(t) => t,
                    None => c,
                };
                let charged = capped_sum(
                    old(self).esther_gauge as int,
                    match old(self).updated_esther_gauge_on {
                        Some(t) => c - t,
                        None => GAUGE_FIRST_ACCRUAL as int,
                    },
                );
                &&& final(self).current_time == c
                &&& final(self).updated_esther_gauge_on == Some(c)
                &&& final(self).fight_started_on == Some(started)
                &&& final(self).duration == c - started
                &&& (old(self).boss is None ==> r == Err::<(), SimError>(SimError::BossUnset))
                &&& (old(self).boss is Some && hit_counter_full(old(self).players@) ==> r
                    == Err::<(), SimError>(SimError::CounterLimit))
                &&& (old(self).boss is Some && !hit_counter_full(old(self).players@) ==> r is Ok)
                &&& (r is Err ==> {
                    &&& final(self).esther_gauge == charged
                    &&& final(self).esthers == old(self).esthers
                    &&& final(self).players == old(self).players
                    &&& final(self).boss == old(self).boss
                    &&& final(self).stats == old(self).stats
                })
                &&& (r is Ok ==> attacks_resolved(*old(self), *final(self)))
                &&& (r is Ok && charged < GAUGE_COST ==> final(self).esther_gauge == charged
                    && final(self).esthers == old(self).esthers)
                &&& (r is Ok && charged >= GAUGE_COST ==> final(self).esther_gauge == charged
                    - GAUGE_COST && esther_fired(
                    old(self).esthers@,
                    final(self).esthers@,
                    old(self).stats.total_esther_damage as int,
                    final(self).stats.total_esther_damage as int,
                ))
            },
    {
        if self.has_fight_ended {
            return Ok(());
        }
        let ghost start = *self;
        self.advance_clock(now);
        self.update_esther_gauge();
        self.update_duration();
        let ghost before_attacks = *self;
        match self.perform_attacks_and_update_stats() {
            Ok(()) => {},
            Err(e) => return Err(e),
        }
        let ghost after_attacks = *self;
        proof {
            assert(attacks_resolved(before_attacks, after_attacks));
            assert(before_attacks.players == start.players);
            assert(before_attacks.boss == start.boss);
            assert(before_attacks.stats == start.stats);
            assert(attacks_resolved(start, after_attacks));
        }
        self.try_use_esther();
        proof {
            assert(grows(start, before_attacks));
            lemma_grows_transitive(start, before_attacks, after_attacks);
            assert(grows(after_attacks, *self));
            lemma_grows_transitive(start, after_attacks, *self);
            let order = choose|order: Seq<int>| hits_record(start.players@, after_attacks.players@, order, after_attacks.has_fight_ended);
            assert(hits_record(start.players@, self.players@, order, self.has_fight_ended));
            if !self.has_fight_ended && someone_alive(start.players@) {
                let (t, d) = choose|t: int, d: int| taken_record(
                    start.players@,
                    after_attacks.players@,
                    start.stats.total_taken_damage as int,
                    after_attacks.stats.total_taken_damage as int,
                    t,
                    d,
                );
                assert(taken_record(
                    start.players@,
                    self.players@,
                    start.stats.total_taken_damage as int,
                    self.stats.total_taken_damage as int,
                    t,
                    d,
                ));
            }
            assert(attacks_resolved(start, *self));
        }
        Ok(())
    }
}

} // verus!
