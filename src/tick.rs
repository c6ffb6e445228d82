//! The steps of a tick: the clock, the esther gauge, the batch of attacks
//! with the boss's counter-attack, and the per-tick recomputation.

use crate::combat::{
    perform_attack, perform_boss_attack, update_boss, update_damage_taken, update_player,
    PlayerWithTemplate,
};
use crate::format::{
    add_capped, capped_sum, lemma_ratio_bounds, mm_ss_text, ratio, ratio_of, seconds_to_mm_ss,
};
use crate::models::{
    dps_of, quotient_or_zero, BossStats, DeathLog, Dps, EncounterStats, Esther, EstherStats,
    Player, PlayerStats, Timestamp,
};
use crate::sources::{random_between, random_index};
use crate::simulator::{
    encounter_ok, esther_ok, grows, player_ok, shares_ok, BOSS_MAX_DAMAGE,
    BOSS_MIN_DAMAGE, EstherWithTemplate, FightSimulator, GAUGE_COST, GAUGE_FIRST_ACCRUAL,
    SimError,
};
use vstd::prelude::*;

verus! {

/// Per-player counters that only grow: dealt and taken damage, hits and
/// critical hits.
pub open spec fn player_grows(a: Player, b: Player) -> bool {
    &&& a.stats.total_damage <= b.stats.total_damage
    &&& a.stats.skills.hit_count <= b.stats.skills.hit_count
    &&& a.stats.skills.crit_count <= b.stats.skills.crit_count
    &&& a.stats.damage_taken <= b.stats.damage_taken
}

/// The roster keeps its size, identities, templates and deaths, and no
/// per-player counter shrinks.
pub open spec fn roster_grows(a: Seq<PlayerWithTemplate>, b: Seq<PlayerWithTemplate>) -> bool {
    &&& a.len() == b.len()
    &&& forall|i: int|
        0 <= i < a.len() ==> {
            &&& player_grows(a[i].entity, #[trigger] b[i].entity)
            &&& b[i].template == a[i].template
            &&& b[i].entity.id == a[i].entity.id
            &&& b[i].entity.death_log.is_dead == a[i].entity.death_log.is_dead
            &&& b[i].entity.death_log.recorded_on == a[i].entity.death_log.recorded_on
        }
}

/// Draws the bounds of an attack batch: it starts at 2 and its size is
/// drawn from `2..=size`.
pub fn generate_random_range(size: u32) -> (r: (u32, u32))
    requires
        size >= 2,
    ensures
        r.0 == 2,
        2 <= r.1 <= size,
{
    let end = random_between(2, size as i64) as u32;
    (2, end)
}

/// Indices of the players that are alive and have not attacked yet.
fn eligible_attackers(players: &Vec<PlayerWithTemplate>, chosen: &Vec<bool>) -> (r: Vec<usize>)
    requires
        chosen@.len() == players@.len(),
    ensures
        forall|k: int|
            0 <= k < r@.len() ==> {
                &&& #[trigger] r@[k] < players@.len()
                &&& !chosen@[r@[k] as int]
                &&& !players@[r@[k] as int].entity.death_log.is_dead
            },
        r@.len() == 0 ==> forall|i: int|
            0 <= i < players@.len() ==> chosen@[i] || players@[i].entity.death_log.is_dead,
{
    let mut r: Vec<usize> = Vec::new();
    let mut i: usize = 0;
    while i < players.len()
        invariant
            chosen@.len() == players@.len(),
            i <= players@.len(),
            forall|k: int|
                0 <= k < r@.len() ==> {
                    &&& #[trigger] r@[k] < players@.len()
                    &&& !chosen@[r@[k] as int]
                    &&& !players@[r@[k] as int].entity.death_log.is_dead
                },
            r@.len() == 0 ==> forall|j: int|
                0 <= j < i ==> chosen@[j] || players@[j].entity.death_log.is_dead,
        decreases players@.len() - i,
    {
        if !chosen[i] && !players[i].entity.death_log.is_dead {
            r.push(i);
        }
        i = i + 1;
    }
    r
}

/// A flag per player, none of them set.
fn none_chosen(n: usize) -> (r: Vec<bool>)
    ensures
        r@.len() == n,
        forall|j: int| 0 <= j < n ==> !r@[j],
{
    let mut chosen: Vec<bool> = Vec::new();
    let mut k: usize = 0;
    while k < n
        invariant
            k <= n,
            chosen@.len() == k,
            forall|j: int| 0 <= j < k ==> !chosen@[j],
        decreases n - k,
    {
        chosen.push(false);
        k = k + 1;
    }
    chosen
}

/// The encounter parts a batch of attacks works on are consistent: the
/// boss's health accounts for the player damage and each player is bounded
/// by the totals.
pub open spec fn batch_ok(
    players: Seq<PlayerWithTemplate>,
    stats: EncounterStats,
    boss: BossStats,
) -> bool {
    &&& encounter_ok(stats)
    &&& boss.wf()
    &&& stats.total_player_damage == boss.max_hp - boss.hp
    &&& boss.total_damage_dealt == stats.total_taken_damage
    &&& forall|i: int| 0 <= i < players.len() ==> player_ok(#[trigger] players[i], stats)
}

/// The boss keeps everything but its health, bars, last hit and time stamp.
pub open spec fn boss_hit_only(a: BossStats, b: BossStats) -> bool {
    &&& b.max_hp == a.max_hp
    &&& b.max_hp_bars == a.max_hp_bars
    &&& b.hp_per_bar == a.hp_per_bar
    &&& b.shield_hp == a.shield_hp
    &&& b.total_damage_dealt == a.total_damage_dealt
    &&& b.hp <= a.hp
}

/// A batch in which the players at `order` attacked in that order: they are
/// distinct and were alive, each is credited with exactly one hit except that
/// the last one of a batch that ended the fight may not be, nobody else
/// changed, and a batch that did not end the fight had at least two
/// attackers or every living player.
pub open spec fn batch_record(
    a: Seq<PlayerWithTemplate>,
    b: Seq<PlayerWithTemplate>,
    order: Seq<int>,
    ended: bool,
) -> bool {
    &&& b.len() == a.len()
    &&& forall|k: int|
        0 <= k < order.len() ==> 0 <= #[trigger] order[k] < a.len()
            && !a[order[k]].entity.death_log.is_dead
    &&& forall|j: int, k: int| 0 <= j < k < order.len() ==> order[j] != order[k]
    &&& forall|i: int| 0 <= i < a.len() && !order.contains(i) ==> #[trigger] b[i] == a[i]
    &&& forall|k: int|
        0 <= k < order.len() && (k < order.len() - 1 || !ended)
            ==> b[#[trigger] order[k]].entity.stats.skills.hit_count
            == a[order[k]].entity.stats.skills.hit_count + 1
    &&& ended ==> order.len() > 0
    &&& !ended ==> order.len() >= 2 || forall|i: int|
        0 <= i < a.len() && !(#[trigger] a[i]).entity.death_log.is_dead ==> order.contains(i)
}

/// Draws a batch size in `2..=len` (or 2 for a smaller roster) and lets that
/// many distinct living players attack in turn, each against the boss's
/// current health. A lethal attack, or one that leaves the boss at zero,
/// ends the batch; the lethal hit is applied to the boss only. Returns
/// whether the boss died.
fn attack_batch(
    players: &mut Vec<PlayerWithTemplate>,
    stats: &mut EncounterStats,
    boss: &mut BossStats,
    now: Timestamp,
) -> (ended: bool)
    requires
        batch_ok(old(players)@, *old(stats), *old(boss)),
        forall|i: int|
            0 <= i < old(players)@.len() ==> (#[trigger] old(players)@[i]).entity.stats.skills.hit_count
                < u32::MAX,
    ensures
        batch_ok(final(players)@, *final(stats), *final(boss)),
        roster_grows(old(players)@, final(players)@),
        exists|order: Seq<int>| #[trigger] batch_record(old(players)@, final(players)@, order, ended),
        forall|i: int|
            0 <= i < old(players)@.len() ==> (#[trigger] final(players)@[i]).entity.stats.damage_taken
                == old(players)@[i].entity.stats.damage_taken,
        forall|i: int|
            0 <= i < old(players)@.len() ==> (#[trigger] final(players)@[i]).entity.stats.skills.hit_count
                <= old(players)@[i].entity.stats.skills.hit_count + 1,
        boss_hit_only(*old(boss), *final(boss)),
        old(boss).hp > 0 ==> (final(boss).hp == 0 <==> ended),
        final(stats).total_player_damage >= old(stats).total_player_damage,
        final(stats).top_damage >= old(stats).top_damage,
        final(stats).total_taken_damage == old(stats).total_taken_damage,
        final(stats).total_esther_damage == old(stats).total_esther_damage,
        final(stats).party_dps == old(stats).party_dps,
        final(stats).duration_mmss == old(stats).duration_mmss,
        final(stats).time_to_kill_mmss == old(stats).time_to_kill_mmss,
        ended ==> final(boss).hp == 0,
{
    let ghost start = players@;
    let n: usize = players.len();
    let batch: i64 = if n < 2 {
        2
    } else {
        let size: u32 = if n as u64 > u32::MAX as u64 {
            u32::MAX
        } else {
            n as u32
        };
        let (_, end) = generate_random_range(size);
        end as i64
    };
    let mut chosen = none_chosen(n);
    let ghost mut order: Seq<int> = Seq::empty();
    let mut done: i64 = 0;
    while done < batch
        invariant
            n == players@.len(),
            chosen@.len() == n,
            2 <= batch,
            0 <= done <= batch,
            order.len() == done,
            batch_ok(players@, *stats, *boss),
            roster_grows(start, players@),
            forall|k: int|
                0 <= k < order.len() ==> 0 <= #[trigger] order[k] < n
                    && !start[order[k]].entity.death_log.is_dead && chosen@[order[k]],
            forall|j: int, k: int| 0 <= j < k < order.len() ==> order[j] != order[k],
            forall|i: int| 0 <= i < n && chosen@[i] ==> order.contains(i),
            forall|i: int| 0 <= i < n && !chosen@[i] ==> #[trigger] players@[i] == start[i],
            forall|k: int|
                0 <= k < order.len() ==> players@[#[trigger] order[k]].entity.stats.skills.hit_count
                    == start[order[k]].entity.stats.skills.hit_count + 1,
            forall|i: int|
                0 <= i < n ==> (#[trigger] players@[i]).entity.stats.skills.hit_count
                    <= start[i].entity.stats.skills.hit_count + 1,
            forall|i: int|
                0 <= i < n ==> (#[trigger] start[i]).entity.stats.skills.hit_count < u32::MAX,
            start == old(players)@,
            forall|i: int|
                0 <= i < n ==> (#[trigger] players@[i]).entity.stats.damage_taken
                    == start[i].entity.stats.damage_taken,
            boss_hit_only(*old(boss), *boss),
            old(boss).hp > 0 ==> boss.hp > 0,
            stats.total_player_damage >= old(stats).total_player_damage,
            stats.top_damage >= old(stats).top_damage,
            stats.total_taken_damage == old(stats).total_taken_damage,
            stats.total_esther_damage == old(stats).total_esther_damage,
            stats.party_dps == old(stats).party_dps,
            stats.duration_mmss == old(stats).duration_mmss,
            stats.time_to_kill_mmss == old(stats).time_to_kill_mmss,
        decreases batch - done,
    {
        let eligible = eligible_attackers(players, &chosen);
        if eligible.len() == 0 {
            proof {
                assert forall|i: int|
                    0 <= i < n && !(#[trigger] start[i]).entity.death_log.is_dead implies order.contains(i) by {
                    assert(players@[i].entity.death_log.is_dead == start[i].entity.death_log.is_dead);
                }
                assert(batch_record(start, players@, order, false));
            }
            return false;
        }
        let pick: usize = eligible[random_index(eligible.len())];
        chosen.set(pick, true);
        let ghost prior = order;
        proof {
            order = order.push(pick as int);
            assert(order.last() == pick as int);
        }
        let attack = perform_attack(boss.hp, &players[pick].template);
        stats.total_player_damage = stats.total_player_damage + attack.damage;
        if attack.damage > stats.top_damage {
            stats.top_damage = attack.damage;
        }
        if attack.has_fight_ended {
            update_boss(boss, &attack, now);
            proof {
                assert forall|i: int| 0 <= i < n && !order.contains(i) implies #[trigger] players@[i] == start[i] by {
                    if chosen@[i] {
                        if i == pick as int {
                            assert(order[order.len() - 1] == i);
                        } else {
                            assert(prior.contains(i));
                            let k = choose|k: int| 0 <= k < prior.len() && prior[k] == i;
                            assert(order[k] == i);
                        }
                    }
                }
                assert(batch_record(start, players@, order, true));
            }
            return true;
        }
        let total = stats.total_player_damage;
        proof {
            assert(player_ok(players@[pick as int], *stats));
        }
        update_player(&mut players[pick].entity, &attack, total, now);
        update_boss(boss, &attack, now);
        proof {
            assert forall|i: int| 0 <= i < n && chosen@[i] implies order.contains(i) by {
                if i == pick as int {
                    assert(order[order.len() - 1] == i);
                } else {
                    assert(prior.contains(i));
                    let k = choose|k: int| 0 <= k < prior.len() && prior[k] == i;
                    assert(order[k] == i);
                }
            }
        }
        if boss.hp == 0 {
            proof {
                assert forall|i: int| 0 <= i < n && !order.contains(i) implies #[trigger] players@[i] == start[i] by {
                    if chosen@[i] {
                        if i == pick as int {
                            assert(order[order.len() - 1] == i);
                        } else {
                            assert(prior.contains(i));
                            let k = choose|k: int| 0 <= k < prior.len() && prior[k] == i;
                            assert(order[k] == i);
                        }
                    }
                }
                assert(batch_record(start, players@, order, true));
            }
            return true;
        }
        done = done + 1;
    }
    proof {
        assert forall|i: int| 0 <= i < n && !order.contains(i) implies #[trigger] players@[i] == start[i] by {
            if chosen@[i] {
                assert(order.contains(i));
            }
        }
        assert(batch_record(start, players@, order, false));
    }
    false
}

/// Hit counts after a batch in which the players at `order` attacked in that
/// order: distinct players who were alive, each with one more hit except that
/// the last one of a batch that ended the fight may have none, everybody else
/// unchanged; a batch that did not end the fight had at least two attackers
/// or every living player.
pub open spec fn hits_record(
    a: Seq<PlayerWithTemplate>,
    b: Seq<PlayerWithTemplate>,
    order: Seq<int>,
    ended: bool,
) -> bool {
    &&& b.len() == a.len()
    &&& forall|k: int|
        0 <= k < order.len() ==> 0 <= #[trigger] order[k] < a.len()
            && !a[order[k]].entity.death_log.is_dead
    &&& forall|j: int, k: int| 0 <= j < k < order.len() ==> order[j] != order[k]
    &&& forall|i: int|
        0 <= i < a.len() && !order.contains(i) ==> (#[trigger] b[i]).entity.stats.skills.hit_count
            == a[i].entity.stats.skills.hit_count
    &&& forall|k: int|
        0 <= k < order.len() && (k < order.len() - 1 || !ended)
            ==> b[#[trigger] order[k]].entity.stats.skills.hit_count
            == a[order[k]].entity.stats.skills.hit_count + 1
    &&& ended ==> order.len() > 0
    &&& !ended ==> order.len() >= 2 || forall|i: int|
        0 <= i < a.len() && !(#[trigger] a[i]).entity.death_log.is_dead ==> order.contains(i)
}

/// Taken damage after the counter-attack hit the living player `target` for
/// `damage`: the party's total and that player's grow by it, nobody else's
/// changes.
pub open spec fn taken_record(
    a: Seq<PlayerWithTemplate>,
    b: Seq<PlayerWithTemplate>,
    taken_before: int,
    taken_after: int,
    target: int,
    damage: int,
) -> bool {
    &&& 0 <= target < a.len()
    &&& !a[target].entity.death_log.is_dead
    &&& BOSS_MIN_DAMAGE <= damage <= BOSS_MAX_DAMAGE
    &&& taken_after == capped_sum(taken_before, damage)
    &&& b[target].entity.stats.damage_taken == capped_sum(
        a[target].entity.stats.damage_taken as int,
        damage,
    )
    &&& forall|i: int|
        0 <= i < a.len() && i != target ==> (#[trigger] b[i]).entity.stats.damage_taken
            == a[i].entity.stats.damage_taken
}

/// What a batch of attacks did, from `a` to `b`, whatever was drawn: the
/// boss is still there with the same size and bars, the player damage grew
/// by what the boss lost, a boss with health left dies exactly when the
/// fight ends, the attackers are as `hits_record` says, and the boss struck
/// back at one living player unless it died or nobody is alive.
pub open spec fn attacks_resolved(a: FightSimulator, b: FightSimulator) -> bool {
    let ab = a.boss->0.stats;
    let bb = b.boss->0.stats;
    &&& b.boss is Some
    &&& b.boss->0.id == a.boss->0.id
    &&& b.boss->0.npc_id == a.boss->0.npc_id
    &&& b.boss->0.name == a.boss->0.name
    &&& bb.max_hp == ab.max_hp
    &&& bb.max_hp_bars == ab.max_hp_bars
    &&& bb.hp_per_bar == ab.hp_per_bar
    &&& bb.hp <= ab.hp
    &&& b.stats.total_player_damage - a.stats.total_player_damage == ab.hp - bb.hp
    &&& b.stats.top_damage >= a.stats.top_damage
    &&& ab.hp > 0 ==> (bb.hp == 0 <==> b.has_fight_ended)
    &&& exists|order: Seq<int>| #[trigger] hits_record(a.players@, b.players@, order, b.has_fight_ended)
    &&& (b.has_fight_ended || !someone_alive(a.players@)) ==> {
        &&& b.stats.total_taken_damage == a.stats.total_taken_damage
        &&& forall|i: int|
            0 <= i < a.players@.len() ==> (#[trigger] b.players@[i]).entity.stats.damage_taken
                == a.players@[i].entity.stats.damage_taken
    }
    &&& (!b.has_fight_ended && someone_alive(a.players@)) ==> exists|target: int, damage: int|
        #[trigger] taken_record(
            a.players@,
            b.players@,
            a.stats.total_taken_damage as int,
            b.stats.total_taken_damage as int,
            target,
            damage,
        )
}

/// One esther, `k`, fired for a damage drawn from its template: its total
/// and the encounter's esther total grow by it, the other esthers' totals
/// stay as they were.
pub open spec fn esther_fired(
    a: Seq<EstherWithTemplate>,
    b: Seq<EstherWithTemplate>,
    total_before: int,
    total_after: int,
) -> bool {
    exists|k: int, damage: i64|
        {
            &&& 0 <= k < a.len()
            &&& a[k].template.min_dmg <= damage <= a[k].template.max_dmg
            &&& total_after == #[trigger] capped_sum(total_before, damage as int)
            &&& #[trigger] b[k].entity.stats.total_damage == capped_sum(
                a[k].entity.stats.total_damage as int,
                damage as int,
            )
            &&& forall|j: int|
                0 <= j < a.len() && j != k ==> b[j].entity.stats.total_damage
                    == a[j].entity.stats.total_damage
        }
}

/// Some roster member is alive.
pub open spec fn someone_alive(players: Seq<PlayerWithTemplate>) -> bool {
    exists|i: int| 0 <= i < players.len() && !(#[trigger] players[i]).entity.death_log.is_dead
}

/// The counter-attack hit the living player `target` for `damage`: the
/// party's taken damage grows by it, that player's taken damage grows by it
/// with its share recomputed, and no other player changes.
pub open spec fn counter_attack_landed(
    a: Seq<PlayerWithTemplate>,
    b: Seq<PlayerWithTemplate>,
    taken_before: int,
    taken_after: int,
    target: int,
    damage: int,
) -> bool {
    &&& 0 <= target < a.len()
    &&& !a[target].entity.death_log.is_dead
    &&& BOSS_MIN_DAMAGE <= damage <= BOSS_MAX_DAMAGE
    &&& taken_after == capped_sum(taken_before, damage)
    &&& b.len() == a.len()
    &&& b[target].entity.stats.damage_taken == capped_sum(
        a[target].entity.stats.damage_taken as int,
        damage,
    )
    &&& forall|i: int| 0 <= i < a.len() && i != target ==> #[trigger] b[i] == a[i]
}

/// The boss strikes back at a random living player, if there is one, for a
/// damage in `BOSS_MIN_DAMAGE..=BOSS_MAX_DAMAGE`; the party's and the
/// player's taken damage and the boss's dealt damage grow by it.
fn boss_counter_attack(
    players: &mut Vec<PlayerWithTemplate>,
    stats: &mut EncounterStats,
    boss: &mut BossStats,
)
    requires
        batch_ok(old(players)@, *old(stats), *old(boss)),
    ensures
        batch_ok(final(players)@, *final(stats), *final(boss)),
        roster_grows(old(players)@, final(players)@),
        forall|i: int|
            0 <= i < old(players)@.len() ==> (#[trigger] final(players)@[i]).entity.stats.skills.hit_count
                == old(players)@[i].entity.stats.skills.hit_count,
        *final(stats) == (EncounterStats {
            total_taken_damage: final(stats).total_taken_damage,
            ..*old(stats)
        }),
        final(stats).total_taken_damage >= old(stats).total_taken_damage,
        *final(boss) == (BossStats {
            total_damage_dealt: final(boss).total_damage_dealt,
            ..*old(boss)
        }),
        !someone_alive(old(players)@) ==> final(players)@ == old(players)@ && *final(stats)
            == *old(stats) && *final(boss) == *old(boss),
        someone_alive(old(players)@) ==> exists|target: int, damage: int|
            #[trigger] counter_attack_landed(
                old(players)@,
                final(players)@,
                old(stats).total_taken_damage as int,
                final(stats).total_taken_damage as int,
                target,
                damage,
            ),
{
    let nobody = none_chosen(players.len());
    let alive = eligible_attackers(players, &nobody);
    if alive.len() == 0 {
        assert forall|i: int| 0 <= i < players@.len() implies (#[trigger] players@[i]).entity.death_log.is_dead by {
            assert(!nobody@[i]);
        }
        return;
    }
    let target: usize = alive[random_index(alive.len())];
    let damage = perform_boss_attack(boss);
    stats.total_taken_damage = add_capped(stats.total_taken_damage, damage);
    let total = stats.total_taken_damage;
    let ghost before = players@;
    assert(player_ok(players@[target as int], *old(stats)));
    update_damage_taken(&mut players[target].entity, damage, total);
    proof {
        assert(counter_attack_landed(
            before,
            players@,
            old(stats).total_taken_damage as int,
            stats.total_taken_damage as int,
            target as int,
            damage as int,
        ));
    }
}

/// A roster member after the per-tick recomputation: dps from its own total
/// over the elapsed seconds, its shares of the encounter's totals, and, while
/// dead, the time since its death.
pub open spec fn recalculated(
    p: PlayerWithTemplate,
    enc: EncounterStats,
    now: int,
    duration_seconds: int,
) -> PlayerWithTemplate {
    PlayerWithTemplate {
        entity: Player {
            stats: PlayerStats {
                dps: dps_of(p.entity.stats.total_damage as int, duration_seconds),
                damage_percentage: ratio_of(
                    p.entity.stats.total_damage as int,
                    enc.total_player_damage as int,
                ) as i64,
                damage_taken_percentage: ratio_of(
                    p.entity.stats.damage_taken as int,
                    enc.total_taken_damage as int,
                ) as i64,
                ..p.entity.stats
            },
            death_log: DeathLog {
                duration: if p.entity.death_log.is_dead {
                    match p.entity.death_log.recorded_on {
                        Some(t) => Some((now - t) as i64),
                        None => None,
                    }
                } else {
                    p.entity.death_log.duration
                },
                ..p.entity.death_log
            },
            ..p.entity
        },
        ..p
    }
}

/// Recomputes every player's dps, shares and death duration.
fn recalculate_all_stats(
    players: &mut Vec<PlayerWithTemplate>,
    stats: &EncounterStats,
    updated_on: Timestamp,
    duration_seconds: i64,
)
    requires
        encounter_ok(*stats),
        updated_on >= 0,
        duration_seconds >= 0,
        forall|i: int| 0 <= i < old(players)@.len() ==> player_ok(#[trigger] old(players)@[i], *stats),
    ensures
        final(players)@.len() == old(players)@.len(),
        forall|i: int|
            0 <= i < old(players)@.len() ==> #[trigger] final(players)@[i] == recalculated(
                old(players)@[i],
                *stats,
                updated_on as int,
                duration_seconds as int,
            ),
{
    let ghost start = players@;
    let mut i: usize = 0;
    while i < players.len()
        invariant
            encounter_ok(*stats),
            updated_on >= 0,
            duration_seconds >= 0,
            start == old(players)@,
            players@.len() == start.len(),
            i <= start.len(),
            forall|j: int| 0 <= j < start.len() ==> player_ok(#[trigger] start[j], *stats),
            forall|j: int|
                0 <= j < i ==> #[trigger] players@[j] == recalculated(
                    start[j],
                    *stats,
                    updated_on as int,
                    duration_seconds as int,
                ),
            forall|j: int| i <= j < start.len() ==> #[trigger] players@[j] == start[j],
        decreases start.len() - i,
    {
        assert(player_ok(start[i as int], *stats));
        let entity = &mut players[i].entity;
        if entity.death_log.is_dead {
            entity.death_log.duration = match entity.death_log.recorded_on {
                Some(t) => Some(updated_on - t),
                None => None,
            };
        }
        entity.stats.dps = Dps::new(entity.stats.total_damage, duration_seconds);
        entity.stats.damage_percentage = ratio(entity.stats.total_damage, stats.total_player_damage);
        entity.stats.damage_taken_percentage = ratio(
            entity.stats.damage_taken,
            stats.total_taken_damage,
        );
        i = i + 1;
    }
}

/// Some player's hit counter is at its largest value.
pub open spec fn hit_counter_full(players: Seq<PlayerWithTemplate>) -> bool {
    exists|i: int|
        0 <= i < players.len() && (#[trigger] players[i]).entity.stats.skills.hit_count == u32::MAX
}

fn find_full_hit_counter(players: &Vec<PlayerWithTemplate>) -> (r: bool)
    ensures
        r == hit_counter_full(players@),
{
    let mut i: usize = 0;
    while i < players.len()
        invariant
            i <= players@.len(),
            forall|j: int|
                0 <= j < i ==> (#[trigger] players@[j]).entity.stats.skills.hit_count < u32::MAX,
        decreases players@.len() - i,
    {
        if players[i].entity.stats.skills.hit_count == u32::MAX {
            return true;
        }
        i = i + 1;
    }
    false
}

impl FightSimulator {
    /// Everything the clock and the gauge do not touch is the same.
    pub open spec fn same_fight_state(&self, other: Self) -> bool {
        &&& self.players == other.players
        &&& self.esthers == other.esthers
        &&& self.boss == other.boss
        &&& self.stats == other.stats
        &&& self.has_fight_ended == other.has_fight_ended
        &&& self.last_used_esther_on == other.last_used_esther_on
    }

    /// Moves the clock to `now`; a reading earlier than the current time
    /// leaves it where it is.
    pub fn advance_clock(&mut self, now: Timestamp)
        requires
            old(self).wf(),
        ensures
            final(self).wf(),
            final(self).same_fight_state(*old(self)),
            final(self).current_time == if now > old(self).current_time {
                now
            } else {
                old(self).current_time
            },
            final(self).esther_gauge == old(self).esther_gauge,
            final(self).updated_esther_gauge_on == old(self).updated_esther_gauge_on,
            final(self).fight_started_on == old(self).fight_started_on,
            final(self).duration == old(self).duration,
    {
        if now > self.current_time {
            self.current_time = now;
        }
    }

    /// Charges the esther gauge with one unit per millisecond since its last
    /// charge, or with `GAUGE_FIRST_ACCRUAL` on the first one.
    pub fn update_esther_gauge(&mut self)
        requires
            old(self).wf(),
        ensures
            final(self).wf(),
            final(self).same_fight_state(*old(self)),
            final(self).esther_gauge == capped_sum(
                old(self).esther_gauge as int,
                match old(self).updated_esther_gauge_on {
                    Some(t) => old(self).current_time - t,
                    None => GAUGE_FIRST_ACCRUAL as int,
                },
            ),
            final(self).updated_esther_gauge_on == Some(old(self).current_time),
            final(self).current_time == old(self).current_time,
            final(self).fight_started_on == old(self).fight_started_on,
            final(self).duration == old(self).duration,
    {
        let now = self.current_time;
        let charge: i64 = match self.updated_esther_gauge_on {
            Some(t) => now - t,
            None => GAUGE_FIRST_ACCRUAL,
        };
        self.esther_gauge = add_capped(self.esther_gauge, charge);
        self.updated_esther_gauge_on = Some(now);
    }

    /// Starts the fight's clock on the first call and sets the elapsed time.
    pub fn update_duration(&mut self)
        requires
            old(self).wf(),
        ensures
            final(self).wf(),
            final(self).same_fight_state(*old(self)),
            final(self).fight_started_on == match old(self).fight_started_on {
                Some(t) => Some(t),
                None => Some(old(self).current_time),
            },
            final(self).duration == old(self).current_time - final(self).fight_started_on->0,
            final(self).current_time == old(self).current_time,
            final(self).esther_gauge == old(self).esther_gauge,
            final(self).updated_esther_gauge_on == old(self).updated_esther_gauge_on,
    {
        let now = self.current_time;
        let started = match self.fight_started_on {
            Some(t) => t,
            None => now,
        };
        self.fight_started_on = Some(started);
        self.duration = now - started;
    }

    /// One batch of the tick: a random set of living players attacks the
    /// boss, the boss strikes back if it survived, and the party's dps, the
    /// time to kill, the elapsed time and every player's derived figures are
    /// recomputed from the totals. Nothing happens once the fight has ended;
    /// without a boss, or with a hit counter that could overflow, nothing
    /// changes and an error is returned.
    #[verifier::rlimit(50)]
    pub fn perform_attacks_and_update_stats(&mut self) -> (r: Result<(), SimError>)
        requires
            old(self).wf(),
        ensures
            final(self).wf(),
            old(self).has_fight_ended ==> r is Ok && *final(self) == *old(self),
            !old(self).has_fight_ended && old(self).boss is None ==> r == Err::<(), SimError>(
                SimError::BossUnset,
            ),
            !old(self).has_fight_ended && old(self).boss is Some && hit_counter_full(
                old(self).players@,
            ) ==> r == Err::<(), SimError>(SimError::CounterLimit),
            !old(self).has_fight_ended && old(self).boss is Some && !hit_counter_full(
                old(self).players@,
            ) ==> r is Ok,
            r is Err ==> *final(self) == *old(self),
            grows(*old(self), *final(self)),
            r is Ok && !old(self).has_fight_ended ==> attacks_resolved(*old(self), *final(self)),
            r is Ok && !old(self).has_fight_ended ==> {
                let secs = old(self).duration / 1000;
                let enc = final(self).stats;
                &&& enc.party_dps == dps_of(enc.total_player_damage as int, secs)
                &&& enc.time_to_kill_mmss@ == mm_ss_text(
                    quotient_or_zero(final(self).boss->0.stats.hp as int, enc.party_dps.raw as int),
                )
                &&& enc.duration_mmss@ == mm_ss_text(secs)
                &&& final(self).has_fight_ended ==> enc.total_taken_damage
                    == old(self).stats.total_taken_damage
                &&& enc.total_esther_damage == old(self).stats.total_esther_damage
                &&& forall|i: int|
                    0 <= i < old(self).players@.len() ==> {
                        let p = #[trigger] final(self).players@[i].entity;
                        &&& p.stats.dps == dps_of(p.stats.total_damage as int, secs)
                        &&& p.stats.skills.hit_count <= old(self).players@[i].entity.stats.skills.hit_count
                            + 1
                        &&& p.death_log.is_dead == old(self).players@[i].entity.death_log.is_dead
                        &&& p.death_log.recorded_on == old(
                            self,
                        ).players@[i].entity.death_log.recorded_on
                        &&& p.death_log.is_dead ==> p.death_log.duration == match p.death_log.recorded_on {
                            Some(t) => Some((old(self).current_time - t) as i64),
                            None => None::<i64>,
                        }
                    }
            },
            final(self).esthers == old(self).esthers,
            final(self).current_time == old(self).current_time,
            final(self).duration == old(self).duration,
            final(self).fight_started_on == old(self).fight_started_on,
            final(self).esther_gauge == old(self).esther_gauge,
            final(self).updated_esther_gauge_on == old(self).updated_esther_gauge_on,
    {
        if self.has_fight_ended {
            return Ok(());
        }
        if self.boss.is_none() {
            return Err(SimError::BossUnset);
        }
        if find_full_hit_counter(&self.players) {
            return Err(SimError::CounterLimit);
        }
        let duration_seconds: i64 = self.duration / 1000;
        let now = self.current_time;
        let mut boss = match self.boss.take() {
            Some(b) => b,
            None => return Err(SimError::BossUnset),
        };
        let ghost p0 = self.players@;
        let ghost taken0 = self.stats.total_taken_damage;
        let ended = attack_batch(&mut self.players, &mut self.stats, &mut boss.stats, now);
        let ghost p1 = self.players@;
        let ghost order = choose|order: Seq<int>| batch_record(p0, p1, order, ended);
        proof {
            assert(batch_record(p0, p1, order, ended));
        }
        if ended {
            self.has_fight_ended = true;
        } else {
            boss_counter_attack(&mut self.players, &mut self.stats, &mut boss.stats);
        }
        let ghost p2 = self.players@;
        proof {
            assert forall|i: int| 0 <= i < p0.len() implies (#[trigger] p1[i]).entity.death_log.is_dead
                == p0[i].entity.death_log.is_dead by {
                assert(p1[i].entity.death_log.is_dead == p0[i].entity.death_log.is_dead);
            }
            if !ended && someone_alive(p0) {
                let i0 = choose|i: int| 0 <= i < p0.len() && !(#[trigger] p0[i]).entity.death_log.is_dead;
                assert(!p1[i0].entity.death_log.is_dead);
                assert(someone_alive(p1));
            }
            if !ended && !someone_alive(p0) {
                assert forall|i: int| 0 <= i < p1.len() implies (#[trigger] p1[i]).entity.death_log.is_dead by {
                    assert(p0[i].entity.death_log.is_dead);
                }
                assert(!someone_alive(p1));
            }
        }
        self.stats.party_dps = Dps::new(self.stats.total_player_damage, duration_seconds);
        let raw = self.stats.party_dps.raw;
        let time_to_kill: i64 = if raw == 0 {
            0
        } else {
            boss.stats.hp / raw
        };
        proof {
            assert(raw >= 0);
        }
        self.stats.time_to_kill_mmss = seconds_to_mm_ss(time_to_kill);
        self.stats.duration_mmss = seconds_to_mm_ss(duration_seconds);
        let ghost before = self.players@;
        recalculate_all_stats(&mut self.players, &self.stats, now, duration_seconds);
        self.boss = Some(boss);
        proof {
            assert forall|i: int| 0 <= i < self.players@.len() implies player_ok(
                #[trigger] self.players@[i],
                self.stats,
            ) && shares_ok(self.players@[i].entity, self.stats) by {
                assert(self.players@[i] == recalculated(
                    before[i],
                    self.stats,
                    now as int,
                    duration_seconds as int,
                ));
                assert(player_ok(before[i], self.stats));
                let e = before[i].entity.stats;
                lemma_ratio_bounds(e.total_damage as int, self.stats.total_player_damage as int);
                lemma_ratio_bounds(e.damage_taken as int, self.stats.total_taken_damage as int);
            }
            let p3 = self.players@;
            assert forall|i: int| 0 <= i < p0.len() implies (#[trigger] p3[i]).entity.stats.skills.hit_count
                == p1[i].entity.stats.skills.hit_count && p3[i].entity.stats.damage_taken
                == p2[i].entity.stats.damage_taken by {
                assert(p3[i] == recalculated(p2[i], self.stats, now as int, duration_seconds as int));
            }
            assert(hits_record(p0, p3, order, self.has_fight_ended));
            if !ended && someone_alive(p0) {
                let (t, d) = choose|t: int, d: int| counter_attack_landed(
                    p1,
                    p2,
                    taken0 as int,
                    self.stats.total_taken_damage as int,
                    t,
                    d,
                );
                assert(p1[t].entity.stats.damage_taken == p0[t].entity.stats.damage_taken);
                assert(p3[t].entity.stats.damage_taken == p2[t].entity.stats.damage_taken);
                assert forall|i: int| 0 <= i < p0.len() && i != t implies (#[trigger] p3[i]).entity.stats.damage_taken
                    == p0[i].entity.stats.damage_taken by {
                    assert(p2[i] == p1[i]);
                    assert(p1[i].entity.stats.damage_taken == p0[i].entity.stats.damage_taken);
                }
                assert(taken_record(p0, p3, taken0 as int, self.stats.total_taken_damage as int, t, d));
            }
            assert(attacks_resolved(*old(self), *self));
        }
        Ok(())
    }

    /// Everything but the esthers is the same.
    pub open spec fn same_except_esthers(&self, other: Self) -> bool {
        &&& self.registered_ids == other.registered_ids
        &&& self.skills == other.skills
        &&& self.dps_classes == other.dps_classes
        &&& self.sup_classes == other.sup_classes
        &&& self.registered_class_ids == other.registered_class_ids
        &&& self.players == other.players
        &&& self.esther_gauge == other.esther_gauge
        &&& self.updated_esther_gauge_on == other.updated_esther_gauge_on
        &&& self.last_used_esther_on == other.last_used_esther_on
        &&& self.boss == other.boss
        &&& self.has_fight_ended == other.has_fight_ended
        &&& self.current_time == other.current_time
        &&& self.fight_started_on == other.fight_started_on
        &&& self.duration == other.duration
        &&& self.stats == other.stats
    }

    /// When the gauge holds `GAUGE_COST`, spends it on one random esther,
    /// whose damage is drawn from its template and added to its total and to
    /// the encounter's; every esther's share is then recomputed.
    pub fn try_use_esther(&mut self)
        requires
            old(self).wf(),
            old(self).esther_gauge < GAUGE_COST || old(self).esthers@.len() > 0,
        ensures
            final(self).wf(),
            old(self).esther_gauge < GAUGE_COST ==> *final(self) == *old(self),
            old(self).esther_gauge >= GAUGE_COST ==> {
                &&& final(self).esther_gauge == old(self).esther_gauge - GAUGE_COST
                &&& final(self).last_used_esther_on == match old(self).last_used_esther_on {
                    Some(t) => Some(t),
                    None => Some(old(self).current_time),
                }
                &&& final(self).esthers@.len() == old(self).esthers@.len()
                &&& esther_fired(
                    old(self).esthers@,
                    final(self).esthers@,
                    old(self).stats.total_esther_damage as int,
                    final(self).stats.total_esther_damage as int,
                )
            },
            forall|j: int|
                0 <= j < old(self).esthers@.len() ==> {
                    &&& (#[trigger] final(self).esthers@[j]).template == old(self).esthers@[j].template
                    &&& final(self).esthers@[j].entity.id == old(self).esthers@[j].entity.id
                },
            final(self).stats.total_esther_damage >= old(self).stats.total_esther_damage,
            final(self).players == old(self).players,
            final(self).boss == old(self).boss,
            final(self).has_fight_ended == old(self).has_fight_ended,
            final(self).stats == (EncounterStats {
                total_esther_damage: final(self).stats.total_esther_damage,
                ..old(self).stats
            }),
            final(self).current_time == old(self).current_time,
            final(self).duration == old(self).duration,
            final(self).fight_started_on == old(self).fight_started_on,
            final(self).updated_esther_gauge_on == old(self).updated_esther_gauge_on,
    {
        if self.esther_gauge < GAUGE_COST {
            return;
        }
        let now = self.current_time;
        if self.last_used_esther_on.is_none() {
            self.last_used_esther_on = Some(now);
        }
        self.esther_gauge = self.esther_gauge - GAUGE_COST;
        let k = random_index(self.esthers.len());
        assert(esther_ok(self.esthers@[k as int], self.stats));
        let damage = random_between(self.esthers[k].template.min_dmg, self.esthers[k].template.max_dmg);
        let ghost e0 = self.esthers@;
        let ghost old_total = self.stats.total_esther_damage;
        self.stats.total_esther_damage = add_capped(self.stats.total_esther_damage, damage);
        let total = self.stats.total_esther_damage;
        let own = add_capped(self.esthers[k].entity.stats.total_damage, damage);
        self.esthers[k].entity.stats.total_damage = own;
        let ghost start = self.esthers@;
        let ghost pre = *self;
        proof {
            assert forall|i: int| 0 <= i < start.len() implies {
                &&& (#[trigger] start[i]).template.wf()
                &&& 0 <= start[i].entity.stats.total_damage <= total
            } by {
                assert(esther_ok(e0[i], old(self).stats));
                if i != k {
                    assert(start[i] == e0[i]);
                }
            }
        }
        let mut j: usize = 0;
        while j < self.esthers.len()
            invariant
                self.same_except_esthers(pre),
                self.esthers@.len() == start.len(),
                j <= start.len(),
                total == self.stats.total_esther_damage,
                total >= 0,
                forall|i: int|
                    0 <= i < start.len() ==> {
                        &&& (#[trigger] start[i]).template.wf()
                        &&& 0 <= start[i].entity.stats.total_damage <= total
                    },
                forall|i: int|
                    0 <= i < j ==> {
                        &&& #[trigger] self.esthers@[i] == EstherWithTemplate {
                            entity: Esther {
                                stats: EstherStats {
                                    damage_percentage: ratio_of(
                                        start[i].entity.stats.total_damage as int,
                                        total as int,
                                    ) as i64,
                                    ..start[i].entity.stats
                                },
                                ..start[i].entity
                            },
                            ..start[i]
                        }
                        &&& esther_ok(self.esthers@[i], self.stats)
                    },
                forall|i: int| j <= i < start.len() ==> #[trigger] self.esthers@[i] == start[i],
            decreases start.len() - j,
        {
            assert(0 <= start[j as int].entity.stats.total_damage <= total);
            let share = ratio(self.esthers[j].entity.stats.total_damage, total);
            self.esthers[j].entity.stats.damage_percentage = share;
            j = j + 1;
        }
        proof {
            assert(self.esthers@[k as int].entity.stats.total_damage == own);
            assert forall|i: int|
                0 <= i < old(self).esthers@.len() && i != k implies self.esthers@[i].entity.stats.total_damage
                == old(self).esthers@[i].entity.stats.total_damage by {
                assert(self.esthers@[i].entity.stats.total_damage == start[i].entity.stats.total_damage);
                assert(start[i] == e0[i]);
            }
            assert forall|i: int| 0 <= i < self.esthers@.len() implies esther_ok(
                #[trigger] self.esthers@[i],
                self.stats,
            ) by {
                assert(esther_ok(self.esthers@[i], self.stats));
            }
        }
    }
}

} // verus!
