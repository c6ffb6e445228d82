use fight_simulator::catalog::{Class, RawSkill, SkillGrade};
use fight_simulator::format::RATIO_SCALE;
use fight_simulator::roster::get_random_nickname;
use fight_simulator::tick::generate_random_range;
use fight_simulator::simulator::{
    EstherTemplate, FightSimulator, SetupError, SimError, DPS_MIN_CRIT_RATE, GAUGE_COST,
    GAUGE_START, MAX_ENTITY_ID, MIN_ENTITY_ID, SUPPORT_CRIT_RATE, SUPPORT_MAX_DAMAGE,
    SUPPORT_MIN_DAMAGE,
};

fn class(id: u32, is_support: bool, is_generic: bool) -> Class {
    Class { id, name: format!("class {}", id), is_generic, is_support }
}

fn raw_skill(id: u32, class_id: u32, name: &str) -> RawSkill {
    RawSkill {
        id,
        name: Some(name.to_string()),
        desc: None,
        class_id: Some(class_id),
        icon: Some(format!("{}.png", id)),
        grade: SkillGrade::Normal,
    }
}

/// Six damage-dealer classes, two supports and one generic class, each with
/// ten usable skills and a few entries that must be left out.
fn catalog() -> (Vec<Class>, Vec<RawSkill>) {
    let mut classes = Vec::new();
    for id in 101..=106 {
        classes.push(class(id, false, false));
    }
    classes.push(class(201, true, false));
    classes.push(class(202, true, false));
    classes.push(class(301, false, true));
    let mut skills = Vec::new();
    let mut next = 1u32;
    for c in &classes {
        for k in 0..10 {
            skills.push(raw_skill(next, c.id, &format!("Skill {} of {}", k, c.id)));
            next += 1;
        }
        skills.push(raw_skill(next, c.id, "Weapon Attack"));
        next += 1;
        let mut awakening = raw_skill(next, c.id, "Awakening");
        awakening.grade = SkillGrade::Awakening;
        skills.push(awakening);
        next += 1;
    }
    (classes, skills)
}

fn simulator() -> FightSimulator {
    let (classes, skills) = catalog();
    FightSimulator::new(classes, skills)
}

fn esther(name: &str, min_dmg: i64, max_dmg: i64) -> EstherTemplate {
    EstherTemplate { name: name.to_string(), icon: format!("{}.png", name), min_dmg, max_dmg }
}

#[test]
fn new_sorts_the_catalog() {
    let sim = simulator();
    assert_eq!(sim.dps_classes.len(), 6);
    assert_eq!(sim.sup_classes.len(), 2);
    assert_eq!(sim.skills.len(), 90);
    assert!(sim.skills.iter().all(|s| s.name.as_deref() != Some("Weapon Attack")));
    assert_eq!(sim.esther_gauge, GAUGE_START);
    assert!(!sim.has_ended());
}

#[test]
fn roster_of_eight_has_supports_in_every_fourth_slot() {
    let mut sim = simulator();
    sim.create_8_players(1_000, 2_000, 1_000).unwrap();
    assert_eq!(sim.players.len(), 8);
    for (i, p) in sim.players.iter().enumerate() {
        let t = &p.template;
        assert!(p.entity.id >= MIN_ENTITY_ID && p.entity.id <= MAX_ENTITY_ID);
        assert_eq!(p.entity.name.len(), 10);
        assert!(p.entity.name.chars().next().unwrap().is_ascii_uppercase());
        assert!(p.entity.name.chars().skip(1).all(|c| c.is_ascii_lowercase()));
        assert_eq!(p.entity.class_color, "#FFFFFF");
        assert_eq!(t.skills.len(), 8);
        if (i + 1) % 4 == 0 {
            assert!(p.entity.class_id == 201 || p.entity.class_id == 202);
            assert_eq!(t.crit_rate, SUPPORT_CRIT_RATE);
            assert_eq!((t.min_dmg, t.max_dmg), (SUPPORT_MIN_DAMAGE, SUPPORT_MAX_DAMAGE));
        } else {
            assert!(p.entity.class_id >= 101 && p.entity.class_id <= 106);
            assert!(t.crit_rate >= DPS_MIN_CRIT_RATE && t.crit_rate <= RATIO_SCALE);
            assert_eq!((t.min_dmg, t.max_dmg), (1_000, 2_000));
        }
        for s in &t.skills {
            assert!(s.id >= 1);
            assert!(s.name.starts_with("Skill "));
        }
        let mut ids: Vec<u32> = t.skills.iter().map(|s| s.id).collect();
        ids.sort();
        ids.dedup();
        assert_eq!(ids.len(), 8);
    }
    let mut ids: Vec<u64> = sim.players.iter().map(|p| p.entity.id).collect();
    ids.sort();
    ids.dedup();
    assert_eq!(ids.len(), 8);
    let mut classes: Vec<u32> = sim.players.iter().map(|p| p.entity.class_id).collect();
    classes.sort();
    classes.dedup();
    assert_eq!(classes.len(), 8);
}

#[test]
fn roster_fails_when_classes_run_out() {
    let mut sim = simulator();
    assert_eq!(sim.create_players(12, 1, 2, 1_000), Err(SetupError::ClassesExhausted));
    assert_eq!(sim.players.len(), 0);
}

#[test]
fn roster_fails_without_usable_skills() {
    let (classes, mut skills) = catalog();
    skills.retain(|s| s.class_id != Some(101));
    let mut sim = FightSimulator::new(classes.into_iter().filter(|c| c.id == 101 || c.is_support).collect(), skills);
    assert_eq!(
        sim.create_players(1, 1, 2, 1_000),
        Err(SetupError::NoUsableSkills { class_id: 101, class_name: "class 101".to_string() })
    );
}

#[test]
fn large_boss_bars_and_health() {
    let mut sim = simulator();
    sim.create_8_players(100_000_000, 250_000_000, 1_000).unwrap();
    sim.create_boss(485_000, "Red Doom Narkiel", 100_000_000_000, 300, 1_000).unwrap();
    let boss = sim.boss.as_ref().unwrap();
    assert_eq!(boss.stats.hp_per_bar, 333_333_333);
    assert_eq!(boss.stats.hp_bars, 300);
    assert_eq!(boss.stats.hp_percentage, RATIO_SCALE);
    assert_eq!(boss.stats.hp, 100_000_000_000);
    assert_eq!(boss.name, "Red Doom Narkiel");
    assert_eq!(boss.npc_id, 485_000);
}

#[test]
fn tick_without_boss_is_an_error() {
    let mut sim = simulator();
    sim.create_8_players(1, 2, 1_000).unwrap();
    sim.configure_esther(esther("Azena", 1, 2)).unwrap();
    assert_eq!(sim.perform_attacks_and_update_stats(), Err(SimError::BossUnset));
    assert!(sim.to_fight_update_event().is_err());
}

#[test]
fn lethal_attack_ends_the_batch_and_later_ticks_do_nothing() {
    let mut sim = simulator();
    sim.create_players(3, 1_000, 2_000, 1_000).unwrap();
    sim.create_boss(1, "Target", 1, 1, 1_000).unwrap();
    sim.configure_esther(esther("Thar", 5, 5)).unwrap();
    sim.tick_at(1_000).unwrap();
    assert!(sim.has_ended());
    let boss = sim.boss.as_ref().unwrap();
    assert_eq!(boss.stats.hp, 0);
    assert_eq!(boss.stats.damage_taken, 1);
    assert_eq!(sim.stats.total_player_damage, 1);
    assert_eq!(sim.stats.total_taken_damage, 0);
    for p in &sim.players {
        assert_eq!(p.entity.stats.skills.hit_count, 0);
        assert_eq!(p.entity.stats.total_damage, 0);
    }
    let before = sim.to_fight_update_event().unwrap();
    sim.tick_at(500_000).unwrap();
    sim.tick_at(900_000).unwrap();
    assert_eq!(sim.to_fight_update_event().unwrap(), before);
    assert_eq!(sim.current_time, 1_000);
}

#[test]
fn esther_fires_after_eighty_seconds_of_charge() {
    let mut sim = simulator();
    sim.configure_esther(esther("Avele", 7, 7)).unwrap();
    sim.advance_clock(10_000);
    sim.update_esther_gauge();
    assert_eq!(sim.esther_gauge, GAUGE_START + 1_000);
    sim.advance_clock(89_000);
    sim.update_esther_gauge();
    assert_eq!(sim.esther_gauge, GAUGE_COST);
    sim.try_use_esther();
    assert_eq!(sim.esther_gauge, 0);
    assert_eq!(sim.stats.total_esther_damage, 7);
    assert_eq!(sim.esthers[0].entity.stats.total_damage, 7);
    assert_eq!(sim.esthers[0].entity.stats.damage_percentage, RATIO_SCALE);
    assert_eq!(sim.last_used_esther_on, Some(89_000));
    sim.try_use_esther();
    assert_eq!(sim.stats.total_esther_damage, 7);
}

#[test]
fn esther_shares_are_recomputed_for_all() {
    let mut sim = simulator();
    sim.configure_esther(esther("Azena", 10, 10)).unwrap();
    sim.configure_esther(esther("Thar", 10, 10)).unwrap();
    sim.esther_gauge = 2 * GAUGE_COST;
    sim.try_use_esther();
    sim.esther_gauge = GAUGE_COST;
    sim.try_use_esther();
    assert_eq!(sim.stats.total_esther_damage, 20);
    let shares: i64 = sim.esthers.iter().map(|e| e.entity.stats.damage_percentage).sum();
    assert_eq!(shares, RATIO_SCALE);
    for e in &sim.esthers {
        let expected = e.entity.stats.total_damage * RATIO_SCALE / 20;
        assert_eq!(e.entity.stats.damage_percentage, expected);
    }
}

#[test]
fn dead_player_duration_grows_then_freezes() {
    let mut sim = simulator();
    sim.create_players(3, 40, 60, 1_000).unwrap();
    sim.create_boss(1, "Target", 2_000, 10, 1_000).unwrap();
    sim.configure_esther(esther("Thar", 1, 1)).unwrap();
    sim.set_player_dead(0, 1_000);
    let died = sim.players[0].entity.death_log.recorded_on.unwrap();
    assert_eq!(sim.players[0].entity.death_log.duration, Some(0));
    let mut last = 0;
    let mut t = died;
    let mut ticks = 0;
    while !sim.has_ended() {
        t += 1_000;
        sim.tick_at(t).unwrap();
        let d = sim.players[0].entity.death_log.duration.unwrap();
        assert_eq!(d, t - died);
        assert!(d > last);
        last = d;
        ticks += 1;
        assert!(ticks < 10_000);
    }
    assert_eq!(sim.players[0].entity.stats.total_damage, 0);
    sim.tick_at(t + 5_000).unwrap();
    assert_eq!(sim.players[0].entity.death_log.duration, Some(last));
}

#[test]
fn ticks_keep_counters_consistent_and_growing() {
    let mut sim = simulator();
    sim.create_8_players(1_000, 5_000, 1_000).unwrap();
    sim.create_boss(7, "Big", 10_000_000, 100, 1_000).unwrap();
    sim.configure_esther(esther("Azena", 100, 200)).unwrap();
    let mut previous = sim.to_fight_update_event().unwrap();
    for k in 1..=20 {
        sim.tick_at(k * 2_000).unwrap();
        let u = sim.to_fight_update_event().unwrap();
        assert_eq!(u.players.len(), 8);
        for w in u.players.windows(2) {
            assert!(w[0].stats.total_damage <= w[1].stats.total_damage);
        }
        for p in &u.players {
            let s = &p.stats;
            assert_eq!(
                s.back_attacks_total_damage + s.front_attacks_total_damage + s.non_positional_attacks_total_damage,
                s.total_damage
            );
            let expected = if s.skills.hit_count == 0 {
                0
            } else {
                s.skills.crit_count as i64 * RATIO_SCALE / s.skills.hit_count as i64
            };
            assert_eq!(s.crit_rate, expected);
            let hits: u32 = s.skills.skill.iter().map(|e| e.hit_count).sum();
            assert_eq!(hits, s.skills.hit_count);
            let old = previous.players.iter().find(|q| q.id == p.id).unwrap();
            assert!(s.total_damage >= old.stats.total_damage);
            assert!(s.skills.hit_count >= old.stats.skills.hit_count);
            assert!(s.skills.crit_count >= old.stats.skills.crit_count);
        }
        let b = &u.boss.stats;
        assert_eq!(b.hp_bars, b.hp / b.hp_per_bar);
        assert_eq!(u.stats.total_player_damage, b.max_hp - b.hp);
        assert!(u.stats.total_taken_damage >= previous.stats.total_taken_damage);
        assert!(u.stats.total_esther_damage >= previous.stats.total_esther_damage);
        let secs = (k * 2_000 - 2_000) / 1_000;
        let raw = if secs == 0 { 0 } else { u.stats.total_player_damage / secs };
        assert_eq!(u.stats.party_dps.raw, raw);
        previous = u;
    }
}

#[test]
fn first_tick_has_zero_duration_and_zero_dps() {
    let mut sim = simulator();
    sim.create_8_players(1_000, 5_000, 1_000).unwrap();
    sim.create_boss(7, "Big", 10_000_000, 100, 1_000).unwrap();
    sim.configure_esther(esther("Azena", 100, 200)).unwrap();
    sim.tick_at(5_000).unwrap();
    assert_eq!(sim.duration, 0);
    assert_eq!(sim.stats.party_dps, fight_simulator::models::Dps::default());
    assert_eq!(sim.stats.time_to_kill_mmss, "00:00");
    assert_eq!(sim.stats.duration_mmss, "00:00");
    for p in &sim.players {
        assert_eq!(p.entity.stats.dps.raw, 0);
    }
}

#[test]
fn load_reports_the_version() {
    let r = fight_simulator::load::load_inner("0.0.1".to_string());
    assert_eq!(r.version, "0.0.1");
}

#[test]
fn batch_bounds_start_at_two() {
    for size in [2u32, 3, 8] {
        for _ in 0..30 {
            let (start, end) = generate_random_range(size);
            assert_eq!(start, 2);
            assert!(end >= 2 && end <= size);
        }
    }
}

#[test]
fn nicknames_are_capitalised_words() {
    assert_eq!(get_random_nickname(0), "");
    for _ in 0..20 {
        let n = get_random_nickname(6);
        assert_eq!(n.len(), 6);
        assert!(n.chars().next().unwrap().is_ascii_uppercase());
        assert!(n.chars().skip(1).all(|c| c.is_ascii_lowercase()));
    }
}

#[test]
fn entity_ids_are_unique_until_the_range_is_exhausted() {
    let mut sim = simulator();
    let mut seen = std::collections::HashSet::new();
    for _ in 0..200 {
        let id = sim.get_random_unique_entity_id().unwrap();
        assert!(id >= MIN_ENTITY_ID && id <= MAX_ENTITY_ID);
        assert!(seen.insert(id));
    }
    for id in MIN_ENTITY_ID..MAX_ENTITY_ID {
        sim.registered_ids.insert(id);
    }
    assert_eq!(sim.get_random_unique_entity_id(), Ok(MAX_ENTITY_ID));
    assert_eq!(sim.get_random_unique_entity_id(), Err(SetupError::IdsExhausted));
    assert_eq!(sim.configure_esther(esther("Thar", 1, 2)), Err(SetupError::IdsExhausted));
    assert_eq!(sim.esthers.len(), 0);
}

#[test]
fn encounter_top_damage_bounds_every_player() {
    let mut sim = simulator();
    sim.create_8_players(1_000, 5_000, 1_000).unwrap();
    sim.create_boss(7, "Big", 10_000_000, 100, 1_000).unwrap();
    sim.configure_esther(esther("Azena", 100, 200)).unwrap();
    for k in 1..=5 {
        sim.tick_at(k * 1_000).unwrap();
    }
    let top = sim.players.iter().map(|p| p.entity.stats.top_damage).max().unwrap();
    assert_eq!(sim.stats.top_damage, top);
}

#[test]
fn tick_advances_time_and_strikes_back() {
    let mut sim = simulator();
    sim.create_8_players(1_000, 5_000, 1_000).unwrap();
    sim.set_random_player_dead(1_000);
    assert_eq!(sim.players.iter().filter(|p| p.entity.death_log.is_dead).count(), 1);
    sim.create_boss(7, "Big", 10_000_000, 100, 1_000).unwrap();
    sim.configure_esther(esther("Azena", 100, 200)).unwrap();
    sim.tick_at(1_700_000_000_000).unwrap();
    assert_eq!(sim.current_time, 1_700_000_000_000);
    assert_eq!(sim.fight_started_on, Some(sim.current_time));
    assert!(sim.stats.total_player_damage > 0);
    let boss = sim.boss.as_ref().unwrap();
    assert_eq!(sim.stats.total_taken_damage, boss.stats.total_damage_dealt);
    assert!(sim.stats.total_taken_damage >= 10_000 && sim.stats.total_taken_damage <= 20_000);
    let hit: Vec<_> = sim.players.iter().filter(|p| p.entity.stats.damage_taken > 0).collect();
    assert_eq!(hit.len(), 1);
    assert!(!hit[0].entity.death_log.is_dead);
    assert_eq!(hit[0].entity.stats.damage_taken, sim.stats.total_taken_damage);
    assert_eq!(hit[0].entity.stats.damage_taken_percentage, 1_000_000);
    let attackers = sim.players.iter().filter(|p| p.entity.stats.skills.hit_count == 1).count();
    assert!(attackers >= 2 && attackers <= 7);
    assert!(sim.players.iter().all(|p| !(p.entity.death_log.is_dead && p.entity.stats.skills.hit_count > 0)));
}
