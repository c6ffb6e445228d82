use fight_simulator::combat::{
    perform_attack, random_hit_option, resolve_attack, update_boss, update_player, AttackResult,
    AttackRolls, PlayerTemplate,
};
use fight_simulator::format::RATIO_SCALE;
use fight_simulator::models::{DeathLog, HitFlag, HitOption, Player, PlayerStats, Skill};
use fight_simulator::combat::new_boss_stats;

fn skill(id: u32) -> Skill {
    Skill { id, name: format!("skill {}", id), icon: format!("{}.png", id) }
}

fn template(crit_rate: i64, min_dmg: i64, max_dmg: i64) -> PlayerTemplate {
    PlayerTemplate { skills: vec![skill(1), skill(2)], crit_rate, min_dmg, max_dmg }
}

fn player() -> Player {
    Player {
        id: 10_001,
        name: "Abcdefghij".to_string(),
        class_color: "#FFFFFF".to_string(),
        class_name: "Berserker".to_string(),
        class_id: 102,
        created_on: 0,
        stats: PlayerStats::empty(),
        death_log: DeathLog { is_dead: false, death_count: 0, recorded_on: None, duration: None },
    }
}

fn hit(skill_id: u32, damage: i64, crit: bool, option: HitOption) -> AttackResult {
    AttackResult {
        skill: skill(skill_id),
        has_fight_ended: false,
        hit_flag: if crit { HitFlag::Critical } else { HitFlag::Normal },
        hit_option: option,
        damage,
    }
}

#[test]
fn normal_hit_takes_the_rolled_damage() {
    let t = template(100_000, 100, 200);
    let rolls = AttackRolls { damage: 150, crit: 500_000, hit_option: 0, skill: 1 };
    let r = resolve_attack(10_000, &t, rolls);
    assert_eq!(r.damage, 150);
    assert_eq!(r.hit_flag, HitFlag::Normal);
    assert_eq!(r.hit_option, HitOption::BackAttack);
    assert_eq!(r.skill.id, 2);
    assert!(!r.has_fight_ended);
}

#[test]
fn critical_hit_doubles_the_damage() {
    let t = template(600_000, 100, 200);
    let rolls = AttackRolls { damage: 120, crit: 600_000, hit_option: 1, skill: 0 };
    let r = resolve_attack(10_000, &t, rolls);
    assert_eq!(r.damage, 240);
    assert_eq!(r.hit_flag, HitFlag::Critical);
    assert_eq!(r.hit_option, HitOption::FlankAttack);
    assert!(!r.has_fight_ended);
}

#[test]
fn low_health_boss_takes_a_lethal_hit() {
    let t = template(0, 100, 200);
    let rolls = AttackRolls { damage: 100, crit: 1, hit_option: 2, skill: 0 };
    let r = resolve_attack(150, &t, rolls);
    assert_eq!(r.damage, 150);
    assert!(r.has_fight_ended);
    assert_eq!(r.hit_option, HitOption::FrontalAttack);
}

#[test]
fn doubled_damage_is_clamped_to_the_health_left() {
    let t = template(RATIO_SCALE, 100, 200);
    let rolls = AttackRolls { damage: 180, crit: 0, hit_option: 0, skill: 0 };
    let r = resolve_attack(300, &t, rolls);
    assert_eq!(r.damage, 300);
    assert_eq!(r.hit_flag, HitFlag::Critical);
    assert!(r.has_fight_ended);
}

#[test]
fn random_attack_never_exceeds_the_health() {
    let t = template(500_000, 1_000, 5_000);
    for hp in [0i64, 1, 999, 4_999, 5_000, 9_999, 1_000_000] {
        for _ in 0..50 {
            let r = perform_attack(hp, &t);
            assert!(r.damage >= 0 && r.damage <= hp);
            if r.has_fight_ended {
                assert_eq!(r.damage, hp);
            }
        }
    }
}

#[test]
fn random_hit_option_is_positional_or_flank() {
    for _ in 0..50 {
        let o = random_hit_option();
        assert!(o == HitOption::BackAttack || o == HitOption::FlankAttack || o == HitOption::FrontalAttack);
    }
}

#[test]
fn player_update_fills_buckets_and_skills() {
    let mut p = player();
    update_player(&mut p, &hit(7, 100, false, HitOption::BackAttack), 100, 5);
    update_player(&mut p, &hit(7, 300, true, HitOption::FrontalAttack), 400, 6);
    update_player(&mut p, &hit(8, 100, false, HitOption::FlankAttack), 1_000, 7);
    let s = &p.stats;
    assert_eq!(s.total_damage, 500);
    assert_eq!(s.top_damage, 300);
    assert_eq!(s.back_attacks_total_damage, 100);
    assert_eq!(s.front_attacks_total_damage, 300);
    assert_eq!(s.non_positional_attacks_total_damage, 100);
    assert_eq!(
        s.back_attacks_total_damage + s.front_attacks_total_damage + s.non_positional_attacks_total_damage,
        s.total_damage
    );
    assert_eq!(s.back_attacks_damage_percentage, 200_000);
    assert_eq!(s.front_attacks_damage_percentage, 600_000);
    assert_eq!(s.non_positional_attacks_damage_percentage, 200_000);
    assert_eq!(s.skills.hit_count, 3);
    assert_eq!(s.skills.crit_count, 1);
    assert_eq!(s.crit_rate, 333_333);
    assert_eq!(s.crit_damage, 300);
    assert_eq!(s.damage_percentage, 500_000);
    assert_eq!(s.updated_on, 7);
    assert_eq!(s.skills.skill.len(), 2);
    let first = &s.skills.skill[0];
    assert_eq!((first.id, first.hit_count, first.crit_count, first.total_damage, first.crit_damage), (7, 2, 1, 400, 300));
    let second = &s.skills.skill[1];
    assert_eq!((second.id, second.hit_count, second.crit_count, second.total_damage), (8, 1, 0, 100));
    assert_eq!(second.name, "skill 8");
}

#[test]
fn boss_update_tracks_health_bars_and_last_hit() {
    let mut b = new_boss_stats(1_000, 10, 0);
    assert_eq!(b.hp_per_bar, 100);
    assert_eq!(b.hp_bars, 10);
    assert_eq!(b.hp_percentage, RATIO_SCALE);
    update_boss(&mut b, &hit(1, 250, false, HitOption::BackAttack), 9);
    assert_eq!(b.hp, 750);
    assert_eq!(b.hp_bars, 7);
    assert_eq!(b.hp_percentage, 750_000);
    assert_eq!(b.damage_taken, 250);
    assert_eq!(b.updated_on, 9);
    update_boss(&mut b, &hit(1, 50, false, HitOption::BackAttack), 10);
    assert_eq!(b.damage_taken, 50);
    assert_eq!(b.hp_bars, 7);
}

#[test]
fn boss_without_bars_guards_the_division() {
    let b = new_boss_stats(1_000, 0, 0);
    assert_eq!(b.hp_per_bar, 0);
    assert_eq!(b.hp_bars, 0);
    let b = new_boss_stats(0, 5, 0);
    assert_eq!(b.hp_percentage, 0);
}

#[test]
fn damage_taken_updates_total_and_share() {
    let mut p = player();
    fight_simulator::combat::update_damage_taken(&mut p, 15_000, 60_000);
    assert_eq!(p.stats.damage_taken, 15_000);
    assert_eq!(p.stats.damage_taken_percentage, 250_000);
    fight_simulator::combat::update_damage_taken(&mut p, 15_000, 60_000);
    assert_eq!(p.stats.damage_taken, 30_000);
    assert_eq!(p.stats.damage_taken_percentage, 500_000);
}

#[test]
fn boss_attack_stays_in_range() {
    let mut b = new_boss_stats(1_000, 10, 0);
    let mut total = 0;
    for _ in 0..30 {
        let d = fight_simulator::combat::perform_boss_attack(&mut b);
        assert!(d >= 10_000 && d <= 20_000);
        total += d;
        assert_eq!(b.total_damage_dealt, total);
    }
    assert_eq!(b.hp, 1_000);
}
