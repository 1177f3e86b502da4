use rand::rngs::StdRng;
use rand::SeedableRng;

use red_dragon::combat::{replay_fight, resolve_fight, start_fight, Fight};
use red_dragon::forest::{explore_forest, settle_encounter, ForestError};
use red_dragon::leveling::try_level_up;
use red_dragon::monster::{generate_monster, scale_monster, Monster, MonsterKind};
use red_dragon::news::NewsEvent;
use red_dragon::player::{new_player, Player, MAX_DAILY_FOREST_FIGHTS};
use red_dragon::pvp::{challenge_player, choose_opponent, settle_duel, DuelChoice, DuelError};
use red_dragon::player::PlayerInfo;

fn hero(id: i32, name: &str) -> Player {
    new_player(id, name.to_string(), String::new(), 0)
}

fn holds_invariant(p: &Player) -> bool {
    p.level >= 1
        && p.max_hp >= 1
        && 0 <= p.current_hp
        && p.current_hp <= p.max_hp
        && p.alive == (p.current_hp > 0)
        && 0 <= p.forest_fights
        && p.forest_fights <= MAX_DAILY_FOREST_FIGHTS
        && 0 <= p.exp
        && p.exp < p.level * 100
        && p.gold >= 0
}

#[test]
fn new_player_has_starting_stats() {
    let p = hero(7, "Ann");
    assert_eq!((p.id, p.level, p.exp, p.gold), (7, 1, 0, 100));
    assert_eq!((p.current_hp, p.max_hp, p.attack, p.defense), (20, 20, 5, 2));
    assert_eq!(p.forest_fights, MAX_DAILY_FOREST_FIGHTS);
    assert!(p.alive);
    assert_eq!(p.spouse, "");
    assert!(holds_invariant(&p));
}

#[test]
fn xp_to_next_level_is_level_times_100() {
    let mut p = hero(1, "Ann");
    assert_eq!(p.xp_to_next_level(), 100);
    p.level = 7;
    assert_eq!(p.xp_to_next_level(), 700);
}

#[test]
fn leveling_from_250_exp_stops_at_level_2() {
    let mut p = hero(1, "Ann");
    p.exp = 250;
    let ups = try_level_up(&mut p);
    assert_eq!(ups, 1);
    assert_eq!(p.level, 2);
    assert_eq!(p.exp, 150);
    assert_eq!(p.max_hp, 30);
    assert_eq!(p.current_hp, 30);
    assert_eq!(p.attack, 7);
    assert_eq!(p.defense, 3);
}

#[test]
fn leveling_applies_several_level_ups_at_once() {
    let mut p = hero(1, "Ann");
    p.current_hp = 4;
    p.exp = 650;
    let ups = try_level_up(&mut p);
    // 100 for 1->2, 200 for 2->3, 300 for 3->4, then 50 < 400.
    assert_eq!(ups, 3);
    assert_eq!(p.level, 4);
    assert_eq!(p.exp, 50);
    assert_eq!(p.max_hp, 50);
    assert_eq!(p.current_hp, 50);
    assert_eq!(p.attack, 11);
    assert_eq!(p.defense, 5);
    assert!(holds_invariant(&p));
}

#[test]
fn leveling_without_enough_exp_changes_nothing() {
    let mut p = hero(1, "Ann");
    p.exp = 99;
    p.current_hp = 3;
    let before = p.clone();
    assert_eq!(try_level_up(&mut p), 0);
    assert_eq!(p, before);
}

#[test]
fn scaled_monster_has_exact_stats() {
    // Level 3: factor 1 + 2/2 = 2.
    let m = scale_monster(MonsterKind::Goblin, 3, 4, 1, 7);
    assert_eq!(m.hp, 44);
    assert_eq!(m.attack, 11);
    assert_eq!(m.exp_reward, 33);
    assert_eq!(m.gold_reward, 7);
    // Level 1: factor 1; a gold roll below 1 is raised to 1.
    let d = scale_monster(MonsterKind::ForestDragon, 1, 0, 0, 0);
    assert_eq!((d.hp, d.attack, d.exp_reward, d.gold_reward), (50, 12, 37, 1));
    // Level 2 still has factor 1.
    let b = scale_monster(MonsterKind::WildBoar, 2, 10, 2, 5);
    assert_eq!((b.hp, b.attack, b.exp_reward), (25, 6, 18));
}

#[test]
fn generated_monsters_stay_in_their_ranges() {
    let mut rng = StdRng::seed_from_u64(11);
    for level in [1, 2, 5, 9] {
        for _ in 0..50 {
            let m = generate_monster(level, &mut rng);
            let (base_hp, base_attack) = m.kind.base_stats();
            let factor = 1 + (level - 1) / 2;
            assert!(m.hp >= base_hp * factor && m.hp <= base_hp * factor + 5 * level);
            assert!(m.attack >= base_attack * factor && m.attack <= base_attack * factor + level);
            assert_eq!(m.exp_reward, (m.hp / 2 + m.attack).max(1));
            assert!(m.gold_reward >= 1 && m.gold_reward <= 3 * m.attack);
        }
    }
}

#[test]
fn monster_names_follow_the_table() {
    assert_eq!(MonsterKind::from_index(0).name(), "Wild Boar");
    assert_eq!(MonsterKind::from_index(3).name(), "Giant Spider");
    assert_eq!(MonsterKind::from_index(5).name(), "Forest Dragon");
    assert_eq!(MonsterKind::from_index(4).base_stats(), (35, 8));
}

#[test]
fn replayed_strikes_alternate_and_clamp_at_zero() {
    let start = start_fight(10, 5, 8, 4);
    let f = replay_fight(start, &vec![3]);
    assert_eq!((f.challenger_hp, f.opponent_hp, f.challenger_to_strike), (10, 5, false));
    let f = replay_fight(start, &vec![3, 4, 5]);
    assert_eq!((f.challenger_hp, f.opponent_hp), (6, 0));
    // Strikes after the end change nothing.
    let g = replay_fight(start, &vec![3, 4, 5, 9, 9]);
    assert_eq!(f, g);
}

#[test]
fn resolved_fights_end_with_one_side_down() {
    let mut rng = StdRng::seed_from_u64(3);
    for _ in 0..100 {
        let start = start_fight(20, 5, 30, 6);
        let end: Fight = resolve_fight(start, &mut rng);
        assert!((end.challenger_hp == 0) != (end.opponent_hp == 0));
        assert!(end.challenger_hp <= 20 && end.opponent_hp <= 30);
    }
}

fn monster(hp: i32, attack: i32) -> Monster {
    Monster { kind: MonsterKind::Ogre, hp, attack, exp_reward: 30, gold_reward: 9 }
}

#[test]
fn death_in_the_forest_is_settled_and_reported_once() {
    let mut p = hero(1, "Ann");
    p.current_hp = 5;
    let m = monster(100, 20);
    let start = start_fight(p.current_hp, p.attack, m.hp, m.attack);
    // The player hits for 3, the monster answers with 9 > 5.
    let end = replay_fight(start, &vec![3, 9]);
    let (ups, news) = settle_encounter(&mut p, &m, &end);
    assert_eq!(ups, 0);
    assert!(!p.alive);
    assert_eq!(p.current_hp, 0);
    assert_eq!(p.forest_fights, MAX_DAILY_FOREST_FIGHTS - 1);
    assert_eq!(p.gold, 100);
    assert_eq!(
        news,
        vec![NewsEvent::SlainByMonster { player: "Ann".to_string(), monster: MonsterKind::Ogre }]
    );
}

#[test]
fn forest_victory_pays_rewards_and_levels() {
    let mut p = hero(1, "Ann");
    p.exp = 90;
    let m = Monster { kind: MonsterKind::ForestDragon, hp: 4, attack: 12, exp_reward: 15, gold_reward: 9 };
    let end = replay_fight(start_fight(p.current_hp, p.attack, m.hp, m.attack), &vec![5]);
    let (ups, news) = settle_encounter(&mut p, &m, &end);
    assert_eq!(ups, 1);
    assert_eq!((p.level, p.exp, p.gold), (2, 5, 109));
    assert_eq!(p.current_hp, 30);
    assert_eq!(p.forest_fights, MAX_DAILY_FOREST_FIGHTS - 1);
    assert_eq!(
        news,
        vec![
            NewsEvent::LevelUp { player: "Ann".to_string(), level: 2 },
            NewsEvent::MonsterSlain { player: "Ann".to_string(), monster: MonsterKind::ForestDragon },
        ]
    );
}

#[test]
fn ordinary_kills_make_no_news() {
    let mut p = hero(1, "Ann");
    let m = monster(2, 10);
    let end = replay_fight(start_fight(p.current_hp, p.attack, m.hp, m.attack), &vec![2]);
    let (_, news) = settle_encounter(&mut p, &m, &end);
    assert!(news.is_empty());
    assert_eq!((p.exp, p.gold, p.current_hp), (30, 109, 20));
}

#[test]
fn forest_refuses_a_player_without_fights() {
    let mut p = hero(1, "Ann");
    p.forest_fights = 0;
    let before = p.clone();
    let mut rng = StdRng::seed_from_u64(1);
    assert_eq!(explore_forest(&mut p, &mut rng), Err(ForestError::NoFightsLeft));
    assert_eq!(p, before);
}

#[test]
fn forest_refuses_a_dead_player() {
    let mut p = hero(1, "Ann");
    p.current_hp = 0;
    p.alive = false;
    let before = p.clone();
    let mut rng = StdRng::seed_from_u64(1);
    assert_eq!(explore_forest(&mut p, &mut rng), Err(ForestError::PlayerDead));
    assert_eq!(p, before);
}

#[test]
fn forest_encounters_spend_one_fight_each_and_keep_the_invariant() {
    let mut rng = StdRng::seed_from_u64(42);
    for _ in 0..30 {
        let mut p = hero(1, "Ann");
        let e = explore_forest(&mut p, &mut rng).expect("encounter");
        assert_eq!(p.forest_fights, MAX_DAILY_FOREST_FIGHTS - 1);
        assert!(holds_invariant(&p));
        assert_eq!(p.current_hp, e.fight.challenger_hp);
        if p.alive {
            assert_eq!(e.fight.opponent_hp, 0);
        } else {
            assert_eq!(e.news.len(), 1);
        }
    }
}

#[test]
fn no_opponents_ends_the_duel_at_once() {
    assert_eq!(choose_opponent(&vec![], Some(1)), DuelChoice::NoOpponents);
    assert_eq!(choose_opponent(&vec![], None), DuelChoice::NoOpponents);
}

#[test]
fn opponent_choice_is_one_based() {
    let list = vec![
        PlayerInfo { id: 4, name: "Bo".to_string(), level: 2 },
        PlayerInfo { id: 9, name: "Cy".to_string(), level: 1 },
    ];
    assert_eq!(choose_opponent(&list, Some(0)), DuelChoice::Cancelled);
    assert_eq!(choose_opponent(&list, Some(1)), DuelChoice::Opponent(4));
    assert_eq!(choose_opponent(&list, Some(2)), DuelChoice::Opponent(9));
    assert_eq!(choose_opponent(&list, Some(3)), DuelChoice::Invalid);
    assert_eq!(choose_opponent(&list, None), DuelChoice::Invalid);
}

#[test]
fn duel_victory_moves_half_the_gold_and_grants_experience() {
    let mut a = hero(1, "Ann");
    let mut b = hero(2, "Bo");
    b.gold = 51;
    b.level = 2;
    b.exp = 0;
    b.current_hp = 3;
    let end = replay_fight(start_fight(a.current_hp, a.attack, b.current_hp, b.attack), &vec![4]);
    let (ups, news) = settle_duel(&mut a, &mut b, &end);
    assert_eq!(a.gold + b.gold, 151);
    assert_eq!((a.gold, b.gold), (125, 26));
    assert_eq!(ups, 1);
    assert_eq!((a.level, a.exp), (2, 0));
    assert!(!b.alive);
    assert_eq!(b.current_hp, 0);
    assert_eq!(
        news,
        vec![
            NewsEvent::LevelUp { player: "Ann".to_string(), level: 2 },
            NewsEvent::DuelWon { winner: "Ann".to_string(), loser: "Bo".to_string() },
        ]
    );
}

#[test]
fn duel_defeat_gives_the_challengers_gold_away_without_experience() {
    let mut a = hero(1, "Ann");
    let mut b = hero(2, "Bo");
    a.current_hp = 2;
    a.gold = 7;
    let end = replay_fight(start_fight(a.current_hp, a.attack, b.current_hp, b.attack), &vec![1, 5]);
    let (ups, news) = settle_duel(&mut a, &mut b, &end);
    assert_eq!(ups, 0);
    assert_eq!((a.gold, b.gold), (4, 103));
    assert!(!a.alive);
    assert_eq!(a.current_hp, 0);
    assert_eq!(b.current_hp, 19);
    assert_eq!((b.exp, b.level), (0, 1));
    assert_eq!(news, vec![NewsEvent::DuelLost { loser: "Ann".to_string(), winner: "Bo".to_string() }]);
}

#[test]
fn duels_conserve_gold() {
    let mut rng = StdRng::seed_from_u64(5);
    for g in 0..40 {
        let mut a = hero(1, "Ann");
        let mut b = hero(2, "Bo");
        a.gold = 3 * g + 1;
        b.gold = 5 * g;
        let total = a.gold + b.gold;
        let d = challenge_player(&mut a, &mut b, &mut rng).expect("duel");
        assert_eq!(a.gold + b.gold, total);
        assert!(a.alive != b.alive);
        assert_eq!(d.news.len() as u32, d.level_ups + 1);
        assert!(holds_invariant(&a) && holds_invariant(&b));
    }
}

#[test]
fn duels_need_two_living_players() {
    let mut rng = StdRng::seed_from_u64(5);
    let mut a = hero(1, "Ann");
    let mut b = hero(2, "Bo");
    b.current_hp = 0;
    b.alive = false;
    let (a0, b0) = (a.clone(), b.clone());
    assert_eq!(challenge_player(&mut a, &mut b, &mut rng), Err(DuelError::TargetDead));
    assert_eq!((a.clone(), b.clone()), (a0.clone(), b0.clone()));
    assert_eq!(challenge_player(&mut b, &mut a, &mut rng), Err(DuelError::ChallengerDead));
    assert_eq!((a, b), (a0, b0));
}

#[test]
fn leveling_a_very_high_level_record_changes_nothing() {
    let mut p = hero(1, "Ann");
    p.level = 25_000_000;
    p.exp = 5;
    let before = p.clone();
    assert_eq!(try_level_up(&mut p), 0);
    assert_eq!(p, before);
}
