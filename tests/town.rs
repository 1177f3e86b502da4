use red_dragon::calendar::CalendarDate;
use red_dragon::credential::verify_password;
use red_dragon::news::NewsEvent;
use red_dragon::player::{new_player, Player, MAX_DAILY_FOREST_FIGHTS};
use red_dragon::romance::{buy_drink, flirt_with_violet, is_married_to_barmaid, Flirt, TavernError};
use red_dragon::store::{PlayerStore, StoreError};
use red_dragon::text::{same_name, valid_name};

fn hero(name: &str) -> Player {
    new_player(1, name.to_string(), String::new(), 0)
}

fn date(year: i32, month: u32, day: u32) -> CalendarDate {
    CalendarDate { year, month, day }
}

#[test]
fn names_compare_up_to_ascii_case() {
    assert!(same_name("Violet", "vIOLET"));
    assert!(!same_name("Violet", "Violets"));
    assert!(!same_name("Bob", "Bo b"));
    assert!(same_name("", ""));
}

#[test]
fn names_are_validated() {
    assert!(valid_name("Sir Lancelot 2"));
    assert!(!valid_name(""));
    assert!(!valid_name("abcdefghijklmnopqrstu"));
    assert!(valid_name("abcdefghijklmnopqrst"));
    assert!(!valid_name("Bob!"));
    assert!(!valid_name("Zoë"));
}

#[test]
fn dates_compare_chronologically() {
    assert!(date(2024, 12, 31).is_before(&date(2025, 1, 1)));
    assert!(date(2025, 1, 9).is_before(&date(2025, 1, 10)));
    assert!(!date(2025, 1, 10).is_before(&date(2025, 1, 10)));
    assert!(!date(2025, 2, 1).is_before(&date(2025, 1, 28)));
}

#[test]
fn five_flirts_lead_to_marriage() {
    let mut p = hero("Ann");
    for stage in 0..4 {
        let (f, news) = flirt_with_violet(&mut p);
        assert_eq!(f, Flirt::Charmed(stage));
        assert!(news.is_empty());
    }
    let (f, news) = flirt_with_violet(&mut p);
    assert_eq!(f, Flirt::Married);
    assert_eq!(p.spouse, "Violet");
    assert_eq!(p.romance, 5);
    assert_eq!(news, vec![NewsEvent::Married { player: "Ann".to_string() }]);
    assert!(is_married_to_barmaid(&p));
    let before = p.clone();
    let (f, news) = flirt_with_violet(&mut p);
    assert_eq!(f, Flirt::AlreadyMarried);
    assert!(news.is_empty());
    assert_eq!(p, before);
}

#[test]
fn drinks_cost_five_gold_and_heal_a_quarter() {
    let mut p = hero("Ann");
    p.current_hp = 10;
    assert_eq!(buy_drink(&mut p), Ok(5));
    assert_eq!((p.gold, p.current_hp), (95, 15));
    assert_eq!(buy_drink(&mut p), Ok(5));
    assert_eq!(buy_drink(&mut p), Ok(0));
    assert_eq!((p.gold, p.current_hp), (85, 20));
}

#[test]
fn married_players_get_a_refill() {
    let mut p = hero("Ann");
    p.spouse = "violet".to_string();
    p.current_hp = 1;
    // 20 / 4 = 5, then 20 / 8 = 2.
    assert_eq!(buy_drink(&mut p), Ok(7));
    assert_eq!(p.current_hp, 8);
}

#[test]
fn drinks_need_gold() {
    let mut p = hero("Ann");
    p.gold = 4;
    p.current_hp = 3;
    let before = p.clone();
    assert_eq!(buy_drink(&mut p), Err(TavernError::NotEnoughGold));
    assert_eq!(p, before);
}

#[test]
fn blank_credential_admits_only_blank_passwords() {
    assert!(verify_password("", ""));
    assert!(verify_password("  ", " "));
    assert!(!verify_password("secret", ""));
    assert!(!verify_password("secret", "not a phc string"));
}

#[test]
fn store_creates_players_with_unique_names() {
    let mut s = PlayerStore::new();
    let a = s.create_player("  Alice ", "").expect("created");
    assert_eq!(a.name, "Alice");
    assert_eq!(a.id, 1);
    assert_eq!(a.password, "");
    assert!(a.last_login > 1_600_000_000);
    assert_eq!((a.level, a.gold, a.current_hp), (1, 100, 20));
    assert_eq!(s.create_player("aLiCe", ""), Err(StoreError::DuplicateName));
    assert_eq!(s.len(), 1);
    let b = s.create_player("Bob", "").expect("created");
    assert_eq!(b.id, 2);
}

#[test]
fn store_hashes_passwords() {
    let mut s = PlayerStore::new();
    let a = s.create_player("Alice", " hunter2 ").expect("created");
    assert!(!a.password.is_empty());
    assert_ne!(a.password, "hunter2");
    assert!(verify_password("hunter2", &a.password));
    assert!(!verify_password("hunter3", &a.password));
}

#[test]
fn store_finds_players_by_name_and_id() {
    let mut s = PlayerStore::new();
    let a = s.create_player("Alice", "").unwrap();
    s.create_player("Bob", "").unwrap();
    assert_eq!(s.get_player_by_name("  ALICE "), Some(a.clone()));
    assert_eq!(s.get_player_by_name("Carol"), None);
    assert_eq!(s.get_player_by_id(2).map(|p| p.name), Some("Bob".to_string()));
    assert_eq!(s.get_player_by_id(3), None);
}

#[test]
fn store_saves_all_but_identity_and_credential() {
    let mut s = PlayerStore::new();
    let mut a = s.create_player("Alice", "").unwrap();
    a.gold = 7;
    a.exp = 42;
    a.name = "Mallory".to_string();
    a.password = "x".to_string();
    assert_eq!(s.update_player(&a), Ok(()));
    let stored = s.get_player_by_id(a.id).unwrap();
    assert_eq!((stored.gold, stored.exp), (7, 42));
    assert_eq!(stored.name, "Alice");
    assert_eq!(stored.password, "");
    a.id = 99;
    assert_eq!(s.update_player(&a), Err(StoreError::NotFound));
}

#[test]
fn store_saves_duel_pairs_whole_or_not_at_all() {
    let mut s = PlayerStore::new();
    let mut a = s.create_player("Alice", "").unwrap();
    let mut b = s.create_player("Bob", "").unwrap();
    a.gold = 150;
    b.gold = 50;
    let mut ghost = b.clone();
    ghost.id = 77;
    assert_eq!(s.update_pair(&a, &ghost), Err(StoreError::NotFound));
    assert_eq!(s.get_player_by_id(a.id).unwrap().gold, 100);
    assert_eq!(s.update_pair(&a, &b), Ok(()));
    assert_eq!(s.get_player_by_id(a.id).unwrap().gold, 150);
    assert_eq!(s.get_player_by_id(b.id).unwrap().gold, 50);
}

#[test]
fn store_keeps_the_latest_news_in_order() {
    let mut s = PlayerStore::new();
    assert!(s.get_latest_events(5).is_empty());
    for level in 2..6 {
        s.log_event(NewsEvent::LevelUp { player: "Ann".to_string(), level });
    }
    let last = s.get_latest_events(2);
    assert_eq!(
        last,
        vec![
            NewsEvent::LevelUp { player: "Ann".to_string(), level: 4 },
            NewsEvent::LevelUp { player: "Ann".to_string(), level: 5 },
        ]
    );
    assert_eq!(s.get_latest_events(10).len(), 4);
}

#[test]
fn store_lists_living_opponents() {
    let mut s = PlayerStore::new();
    let a = s.create_player("Alice", "").unwrap();
    let mut b = s.create_player("Bob", "").unwrap();
    s.create_player("Cy", "").unwrap();
    b.current_hp = 0;
    b.alive = false;
    s.update_player(&b).unwrap();
    let list = s.list_alive_players(a.id);
    assert_eq!(list.len(), 1);
    assert_eq!(list[0].name, "Cy");
    assert_eq!(list[0].id, 3);
}

#[test]
fn daily_reset_refreshes_everyone_once_per_day() {
    let mut s = PlayerStore::new();
    let mut a = s.create_player("Alice", "").unwrap();
    a.current_hp = 0;
    a.alive = false;
    a.forest_fights = 0;
    s.update_player(&a).unwrap();
    let today = date(2025, 3, 8);
    assert!(s.daily_reset(today));
    let after_once = s.get_player_by_id(a.id).unwrap();
    assert!(after_once.alive);
    assert_eq!(after_once.current_hp, after_once.max_hp);
    assert_eq!(after_once.forest_fights, MAX_DAILY_FOREST_FIGHTS);
    assert_eq!(s.get_latest_events(10), vec![NewsEvent::NewDay]);
    assert_eq!(s.last_reset(), Some(today));
    assert!(!s.daily_reset(today));
    assert_eq!(s.get_player_by_id(a.id).unwrap(), after_once);
    assert_eq!(s.get_latest_events(10).len(), 1);
    assert!(!s.daily_reset(date(2025, 3, 7)));
    assert!(s.daily_reset(date(2025, 3, 9)));
    assert_eq!(s.get_latest_events(10).len(), 2);
}

#[test]
fn daily_reset_today_uses_and_reports_the_local_date() {
    let mut s = PlayerStore::new();
    let (performed, d) = s.daily_reset_today();
    assert!(performed);
    assert_eq!(s.last_reset(), Some(d));
    assert!(d.year >= 2024 && (1..=12).contains(&d.month) && (1..=31).contains(&d.day));
    let (again, d2) = s.daily_reset_today();
    assert_eq!(again, d.is_before(&d2));
}

#[test]
fn top_players_rank_by_level_then_experience() {
    let mut s = PlayerStore::new();
    let mut a = s.create_player("Alice", "").unwrap();
    let mut b = s.create_player("Bob", "").unwrap();
    let mut c = s.create_player("Cy", "").unwrap();
    s.create_player("Dee", "").unwrap();
    a.level = 2;
    a.exp = 10;
    b.level = 3;
    c.level = 2;
    c.exp = 50;
    s.update_player(&a).unwrap();
    s.update_player(&b).unwrap();
    s.update_player(&c).unwrap();
    let top = s.get_top_players(3);
    let names: Vec<&str> = top.iter().map(|i| i.name.as_str()).collect();
    assert_eq!(names, vec!["Bob", "Cy", "Alice"]);
    assert_eq!(top[0].level, 3);
    assert_eq!(s.get_top_players(10).len(), 4);
    assert!(s.get_top_players(0).is_empty());
}

#[test]
fn taken_names_are_refused_before_any_hashing() {
    let mut s = PlayerStore::new();
    s.create_player("Alice", "").unwrap();
    assert_eq!(s.create_player(" ALICE", "a password"), Err(StoreError::DuplicateName));
    assert_eq!(s.len(), 1);
}

#[test]
fn living_opponents_are_listed_by_name() {
    let mut s = PlayerStore::new();
    let me = s.create_player("Mia", "").unwrap();
    s.create_player("Zed", "").unwrap();
    s.create_player("Bob", "").unwrap();
    s.create_player("Ann", "").unwrap();
    s.create_player("An", "").unwrap();
    let names: Vec<String> = s.list_alive_players(me.id).into_iter().map(|i| i.name).collect();
    assert_eq!(names, vec!["An", "Ann", "Bob", "Zed"]);
}
