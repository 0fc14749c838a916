use beetle_hunt::html_generator::HtmlGenerator;
use beetle_hunt::models::beetle::{
    level_figure_from_unsigned, BeetleInventory, Cooldowns, SessionBeetleInventory, Streaks, User,
};
use beetle_hunt::models::beetles_categories::{
    unknown_inventory_keys, BeetleCategory, BeetleData, BeetleDatabase, OrganizedInventory,
};
use beetle_hunt::models::database::{FriendsDatabase, UserRecord};
use beetle_hunt::models::leaderboard::{LeaderboardEntry, LeaderboardStats, SortBy};
use beetle_hunt::models::profile::{color_from_raw, RawColor};

fn names(v: &[&str]) -> Vec<String> {
    v.iter().map(|s| s.to_string()).collect()
}

fn record(name: &str, last_poke: Option<i64>, sent: bool) -> UserRecord {
    UserRecord {
        username: name.to_string(),
        last_poke,
        friend_request_sent: sent,
        friend_request_date: None,
        notes: None,
    }
}

#[test]
fn adding_a_known_name_is_refused() {
    let mut db = FriendsDatabase::new("friends_db.json");
    assert!(db.add_username("alice"));
    assert!(!db.add_username("alice"));
    assert_eq!(db.count(), 1);
    assert!(db.get_user("alice").is_some());
    assert_eq!(db.file_path(), "friends_db.json");
}

#[test]
fn adding_many_names_adds_each_new_one_once() {
    let mut db = FriendsDatabase::new("db.json");
    db.add_username("b");
    let added = db.add_usernames(&names(&["a", "b", "c", "a"]));
    assert_eq!(added, 2);
    let order: Vec<&str> = db.records().iter().map(|r| r.username.as_str()).collect();
    assert_eq!(order, vec!["b", "a", "c"]);
}

#[test]
fn sync_keeps_exactly_the_friends() {
    let mut db = FriendsDatabase::from_records(
        "db.json",
        vec![record("a", Some(5), true), record("b", None, false), record("c", None, false)],
    );
    let stats = db.sync_with_friends(&names(&["c", "d", "a"]));
    assert_eq!(stats.initial_count, 3);
    assert_eq!(stats.removed, 1);
    assert_eq!(stats.added, 1);
    assert_eq!(stats.final_count, 3);
    let order: Vec<&str> = db.records().iter().map(|r| r.username.as_str()).collect();
    assert_eq!(order, vec!["a", "c", "d"]);
    assert_eq!(db.get_user("a").unwrap().last_poke, Some(5));
}

#[test]
fn sync_twice_changes_nothing_more() {
    let mut db = FriendsDatabase::new("db.json");
    db.add_usernames(&names(&["x", "y"]));
    let first = db.sync_with_friends(&names(&["y", "z"]));
    let second = db.sync_with_friends(&names(&["y", "z"]));
    assert_eq!((first.added, first.removed), (1, 1));
    assert_eq!((second.added, second.removed), (0, 0));
    assert_eq!(db.count(), 2);
}

#[test]
fn remove_users_not_in_list_counts_the_removed() {
    let mut db = FriendsDatabase::new("db.json");
    db.add_usernames(&names(&["a", "b", "c"]));
    assert_eq!(db.remove_users_not_in_list(&names(&["b"])), 2);
    assert_eq!(db.count(), 1);
}

#[test]
fn poked_user_rests_a_day() {
    let now = 1_000_000;
    let mut db = FriendsDatabase::new("db.json");
    db.add_usernames(&names(&["a", "b"]));
    db.update_poke_at("a", now);
    assert_eq!(db.get_pokeable_users_at(now), names(&["b"]));
    assert_eq!(db.get_pokeable_users_at(now + 86_399), names(&["b"]));
    assert_eq!(db.get_pokeable_users_at(now + 86_400), names(&["a", "b"]));
}

#[test]
fn cooldown_ends_on_time() {
    let now = 1_000_000;
    let mut db = FriendsDatabase::new("db.json");
    db.add_username("a");
    db.update_poke_with_cooldown_at("a", 600, now);
    assert_eq!(db.get_user("a").unwrap().last_poke, Some(now + 600 - 86_400));
    assert!(db.get_pokeable_users_at(now + 599).is_empty());
    assert_eq!(db.get_pokeable_users_at(now + 600), names(&["a"]));
}

#[test]
fn marked_user_is_not_asked_again() {
    let mut db = FriendsDatabase::new("db.json");
    db.add_usernames(&names(&["a", "b"]));
    db.mark_friend_request_sent_at("a", 77);
    assert_eq!(db.get_users_for_friend_request(), names(&["b"]));
    assert_eq!(db.get_user("a").unwrap().friend_request_date, Some(77));
}

#[test]
fn database_stats_add_up() {
    let db = FriendsDatabase::from_records(
        "db.json",
        vec![record("a", Some(0), true), record("b", Some(90_000), false), record("c", None, false)],
    );
    let stats = db.get_stats_at(100_000);
    assert_eq!(stats.total_users, 3);
    assert_eq!(stats.poked_at_least_once, 2);
    assert_eq!(stats.pokeable_now, 2);
    assert_eq!(stats.friend_requests_sent, 1);
    assert_eq!(stats.need_friend_request, 2);
    assert_eq!(stats.friend_requests_sent + stats.need_friend_request, stats.total_users);
}

#[test]
fn from_records_keeps_the_last_record_of_a_name() {
    let db = FriendsDatabase::from_records(
        "db.json",
        vec![record("a", Some(1), false), record("b", None, false), record("a", Some(2), true)],
    );
    assert_eq!(db.count(), 2);
    let a = db.get_user("a").unwrap();
    assert_eq!(a.last_poke, Some(2));
    assert!(a.friend_request_sent);
}

#[test]
fn next_pokeable_user_is_the_soonest() {
    let db = FriendsDatabase::from_records(
        "db.json",
        vec![record("a", Some(1_000), false), record("b", Some(500), false), record("c", None, false)],
    );
    let next = db.get_next_pokeable_user_at(2_000).unwrap();
    assert_eq!(next.username, "b");
    assert_eq!(next.time_until_pokeable, 84_900);
    let ready = db.get_next_pokeable_or_ready_user_at(87_000).unwrap();
    assert_eq!(ready.time_until_pokeable, 0);
}

fn inv_with(green: i64, hammer_t1: i64, daisy: i64) -> BeetleInventory {
    let mut inv = BeetleInventory::default();
    inv.green = green;
    inv.hammer_t1 = hammer_t1;
    inv.daisy = daisy;
    inv
}

fn data(name: &str, category: u8, rarity: u8) -> BeetleData {
    BeetleData { beetle: name.to_string(), category, rarity }
}

#[test]
fn categories_by_number() {
    assert_eq!(BeetleCategory::from_u8(2), Some(BeetleCategory::Beetles));
    assert_eq!(BeetleCategory::from_u8(6), None);
    assert_eq!(BeetleCategory::Unique.as_str(), "Unique");
    assert_eq!(data("x", 4, 1).get_category(), Some(BeetleCategory::Hammers));
}

#[test]
fn organizes_the_inventory_by_category() {
    let db = BeetleDatabase {
        entries: vec![
            ("green".to_string(), data("Green Beetle", 2, 1)),
            ("hammer_t1".to_string(), data("Hammer", 4, 3)),
            ("daisy".to_string(), data("Daisy", 5, 2)),
        ],
    };
    let org = OrganizedInventory::from_inventory(&inv_with(3, 2, 0), &db);
    assert_eq!(org.total_items, 5);
    assert_eq!(org.items.len(), 2);
    assert_eq!(org.get_category_total(BeetleCategory::Beetles), 3);
    assert_eq!(org.get_category_total(BeetleCategory::Flowers), 0);
    assert!(org.get_flowers().is_none());
    assert_eq!(org.get_hammers().unwrap()[0].key, "hammer_t1");
    assert_eq!(org.find_item("green").unwrap().quantity, 3);
    assert!(org.find_item("daisy").is_none());
    let all = org.get_all_sorted_by_rarity();
    assert_eq!(all[0].key, "hammer_t1");
}

#[test]
fn sorted_category_views() {
    let db = BeetleDatabase {
        entries: vec![
            ("green".to_string(), data("Green", 2, 1)),
            ("pond".to_string(), data("Pond", 2, 3)),
            ("skull".to_string(), data("Skull", 2, 3)),
        ],
    };
    let mut inv = BeetleInventory::default();
    inv.green = 9;
    inv.pond = 1;
    inv.skull = 4;
    let org = OrganizedInventory::from_inventory(&inv, &db);
    let by_rarity: Vec<String> = org
        .get_category_sorted_by_rarity(BeetleCategory::Beetles)
        .unwrap()
        .iter()
        .map(|i| i.key.clone())
        .collect();
    assert_eq!(by_rarity, names(&["pond", "skull", "green"]));
    let by_quantity: Vec<String> = org
        .get_category_sorted_by_quantity(BeetleCategory::Beetles)
        .unwrap()
        .iter()
        .map(|i| i.key.clone())
        .collect();
    assert_eq!(by_quantity, names(&["green", "skull", "pond"]));
}

#[test]
fn model_session_delta() {
    let mut start = BeetleInventory::default();
    start.green = 2;
    let mut now = BeetleInventory::default();
    now.green = 5;
    now.skull = 1;
    let mut s = SessionBeetleInventory::new(start);
    assert_eq!(s.total_session_gain(), 0);
    s.update(now);
    assert_eq!(s.get_session_delta("green"), 3);
    assert_eq!(s.get_session_delta("skull"), 1);
    assert_eq!(s.total_session_gain(), 4);
}

fn model_user(hunts_used: i64, last_hunt: i64, catch_ms: i64) -> User {
    User {
        id: 1,
        keycloak_id: "k".to_string(),
        xp: 0,
        level: 1,
        cheese: 20,
        beetle_green: 0,
        beetle_ladybug: 0,
        beetle_pond: 0,
        beetle_stag: 0,
        beetle_golden: 0,
        beetle_purple: 0,
        beetle_bombardier: 0,
        beetle_monarch: 0,
        beetle_goliath: 0,
        beetle_skull: 0,
        beetle_black_widow: 0,
        ubc_streak: 0,
        last_cheese_claim_at: 0,
        last_beetle_claim_at: 0,
        last_beetle_hunt_date: last_hunt,
        beetle_hunts_used: hunts_used,
        lousy_beetle_count: 0,
        created_at: 0,
        updated_at: 0,
        inventory: BeetleInventory::default(),
        cooldowns: Cooldowns { catch_beetle: catch_ms, claim_ubc: 0 },
        streaks: Streaks { ubc: 0, last_claim: 0 },
    }
}

#[test]
fn model_user_hunts() {
    let u = model_user(3, 1_000_000, 2_500);
    assert!(!u.has_hunts_remaining_at(6_399_999));
    assert!(u.has_hunts_remaining_at(6_400_000));
    assert_eq!(u.hunts_remaining_at(6_400_000), 3);
    assert_eq!(u.hunts_remaining_at(0), 0);
    assert_eq!(model_user(1, 0, 0).hunts_remaining_at(0), 2);
    assert_eq!(u.time_until_catch_ready(), 2);
}

fn entry(name: &str, beetles: u32, pokes: u32, social: i64) -> LeaderboardEntry {
    LeaderboardEntry {
        username: name.to_string(),
        display_name: name.to_uppercase(),
        beetles,
        pokes,
        social_credit: social,
        pfp_url: None,
    }
}

#[test]
fn leaderboard_counts_and_orders() {
    let mut stats = LeaderboardStats::new();
    stats.add_entry(entry("a", 1, 9, -3));
    stats.add_entry(entry("b", 7, 2, 10));
    stats.add_entry(entry("c", 7, 5, 0));
    assert_eq!(stats.total_users, 3);
    stats.sort_by(SortBy::Beetles);
    let order: Vec<&str> = stats.entries.iter().map(|e| e.username.as_str()).collect();
    assert_eq!(order, vec!["b", "c", "a"]);
    stats.sort_by(SortBy::SocialCredit);
    let order: Vec<&str> = stats.entries.iter().map(|e| e.username.as_str()).collect();
    assert_eq!(order, vec!["b", "c", "a"]);
    stats.sort_by(SortBy::Pokes);
    let order: Vec<&str> = stats.entries.iter().map(|e| e.username.as_str()).collect();
    assert_eq!(order, vec!["a", "c", "b"]);
}

#[test]
fn leaderboard_page() {
    let mut stats = LeaderboardStats::default();
    stats.add_entry(entry("alice", 5, 9, -3));
    let html = HtmlGenerator::generate_html(&stats, SortBy::Pokes);
    assert!(html.starts_with("<!DOCTYPE html>"));
    assert!(html.contains("Total Users: 1 | Sorted by: Pokes"));
    assert!(html.contains(r#"id="pokes-icon" class="fa-regular fa-angle-down active""#));
    assert!(html.contains(r#"id="beetles-icon" class="fa-regular fa-angle-down""#));
    assert!(html.contains(r#"<tr data-beetles="5" data-pokes="9" data-social="-3">"#));
    assert!(html.contains(r#"<td class="rank top-1">1</td>"#));
    assert!(html.contains(r#"<img src="https://via.placeholder.com/40" alt="alice" class="user-avatar">"#));
    assert!(html.contains("@alice"));
    assert!(!html.contains("No users found"));
    let empty = HtmlGenerator::generate_html(&LeaderboardStats::new(), SortBy::Beetles);
    assert!(empty.contains("No users found"));
    assert!(empty.contains("Total Users: 0 | Sorted by: Beetles"));
}

#[test]
fn profile_colours() {
    assert_eq!(color_from_raw(RawColor::Text("255".to_string())), Ok(Some(255)));
    assert_eq!(color_from_raw(RawColor::Text("red".to_string())), Err(()));
    assert_eq!(color_from_raw(RawColor::Text("4294967296".to_string())), Err(()));
    assert_eq!(color_from_raw(RawColor::Number(-4)), Ok(Some(0)));
    assert_eq!(color_from_raw(RawColor::Number(16)), Ok(Some(16)));
    assert_eq!(color_from_raw(RawColor::List), Ok(Some(0)));
    assert_eq!(color_from_raw(RawColor::Unreadable), Ok(None));
}

#[test]
fn level_figures_sent_unsigned_are_read_back() {
    assert_eq!(level_figure_from_unsigned(0), 0);
    assert_eq!(level_figure_from_unsigned(1_250), 1_250);
    assert_eq!(level_figure_from_unsigned(1_000_000_000_000), 1_000_000_000_000);
    assert_eq!(level_figure_from_unsigned(1_000_000_000_001), 0);
    assert_eq!(level_figure_from_unsigned(i64::MAX as u64), 0);
    assert_eq!(level_figure_from_unsigned(u64::MAX), -1);
    assert_eq!(level_figure_from_unsigned(u64::MAX - 41), -42);
    assert_eq!(level_figure_from_unsigned(1u64 << 63), i64::MIN);
}

#[test]
fn unknown_inventory_keys_are_reported_in_order() {
    let db = BeetleDatabase {
        entries: vec![
            ("green".to_string(), data("Green", 2, 1)),
            ("daisy".to_string(), data("Daisy", 5, 2)),
            ("pond".to_string(), data("Pond", 2, 3)),
        ],
    };
    let mut inv = inv_with(3, 1, 2);
    inv.skull = 4;
    inv.stag = 0;
    assert_eq!(unknown_inventory_keys(&inv, &db), names(&["hammer_t1", "skull"]));
    let org = OrganizedInventory::from_inventory(&inv, &db);
    assert_eq!(org.total_items, 5);
    assert!(unknown_inventory_keys(&inv_with(3, 0, 2), &db).is_empty());
}

#[test]
fn pokeable_users_at_any_recorded_time() {
    let db = FriendsDatabase::from_records(
        "db.json",
        vec![
            record("old", Some(i64::MIN), false),
            record("future", Some(i64::MAX), false),
            record("never", None, false),
        ],
    );
    let now = 1_700_000_000;
    assert_eq!(db.get_pokeable_users_at(now), names(&["old", "never"]));
    let stats = db.get_stats_at(now);
    assert_eq!(stats.pokeable_now, 2);
    assert_eq!(stats.poked_at_least_once, 2);
}

#[test]
fn sync_counts_distinct_friends() {
    let mut db = FriendsDatabase::from_records(
        "db.json",
        vec![record("a", None, false), record("b", Some(5), true), record("c", None, false)],
    );
    let stats = db.sync_with_friends(&names(&["b", "d", "d", "e"]));
    assert_eq!(stats.initial_count, 3);
    assert_eq!(stats.removed, 2);
    assert_eq!(stats.added, 2);
    assert_eq!(stats.final_count, 3);
    let again = db.sync_with_friends(&names(&["b", "d", "d", "e"]));
    assert_eq!(again.added, 0);
    assert_eq!(again.removed, 0);
    assert_eq!(again.initial_count, again.final_count);
    assert_eq!(db.get_user("b").unwrap().last_poke, Some(5));
}

#[test]
fn category_codes_read_back() {
    for c in [
        BeetleCategory::Cheese,
        BeetleCategory::Beetles,
        BeetleCategory::Trash,
        BeetleCategory::Hammers,
        BeetleCategory::Flowers,
        BeetleCategory::Unique,
    ] {
        assert_eq!(BeetleCategory::from_u8(c.code()), Some(c));
    }
    assert_eq!(BeetleCategory::Unique.code(), 7);
    assert_eq!(BeetleCategory::Cheese.code(), 1);
}
