use beetle_hunt::bot::menu::{count_answer, exclude_list, menu_choice};
use beetle_hunt::bot::session::renewed_session;
use beetle_hunt::bot::engage::{
    extract_cooldown_seconds, friends_without_self, is_own_name, record_friend_outcome_at,
    record_poke_outcome_at, scrape_continues, server_error_message_text, FriendOutcome, PokeOutcome,
    PokeTally, ProfileCheck,
};
use beetle_hunt::bot::feed::{
    contains_name, feed_entries, feed_list, frame_recent_feed, parse_feed_response,
    rank_by_activity, recent_frame_defined, select_targets, smart_poke_targets, socket_json_part,
    unique_feed_users, FeedFrameError, FeedParseError,
};
use beetle_hunt::bot::session::{
    auth_token_text, beetle_sid_from_header, cookie_header, is_sso_redirect, session_ids,
    MissingCookie,
};
use beetle_hunt::models::auth::Cookie;
use beetle_hunt::models::database::FriendsDatabase;
use beetle_hunt::models::feed::{FeedActivity, FeedUser};
use beetle_hunt::models::profile::Friend;

fn fu(name: &str) -> FeedUser {
    FeedUser { username: name.to_string(), avatar: String::new() }
}

fn poke(from: &str, to: &str) -> FeedActivity {
    FeedActivity::Poke { id: "p".to_string(), timestamp: "t".to_string(), from: fu(from), to: fu(to) }
}

fn friends(names: &[&str]) -> FeedActivity {
    FeedActivity::Friendship {
        id: "f".to_string(),
        timestamp: "t".to_string(),
        users: names.iter().map(|n| fu(n)).collect(),
    }
}

fn strings(names: &[&str]) -> Vec<String> {
    names.iter().map(|n| n.to_string()).collect()
}

#[test]
fn feed_users_are_unique_in_order_of_appearance() {
    let acts = vec![poke("a", "b"), friends(&["b", "c", "a"]), poke("d", "c")];
    assert_eq!(unique_feed_users(&acts, 10), strings(&["a", "b", "c", "d"]));
    assert_eq!(unique_feed_users(&acts, 3), strings(&["a", "b", "c"]));
    assert_eq!(unique_feed_users(&acts, 0), Vec::<String>::new());
    assert_eq!(unique_feed_users(&vec![], 5), Vec::<String>::new());
}

#[test]
fn smart_targets_rank_by_activity_and_skip_excluded() {
    let acts = vec![poke("a", "b"), poke("c", "b"), friends(&["c", "b", "d"])];
    // b: 3, c: 2, a: 1, d: 1
    assert_eq!(smart_poke_targets(&acts, 10, &vec![]), strings(&["b", "c", "a", "d"]));
    assert_eq!(smart_poke_targets(&acts, 2, &strings(&["b"])), strings(&["c", "a"]));
}

#[test]
fn ranking_is_stable_for_equal_counts() {
    let mut counts = vec![
        ("x".to_string(), 1u64),
        ("y".to_string(), 5u64),
        ("z".to_string(), 1u64),
        ("w".to_string(), 5u64),
    ];
    rank_by_activity(&mut counts);
    let names: Vec<&str> = counts.iter().map(|p| p.0.as_str()).collect();
    assert_eq!(names, vec!["y", "w", "x", "z"]);
    assert_eq!(select_targets(&counts, &strings(&["w"]), 2), strings(&["y", "x"]));
}

#[test]
fn excluded_user_is_never_picked() {
    let acts = vec![poke("a", "b"), poke("a", "b")];
    let picked = smart_poke_targets(&acts, 5, &strings(&["a"]));
    assert!(!contains_name(&picked, "a"));
    assert_eq!(picked, strings(&["b"]));
}

#[test]
fn frames_the_recent_feed_array() {
    let body = r#"0{"sid":"x"}40/feed,42/feed,["recent",[{"type":"poke"},[1,2]]]trailing"#;
    assert!(recent_frame_defined(body));
    assert_eq!(frame_recent_feed(body).unwrap(), r#"["recent",[{"type":"poke"},[1,2]]]"#);
}

#[test]
fn frame_errors_name_what_is_missing() {
    assert_eq!(frame_recent_feed("42/feed,[\"other\",[]]"), Err(FeedFrameError::NoFeedData));
    assert_eq!(frame_recent_feed("[\"recent\",[1,2]"), Err(FeedFrameError::UnclosedArray));
}

#[test]
fn frame_cut_must_fall_between_characters() {
    // The end is counted in characters but cut in bytes: a two-byte
    // character before it moves the cut into the array.
    let body = "[\"recent\",[\"é\"]]";
    assert!(recent_frame_defined(body));
    assert_eq!(frame_recent_feed(body).unwrap(), "[\"recent\",[\"é\"]");
    let ascii = "[\"recent\",[\"e\"]]";
    assert_eq!(frame_recent_feed(ascii).unwrap(), ascii);
}

#[test]
fn socket_open_packet_loses_its_zeros() {
    assert_eq!(socket_json_part("0{\"sid\":\"abc\"}"), "{\"sid\":\"abc\"}");
    assert_eq!(socket_json_part("000x0"), "x0");
    assert_eq!(socket_json_part(""), "");
}

#[test]
fn cooldown_refusal_round_trips() {
    let msg = server_error_message_text("alice", "boom", &ProfileCheck::CoolingDown(5_430));
    assert_eq!(msg, "❌ Cannot poke alice: Still on cooldown for 1 hours and 30 minutes (5430 seconds)");
    assert_eq!(extract_cooldown_seconds(&msg), Some(5_430));
}

#[test]
fn server_error_messages() {
    assert_eq!(
        server_error_message_text("bob", "oops", &ProfileCheck::CanPoke),
        "❌ Profile says canPoke is true, but request failed with 500: oops"
    );
    assert_eq!(
        server_error_message_text("bob", "oops", &ProfileCheck::NoContext),
        "❌ Request failed with 500 and no extra context in profile: oops"
    );
    assert_eq!(
        server_error_message_text("bob", "oops", &ProfileCheck::Unavailable("timeout".to_string())),
        "❌ Request failed with 500 and couldn't fetch profile: timeout. Original error: oops"
    );
}

#[test]
fn cooldown_seconds_need_both_markers() {
    assert_eq!(extract_cooldown_seconds("no figure here"), None);
    assert_eq!(extract_cooldown_seconds("(12 minutes)"), None);
    assert_eq!(extract_cooldown_seconds("(-7 seconds)"), Some(-7));
    assert_eq!(extract_cooldown_seconds("(x seconds)"), None);
}

fn db_with(names: &[&str]) -> FriendsDatabase {
    let mut db = FriendsDatabase::new("friends_db.json");
    for n in names {
        db.add_username(n);
    }
    db
}

#[test]
fn poke_outcomes_update_the_database() {
    let mut db = db_with(&["a", "b", "c"]);
    let now = 1_700_000_000;
    assert_eq!(record_poke_outcome_at(&mut db, "a", &PokeOutcome::Poked, true, now), PokeTally::Poked);
    assert_eq!(db.get_user("a").unwrap().last_poke, Some(now));
    let refusal = "❌ Cannot poke b: Still on cooldown for 0 hours and 10 minutes (600 seconds)".to_string();
    assert_eq!(
        record_poke_outcome_at(&mut db, "b", &PokeOutcome::Failed(refusal), true, now),
        PokeTally::CoolingDown
    );
    assert_eq!(db.get_user("b").unwrap().last_poke, Some(now + 600 - 86_400));
    assert_eq!(
        record_poke_outcome_at(&mut db, "c", &PokeOutcome::Failed("network down".to_string()), true, now),
        PokeTally::NotPoked
    );
    assert_eq!(db.get_user("c").unwrap().last_poke, None);
    assert_eq!(record_poke_outcome_at(&mut db, "c", &PokeOutcome::Declined, true, now), PokeTally::NotPoked);
    assert_eq!(db.get_user("c").unwrap().last_poke, None);
}

#[test]
fn cooldown_failure_without_figure_counts_as_poked_now() {
    let mut db = db_with(&["a"]);
    let msg = "Still on cooldown, try later".to_string();
    assert_eq!(
        record_poke_outcome_at(&mut db, "a", &PokeOutcome::Failed(msg.clone()), true, 500),
        PokeTally::CoolingDown
    );
    assert_eq!(db.get_user("a").unwrap().last_poke, Some(500));
    let mut db2 = db_with(&["a"]);
    assert_eq!(record_poke_outcome_at(&mut db2, "a", &PokeOutcome::Failed(msg), false, 500), PokeTally::NotPoked);
    assert_eq!(db2.get_user("a").unwrap().last_poke, None);
}

#[test]
fn friend_outcomes_update_the_database() {
    let mut db = db_with(&["a", "b", "c"]);
    assert!(record_friend_outcome_at(&mut db, "a", FriendOutcome::Sent, false, 10));
    assert!(!record_friend_outcome_at(&mut db, "b", FriendOutcome::Declined, true, 11));
    assert!(!record_friend_outcome_at(&mut db, "c", FriendOutcome::Declined, false, 12));
    assert!(db.get_user("a").unwrap().friend_request_sent);
    assert_eq!(db.get_user("b").unwrap().friend_request_date, Some(11));
    assert!(!db.get_user("c").unwrap().friend_request_sent);
    assert_eq!(db.get_users_for_friend_request(), strings(&["c"]));
}

#[test]
fn own_name_is_recognised_in_its_forms() {
    assert!(is_own_name("mao", "mao"));
    assert!(is_own_name("~mao", "mao"));
    assert!(is_own_name("~~mao", "mao"));
    assert!(!is_own_name("maoo", "mao"));
    assert!(!is_own_name("m~ao", "mao"));
}

#[test]
fn scraped_friends_without_self() {
    let fr = |n: &str| Friend { display_username: n.to_string(), display_name: n.to_string(), pfp: None, pfp_url: None };
    let page = vec![fr("a"), fr("~mao"), fr("b"), fr("mao")];
    let (names, dropped) = friends_without_self(&page, "mao");
    assert_eq!(names, strings(&["a", "b"]));
    assert_eq!(dropped, 2);
}

#[test]
fn scrape_tolerates_two_errors() {
    assert!(scrape_continues(1));
    assert!(scrape_continues(2));
    assert!(!scrape_continues(3));
}

fn cookie(name: &str, value: &str) -> Cookie {
    Cookie {
        name: name.to_string(),
        value: value.to_string(),
        domain: ".remilia.com".to_string(),
        path: "/".to_string(),
        secure: true,
        http_only: None,
        same_site: "Lax".to_string(),
        expiry: 0,
    }
}

#[test]
fn session_cookies_last_one_wins() {
    let cookies = vec![
        cookie("profile.sid", "p1"),
        cookie("beetle.sid", "b1"),
        cookie("other", "x"),
        cookie("profile.sid", "p2"),
    ];
    assert_eq!(session_ids(&cookies), Ok(("p2".to_string(), "b1".to_string())));
}

#[test]
fn session_cookies_missing_are_named() {
    assert_eq!(session_ids(&vec![cookie("beetle.sid", "b")]), Err(MissingCookie::ProfileSid));
    assert_eq!(session_ids(&vec![cookie("profile.sid", "p")]), Err(MissingCookie::BeetleSid));
}

#[test]
fn cookie_header_joins_both_sessions() {
    assert_eq!(cookie_header("abc", "def"), "profile.sid=abc; beetle.sid=def");
}

#[test]
fn auth_token_is_trimmed() {
    assert_eq!(auth_token_text("  Bearer xyz\n"), "Bearer xyz");
    assert_eq!(auth_token_text("\u{3000}tok\u{a0}"), "tok");
}

#[test]
fn sign_in_pages_are_recognised() {
    assert!(is_sso_redirect("  \n<!DOCTYPE html><html>"));
    assert!(is_sso_redirect("<html lang=en>"));
    assert!(is_sso_redirect("{\"url\":\"https://sso.remilia.org/x\"}"));
    assert!(is_sso_redirect("var kcContext = {}"));
    assert!(!is_sso_redirect("{\"user\":{}}"));
}

#[test]
fn beetle_session_from_set_cookie() {
    assert_eq!(
        beetle_sid_from_header("beetle.sid=s%3Aabc; Path=/; HttpOnly"),
        Some("s%3Aabc".to_string())
    );
    assert_eq!(beetle_sid_from_header("a=b; beetle.sid=xyz"), Some("xyz".to_string()));
    assert_eq!(beetle_sid_from_header("profile.sid=1"), None);
}

#[test]
fn renewed_session_reads_the_first_segment() {
    assert_eq!(
        renewed_session("profile.sid=abc; Path=/; HttpOnly"),
        (Some("abc".to_string()), None)
    );
    assert_eq!(renewed_session("beetle.sid=xyz; Path=/"), (None, Some("xyz".to_string())));
    // named later in the header, but not in its first segment
    assert_eq!(renewed_session("a=b; beetle.sid=xyz"), (None, None));
}

#[test]
fn menu_answers() {
    assert_eq!(menu_choice(" 12\n"), 12);
    assert_eq!(menu_choice("abc"), 1);
    assert_eq!(count_answer("7\n"), 7);
    assert_eq!(count_answer("500"), 50);
    assert_eq!(count_answer(""), 10);
    assert_eq!(exclude_list(" alice, bob ,, carol \n"), strings(&["alice", "bob", "carol"]));
    assert_eq!(exclude_list("\n"), Vec::<String>::new());
}

#[test]
fn feed_reply_yields_each_activity_as_json() {
    let body = r#"42/feed,["recent",[{"type":"poke","id":"1"},{"bad":1}]]"#;
    let entries = parse_feed_response(body).unwrap();
    assert_eq!(entries.len(), 2);
    assert_eq!(entries[1], r#"{"bad":1}"#);
    let first: serde_json::Value = serde_json::from_str(&entries[0]).unwrap();
    assert_eq!(first["type"], "poke");
    assert_eq!(first["id"], "1");
    assert_eq!(parse_feed_response(r#"42/feed,["recent",[]]"#).unwrap().len(), 0);
}

#[test]
fn feed_reply_errors() {
    assert_eq!(parse_feed_response(r#"42/feed,["other",[]]"#), Err(FeedParseError::NoFeedData));
    assert_eq!(parse_feed_response(r#"42/feed,["recent",[1,2]"#), Err(FeedParseError::UnclosedArray));
    assert_eq!(parse_feed_response(r#"42/feed,["recent",}]"#), Err(FeedParseError::NotJson));
    assert_eq!(parse_feed_response(r#"42/feed,["recent"]"#), Err(FeedParseError::NoFeedData));
    assert_eq!(parse_feed_response(r#"42/feed,["recent",5]"#), Err(FeedParseError::NoFeedData));
}

#[test]
fn feed_list_and_entries_pick_the_activities() {
    assert_eq!(feed_list(None), Err(FeedParseError::NotJson));
    assert_eq!(feed_list(Some(None)), Err(FeedParseError::NoFeedData));
    assert_eq!(feed_list(Some(Some(vec!["\"recent\"".to_string()]))), Err(FeedParseError::NoFeedData));
    assert_eq!(
        feed_list(Some(Some(vec!["\"recent\"".to_string(), "[1]".to_string(), "x".to_string()]))),
        Ok("[1]".to_string())
    );
    assert_eq!(feed_entries(Some(Some(vec!["1".to_string()]))), Ok(vec!["1".to_string()]));
    assert_eq!(feed_entries(Some(None)), Err(FeedParseError::NoFeedData));
    assert_eq!(feed_entries(None), Err(FeedParseError::NoFeedData));
}
