use beetle_hunt::utils::stated_cooldown;
use beetle_hunt::leaderboard::{
    add_own_account, apply_test_limit, batch_delay_ms, batch_ranges, entry_from_profile,
    is_rate_limit_error, parse_leaderboard_args, parse_sort_word, retry_decision, RetryDecision,
};
use beetle_hunt::models::leaderboard::SortBy;
use beetle_hunt::models::profile::{Pfp, ProfileResponse, SocialCredit, UserProfile};
use beetle_hunt::text::trim_str;
use beetle_hunt::utils::{
    extract_cooldown_from_error, extract_cooldown_seconds, format_duration, format_time_ago,
    format_time_ago_at, format_timestamp, generate_socket_timestamp, hours_minutes_seconds,
    signed_seconds,
    socket_stamp_from,
};

fn names(v: &[&str]) -> Vec<String> {
    v.iter().map(|s| s.to_string()).collect()
}

#[test]
fn durations_are_written_from_the_largest_unit() {
    assert_eq!(format_duration(0), "0s");
    assert_eq!(format_duration(59), "59s");
    assert_eq!(format_duration(60), "1m 0s");
    assert_eq!(format_duration(3_661), "1h 1m 1s");
    assert_eq!(format_duration(90_000), "25h 0m 0s");
}

#[test]
fn elapsed_time_in_the_largest_whole_unit() {
    assert_eq!(format_time_ago_at(0, 100), "Never");
    assert_eq!(format_time_ago_at(200, 100), "Never");
    assert_eq!(format_time_ago_at(100, 130), "30s ago");
    assert_eq!(format_time_ago_at(100, 100 + 3_599), "59m ago");
    assert_eq!(format_time_ago_at(100, 100 + 7_200), "2h ago");
    assert_eq!(format_time_ago_at(100, 100 + 3 * 86_400), "3d ago");
    assert_eq!(format_time_ago(0), "Never");
}

#[test]
fn cooldown_from_catch_errors() {
    assert_eq!(extract_cooldown_from_error("Beetle catch on cooldown for 1929s"), Some(1_929));
    assert_eq!(extract_cooldown_from_error("no cooldown"), None);
    assert_eq!(extract_cooldown_from_error("wait for abcs"), None);
    assert_eq!(extract_cooldown_from_error("for 12"), None);
}

#[test]
fn cooldown_seconds_from_detailed_errors() {
    assert_eq!(
        extract_cooldown_seconds("Still on cooldown for 1 hours and 5 minutes (3900 seconds)"),
        Some(3_900)
    );
    assert_eq!(extract_cooldown_seconds("nothing"), None);
}

#[test]
fn socket_stamp_is_eleven_characters() {
    assert_eq!(socket_stamp_from(0x18c2a4f3b21, "abcdefgh"), "18c2a4f3b21");
    assert_eq!(socket_stamp_from(255, "XYZ12345"), "ffXYZ12345");
    let stamp = generate_socket_timestamp();
    assert_eq!(stamp.chars().count(), 11);
    assert!(stamp.chars().all(|c| c.is_ascii_alphanumeric()));
}

#[test]
fn local_time_stamp_has_its_shape() {
    let t = format_timestamp(90).unwrap();
    assert_eq!(t.len(), 11);
    assert!(t.starts_with("at "));
    assert_eq!(&t[5..6], ":");
    assert_eq!(&t[8..9], ":");
}

#[test]
fn trims_unicode_white_space() {
    assert_eq!(trim_str("\t a b \n"), "a b");
    assert_eq!(trim_str("\u{2003}x\u{205f}"), "x");
    assert_eq!(trim_str("   "), "");
}

#[test]
fn own_account_is_added_once() {
    let mut v = names(&["a", "b"]);
    add_own_account(&mut v);
    assert_eq!(v, names(&["a", "b", "mao"]));
    add_own_account(&mut v);
    assert_eq!(v, names(&["a", "b", "mao"]));
}

#[test]
fn test_limit_keeps_the_first_users() {
    let mut v = names(&["a", "b", "c"]);
    apply_test_limit(&mut v, Some(2));
    assert_eq!(v, names(&["a", "b"]));
    apply_test_limit(&mut v, None);
    assert_eq!(v, names(&["a", "b"]));
    apply_test_limit(&mut v, Some(10));
    assert_eq!(v.len(), 2);
}

#[test]
fn users_are_fetched_in_batches_of_a_hundred() {
    assert_eq!(batch_ranges(0), vec![]);
    assert_eq!(batch_ranges(100), vec![(0, 100)]);
    assert_eq!(batch_ranges(250), vec![(0, 100), (100, 200), (200, 250)]);
}

#[test]
fn rate_limited_requests_back_off() {
    assert_eq!(retry_decision(1), RetryDecision::RetryAfter(2_000));
    assert_eq!(retry_decision(2), RetryDecision::RetryAfter(4_000));
    assert_eq!(retry_decision(3), RetryDecision::RetryAfter(8_000));
    assert_eq!(retry_decision(29), RetryDecision::RetryAfter(2_000 * (1u64 << 28)));
    assert_eq!(retry_decision(30), RetryDecision::GiveUp);
}

#[test]
fn batch_pauses_grow_with_refusals() {
    assert_eq!(batch_delay_ms(0), 3_000);
    assert_eq!(batch_delay_ms(6), 4_000);
    assert_eq!(batch_delay_ms(11), 5_000);
    assert!(is_rate_limit_error("HTTP 429 Too Many Requests for bob (max retries exceeded)"));
    assert!(!is_rate_limit_error("HTTP 500 for bob"));
}

#[test]
fn entry_of_a_profile() {
    let profile = ProfileResponse {
        user: UserProfile {
            username: "alice".to_string(),
            display_name: "Alice".to_string(),
            pfp: Pfp { project: "milady".to_string(), id: None },
            pfp_url: "https://img/alice.png".to_string(),
            bio: None,
            friend_count: 3,
            pokes: 12,
            beetles: 40,
            theme: "dark".to_string(),
            cover: "c".to_string(),
            color: Some(1),
            location: None,
            social_credit: SocialCredit { score: -5, last_calculated: None },
        },
        is_authenticated: false,
        is_own_profile: false,
        current_username: None,
        extra_context: None,
    };
    let e = entry_from_profile(&profile);
    assert_eq!(e.username, "alice");
    assert_eq!(e.display_name, "Alice");
    assert_eq!((e.beetles, e.pokes, e.social_credit), (40, 12, -5));
    assert_eq!(e.pfp_url, Some("https://img/alice.png".to_string()));
}

#[test]
fn sort_words() {
    assert!(matches!(parse_sort_word("BEETLES"), Some(SortBy::Beetles)));
    assert!(matches!(parse_sort_word("pokes"), Some(SortBy::Pokes)));
    assert!(matches!(parse_sort_word("Credit"), Some(SortBy::SocialCredit)));
    assert!(matches!(parse_sort_word("socialcredit"), Some(SortBy::SocialCredit)));
    assert!(parse_sort_word("xp").is_none());
}

#[test]
fn leaderboard_command_line() {
    let a = parse_leaderboard_args(&names(&["prog", "--test", "pokes", "out.html"]));
    assert!(a.test_mode);
    assert!(matches!(a.sort_by, SortBy::Pokes));
    assert_eq!(a.output_file, "out.html");
    let b = parse_leaderboard_args(&names(&["prog"]));
    assert!(!b.test_mode);
    assert!(matches!(b.sort_by, SortBy::Beetles));
    assert!(b.sort_word_understood);
    assert_eq!(b.output_file, "leaderboard.html");
    let c = parse_leaderboard_args(&names(&["prog", "nonsense"]));
    assert!(matches!(c.sort_by, SortBy::Beetles));
    assert!(!c.sort_word_understood);
}

#[test]
fn stated_cooldowns_on_result_screens() {
    assert_eq!(stated_cooldown("Beetle catch on cooldown for 1929s"), Some(1_929));
    assert_eq!(stated_cooldown("UBC claim on cooldown for 86400sss"), Some(86_400));
    assert_eq!(stated_cooldown("wait for 5s for real"), None);
    assert_eq!(stated_cooldown("wait for 5sfor real"), Some(5));
    assert_eq!(stated_cooldown("no cooldown"), None);
    assert_eq!(stated_cooldown("for later"), None);
}

#[test]
fn seconds_split_into_hours_minutes_seconds() {
    assert_eq!(hours_minutes_seconds(0), (0, 0, 0));
    assert_eq!(hours_minutes_seconds(59), (0, 0, 59));
    assert_eq!(hours_minutes_seconds(3_661), (1, 1, 1));
    assert_eq!(hours_minutes_seconds(90_061), (25, 1, 1));
}

#[test]
fn timestamps_out_of_range_are_refused() {
    assert!(format_timestamp(9_223_372_036_854_776).is_none());
    assert!(format_timestamp(u64::MAX / 2).is_none());
    assert!(format_timestamp(u64::MAX - 9_223_372_036_854_775).is_none());
    let soon = format_timestamp(60).unwrap();
    assert!(soon.starts_with("at "));
    assert_eq!(soon.len(), 11);
}

#[test]
fn amounts_are_read_as_signed_seconds() {
    assert_eq!(signed_seconds(90), 90);
    assert_eq!(signed_seconds(i64::MAX as u64), i64::MAX);
    assert_eq!(signed_seconds(u64::MAX), -1);
    assert_eq!(signed_seconds(1u64 << 63), i64::MIN);
}
